use vstd::prelude::*;

use crate::window::OrderingDirection;

verus! {

/// What a registered hotkey is for.
#[derive(Debug, Clone, Copy, PartialEq, Eq, Structural)]
pub enum HotkeyType {
    Main,
    QuickResize,
    Maximize,
    NavigateRight,
    NavigateLeft,
    NavigateDown,
    NavigateUp,
    Exit,
}

/// What the coordinating loop does when a hotkey is pressed.
#[derive(Debug, Clone, Copy, PartialEq, Eq, Structural)]
pub enum HotkeyAction {
    /// Toggle the active window between the maximize area and its last size.
    Maximize,
    /// Close the overlay that is open.
    CloseOverlay,
    /// Focus the window before the foreground one along the axis.
    FocusPrevious(OrderingDirection),
    /// Focus the window after the foreground one along the axis.
    FocusNext(OrderingDirection),
    /// Leave the program.
    Exit,
    /// Open the overlay; in a quick resize it closes after one commit.
    OpenOverlay { quick_resize: bool },
}

/// The response to a hotkey: the maximize toggle always acts; any other
/// hotkey closes an open overlay; otherwise navigation moves the focus left
/// or up to the previous window and right or down to the next one, the exit
/// hotkey exits, and the grid hotkeys open the overlay.
pub fn hotkey_action(hotkey: HotkeyType, overlay_open: bool) -> (r: HotkeyAction)
    ensures
        r == (if hotkey == HotkeyType::Maximize {
            HotkeyAction::Maximize
        } else if overlay_open {
            HotkeyAction::CloseOverlay
        } else {
            match hotkey {
                HotkeyType::NavigateLeft => HotkeyAction::FocusPrevious(
                    OrderingDirection::Horizontal,
                ),
                HotkeyType::NavigateDown => HotkeyAction::FocusNext(OrderingDirection::Vertical),
                HotkeyType::NavigateUp => HotkeyAction::FocusPrevious(OrderingDirection::Vertical),
                HotkeyType::NavigateRight => HotkeyAction::FocusNext(
                    OrderingDirection::Horizontal,
                ),
                HotkeyType::Exit => HotkeyAction::Exit,
                _ => HotkeyAction::OpenOverlay { quick_resize: hotkey == HotkeyType::QuickResize },
            }
        }),
{
    match hotkey {
        HotkeyType::Maximize => HotkeyAction::Maximize,
        _ => if overlay_open {
            HotkeyAction::CloseOverlay
        } else {
            match hotkey {
                HotkeyType::NavigateLeft => HotkeyAction::FocusPrevious(
                    OrderingDirection::Horizontal,
                ),
                HotkeyType::NavigateDown => HotkeyAction::FocusNext(OrderingDirection::Vertical),
                HotkeyType::NavigateUp => HotkeyAction::FocusPrevious(OrderingDirection::Vertical),
                HotkeyType::NavigateRight => HotkeyAction::FocusNext(
                    OrderingDirection::Horizontal,
                ),
                HotkeyType::Exit => HotkeyAction::Exit,
                HotkeyType::QuickResize => HotkeyAction::OpenOverlay { quick_resize: true },
                _ => HotkeyAction::OpenOverlay { quick_resize: false },
            }
        },
    }
}

/// Modifier bit of the Alt key.
pub const MOD_ALT: u32 = 0x1;

/// Modifier bit of the Control key.
pub const MOD_CONTROL: u32 = 0x2;

/// Modifier bit of the Shift key.
pub const MOD_SHIFT: u32 = 0x4;

/// Modifier bit of the Windows key.
pub const MOD_WIN: u32 = 0x8;

/// Flag that keeps a held hotkey from repeating.
pub const MOD_NOREPEAT: u32 = 0x4000;

/// A hotkey combination: its modifier bits and the key itself.
#[derive(Debug, Clone, Copy, PartialEq, Eq, Structural)]
pub struct Hotkey {
    pub modifiers: u32,
    pub key: char,
}

/// Why a hotkey text was refused.
#[derive(Debug, Clone, Copy, PartialEq, Eq, Structural)]
pub enum HotkeyError {
    /// The combination is not between 2 and 5 keys long.
    Length,
    /// The last key is empty.
    EmptyKey,
    /// A key before the last is not CTRL, ALT, SHIFT or WIN.
    Modifier,
}

/// Whether a character is white space in the sense of the Unicode
/// White_Space property.
pub uninterp spec fn white_space(c: char) -> bool;

/// Relies on `char::is_whitespace`, whose result depends on the character
/// alone.
#[verifier::external_body]
fn is_white(c: char) -> (r: bool)
    ensures
        r == white_space(c),
{
    c.is_whitespace()
}

/// The pieces of a text between `+` signs.
pub open spec fn split_plus(s: Seq<char>) -> Seq<Seq<char>>
    decreases s.len(),
{
    if s.len() == 0 {
        seq![Seq::<char>::empty()]
    } else {
        let p = split_plus(s.drop_last());
        if s.last() == '+' {
            p.push(Seq::<char>::empty())
        } else {
            p.update(p.len() - 1, p.last().push(s.last()))
        }
    }
}

/// The text without its leading white space.
pub open spec fn trim_start(s: Seq<char>) -> Seq<char>
    decreases s.len(),
{
    if s.len() > 0 && white_space(s[0]) {
        trim_start(s.drop_first())
    } else {
        s
    }
}

/// The text without its trailing white space.
pub open spec fn trim_end(s: Seq<char>) -> Seq<char>
    decreases s.len(),
{
    if s.len() > 0 && white_space(s.last()) {
        trim_end(s.drop_last())
    } else {
        s
    }
}

/// The text without white space at either end.
pub open spec fn trim(s: Seq<char>) -> Seq<char> {
    trim_end(trim_start(s))
}

/// The keys of a hotkey text: its pieces between `+` signs, trimmed.
pub open spec fn hotkey_parts(s: Seq<char>) -> Seq<Seq<char>> {
    split_plus(s).map_values(|p: Seq<char>| trim(p))
}

/// The bit of a modifier name.
pub open spec fn modifier_bit(p: Seq<char>) -> Option<u32> {
    if p == seq!['A', 'L', 'T'] {
        Some(MOD_ALT)
    } else if p == seq!['C', 'T', 'R', 'L'] {
        Some(MOD_CONTROL)
    } else if p == seq!['S', 'H', 'I', 'F', 'T'] {
        Some(MOD_SHIFT)
    } else if p == seq!['W', 'I', 'N'] {
        Some(MOD_WIN)
    } else {
        None
    }
}

/// The union of the bits of modifier names, or `None` where one is not a
/// modifier.
pub open spec fn modifiers_of(parts: Seq<Seq<char>>) -> Option<u32>
    decreases parts.len(),
{
    if parts.len() == 0 {
        Some(0u32)
    } else {
        match (modifiers_of(parts.drop_last()), modifier_bit(parts.last())) {
            (Some(m), Some(b)) => Some(m | b),
            _ => None,
        }
    }
}

/// The hotkey a text describes: two to five keys joined by `+`, white space
/// around each ignored, all but the last a modifier, and the first character
/// of the last one the key. The modifiers get the no-repeat flag.
pub open spec fn hotkey_of(s: Seq<char>) -> Result<Hotkey, HotkeyError> {
    let parts = hotkey_parts(s);
    if parts.len() < 2 || parts.len() > 5 {
        Err(HotkeyError::Length)
    } else if parts.last().len() == 0 {
        Err(HotkeyError::EmptyKey)
    } else {
        match modifiers_of(parts.drop_last()) {
            Some(m) => Ok(Hotkey { modifiers: m | MOD_NOREPEAT, key: parts.last()[0] }),
            None => Err(HotkeyError::Modifier),
        }
    }
}

/// The text without white space at either end.
fn trim_chars(s: &Vec<char>) -> (r: Vec<char>)
    ensures
        r@ == trim(s@),
{
    let n = s.len();
    let mut a: usize = 0;
    assert(s@.subrange(0, n as int) == s@);
    while a < n && is_white(s[a])
        invariant
            n == s@.len(),
            a <= n,
            trim_start(s@) == trim_start(s@.subrange(a as int, n as int)),
        decreases n - a,
    {
        proof {
            let t = s@.subrange(a as int, n as int);
            assert(t.drop_first() == s@.subrange(a + 1, n as int));
        }
        a = a + 1;
    }
    let ghost front = s@.subrange(a as int, n as int);
    assert(trim_start(front) == front);
    let mut b: usize = n;
    while b > a && is_white(s[b - 1])
        invariant
            n == s@.len(),
            a <= b <= n,
            front == s@.subrange(a as int, n as int),
            trim_end(front) == trim_end(s@.subrange(a as int, b as int)),
        decreases b - a,
    {
        proof {
            let t = s@.subrange(a as int, b as int);
            assert(t.drop_last() == s@.subrange(a as int, b - 1));
        }
        b = b - 1;
    }
    let mut r: Vec<char> = Vec::new();
    let mut k: usize = a;
    while k < b
        invariant
            n == s@.len(),
            a <= k <= b <= n,
            r@ == s@.subrange(a as int, k as int),
        decreases b - k,
    {
        r.push(s[k]);
        proof {
            assert(s@.subrange(a as int, k + 1)
                == s@.subrange(a as int, k as int).push(s@[k as int]));
        }
        k = k + 1;
    }
    proof {
        let t = s@.subrange(a as int, b as int);
        assert(trim_end(t) == t);
    }
    r
}

/// The pieces of a text between `+` signs.
fn split_chars(s: &Vec<char>) -> (r: Vec<Vec<char>>)
    ensures
        r@.len() == split_plus(s@).len(),
        forall|k: int| 0 <= k < r@.len() ==> (#[trigger] r@[k])@ == split_plus(s@)[k],
{
    let n = s.len();
    let mut parts: Vec<Vec<char>> = Vec::new();
    let mut cur: Vec<char> = Vec::new();
    let mut i: usize = 0;
    proof {
        assert(s@.subrange(0, 0).len() == 0);
    }
    while i < n
        invariant
            n == s@.len(),
            i <= n,
            parts@.len() + 1 == split_plus(s@.subrange(0, i as int)).len(),
            forall|k: int|
                0 <= k < parts@.len() ==> (#[trigger] parts@[k])@ == split_plus(
                    s@.subrange(0, i as int),
                )[k],
            cur@ == split_plus(s@.subrange(0, i as int)).last(),
        decreases n - i,
    {
        let c = s[i];
        proof {
            let pre = s@.subrange(0, i as int);
            let next = s@.subrange(0, i + 1);
            assert(next.drop_last() == pre);
            assert(next.last() == c);
        }
        if c == '+' {
            parts.push(cur);
            cur = Vec::new();
        } else {
            cur.push(c);
        }
        i = i + 1;
    }
    proof {
        assert(s@.subrange(0, n as int) == s@);
    }
    parts.push(cur);
    parts
}

proof fn lemma_split_nonempty(s: Seq<char>)
    ensures
        split_plus(s).len() >= 1,
    decreases s.len(),
{
    if s.len() > 0 {
        lemma_split_nonempty(s.drop_last());
    }
}

/// The modifier bit of a key name.
fn modifier_bit_of(p: &Vec<char>) -> (r: Option<u32>)
    ensures
        r == modifier_bit(p@),
{
    let n = p.len();
    if n == 3 && p[0] == 'A' && p[1] == 'L' && p[2] == 'T' {
        assert(p@ == seq!['A', 'L', 'T']);
        Some(MOD_ALT)
    } else if n == 4 && p[0] == 'C' && p[1] == 'T' && p[2] == 'R' && p[3] == 'L' {
        assert(p@ == seq!['C', 'T', 'R', 'L']);
        Some(MOD_CONTROL)
    } else if n == 5 && p[0] == 'S' && p[1] == 'H' && p[2] == 'I' && p[3] == 'F' && p[4] == 'T' {
        assert(p@ == seq!['S', 'H', 'I', 'F', 'T']);
        Some(MOD_SHIFT)
    } else if n == 3 && p[0] == 'W' && p[1] == 'I' && p[2] == 'N' {
        assert(p@ == seq!['W', 'I', 'N']);
        Some(MOD_WIN)
    } else {
        proof {
            if p@ == seq!['A', 'L', 'T'] || p@ == seq!['C', 'T', 'R', 'L'] || p@ == seq![
                'S',
                'H',
                'I',
                'F',
                'T',
            ] || p@ == seq!['W', 'I', 'N'] {
                assert(p@[0] == p[0]);
            }
        }
        None
    }
}

/// Parses a hotkey text such as `CTRL+ALT+S`.
pub fn parse_hotkey(text: &Vec<char>) -> (r: Result<Hotkey, HotkeyError>)
    ensures
        r == hotkey_of(text@),
{
    let pieces = split_chars(text);
    proof {
        lemma_split_nonempty(text@);
    }
    let mut parts: Vec<Vec<char>> = Vec::new();
    let mut i: usize = 0;
    while i < pieces.len()
        invariant
            i <= pieces@.len(),
            pieces@.len() == split_plus(text@).len(),
            forall|k: int| 0 <= k < pieces@.len() ==> (#[trigger] pieces@[k])@
                == split_plus(text@)[k],
            parts@.len() == i,
            forall|k: int| 0 <= k < i ==> (#[trigger] parts@[k])@ == hotkey_parts(text@)[k],
        decreases pieces@.len() - i,
    {
        let t = trim_chars(&pieces[i]);
        parts.push(t);
        i = i + 1;
    }
    let ghost spec_parts = hotkey_parts(text@);
    let count = parts.len();
    if count < 2 || count > 5 {
        return Err(HotkeyError::Length);
    }
    let last = &parts[count - 1];
    if last.len() == 0 {
        return Err(HotkeyError::EmptyKey);
    }
    let key = last[0];
    let mut modifiers: u32 = 0;
    let mut k: usize = 0;
    while k < count - 1
        invariant
            count == parts@.len(),
            2 <= count <= 5,
            k <= count - 1,
            spec_parts == hotkey_parts(text@),
            spec_parts.len() == count,
            forall|j: int| 0 <= j < count ==> (#[trigger] parts@[j])@ == spec_parts[j],
            modifiers_of(spec_parts.subrange(0, k as int)) == Some(modifiers),
            parts@[count - 1]@.len() > 0,
            key == parts@[count - 1]@[0],
        decreases count - 1 - k,
    {
        proof {
            let next = spec_parts.subrange(0, k + 1);
            assert(next.drop_last() == spec_parts.subrange(0, k as int));
            assert(next.last() == parts@[k as int]@);
        }
        match modifier_bit_of(&parts[k]) {
            Some(b) => {
                modifiers = modifiers | b;
            },
            None => {
                proof {
                    assert(spec_parts.drop_last().subrange(0, k + 1) == spec_parts.subrange(
                        0,
                        k + 1,
                    ));
                    let next = spec_parts.subrange(0, k + 1);
                    assert(modifiers_of(next) is None);
                    lemma_modifiers_none_extends(spec_parts.drop_last(), k as int + 1);
                    assert(parts@[count - 1]@ == spec_parts.last());
                }
                return Err(HotkeyError::Modifier);
            },
        }
        k = k + 1;
    }
    proof {
        assert(spec_parts.subrange(0, count - 1) == spec_parts.drop_last());
        assert(parts@[count - 1]@ == spec_parts.last());
    }
    Ok(Hotkey { modifiers: modifiers | MOD_NOREPEAT, key })
}

/// A prefix without a modifier bit leaves the whole without one.
proof fn lemma_modifiers_none_extends(parts: Seq<Seq<char>>, k: int)
    requires
        0 <= k <= parts.len(),
        modifiers_of(parts.subrange(0, k)) is None,
    ensures
        modifiers_of(parts) is None,
    decreases parts.len() - k,
{
    if k < parts.len() {
        let next = parts.subrange(0, k + 1);
        assert(next.drop_last() == parts.subrange(0, k));
        lemma_modifiers_none_extends(parts, k + 1);
    } else {
        assert(parts.subrange(0, k) == parts);
    }
}

/// The virtual-key code in the low byte of a keyboard-layout scan result, or
/// `None` where the character has no key (the result is -1).
pub fn virtual_key(scan: i16) -> (r: Option<u32>)
    ensures
        r == (if scan == -1 {
            None
        } else {
            Some(((scan as u16) as u32) % 0x100)
        }),
{
    if scan == -1 {
        None
    } else {
        Some((scan as u16) as u32 % 0x100)
    }
}

} // verus!
