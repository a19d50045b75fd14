use vstd::prelude::*;

use crate::window::{OrderingDirection, Window};

verus! {

broadcast use vstd::seq_lib::to_multiset_build, vstd::seq_lib::to_multiset_insert;

/// A window with its outer rectangle's edges and the id of its process: what
/// keyboard navigation orders windows by.
#[derive(Debug, Clone, Copy, PartialEq, Eq, Structural)]
pub struct WindowPlace {
    pub window: Window,
    pub left: i32,
    pub top: i32,
    pub right: i32,
    pub bottom: i32,
    pub process_id: u32,
}

/// The sort key of a window along an axis: left, top, right, bottom across;
/// top, left, bottom, right down; the process id last.
pub open spec fn place_key(p: WindowPlace, direction: OrderingDirection) -> (
    int,
    int,
    int,
    int,
    int,
) {
    match direction {
        OrderingDirection::Horizontal => (
            p.left as int,
            p.top as int,
            p.right as int,
            p.bottom as int,
            p.process_id as int,
        ),
        OrderingDirection::Vertical => (
            p.top as int,
            p.left as int,
            p.bottom as int,
            p.right as int,
            p.process_id as int,
        ),
    }
}

/// Lexicographic order on keys.
pub open spec fn key_le(a: (int, int, int, int, int), b: (int, int, int, int, int)) -> bool {
    a.0 < b.0 || (a.0 == b.0 && (a.1 < b.1 || (a.1 == b.1 && (a.2 < b.2 || (a.2 == b.2 && (a.3
        < b.3 || (a.3 == b.3 && a.4 <= b.4)))))))
}

/// `a` may come before `b` along the axis.
pub open spec fn place_le(a: WindowPlace, b: WindowPlace, direction: OrderingDirection) -> bool {
    key_le(place_key(a, direction), place_key(b, direction))
}

/// Every window comes no later along the axis than those after it.
pub open spec fn ordered(s: Seq<WindowPlace>, direction: OrderingDirection) -> bool {
    forall|i: int, j: int| 0 <= i < j < s.len() ==> place_le(s[i], s[j], direction)
}

fn place_le_exec(a: &WindowPlace, b: &WindowPlace, direction: OrderingDirection) -> (r: bool)
    ensures
        r == place_le(*a, *b, direction),
{
    let (a0, a1, a2, a3) = match direction {
        OrderingDirection::Horizontal => (a.left, a.top, a.right, a.bottom),
        OrderingDirection::Vertical => (a.top, a.left, a.bottom, a.right),
    };
    let (b0, b1, b2, b3) = match direction {
        OrderingDirection::Horizontal => (b.left, b.top, b.right, b.bottom),
        OrderingDirection::Vertical => (b.top, b.left, b.bottom, b.right),
    };
    if a0 != b0 {
        a0 < b0
    } else if a1 != b1 {
        a1 < b1
    } else if a2 != b2 {
        a2 < b2
    } else if a3 != b3 {
        a3 < b3
    } else {
        a.process_id <= b.process_id
    }
}

/// Orders windows along an axis by their edges, then by process id; windows
/// with equal keys keep their order.
pub fn order_window_list(window_list: &mut Vec<WindowPlace>, direction: OrderingDirection)
    ensures
        ordered(final(window_list)@, direction),
        final(window_list)@.to_multiset() == old(window_list)@.to_multiset(),
{
    let n = window_list.len();
    let mut out: Vec<WindowPlace> = Vec::new();
    let mut i: usize = 0;
    assert(out@ =~= window_list@.subrange(0, 0));
    while i < n
        invariant
            n == window_list@.len(),
            window_list@ == old(window_list)@,
            i <= n,
            ordered(out@, direction),
            out@.to_multiset() == window_list@.subrange(0, i as int).to_multiset(),
        decreases n - i,
    {
        let x = window_list[i];
        let mut pos: usize = 0;
        while pos < out.len() && place_le_exec(&out[pos], &x, direction)
            invariant
                pos <= out@.len(),
                forall|k: int| 0 <= k < pos ==> place_le(#[trigger] out@[k], x, direction),
            decreases out@.len() - pos,
        {
            pos = pos + 1;
        }
        proof {
            assert forall|k: int| pos <= k < out@.len() implies place_le(
                x,
                #[trigger] out@[k],
                direction,
            ) by {
                assert(!place_le(out@[pos as int], x, direction));
                assert(place_le(out@[pos as int], out@[k], direction) || k == pos);
            }
        }
        let ghost before = out@;
        out.insert(pos, x);
        proof {
            before.insert_ensures(pos as int, x);
            assert forall|a: int, b: int| 0 <= a < b < out@.len() implies place_le(
                out@[a],
                out@[b],
                direction,
            ) by {
                if b < pos {
                    assert(out@[a] == before[a]);
                    assert(out@[b] == before[b]);
                } else if a < pos && b == pos {
                    assert(out@[a] == before[a]);
                } else if a < pos && b > pos {
                    assert(out@[a] == before[a]);
                    assert(out@[b] == before[b - 1]);
                } else if a == pos {
                    assert(out@[b] == before[b - 1]);
                } else {
                    assert(out@[a] == before[a - 1]);
                    assert(out@[b] == before[b - 1]);
                }
            }
            assert(window_list@.subrange(0, i + 1) == window_list@.subrange(0, i as int).push(x));
        }
        i = i + 1;
    }
    proof {
        assert(window_list@.subrange(0, n as int) == window_list@);
    }
    *window_list = out;
}

/// `i` is where `w` first occurs in `s`.
pub open spec fn first_at(s: Seq<Window>, w: Window, i: int) -> bool {
    0 <= i < s.len() && s[i] == w && forall|j: int| 0 <= j < i ==> s[j] != w
}

/// Where `current` first occurs in the list, if it does.
fn position(windows: &[Window], current: Window) -> (r: Option<usize>)
    ensures
        r matches Some(i) ==> first_at(windows@, current, i as int),
        r is None ==> !windows@.contains(current),
{
    let mut i: usize = 0;
    while i < windows.len()
        invariant
            i <= windows@.len(),
            forall|j: int| 0 <= j < i ==> windows@[j] != current,
        decreases windows@.len() - i,
    {
        if windows[i] == current {
            return Some(i);
        }
        i = i + 1;
    }
    None
}

/// The window after `current` in the list, wrapping from the last to the
/// first; the last window where `current` is not in the list.
pub fn next_window(windows: &[Window], current: Window) -> (r: Option<Window>)
    ensures
        windows@.len() == 0 ==> r is None,
        windows@.len() > 0 && !windows@.contains(current) ==> r == Some(windows@.last()),
        forall|i: int|
            first_at(windows@, current, i) ==> r == Some(
                windows@[if i == windows@.len() - 1 {
                    0
                } else {
                    i + 1
                }],
            ),
{
    match position(windows, current) {
        Some(i) => {
            proof {
                assert forall|k: int| first_at(windows@, current, k) implies k == i by {
                    if k < i {
                        assert(windows@[k] != current);
                    } else if k > i {
                        assert(windows@[i as int] != current);
                    }
                }
            }
            if i == windows.len() - 1 {
                Some(windows[0])
            } else {
                Some(windows[i + 1])
            }
        },
        None => {
            proof {
                assert forall|k: int| !first_at(windows@, current, k) by {
                    if 0 <= k < windows@.len() && windows@[k] == current {
                        assert(windows@.contains(current));
                    }
                }
            }
            if windows.len() == 0 {
                None
            } else {
                Some(windows[windows.len() - 1])
            }
        },
    }
}

/// The window before `current` in the list, wrapping from the first to the
/// last; the first window where `current` is not in the list.
pub fn previous_window(windows: &[Window], current: Window) -> (r: Option<Window>)
    ensures
        windows@.len() == 0 ==> r is None,
        windows@.len() > 0 && !windows@.contains(current) ==> r == Some(windows@[0]),
        forall|i: int|
            first_at(windows@, current, i) ==> r == Some(
                windows@[if i == 0 {
                    windows@.len() - 1
                } else {
                    i - 1
                }],
            ),
{
    match position(windows, current) {
        Some(i) => {
            proof {
                assert forall|k: int| first_at(windows@, current, k) implies k == i by {
                    if k < i {
                        assert(windows@[k] != current);
                    } else if k > i {
                        assert(windows@[i as int] != current);
                    }
                }
            }
            if i == 0 {
                Some(windows[windows.len() - 1])
            } else {
                Some(windows[i - 1])
            }
        },
        None => {
            proof {
                assert forall|k: int| !first_at(windows@, current, k) by {
                    if 0 <= k < windows@.len() && windows@[k] == current {
                        assert(windows@.contains(current));
                    }
                }
            }
            if windows.len() == 0 {
                None
            } else {
                Some(windows[0])
            }
        },
    }
}

} // verus!
