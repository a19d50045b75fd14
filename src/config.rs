use vstd::prelude::*;

verus! {

/// The profile that is active until the user picks another one.
pub const DEFAULT_PROFILE: &'static str = "Default";

/// The shape of a grid layout.
#[derive(Debug, Clone, Copy, PartialEq, Eq, Structural)]
pub struct GridConfig {
    pub rows: usize,
    pub columns: usize,
}

impl Default for GridConfig {
    /// A grid of two rows and two columns.
    fn default() -> (r: GridConfig)
        ensures
            r == (GridConfig { rows: 2, columns: 2 }),
    {
        GridConfig { rows: 2, columns: 2 }
    }
}

/// The identity under which a layout is stored: a monitor and a profile.
#[derive(Debug, Clone)]
pub struct GridConfigKey {
    pub monitor: String,
    pub profile: String,
}

impl View for GridConfigKey {
    type V = (Seq<char>, Seq<char>);

    open spec fn view(&self) -> (Seq<char>, Seq<char>) {
        (self.monitor@, self.profile@)
    }
}

impl PartialEq for GridConfigKey {
    fn eq(&self, other: &GridConfigKey) -> (r: bool)
        ensures
            r == (self@ == other@),
    {
        self.monitor == other.monitor && self.profile == other.profile
    }
}

impl vstd::std_specs::cmp::PartialEqSpecImpl for GridConfigKey {
    open spec fn obeys_eq_spec() -> bool {
        true
    }

    open spec fn eq_spec(&self, other: &GridConfigKey) -> bool {
        self@ == other@
    }
}

impl GridConfigKey {
    /// The key of a monitor and a profile.
    pub fn new(monitor: String, profile: String) -> (r: GridConfigKey)
        ensures
            r@ == (monitor@, profile@),
    {
        GridConfigKey { monitor, profile }
    }

    /// The key of a monitor under the default profile.
    pub fn for_monitor(monitor: String) -> (r: GridConfigKey)
        ensures
            r@ == (monitor@, DEFAULT_PROFILE@),
    {
        GridConfigKey { monitor, profile: DEFAULT_PROFILE.to_owned() }
    }

    /// A copy of the key.
    pub fn duplicate(&self) -> (r: GridConfigKey)
        ensures
            r@ == self@,
    {
        GridConfigKey { monitor: self.monitor.clone(), profile: self.profile.clone() }
    }
}

/// The map that a sequence of entries stands for; of two entries with one key,
/// the later one counts.
pub open spec fn entries_map(s: Seq<(GridConfigKey, GridConfig)>) -> Map<
    (Seq<char>, Seq<char>),
    GridConfig,
>
    decreases s.len(),
{
    if s.len() == 0 {
        Map::empty()
    } else {
        entries_map(s.drop_last()).insert(s.last().0@, s.last().1)
    }
}

/// No two entries share a key.
pub open spec fn keys_unique(s: Seq<(GridConfigKey, GridConfig)>) -> bool {
    forall|i: int, j: int| 0 <= i < j < s.len() ==> s[i].0@ != s[j].0@
}

proof fn lemma_entries_map_contains(s: Seq<(GridConfigKey, GridConfig)>, k: (Seq<char>, Seq<char>))
    ensures
        entries_map(s).contains_key(k) <==> exists|i: int| 0 <= i < s.len() && s[i].0@ == k,
    decreases s.len(),
{
    if s.len() > 0 {
        let t = s.drop_last();
        lemma_entries_map_contains(t, k);
        if entries_map(s).contains_key(k) && s.last().0@ != k {
            let i = choose|i: int| 0 <= i < t.len() && t[i].0@ == k;
            assert(s[i] == t[i]);
        }
        if exists|i: int| 0 <= i < s.len() && s[i].0@ == k {
            let i = choose|i: int| 0 <= i < s.len() && s[i].0@ == k;
            if i < t.len() {
                assert(t[i] == s[i]);
            }
        }
    }
}

proof fn lemma_entries_map_at(s: Seq<(GridConfigKey, GridConfig)>, i: int)
    requires
        keys_unique(s),
        0 <= i < s.len(),
    ensures
        entries_map(s).contains_key(s[i].0@),
        entries_map(s)[s[i].0@] == s[i].1,
    decreases s.len(),
{
    let t = s.drop_last();
    if i < s.len() - 1 {
        assert(t[i] == s[i]);
        assert(keys_unique(t));
        lemma_entries_map_at(t, i);
        assert(s.last().0@ != s[i].0@);
    }
}

proof fn lemma_entries_map_update(
    s: Seq<(GridConfigKey, GridConfig)>,
    i: int,
    k: GridConfigKey,
    v: GridConfig,
)
    requires
        keys_unique(s),
        0 <= i < s.len(),
        k@ == s[i].0@,
    ensures
        entries_map(s.update(i, (k, v))) == entries_map(s).insert(k@, v),
        keys_unique(s.update(i, (k, v))),
    decreases s.len(),
{
    let u = s.update(i, (k, v));
    let t = s.drop_last();
    if i == s.len() - 1 {
        assert(u.drop_last() == t);
        assert(entries_map(u) =~= entries_map(s).insert(k@, v));
    } else {
        assert(u.drop_last() == t.update(i, (k, v)));
        assert(keys_unique(t));
        lemma_entries_map_update(t, i, k, v);
        assert(u.last() == s.last());
        assert(s.last().0@ != s[i].0@);
        assert(entries_map(u) =~= entries_map(s).insert(k@, v));
    }
}

/// The stored layouts: one shape for each monitor and profile.
#[derive(Debug, Clone)]
pub struct GridConfigs {
    entries: Vec<(GridConfigKey, GridConfig)>,
}

impl View for GridConfigs {
    type V = Map<(Seq<char>, Seq<char>), GridConfig>;

    closed spec fn view(&self) -> Map<(Seq<char>, Seq<char>), GridConfig> {
        entries_map(self.entries@)
    }
}

impl GridConfigs {
    /// The entries hold each key once.
    pub closed spec fn wf(&self) -> bool {
        keys_unique(self.entries@)
    }

    /// The store with no layout.
    pub fn new() -> (r: GridConfigs)
        ensures
            r.wf(),
            r@ == Map::<(Seq<char>, Seq<char>), GridConfig>::empty(),
    {
        GridConfigs { entries: Vec::new() }
    }

    /// The store that stands in for a cache that is absent or unreadable: the
    /// default shape under the given key.
    pub fn fallback(key: GridConfigKey) -> (r: GridConfigs)
        ensures
            r.wf(),
            r@ == Map::<(Seq<char>, Seq<char>), GridConfig>::empty().insert(
                key@,
                GridConfig { rows: 2, columns: 2 },
            ),
    {
        let mut r = GridConfigs::new();
        r.upsert(&key, GridConfig::default());
        r
    }

    /// The layouts read from the cache, or the fallback store for `key` where
    /// the cache was absent, unreadable or did not parse.
    pub fn loaded_or_fallback(loaded: Option<GridConfigs>, key: GridConfigKey) -> (r: GridConfigs)
        requires
            loaded matches Some(c) ==> c.wf(),
        ensures
            r.wf(),
            r@ == (match loaded {
                Some(c) => c@,
                None => Map::<(Seq<char>, Seq<char>), GridConfig>::empty().insert(
                    key@,
                    GridConfig { rows: 2, columns: 2 },
                ),
            }),
    {
        match loaded {
            Some(c) => c,
            None => GridConfigs::fallback(key),
        }
    }

    /// The number of stored layouts.
    pub fn len(&self) -> (r: usize)
        requires
            self.wf(),
        ensures
            r == self@.len(),
    {
        proof {
            self.lemma_len();
        }
        self.entries.len()
    }

    proof fn lemma_len(&self)
        requires
            self.wf(),
        ensures
            self@.len() == self.entries@.len(),
    {
        let s = self.entries@;
        let dom = Set::new(
            |k: (Seq<char>, Seq<char>)| exists|i: int| 0 <= i < s.len() && s[i].0@ == k,
        );
        assert forall|k| self@.dom().contains(k) <==> dom.contains(k) by {
            lemma_entries_map_contains(s, k);
        }
        assert(self@.dom() =~= dom);
        lemma_len_of_image(s, s.len() as int);
    }

    /// The key of the entry at `index`.
    pub closed spec fn key_at(&self, index: int) -> (Seq<char>, Seq<char>) {
        self.entries@[index].0@
    }

    /// The entries at indices below `len()` hold distinct keys, and hold
    /// every key of the store: a walk over the indices visits each layout
    /// once.
    pub proof fn lemma_entries_cover(&self)
        requires
            self.wf(),
        ensures
            forall|i: int, j: int|
                0 <= i < j < self@.len() ==> self.key_at(i) != self.key_at(j),
            forall|k: (Seq<char>, Seq<char>)|
                self@.contains_key(k) <==> exists|i: int|
                    0 <= i < self@.len() && #[trigger] self.key_at(i) == k,
    {
        self.lemma_len();
        assert forall|k: (Seq<char>, Seq<char>)|
            self@.contains_key(k) <==> exists|i: int|
                0 <= i < self@.len() && #[trigger] self.key_at(i) == k by {
            let s = self.entries@;
            lemma_entries_map_contains(s, k);
            if self@.contains_key(k) {
                let i = choose|i: int| 0 <= i < s.len() && s[i].0@ == k;
                assert(self.key_at(i) == k);
            }
            if exists|i: int| 0 <= i < self@.len() && #[trigger] self.key_at(i) == k {
                let i = choose|i: int| 0 <= i < self@.len() && #[trigger] self.key_at(i) == k;
                assert(s[i].0@ == k);
            }
        }
    }

    /// The stored entry at `index`, in no particular order.
    pub fn entry(&self, index: usize) -> (r: (&GridConfigKey, GridConfig))
        requires
            self.wf(),
            index < self@.len(),
        ensures
            r.0@ == self.key_at(index as int),
            self@.contains_key(r.0@),
            self@[r.0@] == r.1,
    {
        proof {
            self.lemma_len();
            lemma_entries_map_at(self.entries@, index as int);
        }
        let e = &self.entries[index];
        (&e.0, e.1)
    }

    /// The shape stored under `key`, if any.
    pub fn get(&self, key: &GridConfigKey) -> (r: Option<GridConfig>)
        requires
            self.wf(),
        ensures
            r == (if self@.contains_key(key@) {
                Some(self@[key@])
            } else {
                None
            }),
    {
        let mut i: usize = 0;
        while i < self.entries.len()
            invariant
                self.wf(),
                i <= self.entries@.len(),
                forall|j: int| 0 <= j < i ==> self.entries@[j].0@ != key@,
            decreases self.entries@.len() - i,
        {
            if self.entries[i].0 == *key {
                proof {
                    lemma_entries_map_at(self.entries@, i as int);
                }
                return Some(self.entries[i].1);
            }
            i = i + 1;
        }
        proof {
            lemma_entries_map_contains(self.entries@, key@);
        }
        None
    }

    /// Stores `config` under `key`, in place of what was stored there.
    pub fn upsert(&mut self, key: &GridConfigKey, config: GridConfig)
        requires
            old(self).wf(),
        ensures
            final(self).wf(),
            final(self)@ == old(self)@.insert(key@, config),
    {
        let mut i: usize = 0;
        while i < self.entries.len()
            invariant
                self.entries@ == old(self).entries@,
                self.wf(),
                i <= self.entries@.len(),
                forall|j: int| 0 <= j < i ==> self.entries@[j].0@ != key@,
            decreases self.entries@.len() - i,
        {
            if self.entries[i].0 == *key {
                let k = key.duplicate();
                proof {
                    lemma_entries_map_update(self.entries@, i as int, k, config);
                }
                self.entries.set(i, (k, config));
                return;
            }
            i = i + 1;
        }
        let k = key.duplicate();
        self.entries.push((k, config));
        assert(self.entries@.drop_last() == old(self).entries@);
        assert(keys_unique(self.entries@));
    }
}

proof fn lemma_len_of_image(s: Seq<(GridConfigKey, GridConfig)>, n: int)
    requires
        0 <= n <= s.len(),
        keys_unique(s),
    ensures
        Set::new(|k: (Seq<char>, Seq<char>)| exists|i: int| 0 <= i < n && s[i].0@ == k).finite(),
        Set::new(|k: (Seq<char>, Seq<char>)| exists|i: int| 0 <= i < n && s[i].0@ == k).len()
            == n,
    decreases n,
{
    let a = Set::new(|k: (Seq<char>, Seq<char>)| exists|i: int| 0 <= i < n && s[i].0@ == k);
    if n == 0 {
        assert(a =~= Set::empty());
    } else {
        let b = Set::new(|k: (Seq<char>, Seq<char>)| exists|i: int| 0 <= i < n - 1 && s[i].0@ == k);
        lemma_len_of_image(s, n - 1);
        assert(a =~= b.insert(s[n - 1].0@));
        assert(!b.contains(s[n - 1].0@));
    }
}

/// Optional overrides of the overlay's tile size and margins.
#[derive(Debug, Clone, Copy, PartialEq, Eq, Structural)]
pub struct CustomGridConfig {
    pub tile_width: Option<u32>,
    pub tile_height: Option<u32>,
    pub margins: Option<u8>,
}

/// A color as red, green, blue and alpha bytes.
#[derive(Debug, Clone, Copy, PartialEq, Eq, Structural)]
pub struct Rgba {
    pub r: u8,
    pub g: u8,
    pub b: u8,
    pub a: u8,
}

/// The color as the window system's 32-bit value: red in the low byte, then
/// green, then blue; alpha is dropped.
pub open spec fn colorref_of(c: Rgba) -> u32 {
    (c.r as int + c.g as int * 0x100 + c.b as int * 0x10000) as u32
}

/// Packs a color into the window system's 32-bit color value.
pub fn color_to_colorref(color: Rgba) -> (r: u32)
    ensures
        r == colorref_of(color),
        r as int == color.r as int + color.g as int * 0x100 + color.b as int * 0x10000,
{
    color.r as u32 + color.g as u32 * 0x100 + color.b as u32 * 0x10000
}

/// Optional colors.
#[derive(Debug, Clone, Copy, PartialEq, Eq, Structural)]
pub struct CustomColors {
    pub tile: Option<Rgba>,
    pub tile_hovered: Option<Rgba>,
    pub tile_selected: Option<Rgba>,
    pub tile_frame: Option<Rgba>,
    pub grid_background: Option<Rgba>,
    pub preview: Option<Rgba>,
}

/// Hotkeys that move the focus to a neighbouring window.
#[derive(Debug, Clone)]
pub struct NavigateHotkeys {
    pub left: Option<String>,
    pub down: Option<String>,
    pub up: Option<String>,
    pub right: Option<String>,
}

/// Hotkeys beyond the one that opens the grid.
#[derive(Debug, Clone)]
pub struct OptionalHotkeys {
    pub quick_resize: Option<String>,
    pub maximize_toggle: Option<String>,
    pub navigate: Option<NavigateHotkeys>,
    pub quick_exit: Option<String>,
}

/// The user's configuration.
#[derive(Debug, Clone)]
pub struct Config {
    /// Gap between zones, in pixels.
    pub margins: u8,
    /// Gap between the edge of the work area and the zones, in pixels.
    pub window_padding: u8,
    pub hotkey: String,
    pub optional_hotkeys: Option<OptionalHotkeys>,
    pub auto_start: bool,
    pub grid: Option<CustomGridConfig>,
    pub colors: Option<CustomColors>,
}

impl Default for Config {
    /// Ten pixels of zone margin and of padding, the grid on CTRL+ALT+S, and
    /// nothing optional.
    fn default() -> (r: Config)
        ensures
            r.margins == 10,
            r.window_padding == 10,
            r.hotkey@ == "CTRL+ALT+S"@,
            r.optional_hotkeys.is_none(),
            !r.auto_start,
            r.grid.is_none(),
            r.colors.is_none(),
    {
        Config {
            margins: 10,
            window_padding: 10,
            hotkey: "CTRL+ALT+S".to_owned(),
            optional_hotkeys: None,
            auto_start: false,
            grid: None,
            colors: None,
        }
    }
}

} // verus!
