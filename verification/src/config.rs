//! Runtime settings: defaults, the `key=value` configuration file format,
//! and the command-line options.
use vstd::prelude::*;
use crate::text::{
    ascii_lower, chars_of, is_ws, lemma_first_index, lemma_parsed_number_untrimmed,
    lemma_split_acc_no_sep, trim_end, trim_start, eq_ignore_ascii_case, is_ascii_text, lemma_lines_concat, lemma_trim_drop_trailing_ws, split_acc,
    strip_cr, eq_ignore_ascii_case_str, eq_str, lines, lower_text,
    parse_u64, parse_u64_chars, push_str, split_chars, split_lines, split_on, split_once,
    split_once_chars, string_from_chars, to_lowercase, trim, trim_chars, views,
};

verus! {

broadcast use vstd::seq_lib::group_seq_properties;

/// Which processes may be chosen as the termination target.
#[derive(Debug, Clone, Copy, PartialEq, Eq, Structural)]
pub enum SelectionPolicy {
    /// Any process; the one with the highest resident memory wins.
    HighestRss,
    /// Only processes using at least this many MB of resident memory.
    MinRssThreshold(u64),
}

impl SelectionPolicy {
    /// The smallest resident size (MB) a target may have under this policy.
    pub open spec fn min_rss_mb(self) -> u64 {
        match self {
            SelectionPolicy::HighestRss => 0,
            SelectionPolicy::MinRssThreshold(m) => m,
        }
    }

    /// The smallest resident size (MB) a target may have under this policy.
    pub fn min_rss_requirement(&self) -> (m: u64)
        ensures
            m == self.min_rss_mb(),
    {
        match self {
            SelectionPolicy::HighestRss => 0,
            SelectionPolicy::MinRssThreshold(m) => *m,
        }
    }
}

/// A set of (lower-case) process names that are never terminated.
#[derive(Debug)]
pub struct Whitelist {
    names: Vec<String>,
}

impl Whitelist {
    /// The names held, in insertion order.
    pub closed spec fn texts(self) -> Seq<Seq<char>> {
        self.names@.map_values(|s: String| s@)
    }

    #[verifier::type_invariant]
    spec fn no_duplicate_names(self) -> bool {
        self.texts().no_duplicates()
    }

    /// An empty whitelist.
    pub fn new() -> (w: Self)
        ensures
            w@ == Set::<Seq<char>>::empty(),
    {
        let w = Whitelist { names: Vec::new() };
        proof {
            assert(w.texts().to_set() =~= Set::<Seq<char>>::empty());
        }
        w
    }

    /// Whether `name` is in the whitelist.
    pub fn contains_string(&self, name: &String) -> (b: bool)
        ensures
            b == self@.contains(name@),
    {
        let n = self.names.len();
        let mut i: usize = 0;
        while i < n
            invariant
                i <= n,
                n == self.names@.len(),
                forall|j: int| 0 <= j < i ==> self.texts()[j] != name@,
            decreases n - i,
        {
            if self.names[i] == *name {
                proof {
                    assert(self.texts()[i as int] == name@);
                    assert(self.texts().contains(name@));
                }
                return true;
            }
            i += 1;
        }
        proof {
            assert(!self.texts().contains(name@));
        }
        false
    }

    /// Whether `name` is in the whitelist.
    pub fn contains(&self, name: &str) -> (b: bool)
        ensures
            b == self@.contains(name@),
    {
        let s = name.to_owned();
        self.contains_string(&s)
    }

    /// Whether the name spelled by `name` is in the whitelist.
    pub fn contains_chars(&self, name: &Vec<char>) -> (b: bool)
        ensures
            b == self@.contains(name@),
    {
        let s = string_from_chars(name);
        self.contains_string(&s)
    }

    /// Adds `name`; returns whether it was not there before.
    pub fn insert(&mut self, name: String) -> (added: bool)
        ensures
            final(self)@ == old(self)@.insert(name@),
            added == !old(self)@.contains(name@),
    {
        proof {
            use_type_invariant(&*self);
        }
        if self.contains_string(&name) {
            proof {
                assert(self@.insert(name@) =~= self@);
            }
            return false;
        }
        let ghost before = self.texts();
        let mut names: Vec<String> = Vec::new();
        std::mem::swap(&mut names, &mut self.names);
        proof {
            assert(names@.map_values(|s: String| s@) == before);
        }
        names.push(name);
        proof {
            assert(names@.map_values(|s: String| s@) =~= before.push(name@));
            assert(!before.contains(name@));
        }
        self.names = names;
        proof {
            assert(self.texts() =~= before.push(name@));
        }
        true
    }

    /// Adds the name spelled by `name`.
    pub fn insert_chars(&mut self, name: &Vec<char>) -> (added: bool)
        ensures
            final(self)@ == old(self)@.insert(name@),
            added == !old(self)@.contains(name@),
    {
        let s = string_from_chars(name);
        self.insert(s)
    }

    /// The number of names.
    pub fn len(&self) -> (n: usize)
        ensures
            n == self@.len(),
    {
        proof {
            use_type_invariant(self);
            self.texts().unique_seq_to_set();
        }
        self.names.len()
    }
}

impl View for Whitelist {
    type V = Set<Seq<char>>;

    closed spec fn view(&self) -> Set<Seq<char>> {
        self.texts().to_set()
    }
}

/// The settings of a `Config`, as values.
pub struct ConfigView {
    pub critical_threshold_mb: u64,
    pub warning_threshold_mb: u64,
    pub interval_ms: u64,
    pub grace_ms: u64,
    pub policy: SelectionPolicy,
    pub verbose: bool,
    pub dry_run: bool,
    pub notify: bool,
    pub whitelist: Set<Seq<char>>,
}

/// The daemon's settings.
#[derive(Debug)]
pub struct Config {
    pub critical_threshold_mb: u64,
    pub warning_threshold_mb: u64,
    pub interval_ms: u64,
    pub grace_ms: u64,
    pub policy: SelectionPolicy,
    pub verbose: bool,
    pub dry_run: bool,
    pub notify: bool,
    pub whitelist: Whitelist,
}

impl View for Config {
    type V = ConfigView;

    open spec fn view(&self) -> ConfigView {
        ConfigView {
            critical_threshold_mb: self.critical_threshold_mb,
            warning_threshold_mb: self.warning_threshold_mb,
            interval_ms: self.interval_ms,
            grace_ms: self.grace_ms,
            policy: self.policy,
            verbose: self.verbose,
            dry_run: self.dry_run,
            notify: self.notify,
            whitelist: self.whitelist@,
        }
    }
}

/// The processes protected by default.
pub open spec fn default_process_names() -> Seq<Seq<char>> {
    seq![
        "systemd"@,
        "init"@,
        "sshd"@,
        "Xorg"@,
        "Xwayland"@,
        "hyprland"@,
        "kwin"@,
        "mutter"@,
        "gnome-shell"@,
        "sway"@,
        "dbus-daemon"@,
        "dbus-broker"@,
        "pipewire"@,
        "wireplumber"@,
        "antigravity"@,
        "agy"@,
        "bash"@,
        "zsh"@,
        "fish"@,
        "tmux"@,
        "screen"@,
        "memwatchdog"@,
    ]
}

/// The default whitelist: the default process names, lower-cased.
pub open spec fn default_whitelist() -> Set<Seq<char>> {
    default_process_names().map_values(|n: Seq<char>| lower_text(n)).to_set()
}

/// The settings used when nothing else is given.
pub open spec fn default_config() -> ConfigView {
    ConfigView {
        critical_threshold_mb: 200,
        warning_threshold_mb: 500,
        interval_ms: 200,
        grace_ms: 1000,
        policy: SelectionPolicy::HighestRss,
        verbose: false,
        dry_run: false,
        notify: false,
        whitelist: default_whitelist(),
    }
}

/// The default whitelist holds exactly these names.
pub proof fn lemma_default_whitelist_names()
    ensures
        default_whitelist() == set![
            "systemd"@,
            "init"@,
            "sshd"@,
            "xorg"@,
            "xwayland"@,
            "hyprland"@,
            "kwin"@,
            "mutter"@,
            "gnome-shell"@,
            "sway"@,
            "dbus-daemon"@,
            "dbus-broker"@,
            "pipewire"@,
            "wireplumber"@,
            "antigravity"@,
            "agy"@,
            "bash"@,
            "zsh"@,
            "fish"@,
            "tmux"@,
            "screen"@,
            "memwatchdog"@,
        ],
{
    reveal_strlit("Xorg");
    reveal_strlit("Xwayland");
    reveal_strlit("agy");
    reveal_strlit("antigravity");
    reveal_strlit("bash");
    reveal_strlit("dbus-broker");
    reveal_strlit("dbus-daemon");
    reveal_strlit("fish");
    reveal_strlit("gnome-shell");
    reveal_strlit("hyprland");
    reveal_strlit("init");
    reveal_strlit("kwin");
    reveal_strlit("memwatchdog");
    reveal_strlit("mutter");
    reveal_strlit("pipewire");
    reveal_strlit("screen");
    reveal_strlit("sshd");
    reveal_strlit("sway");
    reveal_strlit("systemd");
    reveal_strlit("tmux");
    reveal_strlit("wireplumber");
    reveal_strlit("xorg");
    reveal_strlit("xwayland");
    reveal_strlit("zsh");
    let m = default_process_names().map_values(|x: Seq<char>| lower_text(x));
    assert(is_ascii_text("systemd"@));
    assert(ascii_lower("systemd"@) =~= "systemd"@);
    assert(m[0] == "systemd"@);
    assert(is_ascii_text("init"@));
    assert(ascii_lower("init"@) =~= "init"@);
    assert(m[1] == "init"@);
    assert(is_ascii_text("sshd"@));
    assert(ascii_lower("sshd"@) =~= "sshd"@);
    assert(m[2] == "sshd"@);
    assert(is_ascii_text("Xorg"@));
    assert(ascii_lower("Xorg"@) =~= "xorg"@);
    assert(m[3] == "xorg"@);
    assert(is_ascii_text("Xwayland"@));
    assert(ascii_lower("Xwayland"@) =~= "xwayland"@);
    assert(m[4] == "xwayland"@);
    assert(is_ascii_text("hyprland"@));
    assert(ascii_lower("hyprland"@) =~= "hyprland"@);
    assert(m[5] == "hyprland"@);
    assert(is_ascii_text("kwin"@));
    assert(ascii_lower("kwin"@) =~= "kwin"@);
    assert(m[6] == "kwin"@);
    assert(is_ascii_text("mutter"@));
    assert(ascii_lower("mutter"@) =~= "mutter"@);
    assert(m[7] == "mutter"@);
    assert(is_ascii_text("gnome-shell"@));
    assert(ascii_lower("gnome-shell"@) =~= "gnome-shell"@);
    assert(m[8] == "gnome-shell"@);
    assert(is_ascii_text("sway"@));
    assert(ascii_lower("sway"@) =~= "sway"@);
    assert(m[9] == "sway"@);
    assert(is_ascii_text("dbus-daemon"@));
    assert(ascii_lower("dbus-daemon"@) =~= "dbus-daemon"@);
    assert(m[10] == "dbus-daemon"@);
    assert(is_ascii_text("dbus-broker"@));
    assert(ascii_lower("dbus-broker"@) =~= "dbus-broker"@);
    assert(m[11] == "dbus-broker"@);
    assert(is_ascii_text("pipewire"@));
    assert(ascii_lower("pipewire"@) =~= "pipewire"@);
    assert(m[12] == "pipewire"@);
    assert(is_ascii_text("wireplumber"@));
    assert(ascii_lower("wireplumber"@) =~= "wireplumber"@);
    assert(m[13] == "wireplumber"@);
    assert(is_ascii_text("antigravity"@));
    assert(ascii_lower("antigravity"@) =~= "antigravity"@);
    assert(m[14] == "antigravity"@);
    assert(is_ascii_text("agy"@));
    assert(ascii_lower("agy"@) =~= "agy"@);
    assert(m[15] == "agy"@);
    assert(is_ascii_text("bash"@));
    assert(ascii_lower("bash"@) =~= "bash"@);
    assert(m[16] == "bash"@);
    assert(is_ascii_text("zsh"@));
    assert(ascii_lower("zsh"@) =~= "zsh"@);
    assert(m[17] == "zsh"@);
    assert(is_ascii_text("fish"@));
    assert(ascii_lower("fish"@) =~= "fish"@);
    assert(m[18] == "fish"@);
    assert(is_ascii_text("tmux"@));
    assert(ascii_lower("tmux"@) =~= "tmux"@);
    assert(m[19] == "tmux"@);
    assert(is_ascii_text("screen"@));
    assert(ascii_lower("screen"@) =~= "screen"@);
    assert(m[20] == "screen"@);
    assert(is_ascii_text("memwatchdog"@));
    assert(ascii_lower("memwatchdog"@) =~= "memwatchdog"@);
    assert(m[21] == "memwatchdog"@);
    let target = set![
        "systemd"@,
        "init"@,
        "sshd"@,
        "xorg"@,
        "xwayland"@,
        "hyprland"@,
        "kwin"@,
        "mutter"@,
        "gnome-shell"@,
        "sway"@,
        "dbus-daemon"@,
        "dbus-broker"@,
        "pipewire"@,
        "wireplumber"@,
        "antigravity"@,
        "agy"@,
        "bash"@,
        "zsh"@,
        "fish"@,
        "tmux"@,
        "screen"@,
        "memwatchdog"@,
    ];
    assert forall|x: Seq<char>| #[trigger] target.contains(x) implies m.contains(x) by {
        if x == "systemd"@ { assert(m[0] == x); }
        if x == "init"@ { assert(m[1] == x); }
        if x == "sshd"@ { assert(m[2] == x); }
        if x == "xorg"@ { assert(m[3] == x); }
        if x == "xwayland"@ { assert(m[4] == x); }
        if x == "hyprland"@ { assert(m[5] == x); }
        if x == "kwin"@ { assert(m[6] == x); }
        if x == "mutter"@ { assert(m[7] == x); }
        if x == "gnome-shell"@ { assert(m[8] == x); }
        if x == "sway"@ { assert(m[9] == x); }
        if x == "dbus-daemon"@ { assert(m[10] == x); }
        if x == "dbus-broker"@ { assert(m[11] == x); }
        if x == "pipewire"@ { assert(m[12] == x); }
        if x == "wireplumber"@ { assert(m[13] == x); }
        if x == "antigravity"@ { assert(m[14] == x); }
        if x == "agy"@ { assert(m[15] == x); }
        if x == "bash"@ { assert(m[16] == x); }
        if x == "zsh"@ { assert(m[17] == x); }
        if x == "fish"@ { assert(m[18] == x); }
        if x == "tmux"@ { assert(m[19] == x); }
        if x == "screen"@ { assert(m[20] == x); }
        if x == "memwatchdog"@ { assert(m[21] == x); }
    }
    assert forall|x: Seq<char>| m.contains(x) implies #[trigger] target.contains(x) by {
        let i = choose|i: int| 0 <= i < m.len() && m[i] == x;
    }
    assert(default_whitelist() =~= target);
}

/// `w` with every non-empty item of an `exclude=` list added, each trimmed
/// and lower-cased.
pub open spec fn add_exclusions(w: Set<Seq<char>>, items: Seq<Seq<char>>) -> Set<Seq<char>>
    decreases items.len(),
{
    if items.len() == 0 {
        w
    } else {
        let rest = add_exclusions(w, items.drop_last());
        let name = lower_text(trim(items.last()));
        if name.len() > 0 {
            rest.insert(name)
        } else {
            rest
        }
    }
}

/// `c` with a numeric setting replaced, if `val` parses as a `u64`.
pub open spec fn with_number(c: ConfigView, key: Seq<char>, val: Seq<char>) -> ConfigView {
    match parse_u64(val) {
        Some(x) => if key == "threshold_mb"@ {
            ConfigView { critical_threshold_mb: x, ..c }
        } else if key == "warning_threshold_mb"@ {
            ConfigView { warning_threshold_mb: x, ..c }
        } else if key == "interval_ms"@ {
            ConfigView { interval_ms: x, ..c }
        } else {
            ConfigView { grace_ms: x, ..c }
        },
        None => c,
    }
}

/// The effect of the setting `key = val` of a configuration file, the key
/// already trimmed and lower-cased and the value trimmed. Unknown keys and
/// unparsable numbers change nothing.
pub open spec fn setting_effect(c: ConfigView, key: Seq<char>, val: Seq<char>) -> ConfigView {
    if key == "threshold_mb"@ || key == "warning_threshold_mb"@ || key == "interval_ms"@ || key
        == "grace_ms"@ {
        with_number(c, key, val)
    } else if key == "notify"@ {
        ConfigView { notify: eq_ignore_ascii_case(val, "true"@) || val == "1"@, ..c }
    } else if key == "exclude"@ {
        ConfigView { whitelist: add_exclusions(c.whitelist, split_on(val, ',')), ..c }
    } else {
        c
    }
}

/// The effect of one line of a configuration file.
///
/// Blank lines and lines starting with `#` (after trimming) are ignored, as
/// are lines without `=`. The key (trimmed, lower-cased) selects the setting;
/// the value is trimmed.
pub open spec fn config_line_effect(c: ConfigView, raw: Seq<char>) -> ConfigView {
    let line = trim(raw);
    if line.len() == 0 || line[0] == '#' {
        c
    } else {
        match split_once(line, '=') {
            None => c,
            Some(kv) => setting_effect(c, lower_text(trim(kv.0)), trim(kv.1)),
        }
    }
}

/// The effect of a sequence of configuration lines, applied in order.
pub open spec fn config_lines_effect(c: ConfigView, ls: Seq<Seq<char>>) -> ConfigView
    decreases ls.len(),
{
    if ls.len() == 0 {
        c
    } else {
        config_line_effect(config_lines_effect(c, ls.drop_last()), ls.last())
    }
}

/// Adding exclusions never removes a name.
proof fn lemma_add_exclusions_grows(w: Set<Seq<char>>, items: Seq<Seq<char>>)
    ensures
        w.subset_of(add_exclusions(w, items)),
    decreases items.len(),
{
    if items.len() > 0 {
        lemma_add_exclusions_grows(w, items.drop_last());
    }
}

/// A configuration line never removes a name from the whitelist, and never
/// changes the selection policy, the verbosity or the dry-run mode.
pub proof fn lemma_config_line_keeps(c: ConfigView, raw: Seq<char>)
    ensures
        c.whitelist.subset_of(config_line_effect(c, raw).whitelist),
        config_line_effect(c, raw).policy == c.policy,
        config_line_effect(c, raw).verbose == c.verbose,
        config_line_effect(c, raw).dry_run == c.dry_run,
{
    let line = trim(raw);
    if line.len() > 0 && line[0] != '#' {
        if let Some(kv) = split_once(line, '=') {
            lemma_add_exclusions_grows(c.whitelist, split_on(trim(kv.1), ','));
        }
    }
}

/// A configuration file never removes a name from the whitelist (so the
/// default protections always stay), and never changes the selection
/// policy, the verbosity or the dry-run mode.
pub proof fn lemma_config_lines_keep(c: ConfigView, ls: Seq<Seq<char>>)
    ensures
        c.whitelist.subset_of(config_lines_effect(c, ls).whitelist),
        config_lines_effect(c, ls).policy == c.policy,
        config_lines_effect(c, ls).verbose == c.verbose,
        config_lines_effect(c, ls).dry_run == c.dry_run,
    decreases ls.len(),
{
    if ls.len() > 0 {
        lemma_config_lines_keep(c, ls.drop_last());
        lemma_config_line_keeps(config_lines_effect(c, ls.drop_last()), ls.last());
    }
}

/// Reading the lines `a` and then the lines `b` has the same effect as
/// reading `a` followed by `b` at once: settings are applied line by line,
/// and a later line overrides an earlier one.
pub proof fn lemma_config_lines_concat(c: ConfigView, a: Seq<Seq<char>>, b: Seq<Seq<char>>)
    ensures
        config_lines_effect(c, a + b) == config_lines_effect(config_lines_effect(c, a), b),
    decreases b.len(),
{
    if b.len() == 0 {
        assert(a + b =~= a);
    } else {
        lemma_config_lines_concat(c, a, b.drop_last());
        assert((a + b).drop_last() =~= a + b.drop_last());
        assert((a + b).last() == b.last());
    }
}

/// What a run of configuration lines sets, whatever the settings before:
/// the numbers and the notification switch they assign (the last assignment
/// wins) and the names they add to the whitelist.
pub struct ConfigPatch {
    pub critical_threshold_mb: Option<u64>,
    pub warning_threshold_mb: Option<u64>,
    pub interval_ms: Option<u64>,
    pub grace_ms: Option<u64>,
    pub notify: Option<bool>,
    pub excluded: Set<Seq<char>>,
}

/// A patch that sets nothing.
pub open spec fn no_patch() -> ConfigPatch {
    ConfigPatch {
        critical_threshold_mb: None,
        warning_threshold_mb: None,
        interval_ms: None,
        grace_ms: None,
        notify: None,
        excluded: Set::empty(),
    }
}

pub open spec fn override_with<T>(o: Option<T>, d: T) -> T {
    match o {
        Some(v) => v,
        None => d,
    }
}

/// `c` with the patch `p` applied.
pub open spec fn apply_patch(p: ConfigPatch, c: ConfigView) -> ConfigView {
    ConfigView {
        critical_threshold_mb: override_with(p.critical_threshold_mb, c.critical_threshold_mb),
        warning_threshold_mb: override_with(p.warning_threshold_mb, c.warning_threshold_mb),
        interval_ms: override_with(p.interval_ms, c.interval_ms),
        grace_ms: override_with(p.grace_ms, c.grace_ms),
        notify: override_with(p.notify, c.notify),
        whitelist: c.whitelist.union(p.excluded),
        ..c
    }
}

pub open spec fn later<T>(first: Option<T>, second: Option<T>) -> Option<T> {
    match second {
        Some(v) => Some(v),
        None => first,
    }
}

/// The patch `p1` followed by the patch `p2`.
pub open spec fn then_patch(p1: ConfigPatch, p2: ConfigPatch) -> ConfigPatch {
    ConfigPatch {
        critical_threshold_mb: later(p1.critical_threshold_mb, p2.critical_threshold_mb),
        warning_threshold_mb: later(p1.warning_threshold_mb, p2.warning_threshold_mb),
        interval_ms: later(p1.interval_ms, p2.interval_ms),
        grace_ms: later(p1.grace_ms, p2.grace_ms),
        notify: later(p1.notify, p2.notify),
        excluded: p1.excluded.union(p2.excluded),
    }
}

/// What the setting `key = val` sets.
pub open spec fn setting_patch(key: Seq<char>, val: Seq<char>) -> ConfigPatch {
    if key == "threshold_mb"@ || key == "warning_threshold_mb"@ || key == "interval_ms"@ || key
        == "grace_ms"@ {
        match parse_u64(val) {
            Some(x) => if key == "threshold_mb"@ {
                ConfigPatch { critical_threshold_mb: Some(x), ..no_patch() }
            } else if key == "warning_threshold_mb"@ {
                ConfigPatch { warning_threshold_mb: Some(x), ..no_patch() }
            } else if key == "interval_ms"@ {
                ConfigPatch { interval_ms: Some(x), ..no_patch() }
            } else {
                ConfigPatch { grace_ms: Some(x), ..no_patch() }
            },
            None => no_patch(),
        }
    } else if key == "notify"@ {
        ConfigPatch { notify: Some(eq_ignore_ascii_case(val, "true"@) || val == "1"@), ..no_patch() }
    } else if key == "exclude"@ {
        ConfigPatch { excluded: add_exclusions(Set::empty(), split_on(val, ',')), ..no_patch() }
    } else {
        no_patch()
    }
}

/// What one configuration line sets.
pub open spec fn line_patch(raw: Seq<char>) -> ConfigPatch {
    let line = trim(raw);
    if line.len() == 0 || line[0] == '#' {
        no_patch()
    } else {
        match split_once(line, '=') {
            None => no_patch(),
            Some(kv) => setting_patch(lower_text(trim(kv.0)), trim(kv.1)),
        }
    }
}

/// What a sequence of configuration lines sets.
pub open spec fn lines_patch(ls: Seq<Seq<char>>) -> ConfigPatch
    decreases ls.len(),
{
    if ls.len() == 0 {
        no_patch()
    } else {
        then_patch(lines_patch(ls.drop_last()), line_patch(ls.last()))
    }
}

proof fn lemma_add_exclusions_union(w: Set<Seq<char>>, items: Seq<Seq<char>>)
    ensures
        add_exclusions(w, items) == w.union(add_exclusions(Set::empty(), items)),
    decreases items.len(),
{
    if items.len() == 0 {
        assert(w.union(Set::<Seq<char>>::empty()) =~= w);
    } else {
        lemma_add_exclusions_union(w, items.drop_last());
        let e = add_exclusions(Set::<Seq<char>>::empty(), items.drop_last());
        let name = lower_text(trim(items.last()));
        if name.len() > 0 {
            assert(w.union(e).insert(name) =~= w.union(e.insert(name)));
        }
    }
}

proof fn lemma_setting_patch(c: ConfigView, key: Seq<char>, val: Seq<char>)
    ensures
        setting_effect(c, key, val) == apply_patch(setting_patch(key, val), c),
{
    assert(c.whitelist.union(Set::<Seq<char>>::empty()) =~= c.whitelist);
    lemma_add_exclusions_union(c.whitelist, split_on(val, ','));
}

proof fn lemma_line_patch(c: ConfigView, raw: Seq<char>)
    ensures
        config_line_effect(c, raw) == apply_patch(line_patch(raw), c),
{
    assert(c.whitelist.union(Set::<Seq<char>>::empty()) =~= c.whitelist);
    let line = trim(raw);
    if line.len() > 0 && line[0] != '#' {
        if let Some(kv) = split_once(line, '=') {
            lemma_setting_patch(c, lower_text(trim(kv.0)), trim(kv.1));
        }
    }
}

proof fn lemma_then_patch(p1: ConfigPatch, p2: ConfigPatch, c: ConfigView)
    ensures
        apply_patch(p2, apply_patch(p1, c)) == apply_patch(then_patch(p1, p2), c),
{
    assert(c.whitelist.union(p1.excluded).union(p2.excluded) =~= c.whitelist.union(
        p1.excluded.union(p2.excluded),
    ));
}

/// Reading configuration lines sets what their patch sets, and nothing else.
pub proof fn lemma_lines_patch(c: ConfigView, ls: Seq<Seq<char>>)
    ensures
        config_lines_effect(c, ls) == apply_patch(lines_patch(ls), c),
    decreases ls.len(),
{
    if ls.len() == 0 {
        assert(c.whitelist.union(Set::<Seq<char>>::empty()) =~= c.whitelist);
    } else {
        lemma_lines_patch(c, ls.drop_last());
        lemma_line_patch(config_lines_effect(c, ls.drop_last()), ls.last());
        lemma_then_patch(lines_patch(ls.drop_last()), line_patch(ls.last()), c);
    }
}

/// Reading the same configuration text twice has the same effect as
/// reading it once.
pub proof fn lemma_config_text_idempotent(c: ConfigView, t: Seq<char>)
    ensures
        config_lines_effect(config_lines_effect(c, lines(t)), lines(t)) == config_lines_effect(c, lines(t)),
{
    let p = lines_patch(lines(t));
    lemma_lines_patch(c, lines(t));
    lemma_lines_patch(config_lines_effect(c, lines(t)), lines(t));
    assert(c.whitelist.union(p.excluded).union(p.excluded) =~= c.whitelist.union(p.excluded));
}

/// A line and the same line without a final `'\r'` have the same effect.
proof fn lemma_line_strip_cr(c: ConfigView, l: Seq<char>)
    ensures
        config_line_effect(c, strip_cr(l)) == config_line_effect(c, l),
{
    if l.len() > 0 && l.last() == '\r' {
        lemma_trim_drop_trailing_ws(l);
    }
}

/// Reading the text `t1`, a newline and the text `t2` as one configuration
/// file has the same effect as reading a file holding `t1` and then a file
/// holding `t2`.
pub proof fn lemma_config_texts_concat(c: ConfigView, t1: Seq<char>, t2: Seq<char>)
    ensures
        config_lines_effect(c, lines(t1 + seq!['\n'] + t2)) == config_lines_effect(
            config_lines_effect(c, lines(t1)),
            lines(t2),
        ),
{
    let p = split_acc(t1, '\n');
    let head = p.0.map_values(|l: Seq<char>| strip_cr(l));
    lemma_lines_concat(t1, t2);
    lemma_config_lines_concat(c, head.push(strip_cr(p.1)), lines(t2));
    assert(head.push(strip_cr(p.1)).drop_last() =~= head);
    lemma_line_strip_cr(config_lines_effect(c, head), p.1);
    if p.1.len() > 0 {
        assert(lines(t1) == head.push(p.1));
        assert(head.push(p.1).drop_last() =~= head);
    } else {
        assert(lines(t1) == head);
        assert(trim(p.1).len() == 0);
    }
}

/// A key of letters, digits and `_`, already lower case.
spec fn plain_key(key: Seq<char>) -> bool {
    &&& key.len() > 0
    &&& forall|j: int|
        0 <= j < key.len() ==> {
            let u = (#[trigger] key[j]) as u32;
            (97 <= u <= 122) || (48 <= u <= 57) || u == 95
        }
}

proof fn lemma_plain_key(key: Seq<char>)
    requires
        plain_key(key),
    ensures
        !is_ws(key[0]),
        key[0] != '#',
        !is_ws(key.last()),
        forall|j: int| 0 <= j < key.len() ==> key[j] != '=',
        trim(key) == key,
        lower_text(key) == key,
{
    assert(key.last() == key[key.len() - 1]);
    assert(is_ascii_text(key));
    assert(ascii_lower(key) =~= key);
}

/// The line `key=val`, for a plain lower-case key and a value that neither
/// starts nor ends with whitespace, is the setting `key = val`.
proof fn lemma_plain_setting_line(c: ConfigView, key: Seq<char>, val: Seq<char>)
    requires
        plain_key(key),
        val.len() > 0,
        !is_ws(val[0]),
        !is_ws(val.last()),
    ensures
        config_line_effect(c, key + seq!['='] + val) == setting_effect(c, key, val),
{
    lemma_plain_key(key);
    let l = key + seq!['='] + val;
    assert(l[0] == key[0]);
    assert(l.last() == val.last());
    assert(trim_start(l) == l);
    assert(trim_end(l) == l);
    assert forall|j: int| 0 <= j < key.len() implies l[j] != '=' by {
        assert(l[j] == key[j]);
    }
    assert(l[key.len() as int] == '=');
    lemma_first_index(l, '=', key.len() as int);
    assert(l.take(key.len() as int) =~= key);
    assert(l.skip(key.len() + 1int) =~= val);
    assert(trim_start(val) == val);
    assert(trim_end(val) == val);
}

/// A configuration line `threshold_mb=N`, `warning_threshold_mb=N`,
/// `interval_ms=N` or `grace_ms=N`, with `N` a number, sets the critical
/// threshold, the warning threshold, the check interval or the grace period
/// to `N`, and changes nothing else.
pub proof fn lemma_config_number_keys(c: ConfigView, val: Seq<char>)
    requires
        parse_u64(val) is Some,
    ensures
        config_line_effect(c, "threshold_mb="@ + val) == (ConfigView {
            critical_threshold_mb: parse_u64(val)->0,
            ..c
        }),
        config_line_effect(c, "warning_threshold_mb="@ + val) == (ConfigView {
            warning_threshold_mb: parse_u64(val)->0,
            ..c
        }),
        config_line_effect(c, "interval_ms="@ + val) == (ConfigView { interval_ms: parse_u64(val)->0, ..c }),
        config_line_effect(c, "grace_ms="@ + val) == (ConfigView { grace_ms: parse_u64(val)->0, ..c }),
{
    lemma_parsed_number_untrimmed(val);
    reveal_strlit("threshold_mb");
    reveal_strlit("threshold_mb=");
    assert("threshold_mb="@ =~= "threshold_mb"@ + seq!['=']);
    lemma_plain_key("threshold_mb"@);
    reveal_strlit("warning_threshold_mb");
    reveal_strlit("warning_threshold_mb=");
    assert("warning_threshold_mb="@ =~= "warning_threshold_mb"@ + seq!['=']);
    lemma_plain_key("warning_threshold_mb"@);
    reveal_strlit("interval_ms");
    reveal_strlit("interval_ms=");
    assert("interval_ms="@ =~= "interval_ms"@ + seq!['=']);
    lemma_plain_key("interval_ms"@);
    reveal_strlit("grace_ms");
    reveal_strlit("grace_ms=");
    assert("grace_ms="@ =~= "grace_ms"@ + seq!['=']);
    lemma_plain_key("grace_ms"@);
    assert("threshold_mb"@.len() == 12);
    assert("warning_threshold_mb"@.len() == 20);
    assert("interval_ms"@.len() == 11);
    assert("grace_ms"@.len() == 8);
    lemma_plain_setting_line(c, "threshold_mb"@, val);
    lemma_plain_setting_line(c, "warning_threshold_mb"@, val);
    lemma_plain_setting_line(c, "interval_ms"@, val);
    lemma_plain_setting_line(c, "grace_ms"@, val);
}

/// A configuration line `notify=V` (`V` not starting or ending with
/// whitespace) turns notifications on exactly when `V` is `true` in any
/// case or `1`, off otherwise, and changes nothing else.
pub proof fn lemma_config_notify_key(c: ConfigView, val: Seq<char>)
    requires
        val.len() > 0,
        !is_ws(val[0]),
        !is_ws(val.last()),
    ensures
        config_line_effect(c, "notify="@ + val) == (ConfigView {
            notify: eq_ignore_ascii_case(val, "true"@) || val == "1"@,
            ..c
        }),
{
    reveal_strlit("notify");
    reveal_strlit("notify=");
    assert("notify="@ =~= "notify"@ + seq!['=']);
    lemma_plain_key("notify"@);
    assert("notify"@.len() == 6);
    reveal_strlit("threshold_mb");
    reveal_strlit("warning_threshold_mb");
    reveal_strlit("interval_ms");
    reveal_strlit("grace_ms");
    assert("threshold_mb"@.len() == 12);
    assert("warning_threshold_mb"@.len() == 20);
    assert("interval_ms"@.len() == 11);
    assert("grace_ms"@.len() == 8);
    lemma_plain_setting_line(c, "notify"@, val);
}

/// A configuration line `exclude=NAME` (`NAME` ASCII, without commas, not
/// starting or ending with whitespace) adds `NAME` with `A`-`Z` lower-cased
/// to the whitelist and changes nothing else.
pub proof fn lemma_config_exclude_key(c: ConfigView, name: Seq<char>)
    requires
        name.len() > 0,
        !is_ws(name[0]),
        !is_ws(name.last()),
        forall|j: int| 0 <= j < name.len() ==> name[j] != ',',
        is_ascii_text(name),
    ensures
        config_line_effect(c, "exclude="@ + name) == (ConfigView {
            whitelist: c.whitelist.insert(ascii_lower(name)),
            ..c
        }),
{
    reveal_strlit("exclude");
    reveal_strlit("exclude=");
    assert("exclude="@ =~= "exclude"@ + seq!['=']);
    lemma_plain_key("exclude"@);
    assert("exclude"@.len() == 7);
    reveal_strlit("threshold_mb");
    reveal_strlit("warning_threshold_mb");
    reveal_strlit("interval_ms");
    reveal_strlit("grace_ms");
    reveal_strlit("notify");
    assert("threshold_mb"@.len() == 12);
    assert("warning_threshold_mb"@.len() == 20);
    assert("interval_ms"@.len() == 11);
    assert("grace_ms"@.len() == 8);
    assert("notify"@.len() == 6);
    lemma_plain_setting_line(c, "exclude"@, name);
    lemma_split_acc_no_sep(name, ',');
    let items = split_on(name, ',');
    assert(items =~= seq![name]);
    assert(items.drop_last() =~= Seq::<Seq<char>>::empty());
    assert(trim_start(name) == name);
    assert(trim_end(name) == name);
    assert(lower_text(name).len() > 0);
    assert(items.last() == name);
    assert(trim(name) == name);
    assert(add_exclusions(c.whitelist, items.drop_last()) == c.whitelist);
    assert(add_exclusions(c.whitelist, items) == c.whitelist.insert(ascii_lower(name)));
}

/// What the command-line loop does next.
#[derive(Debug, Clone, Copy, PartialEq, Eq, Structural)]
pub enum ArgAction {
    /// Continue with the argument at this index.
    Next(usize),
    /// Load the configuration file named by the argument at `path_index`,
    /// then continue with the argument at `next`.
    LoadConfig { path_index: usize, next: usize },
    /// Print the usage text and exit successfully.
    ShowHelp,
    /// The argument is not an option: print an error and the usage text, and
    /// exit with status 1.
    Unknown,
}

/// The texts of a list of strings.
pub open spec fn string_texts(v: Seq<String>) -> Seq<Seq<char>> {
    v.map_values(|s: String| s@)
}

/// `a` is one of the two spellings of an option.
pub open spec fn is_opt(a: Seq<char>, short: Seq<char>, long: Seq<char>) -> bool {
    a == short || a == long
}

/// The effect of the command-line argument at index `i` (which is at least 1
/// and within `args`), and what to do next.
///
/// An option that takes a value and stands last consumes nothing more and
/// changes nothing; a value that does not parse is skipped over.
pub open spec fn arg_effect(c: ConfigView, args: Seq<Seq<char>>, i: int) -> (ConfigView, ArgAction) {
    let a = args[i];
    let has_value = i < args.len() - 1;
    let v = args[i + 1];
    let skip_value = ArgAction::Next((i + 2) as usize);
    let no_value = ArgAction::Next((i + 1) as usize);
    if is_opt(a, "-t"@, "--threshold"@) || is_opt(a, "-w"@, "--warning-threshold"@) || is_opt(
        a,
        "-i"@,
        "--interval"@,
    ) || is_opt(a, "-g"@, "--grace"@) || is_opt(a, "-m"@, "--min-target-rss"@) {
        if !has_value {
            (c, no_value)
        } else {
            match parse_u64(v) {
                None => (c, skip_value),
                Some(x) => if is_opt(a, "-t"@, "--threshold"@) {
                    (ConfigView { critical_threshold_mb: x, ..c }, skip_value)
                } else if is_opt(a, "-w"@, "--warning-threshold"@) {
                    (ConfigView { warning_threshold_mb: x, ..c }, skip_value)
                } else if is_opt(a, "-i"@, "--interval"@) {
                    (ConfigView { interval_ms: x, ..c }, skip_value)
                } else if is_opt(a, "-g"@, "--grace"@) {
                    (ConfigView { grace_ms: x, ..c }, skip_value)
                } else {
                    (ConfigView { policy: SelectionPolicy::MinRssThreshold(x), ..c }, skip_value)
                },
            }
        }
    } else if is_opt(a, "-e"@, "--exclude"@) {
        if has_value {
            (ConfigView { whitelist: c.whitelist.insert(lower_text(v)), ..c }, skip_value)
        } else {
            (c, no_value)
        }
    } else if is_opt(a, "-n"@, "--notify"@) {
        (ConfigView { notify: true, ..c }, no_value)
    } else if a == "--dry-run"@ {
        (ConfigView { dry_run: true, ..c }, no_value)
    } else if is_opt(a, "-v"@, "--verbose"@) {
        (ConfigView { verbose: true, ..c }, no_value)
    } else if is_opt(a, "-c"@, "--config"@) {
        if has_value {
            (c, ArgAction::LoadConfig { path_index: (i + 1) as usize, next: (i + 2) as usize })
        } else {
            (c, no_value)
        }
    } else if is_opt(a, "-h"@, "--help"@) {
        (c, ArgAction::ShowHelp)
    } else {
        (c, ArgAction::Unknown)
    }
}

/// No command-line option removes a name from the whitelist; `-e NAME`
/// adds `NAME` lower-cased.
pub proof fn lemma_arg_keeps_whitelist(c: ConfigView, args: Seq<Seq<char>>, i: int)
    requires
        1 <= i < args.len(),
    ensures
        c.whitelist.subset_of(arg_effect(c, args, i).0.whitelist),
        is_opt(args[i], "-e"@, "--exclude"@) && i + 1 < args.len() ==> arg_effect(
            c,
            args,
            i,
        ).0.whitelist == c.whitelist.insert(lower_text(args[i + 1])),
{
    reveal_strlit("-e");
    reveal_strlit("--exclude");
    reveal_strlit("-t");
    reveal_strlit("--threshold");
    reveal_strlit("-w");
    reveal_strlit("--warning-threshold");
    reveal_strlit("-i");
    reveal_strlit("--interval");
    reveal_strlit("-g");
    reveal_strlit("--grace");
    reveal_strlit("-m");
    reveal_strlit("--min-target-rss");
    assert("-e"@[1] != "-t"@[1]);
    assert("-e"@[1] != "-w"@[1]);
    assert("-e"@[1] != "-i"@[1]);
    assert("-e"@[1] != "-g"@[1]);
    assert("-e"@[1] != "-m"@[1]);
    assert("-e"@ != "-t"@);
    assert("--exclude"@.len() == 9);
    assert("--exclude"@ != "--threshold"@);
    if is_opt(args[i], "-e"@, "--exclude"@) && i + 1 < args.len() {
        assert(!is_opt(args[i], "-t"@, "--threshold"@));
        assert(!is_opt(args[i], "-m"@, "--min-target-rss"@));
    }
}

/// An option that sets a number sets it to its value whatever the settings
/// before it, and sets nothing else: a later option overrides an earlier
/// option or configuration file.
pub proof fn lemma_option_overrides(c: ConfigView, args: Seq<Seq<char>>, i: int)
    requires
        1 <= i,
        i + 1 < args.len(),
        parse_u64(args[i + 1]) is Some,
    ensures
        ({
            let a = args[i];
            let x = parse_u64(args[i + 1])->0;
            let r = arg_effect(c, args, i).0;
            &&& is_opt(a, "-t"@, "--threshold"@) ==> r == ConfigView { critical_threshold_mb: x, ..c }
            &&& is_opt(a, "-w"@, "--warning-threshold"@) ==> r == ConfigView { warning_threshold_mb: x, ..c }
            &&& is_opt(a, "-i"@, "--interval"@) ==> r == ConfigView { interval_ms: x, ..c }
            &&& is_opt(a, "-g"@, "--grace"@) ==> r == ConfigView { grace_ms: x, ..c }
            &&& is_opt(a, "-m"@, "--min-target-rss"@) ==> r == ConfigView {
                policy: SelectionPolicy::MinRssThreshold(x),
                ..c
            }
        }),
{
    reveal_strlit("-t");
    reveal_strlit("-w");
    reveal_strlit("-i");
    reveal_strlit("-g");
    reveal_strlit("-m");
    reveal_strlit("--threshold");
    reveal_strlit("--warning-threshold");
    reveal_strlit("--interval");
    reveal_strlit("--grace");
    reveal_strlit("--min-target-rss");
    assert("-t"@[1] != "-w"@[1]);
    assert("-t"@[1] != "-i"@[1]);
    assert("-t"@[1] != "-g"@[1]);
    assert("-t"@[1] != "-m"@[1]);
    assert("-w"@[1] != "-i"@[1]);
    assert("-w"@[1] != "-g"@[1]);
    assert("-w"@[1] != "-m"@[1]);
    assert("-i"@[1] != "-g"@[1]);
    assert("-i"@[1] != "-m"@[1]);
    assert("-g"@[1] != "-m"@[1]);
    assert("-t"@ != "-w"@);
    assert("-t"@ != "-i"@);
    assert("-t"@ != "-g"@);
    assert("-t"@ != "-m"@);
    assert("-t"@ != "--threshold"@);
    assert("-t"@ != "--warning-threshold"@);
    assert("-t"@ != "--interval"@);
    assert("-t"@ != "--grace"@);
    assert("-t"@ != "--min-target-rss"@);
    assert("-w"@ != "-i"@);
    assert("-w"@ != "-g"@);
    assert("-w"@ != "-m"@);
    assert("-w"@ != "--threshold"@);
    assert("-w"@ != "--warning-threshold"@);
    assert("-w"@ != "--interval"@);
    assert("-w"@ != "--grace"@);
    assert("-w"@ != "--min-target-rss"@);
    assert("-i"@ != "-g"@);
    assert("-i"@ != "-m"@);
    assert("-i"@ != "--threshold"@);
    assert("-i"@ != "--warning-threshold"@);
    assert("-i"@ != "--interval"@);
    assert("-i"@ != "--grace"@);
    assert("-i"@ != "--min-target-rss"@);
    assert("-g"@ != "-m"@);
    assert("-g"@ != "--threshold"@);
    assert("-g"@ != "--warning-threshold"@);
    assert("-g"@ != "--interval"@);
    assert("-g"@ != "--grace"@);
    assert("-g"@ != "--min-target-rss"@);
    assert("-m"@ != "--threshold"@);
    assert("-m"@ != "--warning-threshold"@);
    assert("-m"@ != "--interval"@);
    assert("-m"@ != "--grace"@);
    assert("-m"@ != "--min-target-rss"@);
    assert("--threshold"@[2] != "--warning-threshold"@[2]);
    assert("--threshold"@[2] != "--interval"@[2]);
    assert("--threshold"@[2] != "--grace"@[2]);
    assert("--threshold"@[2] != "--min-target-rss"@[2]);
    assert("--warning-threshold"@[2] != "--interval"@[2]);
    assert("--warning-threshold"@[2] != "--grace"@[2]);
    assert("--warning-threshold"@[2] != "--min-target-rss"@[2]);
    assert("--interval"@[2] != "--grace"@[2]);
    assert("--interval"@[2] != "--min-target-rss"@[2]);
    assert("--grace"@[2] != "--min-target-rss"@[2]);
    assert("--threshold"@ != "--warning-threshold"@);
    assert("--threshold"@ != "--interval"@);
    assert("--threshold"@ != "--grace"@);
    assert("--threshold"@ != "--min-target-rss"@);
    assert("--warning-threshold"@ != "--interval"@);
    assert("--warning-threshold"@ != "--grace"@);
    assert("--warning-threshold"@ != "--min-target-rss"@);
    assert("--interval"@ != "--grace"@);
    assert("--interval"@ != "--min-target-rss"@);
    assert("--grace"@ != "--min-target-rss"@);
}

/// Every documented option, in its short and its long spelling, acts as
/// follows; only an argument that is none of them is unknown.
///
/// A number option (`-t`, `-w`, `-i`, `-g`, `-m`) consumes the next argument
/// if there is one (and sets its number when it parses, see
/// `lemma_option_overrides`); `-e NAME` adds `NAME` lower-cased to the
/// whitelist; `-n`, `--dry-run` and `-v` switch on notifications, the dry
/// run and verbose output; `-c FILE` asks for `FILE` to be loaded; `-h`
/// asks for the help text. An option that takes a value and stands last
/// consumes nothing and changes nothing.
pub proof fn lemma_documented_options(c: ConfigView, args: Seq<Seq<char>>, i: int)
    requires
        1 <= i < args.len(),
        args.len() <= usize::MAX,
    ensures
        ({
            let a = args[i];
            let has_value = i + 1 < args.len();
            let r = arg_effect(c, args, i);
            let next1 = ArgAction::Next((i + 1) as usize);
            let next2 = ArgAction::Next((i + 2) as usize);
            &&& is_opt(a, "-t"@, "--threshold"@) ==> r.1 == (if has_value { next2 } else { next1 })
            &&& is_opt(a, "-t"@, "--threshold"@) && (!has_value || parse_u64(args[i + 1]) is None) ==> r.0 == c
            &&& is_opt(a, "-w"@, "--warning-threshold"@) ==> r.1 == (if has_value { next2 } else { next1 })
            &&& is_opt(a, "-w"@, "--warning-threshold"@) && (!has_value || parse_u64(args[i + 1]) is None) ==> r.0 == c
            &&& is_opt(a, "-i"@, "--interval"@) ==> r.1 == (if has_value { next2 } else { next1 })
            &&& is_opt(a, "-i"@, "--interval"@) && (!has_value || parse_u64(args[i + 1]) is None) ==> r.0 == c
            &&& is_opt(a, "-g"@, "--grace"@) ==> r.1 == (if has_value { next2 } else { next1 })
            &&& is_opt(a, "-g"@, "--grace"@) && (!has_value || parse_u64(args[i + 1]) is None) ==> r.0 == c
            &&& is_opt(a, "-m"@, "--min-target-rss"@) ==> r.1 == (if has_value { next2 } else { next1 })
            &&& is_opt(a, "-m"@, "--min-target-rss"@) && (!has_value || parse_u64(args[i + 1]) is None) ==> r.0 == c
            &&& is_opt(a, "-e"@, "--exclude"@) ==> r == (if has_value {
                (ConfigView { whitelist: c.whitelist.insert(lower_text(args[i + 1])), ..c }, next2)
            } else {
                (c, next1)
            })
            &&& is_opt(a, "-n"@, "--notify"@) ==> r == (ConfigView { notify: true, ..c }, next1)
            &&& a == "--dry-run"@ ==> r == (ConfigView { dry_run: true, ..c }, next1)
            &&& is_opt(a, "-v"@, "--verbose"@) ==> r == (ConfigView { verbose: true, ..c }, next1)
            &&& is_opt(a, "-c"@, "--config"@) ==> r == (if has_value {
                (c, ArgAction::LoadConfig { path_index: (i + 1) as usize, next: (i + 2) as usize })
            } else {
                (c, next1)
            })
            &&& is_opt(a, "-h"@, "--help"@) ==> r == (c, ArgAction::ShowHelp)
            &&& (r.1 == ArgAction::Unknown <==> (a != "-t"@ && a != "--threshold"@ && a != "-w"@ && a != "--warning-threshold"@ && a != "-i"@ && a != "--interval"@ && a != "-g"@ && a != "--grace"@ && a != "-m"@ && a != "--min-target-rss"@ && a != "-e"@ && a != "--exclude"@ && a != "-n"@ && a != "--notify"@ && a != "--dry-run"@ && a != "-v"@ && a != "--verbose"@ && a != "-c"@ && a != "--config"@ && a != "-h"@ && a != "--help"@))
            &&& r.1 == ArgAction::Unknown ==> r.0 == c
        }),
{
    reveal_strlit("-t");
    assert("-t"@.len() == 2);
    assert("-t"@[1] == 't');
    reveal_strlit("--threshold");
    assert("--threshold"@.len() == 11);
    assert("--threshold"@[1] == '-');
    assert("--threshold"@[2] == 't');
    reveal_strlit("-w");
    assert("-w"@.len() == 2);
    assert("-w"@[1] == 'w');
    reveal_strlit("--warning-threshold");
    assert("--warning-threshold"@.len() == 19);
    assert("--warning-threshold"@[1] == '-');
    assert("--warning-threshold"@[2] == 'w');
    reveal_strlit("-i");
    assert("-i"@.len() == 2);
    assert("-i"@[1] == 'i');
    reveal_strlit("--interval");
    assert("--interval"@.len() == 10);
    assert("--interval"@[1] == '-');
    assert("--interval"@[2] == 'i');
    reveal_strlit("-g");
    assert("-g"@.len() == 2);
    assert("-g"@[1] == 'g');
    reveal_strlit("--grace");
    assert("--grace"@.len() == 7);
    assert("--grace"@[1] == '-');
    assert("--grace"@[2] == 'g');
    reveal_strlit("-m");
    assert("-m"@.len() == 2);
    assert("-m"@[1] == 'm');
    reveal_strlit("--min-target-rss");
    assert("--min-target-rss"@.len() == 16);
    assert("--min-target-rss"@[1] == '-');
    assert("--min-target-rss"@[2] == 'm');
    reveal_strlit("-e");
    assert("-e"@.len() == 2);
    assert("-e"@[1] == 'e');
    reveal_strlit("--exclude");
    assert("--exclude"@.len() == 9);
    assert("--exclude"@[1] == '-');
    assert("--exclude"@[2] == 'e');
    reveal_strlit("-n");
    assert("-n"@.len() == 2);
    assert("-n"@[1] == 'n');
    reveal_strlit("--notify");
    assert("--notify"@.len() == 8);
    assert("--notify"@[1] == '-');
    assert("--notify"@[2] == 'n');
    reveal_strlit("--dry-run");
    assert("--dry-run"@.len() == 9);
    assert("--dry-run"@[1] == '-');
    assert("--dry-run"@[2] == 'd');
    reveal_strlit("-v");
    assert("-v"@.len() == 2);
    assert("-v"@[1] == 'v');
    reveal_strlit("--verbose");
    assert("--verbose"@.len() == 9);
    assert("--verbose"@[1] == '-');
    assert("--verbose"@[2] == 'v');
    reveal_strlit("-c");
    assert("-c"@.len() == 2);
    assert("-c"@[1] == 'c');
    reveal_strlit("--config");
    assert("--config"@.len() == 8);
    assert("--config"@[1] == '-');
    assert("--config"@[2] == 'c');
    reveal_strlit("-h");
    assert("-h"@.len() == 2);
    assert("-h"@[1] == 'h');
    reveal_strlit("--help");
    assert("--help"@.len() == 6);
    assert("--help"@[1] == '-');
    assert("--help"@[2] == 'h');
}

/// Each argument moves the command-line loop forward, and never past the
/// end: a loop that follows the actions ends after at most one step per
/// argument.
pub proof fn lemma_arg_progress(c: ConfigView, args: Seq<Seq<char>>, i: int)
    requires
        1 <= i < args.len(),
        args.len() <= usize::MAX,
    ensures
        match arg_effect(c, args, i).1 {
            ArgAction::Next(n) => i < n <= args.len(),
            ArgAction::LoadConfig { path_index, next } => path_index == i + 1 && next == i + 2 && next
                <= args.len(),
            _ => true,
        },
{
}

/// The rest of the usage text, after the program name.
pub open spec fn usage_tail() -> Seq<char> {
    " [OPTIONS]\n\nOptions:\n  -t, --threshold <MB>         Critical free memory threshold in MB (default: 200)\n  -w, --warning-threshold <MB> Warning free memory threshold in MB (default: 500)\n  -i, --interval <ms>          Check interval in milliseconds (default: 200)\n  -g, --grace <ms>             SIGTERM grace period before SIGKILL in ms (default: 1000)\n  -m, --min-target-rss <MB>    Only target processes using at least X MB RAM\n  -e, --exclude <name>         Add process name to whitelist (can be repeated)\n  -c, --config <file>          Load custom configuration file\n  -n, --notify                 Send desktop notification via notify-send\n      --dry-run                Monitor without killing any processes\n  -v, --verbose                Enable verbose debug output\n  -h, --help                   Show help message\n"@
}

/// The help text printed for `-h`.
pub fn usage_text(prog: &str) -> (s: String)
    ensures
        s@ == "Usage: "@ + prog@ + usage_tail(),
{
    let mut out: Vec<char> = Vec::new();
    push_str(&mut out, "Usage: ");
    push_str(&mut out, prog);
    push_str(
        &mut out,
        " [OPTIONS]\n\nOptions:\n  -t, --threshold <MB>         Critical free memory threshold in MB (default: 200)\n  -w, --warning-threshold <MB> Warning free memory threshold in MB (default: 500)\n  -i, --interval <ms>          Check interval in milliseconds (default: 200)\n  -g, --grace <ms>             SIGTERM grace period before SIGKILL in ms (default: 1000)\n  -m, --min-target-rss <MB>    Only target processes using at least X MB RAM\n  -e, --exclude <name>         Add process name to whitelist (can be repeated)\n  -c, --config <file>          Load custom configuration file\n  -n, --notify                 Send desktop notification via notify-send\n      --dry-run                Monitor without killing any processes\n  -v, --verbose                Enable verbose debug output\n  -h, --help                   Show help message\n",
    );
    string_from_chars(&out)
}

fn default_process_name_list() -> (v: Vec<Vec<char>>)
    ensures
        views(v@) == default_process_names(),
{
    let mut v: Vec<Vec<char>> = Vec::new();
    v.push(chars_of("systemd"));
    v.push(chars_of("init"));
    v.push(chars_of("sshd"));
    v.push(chars_of("Xorg"));
    v.push(chars_of("Xwayland"));
    v.push(chars_of("hyprland"));
    v.push(chars_of("kwin"));
    v.push(chars_of("mutter"));
    v.push(chars_of("gnome-shell"));
    v.push(chars_of("sway"));
    v.push(chars_of("dbus-daemon"));
    v.push(chars_of("dbus-broker"));
    v.push(chars_of("pipewire"));
    v.push(chars_of("wireplumber"));
    v.push(chars_of("antigravity"));
    v.push(chars_of("agy"));
    v.push(chars_of("bash"));
    v.push(chars_of("zsh"));
    v.push(chars_of("fish"));
    v.push(chars_of("tmux"));
    v.push(chars_of("screen"));
    v.push(chars_of("memwatchdog"));
    proof {
        assert(views(v@) =~= default_process_names());
    }
    v
}

impl Default for Config {
    fn default() -> (c: Self)
        ensures
            c@ == default_config(),
    {
        let names = default_process_name_list();
        let mut whitelist = Whitelist::new();
        let n = names.len();
        let mut k: usize = 0;
        while k < n
            invariant
                k <= n,
                n == names@.len(),
                views(names@) == default_process_names(),
                whitelist@ == default_process_names().take(k as int).map_values(
                    |n: Seq<char>| lower_text(n),
                ).to_set(),
            decreases n - k,
        {
            let lower = to_lowercase(&names[k]);
            whitelist.insert_chars(&lower);
            proof {
                let f = |n: Seq<char>| lower_text(n);
                let d = default_process_names();
                assert(names@[k as int]@ == d[k as int]);
                assert(d.take(k + 1).map_values(f) =~= d.take(k as int).map_values(f).push(
                    lower_text(d[k as int]),
                ));
            }
            k += 1;
        }
        proof {
            assert(default_process_names().take(n as int) =~= default_process_names());
        }
        Config {
            critical_threshold_mb: 200,
            warning_threshold_mb: 500,
            interval_ms: 200,
            grace_ms: 1000,
            policy: SelectionPolicy::HighestRss,
            verbose: false,
            dry_run: false,
            notify: false,
            whitelist,
        }
    }
}

impl Config {
    /// The system-wide configuration file, read first.
    pub fn system_config_path() -> (p: &'static str)
        ensures
            p@ == "/etc/memwatchdog.conf"@,
    {
        "/etc/memwatchdog.conf"
    }

    /// The per-user configuration file under the home directory `home`.
    pub fn user_config_path(home: &str) -> (p: String)
        ensures
            p@ == home@ + "/.config/memwatchdog.conf"@,
    {
        let mut out: Vec<char> = Vec::new();
        push_str(&mut out, home);
        push_str(&mut out, "/.config/memwatchdog.conf");
        string_from_chars(&out)
    }

    /// Adds the items of an `exclude=` value.
    fn add_exclusions(&mut self, val: &Vec<char>)
        ensures
            final(self)@ == (ConfigView {
                whitelist: add_exclusions(old(self)@.whitelist, split_on(val@, ',')),
                ..old(self)@
            }),
    {
        let items = split_chars(val, ',');
        let n = items.len();
        let mut k: usize = 0;
        while k < n
            invariant
                k <= n,
                n == items@.len(),
                views(items@) == split_on(val@, ','),
                self@ == (ConfigView {
                    whitelist: add_exclusions(old(self)@.whitelist, views(items@).take(k as int)),
                    ..old(self)@
                }),
            decreases n - k,
        {
            let name = to_lowercase(&trim_chars(&items[k]));
            proof {
                let t = views(items@);
                assert(t.take(k + 1).drop_last() =~= t.take(k as int));
                assert(t.take(k + 1).last() == items@[k as int]@);
            }
            if name.len() > 0 {
                self.whitelist.insert_chars(&name);
            }
            k += 1;
        }
        proof {
            assert(views(items@).take(n as int) =~= views(items@));
        }
    }

    /// Applies the setting `key = val`, where `key` is already trimmed and
    /// lower-cased and `val` trimmed.
    pub fn apply_setting(&mut self, key: &Vec<char>, val: &Vec<char>)
        ensures
            final(self)@ == setting_effect(old(self)@, key@, val@),
    {
        if eq_str(key, "threshold_mb") {
            if let Some(x) = parse_u64_chars(val) {
                self.critical_threshold_mb = x;
            }
        } else if eq_str(key, "warning_threshold_mb") {
            if let Some(x) = parse_u64_chars(val) {
                self.warning_threshold_mb = x;
            }
        } else if eq_str(key, "interval_ms") {
            if let Some(x) = parse_u64_chars(val) {
                self.interval_ms = x;
            }
        } else if eq_str(key, "grace_ms") {
            if let Some(x) = parse_u64_chars(val) {
                self.grace_ms = x;
            }
        } else if eq_str(key, "notify") {
            self.notify = eq_ignore_ascii_case_str(val, "true") || eq_str(val, "1");
        } else if eq_str(key, "exclude") {
            self.add_exclusions(val);
        }
    }

    /// Applies one line of a configuration file.
    pub fn apply_config_line(&mut self, raw: &Vec<char>)
        ensures
            final(self)@ == config_line_effect(old(self)@, raw@),
    {
        let line = trim_chars(raw);
        if line.len() == 0 || line[0] == '#' {
            return;
        }
        match split_once_chars(&line, '=') {
            None => {},
            Some((k, v)) => {
                let key = to_lowercase(&trim_chars(&k));
                let val = trim_chars(&v);
                self.apply_setting(&key, &val);
            },
        }
    }

    /// Applies the contents of a configuration file, line by line.
    pub fn load_config_str(&mut self, content: &str)
        ensures
            final(self)@ == config_lines_effect(old(self)@, lines(content@)),
    {
        let chars = chars_of(content);
        let ls = split_lines(&chars);
        let n = ls.len();
        let mut k: usize = 0;
        while k < n
            invariant
                k <= n,
                n == ls@.len(),
                views(ls@) == lines(content@),
                self@ == config_lines_effect(old(self)@, views(ls@).take(k as int)),
            decreases n - k,
        {
            proof {
                let t = views(ls@);
                assert(t.take(k + 1).drop_last() =~= t.take(k as int));
                assert(t.take(k + 1).last() == ls@[k as int]@);
            }
            self.apply_config_line(&ls[k]);
            k += 1;
        }
        proof {
            assert(views(ls@).take(n as int) =~= views(ls@));
        }
    }

    /// Applies the command-line argument at index `i` and says what to do
    /// next.
    pub fn apply_arg(&mut self, args: &Vec<String>, i: usize) -> (next: ArgAction)
        requires
            1 <= i < args@.len(),
        ensures
            (final(self)@, next) == arg_effect(old(self)@, string_texts(args@), i as int),
    {
        let ghost texts = string_texts(args@);
        let a = chars_of(args[i].as_str());
        let has_value = i < args.len() - 1;
        proof {
            assert(a@ == texts[i as int]);
            if has_value {
                assert(args@[i + 1]@ == texts[i + 1]);
            }
        }
        let numeric = eq_str(&a, "-t") || eq_str(&a, "--threshold") || eq_str(&a, "-w") || eq_str(
            &a,
            "--warning-threshold",
        ) || eq_str(&a, "-i") || eq_str(&a, "--interval") || eq_str(&a, "-g") || eq_str(
            &a,
            "--grace",
        ) || eq_str(&a, "-m") || eq_str(&a, "--min-target-rss");
        if numeric {
            if !has_value {
                return ArgAction::Next(i + 1);
            }
            let v = chars_of(args[i + 1].as_str());
            match parse_u64_chars(&v) {
                None => {},
                Some(x) => {
                    if eq_str(&a, "-t") || eq_str(&a, "--threshold") {
                        self.critical_threshold_mb = x;
                    } else if eq_str(&a, "-w") || eq_str(&a, "--warning-threshold") {
                        self.warning_threshold_mb = x;
                    } else if eq_str(&a, "-i") || eq_str(&a, "--interval") {
                        self.interval_ms = x;
                    } else if eq_str(&a, "-g") || eq_str(&a, "--grace") {
                        self.grace_ms = x;
                    } else {
                        self.policy = SelectionPolicy::MinRssThreshold(x);
                    }
                },
            }
            ArgAction::Next(i + 2)
        } else if eq_str(&a, "-e") || eq_str(&a, "--exclude") {
            if has_value {
                let v = chars_of(args[i + 1].as_str());
                let lower = to_lowercase(&v);
                self.whitelist.insert_chars(&lower);
                ArgAction::Next(i + 2)
            } else {
                ArgAction::Next(i + 1)
            }
        } else if eq_str(&a, "-n") || eq_str(&a, "--notify") {
            self.notify = true;
            ArgAction::Next(i + 1)
        } else if eq_str(&a, "--dry-run") {
            self.dry_run = true;
            ArgAction::Next(i + 1)
        } else if eq_str(&a, "-v") || eq_str(&a, "--verbose") {
            self.verbose = true;
            ArgAction::Next(i + 1)
        } else if eq_str(&a, "-c") || eq_str(&a, "--config") {
            if has_value {
                ArgAction::LoadConfig { path_index: i + 1, next: i + 2 }
            } else {
                ArgAction::Next(i + 1)
            }
        } else if eq_str(&a, "-h") || eq_str(&a, "--help") {
            ArgAction::ShowHelp
        } else {
            ArgAction::Unknown
        }
    }
}

} // verus!
