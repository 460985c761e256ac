//! User configuration: defaults, validation and updates.
use vstd::prelude::*;
use crate::text::{chars_of, list_contains, owned, owned_all, text_eq, texts};

verus! {

/// General behaviour.
pub struct GeneralConfig {
    pub auto_update: bool,
    pub parallel_installs: bool,
    pub max_parallel_jobs: usize,
    pub confirm_installs: bool,
    pub log_level: String,
    pub fallback_enabled: bool,
}

/// Package manager ("box") preferences.
pub struct BoxConfig {
    pub preferred_order: Vec<String>,
    pub disabled_boxes: Vec<String>,
    pub apt_options: Vec<String>,
    pub dnf_options: Vec<String>,
    pub pacman_options: Vec<String>,
    pub snap_options: Vec<String>,
    pub flatpak_options: Vec<String>,
}

/// Security settings.
pub struct SecurityConfig {
    pub verify_signatures: bool,
    pub verify_checksums: bool,
    pub allow_untrusted: bool,
    pub check_mirrors: bool,
    pub signature_servers: Vec<String>,
    pub trusted_keys: Vec<String>,
    pub interactive_prompts: bool,
}

/// User interface settings.
pub struct UiConfig {
    pub show_progress: bool,
    pub use_colors: bool,
    pub compact_output: bool,
    pub gui_theme: String,
}

/// The whole configuration.
pub struct OmniConfig {
    pub general: GeneralConfig,
    pub boxes: BoxConfig,
    pub security: SecurityConfig,
    pub ui: UiConfig,
}

/// Why a configuration update was refused.
pub enum ConfigError {
    /// The value is not `true` or `false`.
    InvalidBool(String),
    /// The value is not a number of jobs.
    InvalidNumber(String),
    /// The value is not a log level.
    InvalidLogLevel(String),
    /// No general option has this name.
    UnknownOption(String),
}

/// The log levels a configuration may name.
pub open spec fn log_levels() -> Seq<Seq<char>> {
    seq!["error"@, "warn"@, "info"@, "debug"@, "trace"@]
}

/// The interface themes a configuration may name.
pub open spec fn themes() -> Seq<Seq<char>> {
    seq!["dark"@, "light"@, "auto"@]
}

/// The package managers preferred by default, in order.
pub open spec fn default_preferred_order() -> Seq<Seq<char>> {
    seq!["apt"@, "dnf"@, "pacman"@, "flatpak"@, "snap"@, "appimage"@]
}

/// The texts of `s` other than `x`, in order.
pub open spec fn remove_all(s: Seq<Seq<char>>, x: Seq<char>) -> Seq<Seq<char>>
    decreases s.len(),
{
    if s.len() == 0 {
        s
    } else if s.last() == x {
        remove_all(s.drop_last(), x)
    } else {
        remove_all(s.drop_last(), x).push(s.last())
    }
}

/// The disabled managers after `n` is enabled (every copy removed) or
/// disabled (added at the end unless already there).
pub open spec fn disabled_after(d: Seq<Seq<char>>, n: Seq<char>, enabled: bool) -> Seq<Seq<char>> {
    if enabled {
        remove_all(d, n)
    } else if d.contains(n) {
        d
    } else {
        d.push(n)
    }
}

/// The preferred order with `n` added at its end unless already there.
pub open spec fn with_added(p: Seq<Seq<char>>, n: Seq<char>) -> Seq<Seq<char>> {
    if p.contains(n) {
        p
    } else {
        p.push(n)
    }
}

/// A pushed sequence holds what it held and the pushed text.
pub proof fn lemma_push_contains(p: Seq<Seq<char>>, x: Seq<char>, y: Seq<char>)
    ensures
        p.push(x).contains(y) <==> (p.contains(y) || x == y),
{
    if p.push(x).contains(y) {
        let i = choose|i: int| 0 <= i < p.len() + 1 && p.push(x)[i] == y;
        if i < p.len() {
            assert(p[i] == y);
        }
    }
    if p.contains(y) {
        let i = choose|i: int| 0 <= i < p.len() && p[i] == y;
        assert(p.push(x)[i] == y);
    }
    if x == y {
        assert(p.push(x)[p.len() as int] == y);
    }
}

/// `remove_all` leaves no `x` and every other text.
pub proof fn lemma_remove_all(s: Seq<Seq<char>>, x: Seq<char>, y: Seq<char>)
    ensures
        !remove_all(s, x).contains(x),
        y != x ==> (remove_all(s, x).contains(y) <==> s.contains(y)),
        !s.contains(x) ==> remove_all(s, x) == s,
    decreases s.len(),
{
    if s.len() > 0 {
        let d = s.drop_last();
        lemma_remove_all(d, x, y);
        lemma_remove_all(d, x, x);
        let p = remove_all(d, x);
        assert(d.push(s.last()) =~= s);
        lemma_push_contains(d, s.last(), y);
        lemma_push_contains(d, s.last(), x);
        if s.last() != x {
            lemma_push_contains(p, s.last(), y);
            lemma_push_contains(p, s.last(), x);
        }
    }
}

/// The value of a string of decimal digits.
pub open spec fn digits_value(s: Seq<char>) -> nat
    decreases s.len(),
{
    if s.len() == 0 {
        0
    } else {
        digits_value(s.drop_last()) * 10 + ((s.last() as u32) - ('0' as u32)) as nat
    }
}

/// Every character of `s` is a decimal digit.
pub open spec fn all_digits(s: Seq<char>) -> bool {
    forall|i: int| 0 <= i < s.len() ==> '0' <= #[trigger] s[i] && s[i] <= '9'
}

/// What `str::parse::<usize>` gives: an optional `+`, then one or more
/// decimal digits whose value fits.
pub open spec fn parse_usize(s: Seq<char>) -> Option<usize> {
    let d = if s.len() > 0 && s[0] == '+' { s.drop_first() } else { s };
    if d.len() > 0 && all_digits(d) && digits_value(d) <= usize::MAX {
        Some(digits_value(d) as usize)
    } else {
        None
    }
}

/// What `str::parse::<bool>` gives.
pub open spec fn parse_bool(s: Seq<char>) -> Option<bool> {
    if s == "true"@ {
        Some(true)
    } else if s == "false"@ {
        Some(false)
    } else {
        None
    }
}

/// A longer string of digits is worth at least as much as its prefix.
pub(crate) proof fn lemma_digits_value_grows(s: Seq<char>, k: int)
    requires
        0 <= k <= s.len(),
        all_digits(s),
    ensures
        digits_value(s.take(k)) <= digits_value(s),
    decreases s.len() - k,
{
    if k < s.len() {
        lemma_digits_value_grows(s, k + 1);
        assert(s.take(k + 1).drop_last() =~= s.take(k));
        assert(s.take(k + 1).last() == s[k]);
        assert('0' <= s[k]);
    } else {
        assert(s.take(k) =~= s);
    }
}

/// Parses a number of jobs.
pub fn parse_usize_exec(s: &str) -> (r: Option<usize>)
    ensures
        r == parse_usize(s@),
{
    let v = chars_of(s);
    let start: usize = if v.len() > 0 && v[0] == '+' { 1 } else { 0 };
    let ghost d = if s@.len() > 0 && s@[0] == '+' { s@.drop_first() } else { s@ };
    assert(d =~= v@.subrange(start as int, v@.len() as int));
    if start >= v.len() {
        return None;
    }
    let mut acc: usize = 0;
    let mut i: usize = start;
    while i < v.len()
        invariant
            start <= i <= v@.len(),
            d =~= v@.subrange(start as int, v@.len() as int),
            d == (if s@.len() > 0 && s@[0] == '+' { s@.drop_first() } else { s@ }),
            d.len() > 0,
            v@ == s@,
            forall|j: int| 0 <= j < i - start ==> '0' <= #[trigger] d[j] && d[j] <= '9',
            acc == digits_value(d.take(i - start)),
        decreases v.len() - i,
    {
        let c = v[i];
        if c < '0' || c > '9' {
            assert(d[i - start] == c);
            return None;
        }
        let digit = (c as u32 - '0' as u32) as usize;
        assert(d.take(i - start + 1).drop_last() =~= d.take(i - start));
        assert(d.take(i - start + 1).last() == c);
        match acc.checked_mul(10) {
            None => {
                proof {
                    if all_digits(d) {
                        lemma_digits_value_grows(d, i - start + 1);
                    }
                }
                return None;
            },
            Some(m) => match m.checked_add(digit) {
                None => {
                    proof {
                        if all_digits(d) {
                            lemma_digits_value_grows(d, i - start + 1);
                        }
                    }
                    return None;
                },
                Some(n) => {
                    acc = n;
                },
            },
        }
        i = i + 1;
    }
    assert(d.take(d.len() as int) =~= d);
    Some(acc)
}


/// The first position of `x` in `s`, if any.
pub open spec fn first_index(s: Seq<Seq<char>>, x: Seq<char>) -> Option<int> {
    if s.contains(x) {
        Some(choose|i: int| 0 <= i < s.len() && s[i] == x && forall|j: int| 0 <= j < i ==> s[j] != x)
    } else {
        None
    }
}

/// The first position of the text `name` in `v`.
pub fn position_of(v: &Vec<String>, name: &str) -> (r: Option<usize>)
    ensures
        match r {
            Some(i) => first_index(texts(v@), name@) == Some(i as int),
            None => first_index(texts(v@), name@) is None,
        },
        r is Some <==> texts(v@).contains(name@),
{
    let mut i: usize = 0;
    while i < v.len()
        invariant
            i <= v@.len(),
            forall|j: int| 0 <= j < i ==> v@[j]@ != name@,
        decreases v.len() - i,
    {
        if text_eq(v[i].as_str(), name) {
            proof {
                let t = texts(v@);
                assert(t[i as int] == name@);
                assert(t.contains(name@));
                let w = choose|k: int| 0 <= k < t.len() && t[k] == name@ && forall|j: int| 0 <= j < k ==> t[j] != name@;
                if w > i {
                    assert(t[i as int] != name@);
                }
                if w < i {
                    assert(v@[w]@ != name@);
                }
            }
            return Some(i);
        }
        i = i + 1;
    }
    proof {
        let t = texts(v@);
        if t.contains(name@) {
            let k = choose|k: int| 0 <= k < t.len() && t[k] == name@;
            assert(v@[k]@ == name@);
        }
    }
    None
}

/// Removes every copy of the text `name` from `v`.
pub fn remove_text(v: &mut Vec<String>, name: &str)
    ensures
        texts(final(v)@) == remove_all(texts(old(v)@), name@),
{
    let mut kept: Vec<String> = Vec::new();
    let mut old_v: Vec<String> = Vec::new();
    std::mem::swap(&mut old_v, v);
    let ghost t = texts(old_v@);
    let mut i: usize = 0;
    while i < old_v.len()
        invariant
            i <= old_v@.len(),
            t == texts(old_v@),
            texts(kept@) == remove_all(t.take(i as int), name@),
        decreases old_v.len() - i,
    {
        assert(t.take(i + 1).drop_last() =~= t.take(i as int));
        assert(t.take(i + 1).last() == old_v@[i as int]@);
        if !text_eq(old_v[i].as_str(), name) {
            let ghost prev = kept@;
            let x = old_v[i].clone();
            kept.push(x);
            assert(texts(kept@) =~= texts(prev).push(x@));
        }
        i = i + 1;
    }
    assert(t.take(old_v.len() as int) =~= t);
    *v = kept;
}

/// A vector holding the given texts.
fn strings(v: Vec<&str>) -> (r: Vec<String>)
    ensures
        texts(r@) == Seq::new(v@.len(), |i: int| v@[i]@),
{
    owned_all(&v)
}

impl OmniConfig {
    /// The configuration is valid: a sensible number of jobs, a known log
    /// level and theme, and at least one preferred package manager.
    pub open spec fn valid(&self) -> bool {
        &&& 1 <= self.general.max_parallel_jobs <= 16
        &&& log_levels().contains(self.general.log_level@)
        &&& self.boxes.preferred_order@.len() > 0
        &&& themes().contains(self.ui.gui_theme@)
    }

    /// The default configuration.
    pub fn default() -> (r: Self)
        ensures
            r.general.auto_update == false,
            r.general.parallel_installs == true,
            r.general.max_parallel_jobs == 4,
            r.general.confirm_installs == true,
            r.general.log_level@ == "info"@,
            r.general.fallback_enabled == true,
            texts(r.boxes.preferred_order@) == default_preferred_order(),
            r.boxes.disabled_boxes@.len() == 0,
            texts(r.boxes.apt_options@) == seq!["-y"@],
            texts(r.boxes.dnf_options@) == seq!["-y"@],
            texts(r.boxes.pacman_options@) == seq!["--noconfirm"@],
            r.boxes.snap_options@.len() == 0,
            texts(r.boxes.flatpak_options@) == seq!["-y"@],
            r.security.verify_signatures == true,
            r.security.verify_checksums == true,
            r.security.allow_untrusted == false,
            r.security.check_mirrors == true,
            texts(r.security.signature_servers@) == seq!["keyserver.ubuntu.com"@, "keys.openpgp.org"@, "pgp.mit.edu"@],
            r.security.trusted_keys@.len() == 0,
            r.security.interactive_prompts == true,
            r.ui.show_progress == true,
            r.ui.use_colors == true,
            r.ui.compact_output == false,
            r.ui.gui_theme@ == "dark"@,
            r.valid(),
    {
        let r = OmniConfig {
            general: GeneralConfig {
                auto_update: false,
                parallel_installs: true,
                max_parallel_jobs: 4,
                confirm_installs: true,
                log_level: owned("info"),
                fallback_enabled: true,
            },
            boxes: BoxConfig {
                preferred_order: strings(vec!["apt", "dnf", "pacman", "flatpak", "snap", "appimage"]),
                disabled_boxes: Vec::new(),
                apt_options: strings(vec!["-y"]),
                dnf_options: strings(vec!["-y"]),
                pacman_options: strings(vec!["--noconfirm"]),
                snap_options: Vec::new(),
                flatpak_options: strings(vec!["-y"]),
            },
            security: SecurityConfig {
                verify_signatures: true,
                verify_checksums: true,
                allow_untrusted: false,
                check_mirrors: true,
                signature_servers: strings(vec!["keyserver.ubuntu.com", "keys.openpgp.org", "pgp.mit.edu"]),
                trusted_keys: Vec::new(),
                interactive_prompts: true,
            },
            ui: UiConfig {
                show_progress: true,
                use_colors: true,
                compact_output: false,
                gui_theme: owned("dark"),
            },
        };
        assert(texts(r.boxes.preferred_order@) =~= default_preferred_order());
        assert(texts(r.boxes.apt_options@) =~= seq!["-y"@]);
        assert(texts(r.boxes.dnf_options@) =~= seq!["-y"@]);
        assert(texts(r.boxes.pacman_options@) =~= seq!["--noconfirm"@]);
        assert(texts(r.boxes.flatpak_options@) =~= seq!["-y"@]);
        assert(texts(r.security.signature_servers@) =~= seq!["keyserver.ubuntu.com"@, "keys.openpgp.org"@, "pgp.mit.edu"@]);
        assert(log_levels()[2] == r.general.log_level@);
        assert(themes()[0] == r.ui.gui_theme@);
        assert(texts(r.boxes.preferred_order@).len() == 6);
        r
    }

    /// Whether a package manager is enabled (not disabled).
    pub fn is_box_enabled(&self, box_name: &str) -> (r: bool)
        ensures
            r == !texts(self.boxes.disabled_boxes@).contains(box_name@),
    {
        position_of(&self.boxes.disabled_boxes, box_name).is_none()
    }

    /// The position of a package manager in the preferred order.
    pub fn get_box_priority(&self, box_name: &str) -> (r: Option<usize>)
        ensures
            match r {
                Some(i) => first_index(texts(self.boxes.preferred_order@), box_name@) == Some(i as int),
                None => !texts(self.boxes.preferred_order@).contains(box_name@),
            },
    {
        position_of(&self.boxes.preferred_order, box_name)
    }

    /// Validate configuration and fix any issues: the number of jobs is
    /// clamped to 1..=16, an unknown log level becomes `info`, an empty
    /// preferred order becomes `apt` alone, and an unknown theme becomes
    /// `dark`. A valid configuration is left as it is.
    #[verifier::rlimit(50)]
    pub fn validate_and_fix(&mut self)
        ensures
            final(self).valid(),
            final(self).general.max_parallel_jobs == if old(self).general.max_parallel_jobs == 0 {
                1
            } else if old(self).general.max_parallel_jobs > 16 {
                16
            } else {
                old(self).general.max_parallel_jobs
            },
            final(self).general.log_level@ == if log_levels().contains(old(self).general.log_level@) {
                old(self).general.log_level@
            } else {
                "info"@
            },
            texts(final(self).boxes.preferred_order@) == if old(self).boxes.preferred_order@.len() == 0 {
                seq!["apt"@]
            } else {
                texts(old(self).boxes.preferred_order@)
            },
            final(self).ui.gui_theme@ == if themes().contains(old(self).ui.gui_theme@) {
                old(self).ui.gui_theme@
            } else {
                "dark"@
            },
            final(self).general.auto_update == old(self).general.auto_update,
            final(self).general.parallel_installs == old(self).general.parallel_installs,
            final(self).general.confirm_installs == old(self).general.confirm_installs,
            final(self).general.fallback_enabled == old(self).general.fallback_enabled,
            final(self).boxes.disabled_boxes == old(self).boxes.disabled_boxes,
            final(self).boxes.apt_options == old(self).boxes.apt_options,
            final(self).boxes.dnf_options == old(self).boxes.dnf_options,
            final(self).boxes.pacman_options == old(self).boxes.pacman_options,
            final(self).boxes.snap_options == old(self).boxes.snap_options,
            final(self).boxes.flatpak_options == old(self).boxes.flatpak_options,
            final(self).security == old(self).security,
            final(self).ui.show_progress == old(self).ui.show_progress,
            final(self).ui.use_colors == old(self).ui.use_colors,
            final(self).ui.compact_output == old(self).ui.compact_output,
            old(self).valid() ==> (final(self).general.max_parallel_jobs == old(self).general.max_parallel_jobs
                && final(self).general.log_level@ == old(self).general.log_level@
                && texts(final(self).boxes.preferred_order@) == texts(old(self).boxes.preferred_order@)
                && final(self).ui.gui_theme@ == old(self).ui.gui_theme@),
    {
        if self.general.max_parallel_jobs == 0 {
            self.general.max_parallel_jobs = 1;
        } else if self.general.max_parallel_jobs > 16 {
            self.general.max_parallel_jobs = 16;
        }
        let levels: Vec<&str> = vec!["error", "warn", "info", "debug", "trace"];
        assert(Seq::new(levels@.len(), |i: int| levels@[i]@) =~= log_levels());
        let lv = chars_of(self.general.log_level.as_str());
        if !list_contains(&levels, &lv) {
            self.general.log_level = owned("info");
            assert(log_levels()[2] == self.general.log_level@);
        } else {
            proof {
                let k = choose|k: int| 0 <= k < levels@.len() && levels@[k]@ == lv@;
                assert(log_levels()[k] == lv@);
            }
        }
        proof {
            if log_levels().contains(old(self).general.log_level@) {
                let k = choose|k: int| 0 <= k < log_levels().len() && log_levels()[k] == old(self).general.log_level@;
                assert(levels@[k]@ == lv@);
            }
        }
        if self.boxes.preferred_order.len() == 0 {
            self.boxes.preferred_order = strings(vec!["apt"]);
            assert(texts(self.boxes.preferred_order@) =~= seq!["apt"@]);
        }
        let valid_themes: Vec<&str> = vec!["dark", "light", "auto"];
        let tv = chars_of(self.ui.gui_theme.as_str());
        if !list_contains(&valid_themes, &tv) {
            self.ui.gui_theme = owned("dark");
            assert(themes()[0] == self.ui.gui_theme@);
        } else {
            proof {
                let k = choose|k: int| 0 <= k < valid_themes@.len() && valid_themes@[k]@ == tv@;
                assert(themes()[k] == tv@);
            }
        }
        proof {
            if themes().contains(old(self).ui.gui_theme@) {
                let k = choose|k: int| 0 <= k < themes().len() && themes()[k] == old(self).ui.gui_theme@;
                assert(valid_themes@[k]@ == tv@);
            }
        }
    }

    /// Update a general configuration value, given as text.
    pub fn set_general_option(&mut self, key: &str, value: &str) -> (r: Result<(), ConfigError>)
        ensures
            final(self).boxes == old(self).boxes,
            final(self).security == old(self).security,
            final(self).ui == old(self).ui,
            match r {
                Ok(()) => {
                    ||| key@ == "auto_update"@ && parse_bool(value@) == Some(final(self).general.auto_update)
                        && final(self).general == (GeneralConfig { auto_update: final(self).general.auto_update, ..old(self).general })
                    ||| key@ == "parallel_installs"@ && parse_bool(value@) == Some(final(self).general.parallel_installs)
                        && final(self).general == (GeneralConfig { parallel_installs: final(self).general.parallel_installs, ..old(self).general })
                    ||| key@ == "max_parallel_jobs"@ && parse_usize(value@) is Some
                        && final(self).general.max_parallel_jobs == clamp_jobs(parse_usize(value@).unwrap())
                        && final(self).general == (GeneralConfig { max_parallel_jobs: final(self).general.max_parallel_jobs, ..old(self).general })
                    ||| key@ == "confirm_installs"@ && parse_bool(value@) == Some(final(self).general.confirm_installs)
                        && final(self).general == (GeneralConfig { confirm_installs: final(self).general.confirm_installs, ..old(self).general })
                    ||| key@ == "log_level"@ && log_levels().contains(value@) && final(self).general.log_level@ == value@
                        && final(self).general.auto_update == old(self).general.auto_update
                        && final(self).general.parallel_installs == old(self).general.parallel_installs
                        && final(self).general.max_parallel_jobs == old(self).general.max_parallel_jobs
                        && final(self).general.confirm_installs == old(self).general.confirm_installs
                        && final(self).general.fallback_enabled == old(self).general.fallback_enabled
                    ||| key@ == "fallback_enabled"@ && parse_bool(value@) == Some(final(self).general.fallback_enabled)
                        && final(self).general == (GeneralConfig { fallback_enabled: final(self).general.fallback_enabled, ..old(self).general })
                },
                Err(e) => final(self).general == old(self).general && match e {
                    ConfigError::InvalidBool(v) => v@ == value@ && parse_bool(value@) is None && (key@ == "auto_update"@
                        || key@ == "parallel_installs"@ || key@ == "confirm_installs"@ || key@ == "fallback_enabled"@),
                    ConfigError::InvalidNumber(v) => v@ == value@ && parse_usize(value@) is None && key@ == "max_parallel_jobs"@,
                    ConfigError::InvalidLogLevel(v) => v@ == value@ && !log_levels().contains(value@) && key@ == "log_level"@,
                    ConfigError::UnknownOption(k) => k@ == key@ && !general_options().contains(key@),
                },
            },
    {
        if text_eq(key, "auto_update") {
            match parse_bool_exec(value) {
                Some(b) => { self.general.auto_update = b; },
                None => { return Err(ConfigError::InvalidBool(owned(value))); },
            }
        } else if text_eq(key, "parallel_installs") {
            match parse_bool_exec(value) {
                Some(b) => { self.general.parallel_installs = b; },
                None => { return Err(ConfigError::InvalidBool(owned(value))); },
            }
        } else if text_eq(key, "max_parallel_jobs") {
            match parse_usize_exec(value) {
                Some(n) => { self.general.max_parallel_jobs = clamp_jobs_exec(n); },
                None => { return Err(ConfigError::InvalidNumber(owned(value))); },
            }
        } else if text_eq(key, "confirm_installs") {
            match parse_bool_exec(value) {
                Some(b) => { self.general.confirm_installs = b; },
                None => { return Err(ConfigError::InvalidBool(owned(value))); },
            }
        } else if text_eq(key, "log_level") {
            let levels: Vec<&str> = vec!["error", "warn", "info", "debug", "trace"];
            let vv = chars_of(value);
            if list_contains(&levels, &vv) {
                proof {
                    let k = choose|k: int| 0 <= k < levels@.len() && levels@[k]@ == vv@;
                    assert(log_levels()[k] == value@);
                }
                self.general.log_level = owned(value);
            } else {
                proof {
                    if log_levels().contains(value@) {
                        let k = choose|k: int| 0 <= k < log_levels().len() && log_levels()[k] == value@;
                        assert(levels@[k]@ == vv@);
                    }
                }
                return Err(ConfigError::InvalidLogLevel(owned(value)));
            }
        } else if text_eq(key, "fallback_enabled") {
            match parse_bool_exec(value) {
                Some(b) => { self.general.fallback_enabled = b; },
                None => { return Err(ConfigError::InvalidBool(owned(value))); },
            }
        } else {
            proof {
                if general_options().contains(key@) {
                    let k = choose|k: int| 0 <= k < general_options().len() && general_options()[k] == key@;
                }
            }
            return Err(ConfigError::UnknownOption(owned(key)));
        }
        Ok(())
    }

    /// Add a package manager to the preferred order, at its end, unless it
    /// is there already.
    pub fn add_preferred_box(&mut self, box_name: String)
        ensures
            texts(final(self).boxes.preferred_order@) == with_added(texts(old(self).boxes.preferred_order@), box_name@),
            final(self).general == old(self).general,
            final(self).boxes.disabled_boxes == old(self).boxes.disabled_boxes,
            final(self).boxes.apt_options == old(self).boxes.apt_options,
            final(self).boxes.dnf_options == old(self).boxes.dnf_options,
            final(self).boxes.pacman_options == old(self).boxes.pacman_options,
            final(self).boxes.snap_options == old(self).boxes.snap_options,
            final(self).boxes.flatpak_options == old(self).boxes.flatpak_options,
            final(self).security == old(self).security,
            final(self).ui == old(self).ui,
    {
        if position_of(&self.boxes.preferred_order, box_name.as_str()).is_none() {
            let ghost prev = self.boxes.preferred_order@;
            let ghost name = box_name@;
            self.boxes.preferred_order.push(box_name);
            assert(texts(self.boxes.preferred_order@) =~= texts(prev).push(name));
        }
    }

    /// Remove a package manager from the preferred order.
    pub fn remove_preferred_box(&mut self, box_name: &str)
        ensures
            texts(final(self).boxes.preferred_order@) == remove_all(texts(old(self).boxes.preferred_order@), box_name@),
            final(self).general == old(self).general,
            final(self).boxes.disabled_boxes == old(self).boxes.disabled_boxes,
            final(self).boxes.apt_options == old(self).boxes.apt_options,
            final(self).boxes.dnf_options == old(self).boxes.dnf_options,
            final(self).boxes.pacman_options == old(self).boxes.pacman_options,
            final(self).boxes.snap_options == old(self).boxes.snap_options,
            final(self).boxes.flatpak_options == old(self).boxes.flatpak_options,
            final(self).security == old(self).security,
            final(self).ui == old(self).ui,
    {
        remove_text(&mut self.boxes.preferred_order, box_name);
    }

    /// Enable or disable a package manager.
    pub fn set_box_enabled(&mut self, box_name: &str, enabled: bool)
        ensures
            texts(final(self).boxes.disabled_boxes@) == disabled_after(texts(old(self).boxes.disabled_boxes@), box_name@, enabled),
            final(self).general == old(self).general,
            final(self).boxes.preferred_order == old(self).boxes.preferred_order,
            final(self).boxes.apt_options == old(self).boxes.apt_options,
            final(self).boxes.dnf_options == old(self).boxes.dnf_options,
            final(self).boxes.pacman_options == old(self).boxes.pacman_options,
            final(self).boxes.snap_options == old(self).boxes.snap_options,
            final(self).boxes.flatpak_options == old(self).boxes.flatpak_options,
            final(self).security == old(self).security,
            final(self).ui == old(self).ui,
    {
        if enabled {
            remove_text(&mut self.boxes.disabled_boxes, box_name);
        } else {
            if position_of(&self.boxes.disabled_boxes, box_name).is_none() {
                let ghost prev = self.boxes.disabled_boxes@;
                let name = owned(box_name);
                self.boxes.disabled_boxes.push(name);
                assert(texts(self.boxes.disabled_boxes@) =~= texts(prev).push(box_name@));
            }
        }
    }

    /// Merge the general settings of another configuration: each that
    /// differs from its default value is taken over.
    pub fn merge(&mut self, other: &OmniConfig)
        ensures
            final(self).general.auto_update == if other.general.auto_update != false { other.general.auto_update } else { old(self).general.auto_update },
            final(self).general.parallel_installs == if other.general.parallel_installs != true { other.general.parallel_installs } else { old(self).general.parallel_installs },
            final(self).general.max_parallel_jobs == if other.general.max_parallel_jobs != 4 { other.general.max_parallel_jobs } else { old(self).general.max_parallel_jobs },
            final(self).general.confirm_installs == if other.general.confirm_installs != true { other.general.confirm_installs } else { old(self).general.confirm_installs },
            final(self).general.log_level@ == if other.general.log_level@ != "info"@ { other.general.log_level@ } else { old(self).general.log_level@ },
            final(self).general.fallback_enabled == if other.general.fallback_enabled != true { other.general.fallback_enabled } else { old(self).general.fallback_enabled },
            final(self).boxes == old(self).boxes,
            final(self).security == old(self).security,
            final(self).ui == old(self).ui,
    {
        if other.general.auto_update != false {
            self.general.auto_update = other.general.auto_update;
        }
        if other.general.parallel_installs != true {
            self.general.parallel_installs = other.general.parallel_installs;
        }
        if other.general.max_parallel_jobs != 4 {
            self.general.max_parallel_jobs = other.general.max_parallel_jobs;
        }
        if other.general.confirm_installs != true {
            self.general.confirm_installs = other.general.confirm_installs;
        }
        if !text_eq(other.general.log_level.as_str(), "info") {
            self.general.log_level = other.general.log_level.clone();
        }
        if other.general.fallback_enabled != true {
            self.general.fallback_enabled = other.general.fallback_enabled;
        }
    }
}

/// The names of the general options.
pub open spec fn general_options() -> Seq<Seq<char>> {
    seq!["auto_update"@, "parallel_installs"@, "max_parallel_jobs"@, "confirm_installs"@, "log_level"@, "fallback_enabled"@]
}

/// A number of jobs clamped to 1..=16.
pub open spec fn clamp_jobs(n: usize) -> usize {
    if n < 1 {
        1
    } else if n > 16 {
        16
    } else {
        n
    }
}

/// Clamps a number of jobs to 1..=16.
pub fn clamp_jobs_exec(n: usize) -> (r: usize)
    ensures
        r == clamp_jobs(n),
{
    if n < 1 {
        1
    } else if n > 16 {
        16
    } else {
        n
    }
}

/// Parses `true` or `false`.
pub fn parse_bool_exec(s: &str) -> (r: Option<bool>)
    ensures
        r == parse_bool(s@),
{
    if text_eq(s, "true") {
        Some(true)
    } else if text_eq(s, "false") {
        Some(false)
    } else {
        None
    }
}

impl ConfigError {
    /// The message that reports this error.
    pub fn message(&self) -> (r: String)
        ensures
            r@ == match self {
                ConfigError::InvalidBool(v) => "provided string was not `true` or `false`: "@ + v@,
                ConfigError::InvalidNumber(v) => "invalid number: "@ + v@,
                ConfigError::InvalidLogLevel(v) => "Invalid log level: "@ + v@,
                ConfigError::UnknownOption(k) => "Unknown general option: "@ + k@,
            },
    {
        match self {
            ConfigError::InvalidBool(v) => crate::text::concat2("provided string was not `true` or `false`: ", v.as_str()),
            ConfigError::InvalidNumber(v) => crate::text::concat2("invalid number: ", v.as_str()),
            ConfigError::InvalidLogLevel(v) => crate::text::concat2("Invalid log level: ", v.as_str()),
            ConfigError::UnknownOption(k) => crate::text::concat2("Unknown general option: ", k.as_str()),
        }
    }
}

/// Enabling or disabling a manager decides whether it is enabled
/// afterwards, and leaves every other manager as it was.
pub proof fn law_set_box_enabled(d: Seq<Seq<char>>, n: Seq<char>, enabled: bool, other: Seq<char>)
    requires
        other != n,
    ensures
        !disabled_after(d, n, enabled).contains(n) == enabled,
        disabled_after(d, n, enabled).contains(other) == d.contains(other),
{
    lemma_remove_all(d, n, other);
    lemma_push_contains(d, n, n);
    lemma_push_contains(d, n, other);
}

/// Adding a preferred manager puts it in the order, keeps what was there in
/// its place, and a second addition changes nothing.
pub proof fn law_add_preferred_once(p: Seq<Seq<char>>, n: Seq<char>)
    ensures
        with_added(p, n).contains(n),
        with_added(p, n).take(p.len() as int) == p,
        with_added(with_added(p, n), n) == with_added(p, n),
{
    lemma_push_contains(p, n, n);
    assert(p.push(n).take(p.len() as int) =~= p);
    assert(p.take(p.len() as int) =~= p);
}

/// Removing a preferred manager takes every copy of it out and keeps the
/// others, in order.
pub proof fn law_remove_preferred(p: Seq<Seq<char>>, n: Seq<char>, other: Seq<char>)
    requires
        other != n,
    ensures
        !remove_all(p, n).contains(n),
        remove_all(p, n).contains(other) == p.contains(other),
{
    lemma_remove_all(p, n, other);
}

} // verus!
