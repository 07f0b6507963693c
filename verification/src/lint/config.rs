//! The lint configuration: ruff-style `select`/`ignore` rule-id prefixes,
//! per-file ignores by glob, eslint-style per-rule severity overrides,
//! per-glob byte and intended-width budgets, and the savings threshold.
//!
//! Precedence is CLI flags over the config file over built-in defaults; a
//! malformed config is a typed error, never a panic.

use vstd::prelude::*;

use crate::strings::{decimal, push_decimal, push_str};
use crate::lint::{known_ids, known_rule_ids, strs_view, Severity};

verus! {

/// The config filename discovered by walking up from the first input.
pub const CONFIG_FILENAME: &'static str = ".crustyimg-lint.toml";

/// A config file larger than this many bytes is rejected before parsing.
pub const CONFIG_MAX_BYTES: usize = 262144;

/// The default savings-threshold floor in bytes (4 KiB).
pub const DEFAULT_MIN_BYTES: u64 = 4096;

/// The default savings-threshold floor in percent.
pub const DEFAULT_MIN_PERCENT: u32 = 10;

// ── Runtime config ──────────────────────────────────────────────────────────

/// A per-rule severity override. `Off` disables the rule.
#[derive(Debug, Clone, Copy, PartialEq, Eq, Structural)]
pub enum SeverityOverride {
    Error,
    Warn,
    Info,
    Off,
}

/// The severity an override sets, or `None` for `off`.
pub open spec fn override_severity(o: SeverityOverride) -> Option<Severity> {
    match o {
        SeverityOverride::Error => Some(Severity::Error),
        SeverityOverride::Warn => Some(Severity::Warn),
        SeverityOverride::Info => Some(Severity::Info),
        SeverityOverride::Off => None,
    }
}

/// The override a config value names (`error`, `warn`, `info`, `off`).
pub open spec fn spec_parse_override(s: Seq<char>) -> Option<SeverityOverride> {
    if s == "error"@ {
        Some(SeverityOverride::Error)
    } else if s == "warn"@ {
        Some(SeverityOverride::Warn)
    } else if s == "info"@ {
        Some(SeverityOverride::Info)
    } else if s == "off"@ {
        Some(SeverityOverride::Off)
    } else {
        None
    }
}

impl SeverityOverride {
    /// The overriding [`Severity`], or `None` when the rule is turned off.
    pub fn severity(self) -> (s: Option<Severity>)
        ensures
            s == override_severity(self),
    {
        match self {
            SeverityOverride::Error => Some(Severity::Error),
            SeverityOverride::Warn => Some(Severity::Warn),
            SeverityOverride::Info => Some(Severity::Info),
            SeverityOverride::Off => None,
        }
    }

    /// Parse a config severity value.
    pub fn parse(s: &str) -> (r: Option<SeverityOverride>)
        ensures
            r == spec_parse_override(s@),
    {
        if crate::strings::str_eq(s, "error") {
            Some(SeverityOverride::Error)
        } else if crate::strings::str_eq(s, "warn") {
            Some(SeverityOverride::Warn)
        } else if crate::strings::str_eq(s, "info") {
            Some(SeverityOverride::Info)
        } else if crate::strings::str_eq(s, "off") {
            Some(SeverityOverride::Off)
        } else {
            None
        }
    }
}

/// A per-glob byte / intended-width budget.
#[derive(Debug, Clone, PartialEq, Eq)]
pub struct Budget {
    pub glob: String,
    pub max_bytes: Option<u64>,
    pub max_intended_width: Option<u32>,
}

/// A per-file ignore: suppress `rules` on files matching `glob`.
#[derive(Debug, Clone, PartialEq, Eq)]
pub struct PerFileIgnore {
    pub glob: String,
    pub rules: Vec<String>,
}

/// The savings-threshold gate for "could be smaller" rules.
#[derive(Debug, Clone, Copy, PartialEq, Eq, Structural)]
pub struct SavingsThreshold {
    pub min_bytes: u64,
    pub min_percent: u32,
}

impl Default for SavingsThreshold {
    fn default() -> (t: SavingsThreshold)
        ensures
            t.min_bytes == DEFAULT_MIN_BYTES,
            t.min_percent == DEFAULT_MIN_PERCENT,
    {
        SavingsThreshold { min_bytes: DEFAULT_MIN_BYTES, min_percent: DEFAULT_MIN_PERCENT }
    }
}

/// The effective lint config the runner applies. `per_rule_severity` maps an
/// exact rule id to its override; its keys are distinct.
#[derive(Debug, Clone, PartialEq, Eq)]
pub struct LintConfig {
    /// Rule-id prefixes to include (empty: every default rule).
    pub select: Vec<String>,
    /// Rule-id prefixes to exclude.
    pub ignore: Vec<String>,
    /// Per-rule severity overrides, in ascending key order.
    pub per_rule_severity: Vec<(String, SeverityOverride)>,
    /// Per-glob budgets (later entries win on overlap).
    pub budgets: Vec<Budget>,
    /// Per-file rule suppressions.
    pub per_file_ignores: Vec<PerFileIgnore>,
    /// The savings-threshold gate.
    pub savings_threshold: SavingsThreshold,
    /// A globally declared intended width (opt-in).
    pub max_intended_width: Option<u32>,
}

impl Default for LintConfig {
    fn default() -> (c: LintConfig)
        ensures
            c.select@.len() == 0,
            c.ignore@.len() == 0,
            c.per_rule_severity@.len() == 0,
            c.budgets@.len() == 0,
            c.per_file_ignores@.len() == 0,
            c.savings_threshold.min_bytes == DEFAULT_MIN_BYTES,
            c.savings_threshold.min_percent == DEFAULT_MIN_PERCENT,
            c.max_intended_width is None,
    {
        LintConfig {
            select: Vec::new(),
            ignore: Vec::new(),
            per_rule_severity: Vec::new(),
            budgets: Vec::new(),
            per_file_ignores: Vec::new(),
            savings_threshold: SavingsThreshold::default(),
            max_intended_width: None,
        }
    }
}

// ── Views ───────────────────────────────────────────────────────────────────

/// The views of a sequence of strings.
pub open spec fn strings_view(v: Seq<String>) -> Seq<Seq<char>> {
    Seq::new(v.len(), |i: int| v[i]@)
}

/// The views of the per-rule overrides.
pub open spec fn overrides_view(v: Seq<(String, SeverityOverride)>) -> Seq<(Seq<char>, SeverityOverride)> {
    Seq::new(v.len(), |i: int| (v[i].0@, v[i].1))
}

// ── Rule-id prefixes ────────────────────────────────────────────────────────

/// Whether rule id `id` matches prefix `p`: an exact match or a namespace
/// prefix (`privacy` matches `privacy/gps-metadata-leak`).
pub open spec fn prefix_matches(p: Seq<char>, id: Seq<char>) -> bool {
    id == p || (id.len() > p.len() && id.take(p.len() as int) == p && id[p.len() as int] == '/')
}

/// Whether some prefix in `ps` matches `id`.
pub open spec fn any_prefix(ps: Seq<Seq<char>>, id: Seq<char>) -> bool {
    exists|i: int| 0 <= i < ps.len() && prefix_matches(ps[i], id)
}

/// Whether `id` matches `p` exactly or as a namespace prefix.
pub fn prefix_match(p: &str, id: &str) -> (b: bool)
    ensures
        b == prefix_matches(p@, id@),
{
    let n = p.unicode_len();
    let m = id.unicode_len();
    if m < n {
        return false;
    }
    let mut i: usize = 0;
    while i < n
        invariant
            n == p@.len(),
            m == id@.len(),
            n <= m,
            i <= n,
            forall|j: int| 0 <= j < i ==> id@[j] == p@[j],
        decreases n - i,
    {
        if id.get_char(i) != p.get_char(i) {
            assert(id@ != p@);
            assert(id@.take(n as int)[i as int] != p@[i as int]);
            return false;
        }
        i = i + 1;
    }
    assert(id@.take(n as int) =~= p@);
    if m == n {
        assert(id@ =~= p@);
        true
    } else {
        id.get_char(n) == '/'
    }
}

fn any_prefix_of(ps: &Vec<String>, id: &str) -> (b: bool)
    ensures
        b == any_prefix(strings_view(ps@), id@),
{
    let ghost v = strings_view(ps@);
    let mut i: usize = 0;
    while i < ps.len()
        invariant
            v == strings_view(ps@),
            i <= ps@.len(),
            forall|j: int| 0 <= j < i ==> !prefix_matches(v[j], id@),
        decreases ps@.len() - i,
    {
        if prefix_match(ps[i].as_str(), id) {
            assert(prefix_matches(v[i as int], id@));
            return true;
        }
        i = i + 1;
    }
    false
}

// ── Overrides ───────────────────────────────────────────────────────────────

/// The override recorded for `id` (the first entry whose key is `id`).
pub open spec fn lookup_override(v: Seq<(Seq<char>, SeverityOverride)>, id: Seq<char>) -> Option<SeverityOverride>
    decreases v.len(),
{
    if v.len() == 0 {
        None
    } else if v[0].0 == id {
        Some(v[0].1)
    } else {
        lookup_override(v.drop_first(), id)
    }
}

fn find_override(v: &Vec<(String, SeverityOverride)>, id: &str) -> (r: Option<SeverityOverride>)
    ensures
        r == lookup_override(overrides_view(v@), id@),
{
    let ghost w = overrides_view(v@);
    let mut i: usize = 0;
    assert(w.skip(0) =~= w);
    while i < v.len()
        invariant
            w == overrides_view(v@),
            i <= v@.len(),
            lookup_override(w, id@) == lookup_override(w.skip(i as int), id@),
        decreases v@.len() - i,
    {
        assert(w.skip(i as int)[0] == w[i as int]);
        assert(w.skip(i as int).drop_first() =~= w.skip(i + 1));
        if crate::strings::str_eq(v[i].0.as_str(), id) {
            return Some(v[i].1);
        }
        i = i + 1;
    }
    None
}

// ── Globs ───────────────────────────────────────────────────────────────────

/// Whether shell glob `pattern` matches `path` (an invalid pattern matches
/// nothing).
pub uninterp spec fn glob_match(pattern: Seq<char>, path: Seq<char>) -> bool;

/// Whether `path` matches shell glob `pattern`, by `glob::Pattern::new` and
/// `Pattern::matches` with default options; an invalid pattern matches
/// nothing. The contract names the result: it depends on the two strings
/// alone.
#[verifier::external_body]
pub fn glob_matches(pattern: &str, path: &str) -> (b: bool)
    ensures
        b == glob_match(pattern@, path@),
{
    glob::Pattern::new(pattern).map(|p| p.matches(path)).unwrap_or(false)
}

/// Whether some per-file ignore suppresses `id` on `path`.
pub open spec fn spec_ignored_for_path(v: Seq<PerFileIgnore>, id: Seq<char>, path: Seq<char>) -> bool {
    exists|i: int|
        0 <= i < v.len() && strings_view(v[i].rules@).contains(id) && glob_match(v[i].glob@, path)
}

/// The value the last budget that sets `max_bytes` and matches `path` sets.
pub open spec fn spec_byte_budget(v: Seq<Budget>, path: Seq<char>) -> Option<u64>
    decreases v.len(),
{
    if v.len() == 0 {
        None
    } else if v.last().max_bytes is Some && glob_match(v.last().glob@, path) {
        v.last().max_bytes
    } else {
        spec_byte_budget(v.drop_last(), path)
    }
}

/// The width the last budget that sets `max_intended_width` and matches
/// `path` sets.
pub open spec fn spec_budget_width(v: Seq<Budget>, path: Seq<char>) -> Option<u32>
    decreases v.len(),
{
    if v.len() == 0 {
        None
    } else if v.last().max_intended_width is Some && glob_match(v.last().glob@, path) {
        v.last().max_intended_width
    } else {
        spec_budget_width(v.drop_last(), path)
    }
}

fn contains_str(v: &Vec<String>, s: &str) -> (b: bool)
    ensures
        b == strings_view(v@).contains(s@),
{
    let ghost w = strings_view(v@);
    let mut i: usize = 0;
    while i < v.len()
        invariant
            w == strings_view(v@),
            i <= v@.len(),
            forall|j: int| 0 <= j < i ==> w[j] != s@,
        decreases v@.len() - i,
    {
        if crate::strings::str_eq(v[i].as_str(), s) {
            assert(w[i as int] == s@);
            return true;
        }
        i = i + 1;
    }
    false
}

// ── Queries ─────────────────────────────────────────────────────────────────

/// Whether `id` is active: not turned `off`, matched by `select` when it is
/// non-empty, and not matched by `ignore`.
pub open spec fn spec_rule_active(c: LintConfig, id: Seq<char>) -> bool {
    &&& lookup_override(overrides_view(c.per_rule_severity@), id) != Some(SeverityOverride::Off)
    &&& (c.select@.len() == 0 || any_prefix(strings_view(c.select@), id))
    &&& !any_prefix(strings_view(c.ignore@), id)
}

/// Whether a rule with `id` runs: it is active, and it is on by default or
/// the config enables it explicitly (a matching `select` prefix or a
/// per-rule severity entry).
pub open spec fn spec_rule_enabled(c: LintConfig, id: Seq<char>, default_enabled: bool) -> bool {
    &&& spec_rule_active(c, id)
    &&& (default_enabled || any_prefix(strings_view(c.select@), id) || lookup_override(
        overrides_view(c.per_rule_severity@),
        id,
    ) is Some)
}

/// The effective severity of `id`: its override, else `default`.
pub open spec fn spec_severity_for(c: LintConfig, id: Seq<char>, default: Severity) -> Severity {
    match lookup_override(overrides_view(c.per_rule_severity@), id) {
        Some(o) => match override_severity(o) {
            Some(s) => s,
            None => default,
        },
        None => default,
    }
}

/// The intended width applying to `path`: a matching budget's, else the
/// global one.
pub open spec fn spec_intended_width(c: LintConfig, path: Seq<char>) -> Option<u32> {
    match spec_budget_width(c.budgets@, path) {
        Some(w) => Some(w),
        None => c.max_intended_width,
    }
}

impl LintConfig {
    /// Whether `rule_id` is active under `select`/`ignore` and not `off`.
    pub fn is_rule_active(&self, rule_id: &str) -> (b: bool)
        ensures
            b == spec_rule_active(*self, rule_id@),
    {
        match find_override(&self.per_rule_severity, rule_id) {
            Some(SeverityOverride::Off) => {
                return false;
            },
            _ => {},
        }
        if self.select.len() > 0 && !any_prefix_of(&self.select, rule_id) {
            return false;
        }
        if any_prefix_of(&self.ignore, rule_id) {
            return false;
        }
        true
    }

    /// Whether a rule runs under this config: active, and on by default or
    /// explicitly enabled by a `select` prefix or a severity entry.
    pub fn is_rule_enabled(&self, rule_id: &str, default_enabled: bool) -> (b: bool)
        ensures
            b == spec_rule_enabled(*self, rule_id@, default_enabled),
    {
        if !self.is_rule_active(rule_id) {
            return false;
        }
        default_enabled || any_prefix_of(&self.select, rule_id) || find_override(
            &self.per_rule_severity,
            rule_id,
        ).is_some()
    }

    /// The effective severity for `rule_id`, or `default` when not
    /// overridden.
    pub fn severity_for(&self, rule_id: &str, default: Severity) -> (s: Severity)
        ensures
            s == spec_severity_for(*self, rule_id@, default),
    {
        match find_override(&self.per_rule_severity, rule_id) {
            Some(o) => match o.severity() {
                Some(s) => s,
                None => default,
            },
            None => default,
        }
    }

    /// Whether `rule_id` is suppressed on `path` by a per-file ignore.
    pub fn is_ignored_for_path(&self, rule_id: &str, path: &str) -> (b: bool)
        ensures
            b == spec_ignored_for_path(self.per_file_ignores@, rule_id@, path@),
    {
        let ghost v = self.per_file_ignores@;
        let mut i: usize = 0;
        while i < self.per_file_ignores.len()
            invariant
                v == self.per_file_ignores@,
                i <= v.len(),
                forall|j: int|
                    0 <= j < i ==> !(strings_view(v[j].rules@).contains(rule_id@) && glob_match(
                        v[j].glob@,
                        path@,
                    )),
            decreases v.len() - i,
        {
            let pfi = &self.per_file_ignores[i];
            if contains_str(&pfi.rules, rule_id) && glob_matches(pfi.glob.as_str(), path) {
                return true;
            }
            i = i + 1;
        }
        false
    }

    /// The byte budget applying to `path` (the last matching budget wins).
    pub fn byte_budget_for(&self, path: &str) -> (r: Option<u64>)
        ensures
            r == spec_byte_budget(self.budgets@, path@),
    {
        let ghost v = self.budgets@;
        let mut j: usize = self.budgets.len();
        assert(v.take(j as int) =~= v);
        while j > 0
            invariant
                v == self.budgets@,
                j <= v.len(),
                spec_byte_budget(v, path@) == spec_byte_budget(v.take(j as int), path@),
            decreases j,
        {
            let b = &self.budgets[j - 1];
            assert(v.take(j as int).last() == v[j - 1]);
            assert(v.take(j as int).drop_last() =~= v.take(j - 1));
            if b.max_bytes.is_some() && glob_matches(b.glob.as_str(), path) {
                return b.max_bytes;
            }
            j = j - 1;
        }
        None
    }

    /// The intended width applying to `path`: a matching budget's, else the
    /// global `max_intended_width`.
    pub fn intended_width_for(&self, path: &str) -> (r: Option<u32>)
        ensures
            r == spec_intended_width(*self, path@),
    {
        let ghost v = self.budgets@;
        let mut j: usize = self.budgets.len();
        assert(v.take(j as int) =~= v);
        while j > 0
            invariant
                v == self.budgets@,
                j <= v.len(),
                spec_budget_width(v, path@) == spec_budget_width(v.take(j as int), path@),
            decreases j,
        {
            let b = &self.budgets[j - 1];
            assert(v.take(j as int).last() == v[j - 1]);
            assert(v.take(j as int).drop_last() =~= v.take(j - 1));
            if b.max_intended_width.is_some() && glob_matches(b.glob.as_str(), path) {
                return b.max_intended_width;
            }
            j = j - 1;
        }
        self.max_intended_width
    }
}

// ── Errors ──────────────────────────────────────────────────────────────────

/// A config load or validation failure (a usage error at the CLI).
#[derive(Debug, Clone, PartialEq, Eq)]
pub enum ConfigError {
    /// The file could not be read.
    Io { path: String, reason: String },
    /// The file exceeds [`CONFIG_MAX_BYTES`].
    TooLarge { path: String, size: usize, max: usize },
    /// The TOML was malformed.
    Parse { path: String, reason: String },
    /// A severity value was not `error`/`warn`/`info`/`off`.
    BadSeverity { rule: String, value: String },
    /// A `select`/`ignore`/severity entry named an unknown rule id.
    UnknownRule(String),
}

/// The human message of a config error.
pub open spec fn spec_config_error_message(e: ConfigError) -> Seq<char> {
    match e {
        ConfigError::Io { path, reason } => "could not read lint config '"@ + path@ + "': "@ + reason@,
        ConfigError::TooLarge { path, size, max } => "lint config '"@ + path@ + "' is too large ("@
            + decimal(size as nat) + " bytes; max "@ + decimal(max as nat) + ")"@,
        ConfigError::Parse { path, reason } => "malformed lint config '"@ + path@ + "': "@ + reason@,
        ConfigError::BadSeverity { rule, value } => "invalid severity '"@ + value@ + "' for rule '"@
            + rule@ + "' (expected error|warn|info|off)"@,
        ConfigError::UnknownRule(id) => "unknown lint rule id or prefix '"@ + id@ + "'"@,
    }
}

impl ConfigError {
    /// The human message.
    pub fn message(&self) -> (m: String)
        ensures
            m@ == spec_config_error_message(*self),
    {
        let mut m = String::new();
        match self {
            ConfigError::Io { path, reason } => {
                push_str(&mut m, "could not read lint config '");
                push_str(&mut m, path.as_str());
                push_str(&mut m, "': ");
                push_str(&mut m, reason.as_str());
            },
            ConfigError::TooLarge { path, size, max } => {
                push_str(&mut m, "lint config '");
                push_str(&mut m, path.as_str());
                push_str(&mut m, "' is too large (");
                push_decimal(&mut m, *size as u64);
                push_str(&mut m, " bytes; max ");
                push_decimal(&mut m, *max as u64);
                push_str(&mut m, ")");
            },
            ConfigError::Parse { path, reason } => {
                push_str(&mut m, "malformed lint config '");
                push_str(&mut m, path.as_str());
                push_str(&mut m, "': ");
                push_str(&mut m, reason.as_str());
            },
            ConfigError::BadSeverity { rule, value } => {
                push_str(&mut m, "invalid severity '");
                push_str(&mut m, value.as_str());
                push_str(&mut m, "' for rule '");
                push_str(&mut m, rule.as_str());
                push_str(&mut m, "' (expected error|warn|info|off)");
            },
            ConfigError::UnknownRule(id) => {
                push_str(&mut m, "unknown lint rule id or prefix '");
                push_str(&mut m, id.as_str());
                push_str(&mut m, "'");
            },
        }
        m
    }
}

/// Reject a config of `len` bytes over [`CONFIG_MAX_BYTES`] before parsing.
pub fn check_config_size(path: &str, len: usize) -> (r: Result<(), ConfigError>)
    ensures
        len <= CONFIG_MAX_BYTES ==> r is Ok,
        len > CONFIG_MAX_BYTES ==> (r matches Err(ConfigError::TooLarge { path: p, size, max }) && p@
            == path@ && size == len && max == CONFIG_MAX_BYTES),
{
    if len > CONFIG_MAX_BYTES {
        Err(ConfigError::TooLarge { path: path.to_owned(), size: len, max: CONFIG_MAX_BYTES })
    } else {
        Ok(())
    }
}

/// Which config file to load: none under `no_config`, else the forced one,
/// else the discovered one.
pub fn chosen_config_path<'a>(forced: Option<&'a str>, discovered: Option<&'a str>, no_config: bool) -> (r: Option<&'a str>)
    ensures
        r == (if no_config {
            None
        } else if forced is Some {
            forced
        } else {
            discovered
        }),
{
    if no_config {
        None
    } else if forced.is_some() {
        forced
    } else {
        discovered
    }
}

// ── File schema ─────────────────────────────────────────────────────────────

/// The savings table of a config file; an absent key takes its default.
#[derive(Debug, Clone, Copy, PartialEq, Eq, Structural)]
pub struct RawSavings {
    pub min_bytes: u64,
    pub min_percent: u32,
}

/// A config file as parsed, before validation. `severity` lists the
/// `[severity]` table's entries in ascending key order.
#[derive(Debug, Clone, PartialEq, Eq)]
pub struct RawConfig {
    pub select: Vec<String>,
    pub ignore: Vec<String>,
    pub max_intended_width: Option<u32>,
    pub severity: Vec<(String, String)>,
    pub savings_threshold: Option<RawSavings>,
    pub budgets: Vec<Budget>,
    pub per_file_ignores: Vec<PerFileIgnore>,
}

/// The views of `(key, value)` string pairs.
pub open spec fn pairs_view(v: Seq<(String, String)>) -> Seq<(Seq<char>, Seq<char>)> {
    Seq::new(v.len(), |i: int| (v[i].0@, v[i].1@))
}

/// The index of the first pair whose value is no severity, or the length.
pub open spec fn first_bad_severity(v: Seq<(Seq<char>, Seq<char>)>) -> int
    decreases v.len(),
{
    if v.len() == 0 {
        0
    } else if spec_parse_override(v[0].1) is None {
        0
    } else {
        1 + first_bad_severity(v.drop_first())
    }
}

/// The overrides the pairs name (meaningful when every value parses).
pub open spec fn parsed_overrides(v: Seq<(Seq<char>, Seq<char>)>) -> Seq<(Seq<char>, SeverityOverride)> {
    Seq::new(v.len(), |i: int| (v[i].0, spec_parse_override(v[i].1).unwrap()))
}

proof fn lemma_first_bad_severity(v: Seq<(Seq<char>, Seq<char>)>)
    ensures
        0 <= first_bad_severity(v) <= v.len(),
        forall|j: int| 0 <= j < first_bad_severity(v) ==> spec_parse_override(v[j].1) is Some,
        first_bad_severity(v) < v.len() ==> spec_parse_override(v[first_bad_severity(v)].1) is None,
    decreases v.len(),
{
    if v.len() > 0 && spec_parse_override(v[0].1) is Some {
        lemma_first_bad_severity(v.drop_first());
        assert forall|j: int| 0 <= j < first_bad_severity(v) implies spec_parse_override(v[j].1) is Some by {
            if j > 0 {
                assert(v[j] == v.drop_first()[j - 1]);
            }
        }
    }
}

/// Convert a parsed config file into a runtime config: each severity value
/// must name an override (the first that does not is the error); an absent
/// savings table takes the defaults.
pub fn raw_into_config(raw: RawConfig) -> (r: Result<LintConfig, ConfigError>)
    ensures
        ({
            let pv = pairs_view(raw.severity@);
            let k = first_bad_severity(pv);
            &&& k < pv.len() ==> (r matches Err(ConfigError::BadSeverity { rule, value }) && rule@
                == pv[k].0 && value@ == pv[k].1)
            &&& k == pv.len() ==> (r matches Ok(c) && c.select == raw.select && c.ignore
                == raw.ignore && overrides_view(c.per_rule_severity@) == parsed_overrides(pv)
                && c.budgets == raw.budgets && c.per_file_ignores == raw.per_file_ignores
                && c.max_intended_width == raw.max_intended_width && c.savings_threshold == (
            match raw.savings_threshold {
                Some(t) => SavingsThreshold { min_bytes: t.min_bytes, min_percent: t.min_percent },
                None => SavingsThreshold {
                    min_bytes: DEFAULT_MIN_BYTES,
                    min_percent: DEFAULT_MIN_PERCENT,
                },
            }))
        }),
{
    let ghost pv = pairs_view(raw.severity@);
    proof {
        lemma_first_bad_severity(pv);
    }
    let mut per_rule_severity: Vec<(String, SeverityOverride)> = Vec::new();
    let mut i: usize = 0;
    while i < raw.severity.len()
        invariant
            pv == pairs_view(raw.severity@),
            i <= raw.severity@.len(),
            0 <= first_bad_severity(pv) <= pv.len(),
            forall|j: int| 0 <= j < first_bad_severity(pv) ==> spec_parse_override(pv[j].1) is Some,
            first_bad_severity(pv) < pv.len() ==> spec_parse_override(
                pv[first_bad_severity(pv)].1,
            ) is None,
            i <= first_bad_severity(pv),
            overrides_view(per_rule_severity@) == parsed_overrides(pv).take(i as int),
        decreases raw.severity@.len() - i,
    {
        let pair = &raw.severity[i];
        assert(pv[i as int] == (pair.0@, pair.1@));
        match SeverityOverride::parse(pair.1.as_str()) {
            None => {
                assert(first_bad_severity(pv) == i);
                return Err(ConfigError::BadSeverity { rule: pair.0.clone(), value: pair.1.clone() });
            },
            Some(o) => {
                let ghost before = overrides_view(per_rule_severity@);
                let key = pair.0.clone();
                assert(parsed_overrides(pv)[i as int] == (key@, o));
                per_rule_severity.push((key, o));
                assert(overrides_view(per_rule_severity@) =~= before.push((key@, o)));
                assert(overrides_view(per_rule_severity@) =~= parsed_overrides(pv).take(i + 1));
            },
        }
        i = i + 1;
    }
    assert(parsed_overrides(pv).take(i as int) =~= parsed_overrides(pv));
    let savings_threshold = match raw.savings_threshold {
        Some(t) => SavingsThreshold { min_bytes: t.min_bytes, min_percent: t.min_percent },
        None => SavingsThreshold::default(),
    };
    Ok(
        LintConfig {
            select: raw.select,
            ignore: raw.ignore,
            per_rule_severity,
            budgets: raw.budgets,
            per_file_ignores: raw.per_file_ignores,
            savings_threshold,
            max_intended_width: raw.max_intended_width,
        },
    )
}

// ── Merge and validation ────────────────────────────────────────────────────

/// The CLI overrides merged over the file: `select`/`ignore` extend the
/// file's lists; the scalars replace.
#[derive(Debug, Clone)]
pub struct CliOverrides {
    pub select: Vec<String>,
    pub ignore: Vec<String>,
    pub max_intended_width: Option<u32>,
    pub savings_threshold: Option<SavingsThreshold>,
}

impl Default for CliOverrides {
    fn default() -> (c: CliOverrides)
        ensures
            c.select@.len() == 0,
            c.ignore@.len() == 0,
            c.max_intended_width is None,
            c.savings_threshold is None,
    {
        CliOverrides {
            select: Vec::new(),
            ignore: Vec::new(),
            max_intended_width: None,
            savings_threshold: None,
        }
    }
}

/// Whether `p` is the id or a namespace prefix of some known rule.
pub open spec fn known_prefix(p: Seq<char>) -> bool {
    exists|k: int| 0 <= k < known_ids().len() && prefix_matches(p, known_ids()[k])
}

/// The first entry of `ps` that is no known prefix, if any.
pub open spec fn first_unknown_prefix(ps: Seq<Seq<char>>) -> Option<Seq<char>>
    decreases ps.len(),
{
    if ps.len() == 0 {
        None
    } else if !known_prefix(ps[0]) {
        Some(ps[0])
    } else {
        first_unknown_prefix(ps.drop_first())
    }
}

/// The first override key that is no known rule id, if any.
pub open spec fn first_unknown_key(v: Seq<(Seq<char>, SeverityOverride)>) -> Option<Seq<char>>
    decreases v.len(),
{
    if v.len() == 0 {
        None
    } else if !known_ids().contains(v[0].0) {
        Some(v[0].0)
    } else {
        first_unknown_key(v.drop_first())
    }
}

/// The unknown id that makes a config invalid: the first unknown `select`
/// or `ignore` prefix (in that order), else the first unknown severity key.
pub open spec fn spec_invalid_id(select: Seq<Seq<char>>, ignore: Seq<Seq<char>>, keys: Seq<(Seq<char>, SeverityOverride)>) -> Option<Seq<char>> {
    match first_unknown_prefix(select + ignore) {
        Some(p) => Some(p),
        None => first_unknown_key(keys),
    }
}

fn is_known_prefix(p: &str, known: &Vec<&'static str>) -> (b: bool)
    requires
        strs_view(known@) == known_ids(),
    ensures
        b == known_prefix(p@),
{
    let mut k: usize = 0;
    while k < known.len()
        invariant
            strs_view(known@) == known_ids(),
            k <= known@.len(),
            forall|j: int| 0 <= j < k ==> !prefix_matches(p@, known_ids()[j]),
        decreases known@.len() - k,
    {
        if prefix_match(p, known[k]) {
            assert(prefix_matches(p@, known_ids()[k as int]));
            return true;
        }
        k = k + 1;
    }
    false
}

fn is_known_id(s: &str, known: &Vec<&'static str>) -> (b: bool)
    requires
        strs_view(known@) == known_ids(),
    ensures
        b == known_ids().contains(s@),
{
    let mut k: usize = 0;
    while k < known.len()
        invariant
            strs_view(known@) == known_ids(),
            k <= known@.len(),
            forall|j: int| 0 <= j < k ==> known_ids()[j] != s@,
        decreases known@.len() - k,
    {
        if crate::strings::str_eq(known[k], s) {
            assert(known_ids()[k as int] == s@);
            return true;
        }
        k = k + 1;
    }
    false
}

fn first_unknown_in(ps: &Vec<String>, known: &Vec<&'static str>) -> (r: Option<String>)
    requires
        strs_view(known@) == known_ids(),
    ensures
        opt_view(r) == first_unknown_prefix(strings_view(ps@)),
{
    let ghost v = strings_view(ps@);
    let mut i: usize = 0;
    assert(v.skip(0) =~= v);
    while i < ps.len()
        invariant
            strs_view(known@) == known_ids(),
            v == strings_view(ps@),
            i <= ps@.len(),
            first_unknown_prefix(v) == first_unknown_prefix(v.skip(i as int)),
        decreases ps@.len() - i,
    {
        assert(v.skip(i as int)[0] == v[i as int]);
        assert(v.skip(i as int).drop_first() =~= v.skip(i + 1));
        if !is_known_prefix(ps[i].as_str(), known) {
            return Some(ps[i].clone());
        }
        i = i + 1;
    }
    None
}

/// The view of an optional string.
pub open spec fn opt_view(o: Option<String>) -> Option<Seq<char>> {
    match o {
        Some(s) => Some(s@),
        None => None,
    }
}

/// Validate every `select`/`ignore` prefix and severity key against the
/// known rule ids; an unknown one is the error.
fn validate_rule_ids(config: &LintConfig) -> (r: Result<(), ConfigError>)
    ensures
        match spec_invalid_id(
            strings_view(config.select@),
            strings_view(config.ignore@),
            overrides_view(config.per_rule_severity@),
        ) {
            Some(id) => r matches Err(ConfigError::UnknownRule(s)) && s@ == id,
            None => r is Ok,
        },
{
    let known = known_rule_ids();
    let ghost sv = strings_view(config.select@);
    let ghost iv = strings_view(config.ignore@);
    proof {
        lemma_first_unknown_concat(sv, iv);
    }
    match first_unknown_in(&config.select, &known) {
        Some(p) => {
            return Err(ConfigError::UnknownRule(p));
        },
        None => {},
    }
    match first_unknown_in(&config.ignore, &known) {
        Some(p) => {
            return Err(ConfigError::UnknownRule(p));
        },
        None => {},
    }
    let ghost kv = overrides_view(config.per_rule_severity@);
    let mut i: usize = 0;
    assert(kv.skip(0) =~= kv);
    while i < config.per_rule_severity.len()
        invariant
            strs_view(known@) == known_ids(),
            kv == overrides_view(config.per_rule_severity@),
            first_unknown_prefix(sv + iv) is None,
            sv == strings_view(config.select@),
            iv == strings_view(config.ignore@),
            i <= kv.len(),
            first_unknown_key(kv) == first_unknown_key(kv.skip(i as int)),
        decreases kv.len() - i,
    {
        assert(kv.skip(i as int)[0] == kv[i as int]);
        assert(kv.skip(i as int).drop_first() =~= kv.skip(i + 1));
        if !is_known_id(config.per_rule_severity[i].0.as_str(), &known) {
            return Err(ConfigError::UnknownRule(config.per_rule_severity[i].0.clone()));
        }
        i = i + 1;
    }
    Ok(())
}

proof fn lemma_first_unknown_concat(a: Seq<Seq<char>>, b: Seq<Seq<char>>)
    ensures
        first_unknown_prefix(a + b) == match first_unknown_prefix(a) {
            Some(p) => Some(p),
            None => first_unknown_prefix(b),
        },
    decreases a.len(),
{
    if a.len() == 0 {
        assert(a + b =~= b);
    } else {
        assert((a + b)[0] == a[0]);
        assert((a + b).drop_first() =~= a.drop_first() + b);
        lemma_first_unknown_concat(a.drop_first(), b);
    }
}

fn extend_strings(dst: &mut Vec<String>, src: &Vec<String>)
    ensures
        strings_view(final(dst)@) == strings_view(old(dst)@) + strings_view(src@),
{
    let ghost start = strings_view(dst@);
    let mut i: usize = 0;
    while i < src.len()
        invariant
            i <= src@.len(),
            strings_view(dst@) == start + strings_view(src@).take(i as int),
        decreases src@.len() - i,
    {
        let s = src[i].clone();
        let ghost before = strings_view(dst@);
        dst.push(s);
        assert(strings_view(dst@) =~= before.push(src@[i as int]@));
        assert(strings_view(dst@) =~= start + strings_view(src@).take(i + 1));
        i = i + 1;
    }
    assert(strings_view(src@).take(i as int) =~= strings_view(src@));
}

/// Resolve the effective config: the loaded file's (or the defaults when
/// there is none), with the CLI overrides merged over it, then validated.
/// Precedence: CLI overrides > file > built-in defaults.
pub fn effective_config(cli: &CliOverrides, file: Option<LintConfig>) -> (r: Result<LintConfig, ConfigError>)
    ensures
        ({
            let fsel = match file {
                Some(c) => strings_view(c.select@),
                None => Seq::empty(),
            };
            let fign = match file {
                Some(c) => strings_view(c.ignore@),
                None => Seq::empty(),
            };
            let fkeys = match file {
                Some(c) => overrides_view(c.per_rule_severity@),
                None => Seq::empty(),
            };
            let sel = fsel + strings_view(cli.select@);
            let ign = fign + strings_view(cli.ignore@);
            match spec_invalid_id(sel, ign, fkeys) {
                Some(id) => r matches Err(ConfigError::UnknownRule(s)) && s@ == id,
                None => r matches Ok(c) && strings_view(c.select@) == sel && strings_view(
                    c.ignore@,
                ) == ign && overrides_view(c.per_rule_severity@) == fkeys && c.budgets@ == (
                match file {
                    Some(f) => f.budgets@,
                    None => Seq::empty(),
                }) && c.per_file_ignores@ == (match file {
                    Some(f) => f.per_file_ignores@,
                    None => Seq::empty(),
                }) && c.max_intended_width == (match cli.max_intended_width {
                    Some(w) => Some(w),
                    None => match file {
                        Some(f) => f.max_intended_width,
                        None => None,
                    },
                }) && c.savings_threshold == (match cli.savings_threshold {
                    Some(t) => t,
                    None => match file {
                        Some(f) => f.savings_threshold,
                        None => SavingsThreshold {
                            min_bytes: DEFAULT_MIN_BYTES,
                            min_percent: DEFAULT_MIN_PERCENT,
                        },
                    },
                }),
            }
        }),
{
    let mut config = match file {
        Some(c) => c,
        None => LintConfig::default(),
    };
    proof {
        if file is None {
            assert(strings_view(config.select@) =~= Seq::<Seq<char>>::empty());
            assert(strings_view(config.ignore@) =~= Seq::<Seq<char>>::empty());
            assert(overrides_view(config.per_rule_severity@) =~= Seq::<(Seq<char>, SeverityOverride)>::empty());
            assert(config.budgets@ =~= Seq::<Budget>::empty());
            assert(config.per_file_ignores@ =~= Seq::<PerFileIgnore>::empty());
        }
    }
    extend_strings(&mut config.select, &cli.select);
    extend_strings(&mut config.ignore, &cli.ignore);
    match cli.max_intended_width {
        Some(w) => {
            config.max_intended_width = Some(w);
        },
        None => {},
    }
    match cli.savings_threshold {
        Some(t) => {
            config.savings_threshold = t;
        },
        None => {},
    }
    match validate_rule_ids(&config) {
        Err(e) => Err(e),
        Ok(()) => Ok(config),
    }
}

} // verus!
