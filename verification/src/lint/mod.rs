//! A read-only, advisory linter for image asset trees: severities, findings,
//! the rule catalog, the runner and the CI exit code.
//!
//! A rule inspects one file and returns a finding or nothing; it never writes.
//! A finding names a runnable `crustyimg` fix fragment; running it is the
//! user's choice.

pub mod config;
pub mod order;
pub mod report;
pub mod rules;
pub mod target;

use vstd::prelude::*;

use crate::strings::push_str;
use config::{spec_ignored_for_path, spec_rule_enabled, spec_severity_for, LintConfig};
use order::{
    compare_chars, compare_path_strs, compare_paths, compare_strs, lemma_compare_chars_antisym,
    lemma_compare_chars_trans, lemma_compare_components_antisym, lemma_compare_components_eq,
    lemma_compare_components_trans, path_components,
};
use rules::{opt_finding, spec_check};
use target::{LintTarget, TargetModel};

verus! {

// ── Severity ────────────────────────────────────────────────────────────────

/// A finding's severity. The declaration order is the precedence order:
/// `Error` before `Warn` before `Info`; only `Error` (and `Warn` over a
/// warning cap) fails the run.
#[derive(Debug, Clone, Copy, PartialEq, Eq, Structural, PartialOrd, Ord, Hash)]
pub enum Severity {
    /// Wrong or leaking (GPS, a hard budget breach, a corrupt asset).
    Error,
    /// A measured saving or correctness risk.
    Warn,
    /// Opt-in polish; never affects the exit code.
    Info,
}

/// The stable lowercase label of a severity.
pub open spec fn severity_label(s: Severity) -> Seq<char> {
    match s {
        Severity::Error => "error"@,
        Severity::Warn => "warn"@,
        Severity::Info => "info"@,
    }
}

/// The position of a severity in the precedence order.
pub open spec fn severity_rank(s: Severity) -> int {
    match s {
        Severity::Error => 0,
        Severity::Warn => 1,
        Severity::Info => 2,
    }
}

impl Severity {
    /// A stable lowercase label for the report (`error`, `warn`, `info`).
    pub fn label(self) -> (l: &'static str)
        ensures
            l@ == severity_label(self),
    {
        match self {
            Severity::Error => "error",
            Severity::Warn => "warn",
            Severity::Info => "info",
        }
    }
}

// ── Finding ─────────────────────────────────────────────────────────────────

/// One problem a rule found on one file. `rule` is a stable namespaced id;
/// `fix` is a `crustyimg` subcommand fragment (rendered as
/// `crustyimg <fix> <file>`), or `None` when there is no command to run.
#[derive(Debug, Clone, PartialEq, Eq)]
pub struct Finding {
    file: String,
    rule: &'static str,
    severity: Severity,
    message: String,
    fix: Option<String>,
    bytes_saved: Option<u64>,
}

/// The mathematical value of a [`Finding`].
pub struct FindingModel {
    pub file: Seq<char>,
    pub rule: Seq<char>,
    pub severity: Severity,
    pub message: Seq<char>,
    pub fix: Option<Seq<char>>,
    pub bytes_saved: Option<u64>,
}

/// The view of an optional string.
pub open spec fn opt_str(o: Option<String>) -> Option<Seq<char>> {
    match o {
        Some(s) => Some(s@),
        None => None,
    }
}

impl View for Finding {
    type V = FindingModel;

    closed spec fn view(&self) -> FindingModel {
        FindingModel {
            file: self.file@,
            rule: self.rule@,
            severity: self.severity,
            message: self.message@,
            fix: opt_str(self.fix),
            bytes_saved: self.bytes_saved,
        }
    }
}

/// The full runnable fix command of a finding: `crustyimg <fix> <file>`.
pub open spec fn spec_fix_command(f: FindingModel) -> Option<Seq<char>> {
    match f.fix {
        Some(x) => Some("crustyimg "@ + x + " "@ + f.file),
        None => None,
    }
}

impl Finding {
    /// Build a finding with no byte-saving estimate.
    pub fn new(file: &str, rule: &'static str, severity: Severity, message: &str, fix: Option<String>) -> (f: Finding)
        ensures
            f@ == (FindingModel {
                file: file@,
                rule: rule@,
                severity,
                message: message@,
                fix: opt_str(fix),
                bytes_saved: None,
            }),
    {
        Finding {
            file: file.to_owned(),
            rule,
            severity,
            message: message.to_owned(),
            fix,
            bytes_saved: None,
        }
    }

    /// The file this finding is about.
    pub fn file(&self) -> (p: &str)
        ensures
            p@ == self@.file,
    {
        self.file.as_str()
    }

    /// The stable rule id (`area/name`).
    pub fn rule(&self) -> (r: &'static str)
        ensures
            r@ == self@.rule,
    {
        self.rule
    }

    /// The finding's severity.
    pub fn severity(&self) -> (s: Severity)
        ensures
            s == self@.severity,
    {
        self.severity
    }

    /// The human message.
    pub fn message(&self) -> (m: &str)
        ensures
            m@ == self@.message,
    {
        self.message.as_str()
    }

    /// The `crustyimg` subcommand fragment, if any.
    pub fn fix(&self) -> (x: Option<&str>)
        ensures
            match x {
                Some(s) => self@.fix == Some(s@),
                None => self@.fix is None,
            },
    {
        match &self.fix {
            Some(s) => Some(s.as_str()),
            None => None,
        }
    }

    /// Estimated bytes the fix would save, if estimated.
    pub fn bytes_saved(&self) -> (b: Option<u64>)
        ensures
            b == self@.bytes_saved,
    {
        self.bytes_saved
    }

    /// This finding with an estimated byte saving attached.
    pub fn with_bytes_saved(self, bytes: u64) -> (f: Finding)
        ensures
            f@ == (FindingModel { bytes_saved: Some(bytes), ..self@ }),
    {
        let mut f = self;
        f.bytes_saved = Some(bytes);
        f
    }

    /// This finding with its severity replaced.
    pub fn with_severity(self, severity: Severity) -> (f: Finding)
        ensures
            f@ == (FindingModel { severity, ..self@ }),
    {
        let mut f = self;
        f.severity = severity;
        f
    }

    /// The full runnable fix command (`crustyimg <fix> <file>`), or `None`
    /// when the rule names no command.
    pub fn fix_command(&self) -> (c: Option<String>)
        ensures
            opt_str(c) == spec_fix_command(self@),
    {
        match &self.fix {
            Some(x) => {
                let mut s = String::new();
                push_str(&mut s, "crustyimg ");
                push_str(&mut s, x.as_str());
                push_str(&mut s, " ");
                push_str(&mut s, self.file.as_str());
                Some(s)
            },
            None => None,
        }
    }
}

/// The models of a sequence of findings.
pub open spec fn findings_view(v: Seq<Finding>) -> Seq<FindingModel> {
    Seq::new(v.len(), |i: int| v[i]@)
}

// ── Order ───────────────────────────────────────────────────────────────────

/// The deterministic order of findings: by path, then severity, then rule id.
pub open spec fn compare_findings(a: FindingModel, b: FindingModel) -> int {
    let p = compare_paths(a.file, b.file);
    if p != 0 {
        p
    } else if severity_rank(a.severity) < severity_rank(b.severity) {
        -1
    } else if severity_rank(a.severity) > severity_rank(b.severity) {
        1
    } else {
        compare_chars(a.rule, b.rule)
    }
}

/// Where a stable insertion puts `x` into `s`: after every finding that does
/// not order after it.
pub open spec fn insert_pos(s: Seq<FindingModel>, x: FindingModel) -> int
    decreases s.len(),
{
    if s.len() == 0 {
        0
    } else if compare_findings(s.last(), x) <= 0 {
        s.len() as int
    } else {
        insert_pos(s.drop_last(), x)
    }
}

/// `s` stably sorted by [`compare_findings`] (equal keys keep their order).
pub open spec fn sorted_findings(s: Seq<FindingModel>) -> Seq<FindingModel>
    decreases s.len(),
{
    if s.len() == 0 {
        s
    } else {
        let sorted = sorted_findings(s.drop_last());
        sorted.insert(insert_pos(sorted, s.last()), s.last())
    }
}

/// Every finding of `s` orders no later than each finding after it.
pub open spec fn findings_in_order(s: Seq<FindingModel>) -> bool {
    forall|i: int, j: int| 0 <= i < j < s.len() ==> compare_findings(s[i], s[j]) <= 0
}

proof fn lemma_compare_findings_laws(a: FindingModel, b: FindingModel, c: FindingModel)
    ensures
        compare_findings(a, b) == -compare_findings(b, a),
        compare_findings(a, b) <= 0 && compare_findings(b, c) <= 0 ==> compare_findings(a, c)
            <= 0,
{
    let (pa, pb, pc) = (path_components(a.file), path_components(b.file), path_components(c.file));
    lemma_compare_components_antisym(pa, pb);
    lemma_compare_components_antisym(pa, pc);
    lemma_compare_components_antisym(pb, pc);
    lemma_compare_chars_antisym(a.rule, b.rule);
    if compare_findings(a, b) <= 0 && compare_findings(b, c) <= 0 {
        if compare_paths(a.file, b.file) == 0 {
            lemma_compare_components_eq(pa, pb);
        }
        if compare_paths(b.file, c.file) == 0 {
            lemma_compare_components_eq(pb, pc);
        }
        if compare_paths(a.file, b.file) < 0 && compare_paths(b.file, c.file) < 0 {
            lemma_compare_components_trans(pa, pb, pc);
            if compare_paths(a.file, c.file) == 0 {
                lemma_compare_components_eq(pa, pc);
            }
        }
        if compare_paths(a.file, b.file) == 0 && compare_paths(b.file, c.file) == 0
            && severity_rank(a.severity) == severity_rank(b.severity) && severity_rank(b.severity)
            == severity_rank(c.severity) {
            lemma_compare_chars_trans(a.rule, b.rule, c.rule);
        }
    }
}

proof fn lemma_insert_pos(s: Seq<FindingModel>, x: FindingModel)
    ensures
        0 <= insert_pos(s, x) <= s.len(),
        forall|k: int| insert_pos(s, x) <= k < s.len() ==> compare_findings(#[trigger] s[k], x) > 0,
        insert_pos(s, x) > 0 ==> compare_findings(s[insert_pos(s, x) - 1], x) <= 0,
    decreases s.len(),
{
    if s.len() > 0 && compare_findings(s.last(), x) > 0 {
        let t = s.drop_last();
        lemma_insert_pos(t, x);
        assert forall|k: int| insert_pos(s, x) <= k < s.len() implies compare_findings(
            #[trigger] s[k],
            x,
        ) > 0 by {
            if k < t.len() {
                assert(s[k] == t[k]);
            }
        }
    }
}

/// Sorting findings puts them in `(path, severity, rule)` order and keeps
/// every one of them: the result is a permutation of the input.
pub proof fn law_sorted_findings(s: Seq<FindingModel>)
    ensures
        findings_in_order(sorted_findings(s)),
        sorted_findings(s).to_multiset() == s.to_multiset(),
    decreases s.len(),
{
    if s.len() > 0 {
        let prev = s.drop_last();
        let x = s.last();
        law_sorted_findings(prev);
        let sorted = sorted_findings(prev);
        let p = insert_pos(sorted, x);
        lemma_insert_pos(sorted, x);
        let r = sorted.insert(p, x);
        assert(sorted_findings(s) == r);
        assert forall|i: int, j: int| 0 <= i < j < r.len() implies compare_findings(r[i], r[j])
            <= 0 by {
            if j < p {
                assert(r[i] == sorted[i] && r[j] == sorted[j]);
            } else if j == p {
                assert(r[i] == sorted[i] && r[j] == x);
                if i < p - 1 {
                    lemma_compare_findings_laws(sorted[i], sorted[p - 1], x);
                }
            } else if i == p {
                assert(r[i] == x && r[j] == sorted[j - 1]);
                lemma_compare_findings_laws(sorted[j - 1], x, x);
            } else if i < p {
                assert(r[i] == sorted[i] && r[j] == sorted[j - 1]);
            } else {
                assert(r[i] == sorted[i - 1] && r[j] == sorted[j - 1]);
            }
        }
        vstd::seq_lib::to_multiset_insert(sorted, p, x);
        vstd::seq_lib::to_multiset_build(prev, x);
        assert(prev.push(x) =~= s);
    }
}

/// Compare two findings by path, severity and rule.
fn compare_finding(a: &Finding, b: &Finding) -> (r: i8)
    ensures
        r as int == compare_findings(a@, b@),
{
    let p = compare_path_strs(a.file.as_str(), b.file.as_str());
    if p != 0 {
        return p;
    }
    let ra: u8 = match a.severity {
        Severity::Error => 0,
        Severity::Warn => 1,
        Severity::Info => 2,
    };
    let rb: u8 = match b.severity {
        Severity::Error => 0,
        Severity::Warn => 1,
        Severity::Info => 2,
    };
    if ra < rb {
        -1
    } else if ra > rb {
        1
    } else {
        compare_strs(a.rule, b.rule)
    }
}

proof fn lemma_findings_view_insert(v: Seq<Finding>, i: int, f: Finding)
    requires
        0 <= i <= v.len(),
    ensures
        findings_view(v.insert(i, f)) == findings_view(v).insert(i, f@),
{
    assert(findings_view(v.insert(i, f)) =~= findings_view(v).insert(i, f@));
}

fn insert_position(out: &Vec<Finding>, x: &Finding) -> (p: usize)
    ensures
        p == insert_pos(findings_view(out@), x@),
        p <= out@.len(),
{
    let ghost fs = findings_view(out@);
    let mut j: usize = out.len();
    assert(fs.subrange(0, j as int) =~= fs);
    while j > 0 && compare_finding(&out[j - 1], x) > 0
        invariant
            0 <= j <= out@.len(),
            fs == findings_view(out@),
            insert_pos(fs, x@) == insert_pos(fs.subrange(0, j as int), x@),
        decreases j,
    {
        assert(fs.subrange(0, j as int).drop_last() =~= fs.subrange(0, j - 1));
        j = j - 1;
    }
    j
}

/// Sort findings stably by `(path, severity, rule)`.
pub fn sort_findings(findings: Vec<Finding>) -> (out: Vec<Finding>)
    ensures
        findings_view(out@) == sorted_findings(findings_view(findings@)),
        findings_in_order(findings_view(out@)),
        findings_view(out@).to_multiset() == findings_view(findings@).to_multiset(),
{
    let ghost orig = findings_view(findings@);
    proof {
        law_sorted_findings(orig);
    }
    let ghost total = findings@.len();
    assert(total == findings.len());
    let mut src = findings;
    let mut out: Vec<Finding> = Vec::new();
    let mut k: usize = 0;
    assert(orig.subrange(0, 0) =~= Seq::<FindingModel>::empty());
    assert(findings_view(out@) =~= Seq::<FindingModel>::empty());
    while src.len() > 0
        invariant
            k + src@.len() == total,
            total <= usize::MAX,
            orig.len() == total,
            findings_view(src@) == orig.subrange(k as int, total as int),
            findings_view(out@) == sorted_findings(orig.subrange(0, k as int)),
        decreases src@.len(),
    {
        let ghost old_src = src@;
        assert(findings_view(old_src)[0] == old_src[0]@);
        let f = src.remove(0);
        assert forall|i: int| 0 <= i < src@.len() implies findings_view(src@)[i] == orig.subrange(
            k + 1,
            total as int,
        )[i] by {
            assert(src@[i] == old_src[i + 1]);
            assert(findings_view(old_src)[i + 1] == orig.subrange(k as int, total as int)[i + 1]);
        }
        assert(findings_view(src@) =~= orig.subrange(k + 1, total as int));
        assert(orig.subrange(0, k + 1).drop_last() =~= orig.subrange(0, k as int));
        assert(f@ == orig[k as int]);
        let p = insert_position(&out, &f);
        proof {
            lemma_findings_view_insert(out@, p as int, f);
        }
        out.insert(p, f);
        k = k + 1;
    }
    assert(orig.subrange(0, k as int) =~= orig);
    out
}

// ── Outcome ─────────────────────────────────────────────────────────────────

/// The result of a lint run: every finding (sorted by `(path, severity,
/// rule)`) and the number of files scanned.
#[derive(Debug, Clone, PartialEq, Eq)]
pub struct LintOutcome {
    /// Findings, sorted by `(path, severity, rule)`.
    pub findings: Vec<Finding>,
    /// How many image files were scanned.
    pub files_scanned: usize,
}

impl Default for LintOutcome {
    fn default() -> (o: LintOutcome)
        ensures
            o.findings@.len() == 0,
            o.files_scanned == 0,
    {
        LintOutcome { findings: Vec::new(), files_scanned: 0 }
    }
}

/// How many findings in `s` have severity `sev`.
pub open spec fn count_severity(s: Seq<FindingModel>, sev: Severity) -> nat
    decreases s.len(),
{
    if s.len() == 0 {
        0
    } else {
        count_severity(s.drop_last(), sev) + if s.last().severity == sev {
            1nat
        } else {
            0nat
        }
    }
}

/// The total estimated saving across `s` (findings without an estimate add 0).
pub open spec fn saved_total(s: Seq<FindingModel>) -> nat
    decreases s.len(),
{
    if s.len() == 0 {
        0
    } else {
        saved_total(s.drop_last()) + match s.last().bytes_saved {
            Some(b) => b as nat,
            None => 0nat,
        }
    }
}

proof fn lemma_count_bounded(s: Seq<FindingModel>, sev: Severity)
    ensures
        count_severity(s, sev) <= s.len(),
    decreases s.len(),
{
    if s.len() > 0 {
        lemma_count_bounded(s.drop_last(), sev);
    }
}

proof fn lemma_saved_monotone(s: Seq<FindingModel>, i: int)
    requires
        0 <= i <= s.len(),
    ensures
        saved_total(s.take(i)) <= saved_total(s),
    decreases s.len() - i,
{
    if i < s.len() {
        lemma_saved_monotone(s, i + 1);
        assert(s.take(i + 1).drop_last() =~= s.take(i));
    } else {
        assert(s.take(i) =~= s);
    }
}

impl LintOutcome {
    /// The number of findings at `Error` severity.
    pub fn error_count(&self) -> (n: usize)
        ensures
            n == count_severity(findings_view(self.findings@), Severity::Error),
    {
        self.count(Severity::Error)
    }

    /// The number of findings at `Warn` severity.
    pub fn warn_count(&self) -> (n: usize)
        ensures
            n == count_severity(findings_view(self.findings@), Severity::Warn),
    {
        self.count(Severity::Warn)
    }

    /// The number of findings at `Info` severity.
    pub fn info_count(&self) -> (n: usize)
        ensures
            n == count_severity(findings_view(self.findings@), Severity::Info),
    {
        self.count(Severity::Info)
    }

    fn count(&self, sev: Severity) -> (n: usize)
        ensures
            n == count_severity(findings_view(self.findings@), sev),
    {
        let ghost fs = findings_view(self.findings@);
        let mut n: usize = 0;
        let mut i: usize = 0;
        while i < self.findings.len()
            invariant
                i <= self.findings@.len(),
                fs == findings_view(self.findings@),
                n == count_severity(fs.take(i as int), sev),
            decreases self.findings@.len() - i,
        {
            assert(fs.take(i + 1).drop_last() =~= fs.take(i as int));
            assert(fs.take(i + 1).last() == self.findings@[i as int]@);
            proof {
                lemma_count_bounded(fs.take(i as int), sev);
            }
            if self.findings[i].severity() == sev {
                n = n + 1;
            }
            i = i + 1;
        }
        assert(fs.take(i as int) =~= fs);
        n
    }

    /// The total estimated bytes saveable across all findings.
    pub fn potential_bytes_saved(&self) -> (n: u64)
        requires
            saved_total(findings_view(self.findings@)) <= u64::MAX,
        ensures
            n == saved_total(findings_view(self.findings@)),
    {
        let ghost fs = findings_view(self.findings@);
        let mut n: u64 = 0;
        let mut i: usize = 0;
        while i < self.findings.len()
            invariant
                i <= self.findings@.len(),
                fs == findings_view(self.findings@),
                saved_total(fs) <= u64::MAX,
                n == saved_total(fs.take(i as int)),
            decreases self.findings@.len() - i,
        {
            assert(fs.take(i + 1).drop_last() =~= fs.take(i as int));
            assert(fs.take(i + 1).last() == self.findings@[i as int]@);
            proof {
                lemma_saved_monotone(fs, i + 1);
            }
            match self.findings[i].bytes_saved() {
                Some(b) => {
                    n = n + b;
                },
                None => {},
            }
            i = i + 1;
        }
        assert(fs.take(i as int) =~= fs);
        n
    }
}

/// The CI exit code of an outcome: `7` with any `Error`, or with more `Warn`
/// findings than `max_warnings` when a cap is given; `0` otherwise.
pub open spec fn spec_exit_code(fs: Seq<FindingModel>, max_warnings: Option<usize>) -> i32 {
    if count_severity(fs, Severity::Error) > 0 {
        7
    } else if max_warnings matches Some(m) && count_severity(fs, Severity::Warn) > m {
        7
    } else {
        0
    }
}

proof fn lemma_count_severity_insert(s: Seq<FindingModel>, i: int, f: FindingModel, sev: Severity)
    requires
        0 <= i <= s.len(),
    ensures
        count_severity(s.insert(i, f), sev) == count_severity(s, sev) + if f.severity == sev {
            1nat
        } else {
            0nat
        },
    decreases s.len(),
{
    if i == s.len() {
        assert(s.insert(i, f).drop_last() =~= s);
    } else {
        lemma_count_severity_insert(s.drop_last(), i, f, sev);
        assert(s.insert(i, f).drop_last() =~= s.drop_last().insert(i, f));
    }
}

/// An `Info` finding never changes the exit code, and without a warning cap
/// neither does a `Warn` finding, wherever it stands among the others.
pub proof fn law_exit_code_ignores_info(
    fs: Seq<FindingModel>,
    i: int,
    f: FindingModel,
    max_warnings: Option<usize>,
)
    requires
        0 <= i <= fs.len(),
        f.severity == Severity::Info || (f.severity == Severity::Warn && max_warnings is None),
    ensures
        spec_exit_code(fs.insert(i, f), max_warnings) == spec_exit_code(fs, max_warnings),
{
    lemma_count_severity_insert(fs, i, f, Severity::Error);
    lemma_count_severity_insert(fs, i, f, Severity::Warn);
}

/// Map an outcome to a CI exit code: `7` when there is an `Error`, or when
/// `max_warnings` is set and the `Warn` count exceeds it; `0` otherwise.
/// `Info` never fails.
pub fn exit_code(outcome: &LintOutcome, max_warnings: Option<usize>) -> (c: i32)
    ensures
        c == spec_exit_code(findings_view(outcome.findings@), max_warnings),
{
    if outcome.error_count() > 0 {
        return 7;
    }
    match max_warnings {
        Some(max) => {
            if outcome.warn_count() > max {
                return 7;
            }
        },
        None => {},
    }
    0
}

// ── Rule catalog ────────────────────────────────────────────────────────────

/// The rules this linter ships, in catalog order.
#[derive(Debug, Clone, Copy, PartialEq, Eq, Structural)]
pub enum RuleKind {
    GpsMetadataLeak,
    TruncatedOrCorrupt,
    CameraMetadata,
    OrientationNotBaked,
    OversizedBytes,
    OversizedDimensions,
    WrongColorspace,
    MissingIcc,
    UnexpectedIcc,
    AnimatedGif,
}

/// The stable, namespaced id of a rule.
pub open spec fn rule_id(k: RuleKind) -> Seq<char> {
    match k {
        RuleKind::GpsMetadataLeak => "privacy/gps-metadata-leak"@,
        RuleKind::TruncatedOrCorrupt => "size/truncated-or-corrupt"@,
        RuleKind::CameraMetadata => "privacy/camera-metadata"@,
        RuleKind::OrientationNotBaked => "orient/orientation-not-baked"@,
        RuleKind::OversizedBytes => "size/oversized-bytes"@,
        RuleKind::OversizedDimensions => "dims/oversized-dimensions"@,
        RuleKind::WrongColorspace => "color/wrong-colorspace"@,
        RuleKind::MissingIcc => "color/missing-icc"@,
        RuleKind::UnexpectedIcc => "color/unexpected-icc"@,
        RuleKind::AnimatedGif => "format/animated-gif"@,
    }
}

/// The severity a rule reports when no config overrides it.
pub open spec fn rule_default_severity(k: RuleKind) -> Severity {
    match k {
        RuleKind::GpsMetadataLeak => Severity::Error,
        RuleKind::TruncatedOrCorrupt => Severity::Error,
        RuleKind::CameraMetadata => Severity::Info,
        RuleKind::OrientationNotBaked => Severity::Warn,
        RuleKind::OversizedBytes => Severity::Error,
        RuleKind::OversizedDimensions => Severity::Warn,
        RuleKind::WrongColorspace => Severity::Warn,
        RuleKind::MissingIcc => Severity::Info,
        RuleKind::UnexpectedIcc => Severity::Info,
        RuleKind::AnimatedGif => Severity::Warn,
    }
}

/// Whether a rule runs without being enabled by config (opt-in rules do not).
pub open spec fn rule_default_enabled(k: RuleKind) -> bool {
    match k {
        RuleKind::CameraMetadata => false,
        RuleKind::MissingIcc => false,
        RuleKind::UnexpectedIcc => false,
        _ => true,
    }
}

impl RuleKind {
    /// The stable rule id (`area/name`).
    pub fn id(self) -> (r: &'static str)
        ensures
            r@ == rule_id(self),
    {
        match self {
            RuleKind::GpsMetadataLeak => "privacy/gps-metadata-leak",
            RuleKind::TruncatedOrCorrupt => "size/truncated-or-corrupt",
            RuleKind::CameraMetadata => "privacy/camera-metadata",
            RuleKind::OrientationNotBaked => "orient/orientation-not-baked",
            RuleKind::OversizedBytes => "size/oversized-bytes",
            RuleKind::OversizedDimensions => "dims/oversized-dimensions",
            RuleKind::WrongColorspace => "color/wrong-colorspace",
            RuleKind::MissingIcc => "color/missing-icc",
            RuleKind::UnexpectedIcc => "color/unexpected-icc",
            RuleKind::AnimatedGif => "format/animated-gif",
        }
    }

    /// The default severity when no config overrides it.
    pub fn default_severity(self) -> (s: Severity)
        ensures
            s == rule_default_severity(self),
    {
        match self {
            RuleKind::GpsMetadataLeak => Severity::Error,
            RuleKind::TruncatedOrCorrupt => Severity::Error,
            RuleKind::CameraMetadata => Severity::Info,
            RuleKind::OrientationNotBaked => Severity::Warn,
            RuleKind::OversizedBytes => Severity::Error,
            RuleKind::OversizedDimensions => Severity::Warn,
            RuleKind::WrongColorspace => Severity::Warn,
            RuleKind::MissingIcc => Severity::Info,
            RuleKind::UnexpectedIcc => Severity::Info,
            RuleKind::AnimatedGif => Severity::Warn,
        }
    }

    /// Whether the rule runs by default.
    pub fn default_enabled(self) -> (b: bool)
        ensures
            b == rule_default_enabled(self),
    {
        match self {
            RuleKind::CameraMetadata => false,
            RuleKind::MissingIcc => false,
            RuleKind::UnexpectedIcc => false,
            _ => true,
        }
    }
}

/// The default rule set, in catalog order.
pub open spec fn catalog() -> Seq<RuleKind> {
    seq![
        RuleKind::GpsMetadataLeak,
        RuleKind::TruncatedOrCorrupt,
        RuleKind::CameraMetadata,
        RuleKind::OrientationNotBaked,
        RuleKind::OversizedBytes,
        RuleKind::OversizedDimensions,
        RuleKind::WrongColorspace,
        RuleKind::MissingIcc,
        RuleKind::UnexpectedIcc,
        RuleKind::AnimatedGif,
    ]
}

/// The ids of the catalog, in catalog order.
pub open spec fn known_ids() -> Seq<Seq<char>> {
    Seq::new(catalog().len(), |i: int| rule_id(catalog()[i]))
}

/// The views of a sequence of string slices.
pub open spec fn strs_view(v: Seq<&str>) -> Seq<Seq<char>> {
    Seq::new(v.len(), |i: int| v[i]@)
}

/// The default rule set.
pub fn default_rules() -> (r: Vec<RuleKind>)
    ensures
        r@ == catalog(),
{
    let r = vec![
        RuleKind::GpsMetadataLeak,
        RuleKind::TruncatedOrCorrupt,
        RuleKind::CameraMetadata,
        RuleKind::OrientationNotBaked,
        RuleKind::OversizedBytes,
        RuleKind::OversizedDimensions,
        RuleKind::WrongColorspace,
        RuleKind::MissingIcc,
        RuleKind::UnexpectedIcc,
        RuleKind::AnimatedGif,
    ];
    assert(r@ =~= catalog());
    r
}

/// Every known rule id: the catalog that config entries validate against.
pub fn known_rule_ids() -> (ids: Vec<&'static str>)
    ensures
        strs_view(ids@) == known_ids(),
{
    let rules = default_rules();
    let mut ids: Vec<&'static str> = Vec::new();
    let mut i: usize = 0;
    while i < rules.len()
        invariant
            rules@ == catalog(),
            i <= rules@.len(),
            strs_view(ids@) == known_ids().take(i as int),
        decreases rules@.len() - i,
    {
        let id = rules[i].id();
        assert(id@ == known_ids()[i as int]);
        let ghost before = strs_view(ids@);
        ids.push(id);
        assert(strs_view(ids@) =~= before.push(id@));
        assert(strs_view(ids@) =~= known_ids().take(i + 1));
        i = i + 1;
    }
    assert(known_ids().take(i as int) =~= known_ids());
    ids
}

// ── Rule trait ──────────────────────────────────────────────────────────────

/// A single lint rule: a small, pure check over one [`LintTarget`]. A rule
/// never writes; it returns a finding when it fires and `None` when the
/// target is clean.
pub trait Rule {
    /// The stable rule id (`area/name`).
    fn id(&self) -> &'static str;

    /// The default severity when no config overrides it.
    fn default_severity(&self) -> Severity;

    /// Whether the rule runs by default; opt-in rules run only when the
    /// config enables them.
    fn default_enabled(&self) -> bool;

    /// Check the target.
    fn check(&self, target: &LintTarget) -> Option<Finding>;
}

/// `privacy/gps-metadata-leak` (error): the image carries GPS EXIF, a location
/// leak in a public asset. Fix: `clean --gps`.
pub struct GpsMetadataLeak;

impl Rule for GpsMetadataLeak {
    fn id(&self) -> (r: &'static str)
        ensures
            r@ == rule_id(RuleKind::GpsMetadataLeak),
    {
        RuleKind::GpsMetadataLeak.id()
    }

    fn default_severity(&self) -> (s: Severity)
        ensures
            s == rule_default_severity(RuleKind::GpsMetadataLeak),
    {
        RuleKind::GpsMetadataLeak.default_severity()
    }

    fn default_enabled(&self) -> (b: bool)
        ensures
            b == rule_default_enabled(RuleKind::GpsMetadataLeak),
    {
        RuleKind::GpsMetadataLeak.default_enabled()
    }

    fn check(&self, target: &LintTarget) -> (r: Option<Finding>)
        ensures
            opt_finding(r) == spec_check(RuleKind::GpsMetadataLeak, target@),
    {
        RuleKind::GpsMetadataLeak.check(target)
    }
}

/// `size/truncated-or-corrupt` (error): the file failed to decode. A codec
/// that is not built in says nothing about the file and is not reported.
pub struct TruncatedOrCorrupt;

impl Rule for TruncatedOrCorrupt {
    fn id(&self) -> (r: &'static str)
        ensures
            r@ == rule_id(RuleKind::TruncatedOrCorrupt),
    {
        RuleKind::TruncatedOrCorrupt.id()
    }

    fn default_severity(&self) -> (s: Severity)
        ensures
            s == rule_default_severity(RuleKind::TruncatedOrCorrupt),
    {
        RuleKind::TruncatedOrCorrupt.default_severity()
    }

    fn default_enabled(&self) -> (b: bool)
        ensures
            b == rule_default_enabled(RuleKind::TruncatedOrCorrupt),
    {
        RuleKind::TruncatedOrCorrupt.default_enabled()
    }

    fn check(&self, target: &LintTarget) -> (r: Option<Finding>)
        ensures
            opt_finding(r) == spec_check(RuleKind::TruncatedOrCorrupt, target@),
    {
        RuleKind::TruncatedOrCorrupt.check(target)
    }
}

// ── Runner ──────────────────────────────────────────────────────────────────

/// The findings `rules` report on target `t` under config `c`: a rule runs
/// when enabled, a finding suppressed on the path by a per-file ignore is
/// dropped, and the rest take the config's severity.
pub open spec fn target_findings(t: TargetModel, rules: Seq<RuleKind>, c: LintConfig) -> Seq<FindingModel>
    decreases rules.len(),
{
    if rules.len() == 0 {
        Seq::empty()
    } else {
        let prev = target_findings(t, rules.drop_last(), c);
        let k = rules.last();
        if !spec_rule_enabled(c, rule_id(k), rule_default_enabled(k)) {
            prev
        } else {
            match spec_check(k, t) {
                None => prev,
                Some(f) => if spec_ignored_for_path(c.per_file_ignores@, rule_id(k), t.path) {
                    prev
                } else {
                    prev.push(FindingModel { severity: spec_severity_for(c, rule_id(k), f.severity), ..f })
                },
            }
        }
    }
}

/// The findings over every target, in target order.
pub open spec fn all_findings(ts: Seq<TargetModel>, rules: Seq<RuleKind>, c: LintConfig) -> Seq<FindingModel>
    decreases ts.len(),
{
    if ts.len() == 0 {
        Seq::empty()
    } else {
        all_findings(ts.drop_last(), rules, c) + target_findings(ts.last(), rules, c)
    }
}

/// Whether finding `f` may come from rule `k` under config `c`: the rule runs
/// under `c`, is not suppressed for the finding's file, and the finding
/// carries the rule's id and its configured severity.
pub open spec fn allowed_by(c: LintConfig, k: RuleKind, f: FindingModel) -> bool {
    &&& f.rule == rule_id(k)
    &&& spec_rule_enabled(c, rule_id(k), rule_default_enabled(k))
    &&& !spec_ignored_for_path(c.per_file_ignores@, rule_id(k), f.file)
    &&& f.severity == spec_severity_for(c, rule_id(k), rule_default_severity(k))
}

/// Whether some rule of `rules` may produce `f` under `c`.
pub open spec fn finding_allowed(c: LintConfig, rules: Seq<RuleKind>, f: FindingModel) -> bool {
    exists|j: int| 0 <= j < rules.len() && #[trigger] allowed_by(c, rules[j], f)
}

proof fn lemma_target_findings_allowed(t: TargetModel, rules: Seq<RuleKind>, c: LintConfig)
    ensures
        forall|i: int|
            0 <= i < target_findings(t, rules, c).len() ==> finding_allowed(
                c,
                rules,
                #[trigger] target_findings(t, rules, c)[i],
            ),
    decreases rules.len(),
{
    if rules.len() > 0 {
        let prev_rules = rules.drop_last();
        lemma_target_findings_allowed(t, prev_rules, c);
        let prev = target_findings(t, prev_rules, c);
        let k = rules.last();
        assert forall|i: int| 0 <= i < prev.len() implies finding_allowed(c, rules, #[trigger] prev[i]) by {
            let f = prev[i];
            assert(finding_allowed(c, prev_rules, f));
            let j = choose|j: int| 0 <= j < prev_rules.len() && #[trigger] allowed_by(c, prev_rules[j], f);
            assert(rules[j] == prev_rules[j]);
        }
        let out = target_findings(t, rules, c);
        assert forall|i: int| 0 <= i < out.len() implies finding_allowed(c, rules, #[trigger] out[i]) by {
            if i < prev.len() {
                assert(out[i] == prev[i]);
            } else {
                assert(rules[rules.len() - 1] == k);
                assert(allowed_by(c, rules[rules.len() - 1], out[i]));
            }
        }
    }
}

proof fn lemma_all_findings_allowed(ts: Seq<TargetModel>, rules: Seq<RuleKind>, c: LintConfig)
    ensures
        forall|i: int|
            0 <= i < all_findings(ts, rules, c).len() ==> finding_allowed(
                c,
                rules,
                #[trigger] all_findings(ts, rules, c)[i],
            ),
    decreases ts.len(),
{
    if ts.len() > 0 {
        lemma_all_findings_allowed(ts.drop_last(), rules, c);
        lemma_target_findings_allowed(ts.last(), rules, c);
        let a = all_findings(ts.drop_last(), rules, c);
        let b = target_findings(ts.last(), rules, c);
        assert forall|i: int| 0 <= i < (a + b).len() implies finding_allowed(c, rules, #[trigger] (a + b)[i]) by {
            if i < a.len() {
                assert((a + b)[i] == a[i]);
            } else {
                assert((a + b)[i] == b[i - a.len()]);
            }
        }
    }
}

/// Every finding of a lint run, in the order it is reported, comes from one
/// of the given rules that the configuration lets run (not turned `off`,
/// selected when `select` is set, not ignored); no `per_file_ignores` entry
/// suppresses that rule for the finding's file; and the finding carries the
/// severity the configuration gives its rule.
pub proof fn law_findings_respect_config(
    ts: Seq<TargetModel>,
    rules: Seq<RuleKind>,
    c: LintConfig,
    i: int,
)
    requires
        0 <= i < sorted_findings(all_findings(ts, rules, c)).len(),
    ensures
        finding_allowed(c, rules, sorted_findings(all_findings(ts, rules, c))[i]),
{
    let all = all_findings(ts, rules, c);
    let sorted = sorted_findings(all);
    lemma_all_findings_allowed(ts, rules, c);
    law_sorted_findings(all);
    let f = sorted[i];
    vstd::seq_lib::to_multiset_contains(sorted, f);
    vstd::seq_lib::to_multiset_contains(all, f);
    assert(sorted.contains(f));
    assert(all.contains(f));
    let k = choose|k: int| 0 <= k < all.len() && all[k] == f;
    assert(finding_allowed(c, rules, all[k]));
}

/// The models of a sequence of targets.
pub open spec fn targets_view(v: Seq<LintTarget>) -> Seq<TargetModel> {
    Seq::new(v.len(), |i: int| v[i]@)
}

fn lint_target(target: &LintTarget, rules: &[RuleKind], config: &LintConfig, out: &mut Vec<Finding>)
    ensures
        findings_view(final(out)@) == findings_view(old(out)@) + target_findings(target@, rules@, *config),
{
    let ghost start = findings_view(out@);
    let mut i: usize = 0;
    assert(rules@.take(0) =~= Seq::<RuleKind>::empty());
    assert(findings_view(out@) =~= start + Seq::<FindingModel>::empty());
    while i < rules.len()
        invariant
            i <= rules@.len(),
            findings_view(out@) == start + target_findings(target@, rules@.take(i as int), *config),
        decreases rules@.len() - i,
    {
        let k = rules[i];
        assert(rules@.take(i + 1).drop_last() =~= rules@.take(i as int));
        assert(rules@.take(i + 1).last() == k);
        if config.is_rule_enabled(k.id(), k.default_enabled()) {
            match k.check(target) {
                Some(finding) => {
                    if !config.is_ignored_for_path(k.id(), target.path()) {
                        let sev = config.severity_for(k.id(), finding.severity());
                        let f = finding.with_severity(sev);
                        let ghost before = findings_view(out@);
                        out.push(f);
                        assert(findings_view(out@) =~= before.push(f@));
                    }
                },
                None => {},
            }
        }
        i = i + 1;
    }
    assert(rules@.take(i as int) =~= rules@);
}

/// Run `rules` over every target under `config` and collect the outcome:
/// the findings sorted by `(path, severity, rule)`, and the number of files
/// scanned. Read-only, and never aborted by a bad file: a decode failure is a
/// finding of the corrupt-file rule.
pub fn run_lint(targets: &[LintTarget], rules: &[RuleKind], config: &LintConfig) -> (o: LintOutcome)
    ensures
        findings_view(o.findings@) == sorted_findings(all_findings(targets_view(targets@), rules@, *config)),
        o.files_scanned == targets@.len(),
        findings_in_order(findings_view(o.findings@)),
        forall|i: int|
            0 <= i < o.findings@.len() ==> finding_allowed(
                *config,
                rules@,
                #[trigger] findings_view(o.findings@)[i],
            ),
{
    let ghost tv = targets_view(targets@);
    let mut findings: Vec<Finding> = Vec::new();
    let mut i: usize = 0;
    assert(tv.take(0) =~= Seq::<TargetModel>::empty());
    assert(findings_view(findings@) =~= Seq::<FindingModel>::empty());
    while i < targets.len()
        invariant
            tv == targets_view(targets@),
            i <= targets@.len(),
            findings_view(findings@) == all_findings(tv.take(i as int), rules@, *config),
        decreases targets@.len() - i,
    {
        assert(tv.take(i + 1).drop_last() =~= tv.take(i as int));
        assert(tv.take(i + 1).last() == targets@[i as int]@);
        lint_target(&targets[i], rules, config, &mut findings);
        i = i + 1;
    }
    assert(tv.take(i as int) =~= tv);
    let sorted = sort_findings(findings);
    proof {
        law_sorted_findings(all_findings(tv, rules@, *config));
        assert forall|i: int| 0 <= i < sorted@.len() implies finding_allowed(
            *config,
            rules@,
            #[trigger] findings_view(sorted@)[i],
        ) by {
            law_findings_respect_config(tv, rules@, *config, i);
        }
    }
    LintOutcome { findings: sorted, files_scanned: targets.len() }
}

} // verus!
