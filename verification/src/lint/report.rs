//! Lint report renderers: the grouped-by-file human report, the JSON report
//! (schema `crustyimg.lint/v1`) and the SARIF 2.1.0 report. Each renders to
//! a string; the output is deterministic (no clock, findings already sorted).

use vstd::prelude::*;

use crate::lint::order::{
    compare_chars, compare_paths, lemma_compare_chars_antisym, lemma_compare_chars_eq,
    lemma_compare_chars_trans,
};
use crate::lint::{
    catalog, count_severity, findings_view, rule_default_severity, rule_id, saved_total,
    severity_label, spec_fix_command, Finding, FindingModel, LintOutcome, RuleKind, Severity,
};
use crate::paths::{replace_all, replace};
use crate::strings::{decimal, push_char, push_decimal, push_str, str_eq};

verus! {

// ── JSON strings ────────────────────────────────────────────────────────────

/// The uppercase hexadecimal digit for `d < 16`.
pub open spec fn hex_upper(d: nat) -> char {
    if d < 10 {
        crate::strings::digit_char(d)
    } else if d == 10 {
        'A'
    } else if d == 11 {
        'B'
    } else if d == 12 {
        'C'
    } else if d == 13 {
        'D'
    } else if d == 14 {
        'E'
    } else {
        'F'
    }
}

/// The JSON escape of one character: `"` and `\` are backslash-escaped,
/// control characters below `0x20` become `\u00XX`.
pub open spec fn escape_char(c: char) -> Seq<char> {
    if c == '"' {
        seq!['\\', '"']
    } else if c == '\\' {
        seq!['\\', '\\']
    } else if (c as u32) < 0x20 {
        seq!['\\', 'u', '0', '0', hex_upper((c as u32 / 16) as nat), hex_upper((c as u32 % 16) as nat)]
    } else {
        seq![c]
    }
}

/// The JSON escape of a string (without the surrounding quotes).
pub open spec fn spec_escape_json(s: Seq<char>) -> Seq<char>
    decreases s.len(),
{
    if s.len() == 0 {
        Seq::empty()
    } else {
        spec_escape_json(s.drop_last()) + escape_char(s.last())
    }
}

fn hex_digit(d: u32) -> (c: char)
    requires
        d < 16,
    ensures
        c == hex_upper(d as nat),
{
    if d == 0 {
        '0'
    } else if d == 1 {
        '1'
    } else if d == 2 {
        '2'
    } else if d == 3 {
        '3'
    } else if d == 4 {
        '4'
    } else if d == 5 {
        '5'
    } else if d == 6 {
        '6'
    } else if d == 7 {
        '7'
    } else if d == 8 {
        '8'
    } else if d == 9 {
        '9'
    } else if d == 10 {
        'A'
    } else if d == 11 {
        'B'
    } else if d == 12 {
        'C'
    } else if d == 13 {
        'D'
    } else if d == 14 {
        'E'
    } else {
        'F'
    }
}

/// Append the JSON escape of `s` to `out`.
fn push_escaped(out: &mut String, s: &str)
    ensures
        final(out)@ == old(out)@ + spec_escape_json(s@),
{
    let ghost start = out@;
    let n = s.unicode_len();
    let mut i: usize = 0;
    assert(s@.take(0) =~= Seq::<char>::empty());
    assert(out@ =~= start + spec_escape_json(s@.take(0)));
    while i < n
        invariant
            n == s@.len(),
            i <= n,
            out@ == start + spec_escape_json(s@.take(i as int)),
        decreases n - i,
    {
        let c = s.get_char(i);
        assert(s@.take(i + 1).drop_last() =~= s@.take(i as int));
        assert(s@.take(i + 1).last() == c);
        let ghost before = out@;
        if c == '"' {
            push_char(out, '\\');
            push_char(out, '"');
        } else if c == '\\' {
            push_char(out, '\\');
            push_char(out, '\\');
        } else if (c as u32) < 0x20 {
            let v = c as u32;
            push_char(out, '\\');
            push_char(out, 'u');
            push_char(out, '0');
            push_char(out, '0');
            push_char(out, hex_digit(v / 16));
            push_char(out, hex_digit(v % 16));
        } else {
            push_char(out, c);
        }
        assert(out@ =~= before + escape_char(c));
        i = i + 1;
    }
    assert(s@.take(n as int) =~= s@);
}

/// Escape a string for a JSON value: `"` and `\` are backslash-escaped and
/// control characters below `0x20` become `\u00XX`.
pub fn escape_json(s: &str) -> (r: String)
    ensures
        r@ == spec_escape_json(s@),
{
    let mut out = String::new();
    push_escaped(&mut out, s);
    out
}

// ── JSON report ─────────────────────────────────────────────────────────────

/// The `fix` value of a finding: the quoted, escaped command, or `null`.
pub open spec fn json_fix(f: FindingModel) -> Seq<char> {
    match spec_fix_command(f) {
        Some(c) => "\""@ + spec_escape_json(c) + "\""@,
        None => "null"@,
    }
}

/// The `bytes_saved` member of a finding, omitted when absent.
pub open spec fn json_saved(f: FindingModel) -> Seq<char> {
    match f.bytes_saved {
        Some(b) => ",\"bytes_saved\":"@ + decimal(b as nat),
        None => Seq::empty(),
    }
}

/// One finding as a JSON object.
pub open spec fn json_finding(f: FindingModel) -> Seq<char> {
    "{\"file\":\""@ + spec_escape_json(f.file) + "\",\"rule\":\""@ + spec_escape_json(f.rule)
        + "\",\"severity\":\""@ + severity_label(f.severity) + "\",\"message\":\""@
        + spec_escape_json(f.message) + "\",\"fix\":"@ + json_fix(f) + json_saved(f) + "}"@
}

/// The findings as comma-separated JSON objects.
pub open spec fn json_findings(fs: Seq<FindingModel>) -> Seq<char>
    decreases fs.len(),
{
    if fs.len() == 0 {
        Seq::empty()
    } else if fs.len() == 1 {
        json_finding(fs[0])
    } else {
        json_findings(fs.drop_last()) + ","@ + json_finding(fs.last())
    }
}

/// The text of a boolean.
pub open spec fn bool_text(b: bool) -> Seq<char> {
    if b {
        "true"@
    } else {
        "false"@
    }
}

/// The JSON report of an outcome (one line, no trailing newline).
pub open spec fn spec_json(fs: Seq<FindingModel>, files_scanned: usize, passed: bool) -> Seq<char> {
    "{\"schema\":\"crustyimg.lint/v1\",\"findings\":["@ + json_findings(fs)
        + "],\"summary\":{\"files_scanned\":"@ + decimal(files_scanned as nat) + ",\"errors\":"@
        + decimal(count_severity(fs, Severity::Error)) + ",\"warnings\":"@ + decimal(
        count_severity(fs, Severity::Warn),
    ) + ",\"infos\":"@ + decimal(count_severity(fs, Severity::Info))
        + ",\"potential_bytes_saved\":"@ + decimal(saved_total(fs)) + ",\"passed\":"@ + bool_text(
        passed,
    ) + "}}"@
}

#[verifier::spinoff_prover]
#[verifier::rlimit(50)]
fn push_json_finding(out: &mut String, f: &Finding)
    ensures
        final(out)@ == old(out)@ + json_finding(f@),
{
    push_str(out, "{\"file\":\"");
    push_escaped(out, f.file());
    push_str(out, "\",\"rule\":\"");
    push_escaped(out, f.rule());
    push_str(out, "\",\"severity\":\"");
    push_str(out, f.severity().label());
    push_str(out, "\",\"message\":\"");
    push_escaped(out, f.message());
    push_str(out, "\",\"fix\":");
    match f.fix_command() {
        Some(cmd) => {
            push_str(out, "\"");
            push_escaped(out, cmd.as_str());
            push_str(out, "\"");
        },
        None => {
            push_str(out, "null");
        },
    }
    match f.bytes_saved() {
        Some(b) => {
            push_str(out, ",\"bytes_saved\":");
            push_decimal(out, b);
        },
        None => {},
    }
    push_str(out, "}");
}

fn push_bool(out: &mut String, b: bool)
    ensures
        final(out)@ == old(out)@ + bool_text(b),
{
    if b {
        push_str(out, "true");
    } else {
        push_str(out, "false");
    }
}

/// The outcome as a single-line JSON object (schema `crustyimg.lint/v1`).
/// `fix` is the full runnable command or `null`; `bytes_saved` is omitted
/// when absent; `passed` records whether the run passes, as the caller
/// decided it.
#[verifier::spinoff_prover]
#[verifier::rlimit(50)]
pub fn write_json(outcome: &LintOutcome, passed: bool) -> (s: String)
    requires
        saved_total(findings_view(outcome.findings@)) <= u64::MAX,
    ensures
        s@ == spec_json(findings_view(outcome.findings@), outcome.files_scanned, passed),
{
    let ghost fs = findings_view(outcome.findings@);
    let mut out = String::new();
    push_str(&mut out, "{\"schema\":\"crustyimg.lint/v1\",\"findings\":[");
    let ghost head = out@;
    let mut i: usize = 0;
    assert(out@ =~= head + json_findings(fs.take(0)));
    while i < outcome.findings.len()
        invariant
            fs == findings_view(outcome.findings@),
            i <= fs.len(),
            out@ == head + json_findings(fs.take(i as int)),
        decreases fs.len() - i,
    {
        assert(fs.take(i + 1).drop_last() =~= fs.take(i as int));
        assert(fs.take(i + 1).last() == outcome.findings@[i as int]@);
        let ghost before = out@;
        if i > 0 {
            push_str(&mut out, ",");
        }
        push_json_finding(&mut out, &outcome.findings[i]);
        if i == 0 {
            assert(fs.take(1)[0] == fs.take(1).last());
        }
        assert(out@ =~= head + json_findings(fs.take(i + 1)));
        i = i + 1;
    }
    assert(fs.take(i as int) =~= fs);
    push_str(&mut out, "],\"summary\":{\"files_scanned\":");
    push_decimal(&mut out, outcome.files_scanned as u64);
    push_str(&mut out, ",\"errors\":");
    push_decimal(&mut out, outcome.error_count() as u64);
    push_str(&mut out, ",\"warnings\":");
    push_decimal(&mut out, outcome.warn_count() as u64);
    push_str(&mut out, ",\"infos\":");
    push_decimal(&mut out, outcome.info_count() as u64);
    push_str(&mut out, ",\"potential_bytes_saved\":");
    push_decimal(&mut out, outcome.potential_bytes_saved());
    push_str(&mut out, ",\"passed\":");
    push_bool(&mut out, passed);
    push_str(&mut out, "}}");
    out
}

// ── Human report ────────────────────────────────────────────────────────────

/// The `fix:` line of a finding, if it names a command.
pub open spec fn human_fix_line(f: FindingModel) -> Seq<char> {
    match spec_fix_command(f) {
        Some(c) => "    fix: "@ + c + "\n"@,
        None => Seq::empty(),
    }
}

/// The header a finding opens: its file name (after a blank line, unless it
/// is the first) when its path differs from the previous finding's.
pub open spec fn human_header(prev: Option<Seq<char>>, file: Seq<char>) -> Seq<char> {
    match prev {
        None => file + "\n"@,
        Some(p) => if compare_paths(p, file) != 0 {
            "\n"@ + file + "\n"@
        } else {
            Seq::empty()
        },
    }
}

/// The report line of a finding, with its `fix:` line.
pub open spec fn human_line(f: FindingModel) -> Seq<char> {
    "  "@ + severity_label(f.severity) + " "@ + f.rule + ": "@ + f.message + "\n"@ + human_fix_line(f)
}

/// The lines of the findings, grouped by file: a file header (after a blank
/// line, except for the first group) whenever the path changes.
pub open spec fn human_body(fs: Seq<FindingModel>) -> Seq<char>
    decreases fs.len(),
{
    if fs.len() == 0 {
        Seq::empty()
    } else {
        let prev = if fs.len() == 1 {
            None
        } else {
            Some(fs[fs.len() - 2].file)
        };
        human_body(fs.drop_last()) + human_header(prev, fs.last().file) + human_line(fs.last())
    }
}

/// The summary line of a report.
pub open spec fn human_summary(fs: Seq<FindingModel>, files_scanned: usize) -> Seq<char> {
    let counts = decimal(files_scanned as nat) + " scanned \u{b7} "@ + decimal(
        count_severity(fs, Severity::Error),
    ) + " error \u{b7} "@ + decimal(count_severity(fs, Severity::Warn)) + " warn \u{b7} "@
        + decimal(count_severity(fs, Severity::Info)) + " info"@;
    if saved_total(fs) > 0 {
        counts + " \u{b7} ~"@ + decimal(saved_total(fs)) + " bytes saveable\n"@
    } else {
        counts + "\n"@
    }
}

/// The grouped-by-file human report of an outcome.
pub open spec fn spec_human(fs: Seq<FindingModel>, files_scanned: usize) -> Seq<char> {
    human_body(fs) + (if fs.len() > 0 {
        "\n"@
    } else {
        Seq::empty()
    }) + human_summary(fs, files_scanned)
}

#[verifier::spinoff_prover]
#[verifier::rlimit(50)]
fn push_human_entry(out: &mut String, prev: Option<&str>, f: &Finding)
    ensures
        final(out)@ == old(out)@ + human_header(opt_str_view(prev), f@.file) + human_line(f@),
{
    match prev {
        None => {
            push_str(out, f.file());
            push_str(out, "\n");
        },
        Some(p) => {
            if crate::lint::order::compare_path_strs(p, f.file()) != 0 {
                push_str(out, "\n");
                push_str(out, f.file());
                push_str(out, "\n");
            }
        },
    }
    push_str(out, "  ");
    push_str(out, f.severity().label());
    push_str(out, " ");
    push_str(out, f.rule());
    push_str(out, ": ");
    push_str(out, f.message());
    push_str(out, "\n");
    match f.fix_command() {
        Some(cmd) => {
            push_str(out, "    fix: ");
            push_str(out, cmd.as_str());
            push_str(out, "\n");
        },
        None => {},
    }
}

#[verifier::spinoff_prover]
#[verifier::rlimit(50)]
fn push_human_summary(out: &mut String, outcome: &LintOutcome)
    requires
        saved_total(findings_view(outcome.findings@)) <= u64::MAX,
    ensures
        final(out)@ == old(out)@ + human_summary(findings_view(outcome.findings@), outcome.files_scanned),
{
    let saved = outcome.potential_bytes_saved();
    push_decimal(out, outcome.files_scanned as u64);
    push_str(out, " scanned \u{b7} ");
    push_decimal(out, outcome.error_count() as u64);
    push_str(out, " error \u{b7} ");
    push_decimal(out, outcome.warn_count() as u64);
    push_str(out, " warn \u{b7} ");
    push_decimal(out, outcome.info_count() as u64);
    push_str(out, " info");
    if saved > 0 {
        push_str(out, " \u{b7} ~");
        push_decimal(out, saved);
        push_str(out, " bytes saveable\n");
    } else {
        push_str(out, "\n");
    }
}

/// Render the outcome as a grouped-by-file human report: each file's
/// findings with severity, rule id and message, the runnable fix on the next
/// line, then a summary line with the counts (and the total potential
/// saving when there is one).
#[verifier::spinoff_prover]
#[verifier::rlimit(50)]
pub fn render_human(outcome: &LintOutcome) -> (s: String)
    requires
        saved_total(findings_view(outcome.findings@)) <= u64::MAX,
    ensures
        s@ == spec_human(findings_view(outcome.findings@), outcome.files_scanned),
{
    let ghost fs = findings_view(outcome.findings@);
    let mut out = String::new();
    let mut i: usize = 0;
    assert(out@ =~= human_body(fs.take(0)));
    while i < outcome.findings.len()
        invariant
            fs == findings_view(outcome.findings@),
            i <= fs.len(),
            out@ == human_body(fs.take(i as int)),
        decreases fs.len() - i,
    {
        let f = &outcome.findings[i];
        let ghost t = fs.take(i + 1);
        assert(t.drop_last() =~= fs.take(i as int));
        assert(t.last() == f@);
        let prev = if i == 0 {
            None
        } else {
            Some(outcome.findings[i - 1].file())
        };
        proof {
            if i > 0 {
                assert(t[t.len() - 2] == outcome.findings@[i - 1]@);
            }
        }
        push_human_entry(&mut out, prev, f);
        i = i + 1;
    }
    assert(fs.take(i as int) =~= fs);
    if outcome.findings.len() > 0 {
        push_str(&mut out, "\n");
    }
    push_human_summary(&mut out, outcome);
    out
}

// ── SARIF report ────────────────────────────────────────────────────────────

/// The project URI: the SARIF `informationUri` and each rule's `helpUri`.
pub const CRUSTYIMG_URI: &'static str = "https://github.com/jysf/crustyimg";

/// The SARIF `level` of a severity.
pub open spec fn spec_sarif_level(s: Severity) -> Seq<char> {
    match s {
        Severity::Error => "error"@,
        Severity::Warn => "warning"@,
        Severity::Info => "note"@,
    }
}

/// Map a severity to a SARIF `level`.
pub fn sarif_level(sev: Severity) -> (l: &'static str)
    ensures
        l@ == spec_sarif_level(sev),
{
    match sev {
        Severity::Error => "error",
        Severity::Warn => "warning",
        Severity::Info => "note",
    }
}

/// Where `x` goes in the ascending id list `ids`: after every id not
/// greater than it.
pub open spec fn id_pos(ids: Seq<Seq<char>>, x: Seq<char>) -> int
    decreases ids.len(),
{
    if ids.len() == 0 {
        0
    } else if compare_chars(ids.last(), x) <= 0 {
        ids.len() as int
    } else {
        id_pos(ids.drop_last(), x)
    }
}

/// `ids` with `x` added in order, unless it is already there.
pub open spec fn insert_id(ids: Seq<Seq<char>>, x: Seq<char>) -> Seq<Seq<char>> {
    let p = id_pos(ids, x);
    if p > 0 && compare_chars(ids[p - 1], x) == 0 {
        ids
    } else {
        ids.insert(p, x)
    }
}

/// The distinct rule ids the findings reference, in ascending order.
pub open spec fn sarif_rule_ids(fs: Seq<FindingModel>) -> Seq<Seq<char>>
    decreases fs.len(),
{
    if fs.len() == 0 {
        Seq::empty()
    } else {
        insert_id(sarif_rule_ids(fs.drop_last()), fs.last().rule)
    }
}

/// Sorted in ascending character order with no id twice.
pub open spec fn strictly_ascending(ids: Seq<Seq<char>>) -> bool {
    forall|i: int, j: int| 0 <= i < j < ids.len() ==> compare_chars(ids[i], ids[j]) < 0
}

proof fn lemma_chars_strict_trans(a: Seq<char>, b: Seq<char>, c: Seq<char>)
    requires
        compare_chars(a, b) <= 0,
        compare_chars(b, c) <= 0,
        compare_chars(a, b) < 0 || compare_chars(b, c) < 0,
    ensures
        compare_chars(a, c) < 0,
{
    lemma_compare_chars_trans(a, b, c);
    lemma_compare_chars_antisym(a, b);
    lemma_compare_chars_antisym(b, c);
    if compare_chars(a, c) == 0 {
        lemma_compare_chars_eq(a, c);
    }
}

proof fn lemma_id_pos(ids: Seq<Seq<char>>, x: Seq<char>)
    ensures
        0 <= id_pos(ids, x) <= ids.len(),
        forall|k: int| id_pos(ids, x) <= k < ids.len() ==> compare_chars(#[trigger] ids[k], x) > 0,
        id_pos(ids, x) > 0 ==> compare_chars(ids[id_pos(ids, x) - 1], x) <= 0,
    decreases ids.len(),
{
    if ids.len() > 0 && compare_chars(ids.last(), x) > 0 {
        let t = ids.drop_last();
        lemma_id_pos(t, x);
        assert forall|k: int| id_pos(ids, x) <= k < ids.len() implies compare_chars(
            #[trigger] ids[k],
            x,
        ) > 0 by {
            if k < t.len() {
                assert(ids[k] == t[k]);
            }
        }
    }
}

proof fn lemma_insert_id(ids: Seq<Seq<char>>, x: Seq<char>)
    requires
        strictly_ascending(ids),
    ensures
        strictly_ascending(insert_id(ids, x)),
        forall|y: Seq<char>| #[trigger]
            insert_id(ids, x).contains(y) <==> (ids.contains(y) || y == x),
{
    let p = id_pos(ids, x);
    lemma_id_pos(ids, x);
    let r = insert_id(ids, x);
    if p > 0 && compare_chars(ids[p - 1], x) == 0 {
        lemma_compare_chars_eq(ids[p - 1], x);
        assert(ids.contains(ids[p - 1]));
    } else {
        if p > 0 {
            lemma_compare_chars_antisym(ids[p - 1], x);
        }
        assert forall|i: int, j: int| 0 <= i < j < r.len() implies compare_chars(r[i], r[j]) < 0 by {
            if j < p {
                assert(r[i] == ids[i] && r[j] == ids[j]);
            } else if j == p {
                assert(r[i] == ids[i] && r[j] == x);
                if i < p - 1 {
                    lemma_chars_strict_trans(ids[i], ids[p - 1], x);
                }
            } else if i == p {
                assert(r[i] == x && r[j] == ids[j - 1]);
                lemma_compare_chars_antisym(ids[j - 1], x);
            } else if i < p {
                assert(r[i] == ids[i] && r[j] == ids[j - 1]);
            } else {
                assert(r[i] == ids[i - 1] && r[j] == ids[j - 1]);
            }
        }
        assert forall|y: Seq<char>| #[trigger] r.contains(y) <==> (ids.contains(y) || y == x) by {
            if r.contains(y) {
                let k = choose|k: int| 0 <= k < r.len() && r[k] == y;
                if k < p {
                    assert(ids[k] == y);
                } else if k > p {
                    assert(ids[k - 1] == y);
                }
            }
            if ids.contains(y) {
                let k = choose|k: int| 0 <= k < ids.len() && ids[k] == y;
                if k < p {
                    assert(r[k] == y);
                } else {
                    assert(r[k + 1] == y);
                }
            }
            if y == x {
                assert(r[p] == y);
            }
        }
    }
}

/// The rules a SARIF log lists are exactly the rule ids its findings carry,
/// each once, in ascending order.
pub proof fn law_sarif_rule_ids(fs: Seq<FindingModel>)
    ensures
        strictly_ascending(sarif_rule_ids(fs)),
        forall|x: Seq<char>| #[trigger]
            sarif_rule_ids(fs).contains(x) <==> exists|i: int| 0 <= i < fs.len() && #[trigger] fs[i].rule == x,
    decreases fs.len(),
{
    if fs.len() > 0 {
        let prev = fs.drop_last();
        law_sarif_rule_ids(prev);
        lemma_insert_id(sarif_rule_ids(prev), fs.last().rule);
        assert forall|x: Seq<char>| #[trigger] sarif_rule_ids(fs).contains(x) <==> exists|i: int|
            0 <= i < fs.len() && #[trigger] fs[i].rule == x by {
            if sarif_rule_ids(prev).contains(x) {
                let i = choose|i: int| 0 <= i < prev.len() && #[trigger] prev[i].rule == x;
                assert(fs[i] == prev[i]);
            }
            if exists|i: int| 0 <= i < fs.len() && #[trigger] fs[i].rule == x {
                let i = choose|i: int| 0 <= i < fs.len() && #[trigger] fs[i].rule == x;
                if i < prev.len() {
                    assert(prev[i] == fs[i]);
                }
            }
        }
    }
}

/// The first catalog rule with id `id`.
pub open spec fn catalog_rule(cat: Seq<RuleKind>, id: Seq<char>) -> Option<RuleKind>
    decreases cat.len(),
{
    if cat.len() == 0 {
        None
    } else if rule_id(cat[0]) == id {
        Some(cat[0])
    } else {
        catalog_rule(cat.drop_first(), id)
    }
}

/// The default SARIF level of rule `id` (`warning` for an unknown id).
pub open spec fn default_level(id: Seq<char>) -> Seq<char> {
    match catalog_rule(catalog(), id) {
        Some(k) => spec_sarif_level(rule_default_severity(k)),
        None => "warning"@,
    }
}

/// The SARIF `rules[]` entry of a rule id.
pub open spec fn sarif_rule(id: Seq<char>) -> Seq<char> {
    "{\"id\":\""@ + spec_escape_json(id) + "\",\"defaultConfiguration\":{\"level\":\""@
        + default_level(id) + "\"},\"helpUri\":\""@ + CRUSTYIMG_URI@ + "\"}"@
}

/// The rule entries, comma-separated.
pub open spec fn sarif_rules(ids: Seq<Seq<char>>) -> Seq<char>
    decreases ids.len(),
{
    if ids.len() == 0 {
        Seq::empty()
    } else if ids.len() == 1 {
        sarif_rule(ids[0])
    } else {
        sarif_rules(ids.drop_last()) + ","@ + sarif_rule(ids.last())
    }
}

/// `file` with the leading components of `base` removed, as
/// `std::path::Path::strip_prefix` gives it; `None` when `base` is not a
/// component-wise prefix of `file`.
pub uninterp spec fn path_strip_prefix(file: Seq<char>, base: Seq<char>) -> Option<Seq<char>>;

/// `file` relative to `base` by `std::path::Path::strip_prefix`, as a
/// string. The contract names the result: it depends on the two paths
/// alone.
#[verifier::external_body]
fn strip_path_prefix(file: &str, base: &str) -> (r: Option<String>)
    ensures
        crate::lint::opt_str(r) == path_strip_prefix(file@, base@),
{
    std::path::Path::new(file).strip_prefix(base).ok().map(|p| p.to_string_lossy().into_owned())
}

/// The SARIF location uri of `file`: relative to `base` when it lies under
/// it, with every `\` turned into `/`.
pub open spec fn spec_sarif_uri(file: Seq<char>, base: Option<Seq<char>>) -> Seq<char> {
    let rel = match base {
        Some(b) => match path_strip_prefix(file, b) {
            Some(r) => r,
            None => file,
        },
        None => file,
    };
    replace_all(rel, seq!['\\'], seq!['/'])
}

/// The SARIF message of a finding: its message, then the fix command when
/// there is one.
pub open spec fn sarif_message(f: FindingModel) -> Seq<char> {
    match spec_fix_command(f) {
        Some(c) => f.message + " \u{2014} fix: "@ + c,
        None => f.message,
    }
}

/// One SARIF `result` object.
pub open spec fn sarif_result(f: FindingModel, base: Option<Seq<char>>) -> Seq<char> {
    "{\"ruleId\":\""@ + spec_escape_json(f.rule) + "\",\"level\":\""@ + spec_sarif_level(f.severity)
        + "\",\"message\":{\"text\":\""@ + spec_escape_json(sarif_message(f))
        + "\"},\"locations\":[{\"physicalLocation\":{\"artifactLocation\":{\"uri\":\""@
        + spec_escape_json(spec_sarif_uri(f.file, base)) + "\"}}}]}"@
}

/// The result objects, comma-separated.
pub open spec fn sarif_results(fs: Seq<FindingModel>, base: Option<Seq<char>>) -> Seq<char>
    decreases fs.len(),
{
    if fs.len() == 0 {
        Seq::empty()
    } else if fs.len() == 1 {
        sarif_result(fs[0], base)
    } else {
        sarif_results(fs.drop_last(), base) + ","@ + sarif_result(fs.last(), base)
    }
}

/// The SARIF 2.1.0 report of an outcome (one line, no trailing newline).
pub open spec fn spec_sarif(fs: Seq<FindingModel>, version: Seq<char>, base: Option<Seq<char>>) -> Seq<char> {
    "{\"version\":\"2.1.0\",\"$schema\":\"https://json.schemastore.org/sarif-2.1.0.json\",\"runs\":[{\"tool\":{\"driver\":{\"name\":\"crustyimg\",\"informationUri\":\""@
        + CRUSTYIMG_URI@ + "\",\"version\":\""@ + spec_escape_json(version) + "\",\"rules\":["@
        + sarif_rules(sarif_rule_ids(fs)) + "]}},\"results\":["@ + sarif_results(fs, base)
        + "]}]}"@
}

/// The view of an optional string slice.
pub open spec fn opt_str_view(o: Option<&str>) -> Option<Seq<char>> {
    match o {
        Some(s) => Some(s@),
        None => None,
    }
}

fn id_position(ids: &Vec<&'static str>, x: &str) -> (p: usize)
    ensures
        p == id_pos(crate::lint::strs_view(ids@), x@),
        p <= ids@.len(),
{
    let ghost v = crate::lint::strs_view(ids@);
    let mut j: usize = ids.len();
    assert(v.subrange(0, j as int) =~= v);
    while j > 0 && crate::lint::order::compare_strs(ids[j - 1], x) > 0
        invariant
            0 <= j <= ids@.len(),
            v == crate::lint::strs_view(ids@),
            id_pos(v, x@) == id_pos(v.subrange(0, j as int), x@),
        decreases j,
    {
        assert(v.subrange(0, j as int).drop_last() =~= v.subrange(0, j - 1));
        j = j - 1;
    }
    j
}

fn referenced_rule_ids(findings: &Vec<Finding>) -> (ids: Vec<&'static str>)
    ensures
        crate::lint::strs_view(ids@) == sarif_rule_ids(findings_view(findings@)),
{
    let ghost fs = findings_view(findings@);
    let mut ids: Vec<&'static str> = Vec::new();
    let mut i: usize = 0;
    assert(crate::lint::strs_view(ids@) =~= sarif_rule_ids(fs.take(0)));
    while i < findings.len()
        invariant
            fs == findings_view(findings@),
            i <= fs.len(),
            crate::lint::strs_view(ids@) == sarif_rule_ids(fs.take(i as int)),
        decreases fs.len() - i,
    {
        assert(fs.take(i + 1).drop_last() =~= fs.take(i as int));
        assert(fs.take(i + 1).last() == findings@[i as int]@);
        let id = findings[i].rule();
        let p = id_position(&ids, id);
        let ghost v = crate::lint::strs_view(ids@);
        if p > 0 && crate::lint::order::compare_strs(ids[p - 1], id) == 0 {
        } else {
            ids.insert(p, id);
            assert(crate::lint::strs_view(ids@) =~= v.insert(p as int, id@));
        }
        i = i + 1;
    }
    assert(fs.take(i as int) =~= fs);
    ids
}

fn level_of(id: &str) -> (l: &'static str)
    ensures
        l@ == default_level(id@),
{
    let cat = crate::lint::default_rules();
    let mut i: usize = 0;
    assert(catalog().skip(0) =~= catalog());
    while i < cat.len()
        invariant
            cat@ == catalog(),
            i <= cat@.len(),
            catalog_rule(catalog(), id@) == catalog_rule(catalog().skip(i as int), id@),
        decreases cat@.len() - i,
    {
        assert(catalog().skip(i as int)[0] == catalog()[i as int]);
        assert(catalog().skip(i as int).drop_first() =~= catalog().skip(i + 1));
        if str_eq(cat[i].id(), id) {
            return sarif_level(cat[i].default_severity());
        }
        i = i + 1;
    }
    "warning"
}

#[verifier::spinoff_prover]
#[verifier::rlimit(50)]
fn push_sarif_rule(out: &mut String, id: &str)
    ensures
        final(out)@ == old(out)@ + sarif_rule(id@),
{
    push_str(out, "{\"id\":\"");
    push_escaped(out, id);
    push_str(out, "\",\"defaultConfiguration\":{\"level\":\"");
    push_str(out, level_of(id));
    push_str(out, "\"},\"helpUri\":\"");
    push_str(out, CRUSTYIMG_URI);
    push_str(out, "\"}");
}

/// The SARIF location uri of `file`, relative to `base` when under it, with
/// forward slashes.
pub fn sarif_uri(file: &str, base: Option<&str>) -> (u: String)
    ensures
        u@ == spec_sarif_uri(file@, opt_str_view(base)),
{
    let stripped = match base {
        Some(b) => strip_path_prefix(file, b),
        None => None,
    };
    proof {
        reveal_strlit("\\");
        reveal_strlit("/");
        assert("\\"@ =~= seq!['\\']);
        assert("/"@ =~= seq!['/']);
    }
    match stripped {
        Some(r) => replace(r.as_str(), "\\", "/"),
        None => replace(file, "\\", "/"),
    }
}

#[verifier::spinoff_prover]
#[verifier::rlimit(50)]
fn push_sarif_result(out: &mut String, f: &Finding, base: Option<&str>)
    ensures
        final(out)@ == old(out)@ + sarif_result(f@, opt_str_view(base)),
{
    let mut message = String::new();
    push_str(&mut message, f.message());
    match f.fix_command() {
        Some(cmd) => {
            push_str(&mut message, " \u{2014} fix: ");
            push_str(&mut message, cmd.as_str());
        },
        None => {},
    }
    let uri = sarif_uri(f.file(), base);
    push_str(out, "{\"ruleId\":\"");
    push_escaped(out, f.rule());
    push_str(out, "\",\"level\":\"");
    push_str(out, sarif_level(f.severity()));
    push_str(out, "\",\"message\":{\"text\":\"");
    push_escaped(out, message.as_str());
    push_str(out, "\"},\"locations\":[{\"physicalLocation\":{\"artifactLocation\":{\"uri\":\"");
    push_escaped(out, uri.as_str());
    push_str(out, "\"}}}]}");
}

/// The outcome as a single-line SARIF 2.1.0 object for code scanning: one
/// run with the `crustyimg` driver, a `rules[]` entry (id and default level)
/// per distinct referenced rule in ascending id order, and one `result` per
/// finding. `version` is the driver version to report; `base`, when given,
/// relativizes each location uri.
#[verifier::spinoff_prover]
#[verifier::rlimit(50)]
pub fn write_sarif(outcome: &LintOutcome, version: &str, base: Option<&str>) -> (s: String)
    ensures
        s@ == spec_sarif(findings_view(outcome.findings@), version@, opt_str_view(base)),
{
    let ghost fs = findings_view(outcome.findings@);
    let ids = referenced_rule_ids(&outcome.findings);
    let ghost iv = crate::lint::strs_view(ids@);
    let mut out = String::new();
    push_str(
        &mut out,
        "{\"version\":\"2.1.0\",\"$schema\":\"https://json.schemastore.org/sarif-2.1.0.json\",\"runs\":[{\"tool\":{\"driver\":{\"name\":\"crustyimg\",\"informationUri\":\"",
    );
    push_str(&mut out, CRUSTYIMG_URI);
    push_str(&mut out, "\",\"version\":\"");
    push_escaped(&mut out, version);
    push_str(&mut out, "\",\"rules\":[");
    let ghost head = out@;
    let mut i: usize = 0;
    assert(out@ =~= head + sarif_rules(iv.take(0)));
    while i < ids.len()
        invariant
            iv == crate::lint::strs_view(ids@),
            i <= iv.len(),
            out@ == head + sarif_rules(iv.take(i as int)),
        decreases iv.len() - i,
    {
        assert(iv.take(i + 1).drop_last() =~= iv.take(i as int));
        assert(iv.take(i + 1).last() == ids@[i as int]@);
        if i > 0 {
            push_str(&mut out, ",");
        }
        push_sarif_rule(&mut out, ids[i]);
        if i == 0 {
            assert(iv.take(1)[0] == iv.take(1).last());
        }
        assert(out@ =~= head + sarif_rules(iv.take(i + 1)));
        i = i + 1;
    }
    assert(iv.take(i as int) =~= iv);
    push_str(&mut out, "]}},\"results\":[");
    let ghost mid = out@;
    let mut k: usize = 0;
    assert(out@ =~= mid + sarif_results(fs.take(0), opt_str_view(base)));
    while k < outcome.findings.len()
        invariant
            fs == findings_view(outcome.findings@),
            k <= fs.len(),
            out@ == mid + sarif_results(fs.take(k as int), opt_str_view(base)),
        decreases fs.len() - k,
    {
        assert(fs.take(k + 1).drop_last() =~= fs.take(k as int));
        assert(fs.take(k + 1).last() == outcome.findings@[k as int]@);
        if k > 0 {
            push_str(&mut out, ",");
        }
        push_sarif_result(&mut out, &outcome.findings[k], base);
        if k == 0 {
            assert(fs.take(1)[0] == fs.take(1).last());
        }
        assert(out@ =~= mid + sarif_results(fs.take(k + 1), opt_str_view(base)));
        k = k + 1;
    }
    assert(fs.take(k as int) =~= fs);
    push_str(&mut out, "]}]}");
    out
}

} // verus!
