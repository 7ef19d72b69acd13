//! Properties of the library as a whole, each proved from the
//! specifications that the functions' contracts use.

use vstd::prelude::*;
use crate::clock::{clock_seconds, duration_text, is_duration_of, parser_gave, seconds_text};
use crate::issue::{
    issue_get_view, issue_invocation, issue_list_fields_at, issue_list_view, issue_runs_view,
    run_durations, run_fields_at, runs_printable, shown_issues, shown_runs,
};
use crate::tables::{
    durations_of, issue_list_header, issue_row, issue_table, more_line, or_empty, run_cuttable,
    run_row, run_short_id, runs_cuttable, runs_header, runs_table_view, shown, IssueListFieldsView,
    RunFieldsView, MAX_ITEMS,
};
use crate::json::{json_array_len, json_parses, JsonAt};
use crate::multica_cmd::multica_invocation;
use crate::plan::{asks_for_json, ModeView};
use crate::text::{
    byte_prefix, decimal, ellipsis, is_space, joined, lines_of, repeated, trim, trim_end, trim_start,
    truncated, utf8_width,
};
use crate::workspace::{
    columns, gap_index, lemma_gap_index_bounds, workspace_fold, workspace_header, workspace_invocation, workspace_list_view,
    workspace_row, workspace_step,
};

verus! {

/// Output that is not JSON reaches the user unchanged: each issue filter
/// gives back the raw text when it does not parse.
pub proof fn law_unparsable_output_is_kept(raw: Seq<char>, durations: Seq<Seq<char>>)
    requires
        !json_parses(raw),
    ensures
        issue_list_view(raw) == raw,
        issue_get_view(raw) == raw,
        issue_runs_view(raw, durations) == raw,
{
}

/// The list filters keep JSON that is not an array unchanged too.
pub proof fn law_non_array_output_is_kept(raw: Seq<char>, durations: Seq<Seq<char>>)
    requires
        json_array_len(JsonAt::root(raw)) is None,
    ensures
        issue_list_view(raw) == raw,
        issue_runs_view(raw, durations) == raw,
{
}

/// An issue table shows the given issues (at most 25) in order, as lines
/// between a two-line header and at most one line counting the rest.
pub proof fn law_issue_table_is_capped(items: Seq<IssueListFieldsView>, total: nat)
    requires
        items.len() == shown(total),
        total > 0,
    ensures
        exists|lines: Seq<Seq<char>>| {
            &&& lines.len() <= MAX_ITEMS + 3
            &&& forall|i: int| 0 <= i < items.len() ==> lines[i + 2] == #[trigger] issue_row(items[i])
            &&& issue_table(items, total) == joined(lines, "\n"@)
        },
{
    let lines = seq![issue_list_header(), repeated('-', 90)]
        + Seq::new(items.len(), |i: int| issue_row(items[i]))
        + more_line(total, " more issues"@);
    assert(forall|i: int| 0 <= i < items.len() ==> lines[i + 2] == #[trigger] issue_row(items[i]));
    assert(issue_table(items, total) == joined(lines, "\n"@));
}

/// A run table shows the given runs (at most 25) in order, whatever their
/// durations render as.
pub proof fn law_runs_table_is_capped(items: Seq<RunFieldsView>, total: nat, durations: Seq<Seq<char>>)
    requires
        items.len() == shown(total),
        total > 0,
    ensures
        exists|lines: Seq<Seq<char>>| {
            &&& lines.len() <= MAX_ITEMS + 3
            &&& forall|i: int| 0 <= i < items.len() ==> lines[i + 2] == #[trigger] run_row(items[i], durations[i])
            &&& runs_table_view(items, total, durations) == joined(lines, "\n"@)
        },
{
    let lines = seq![runs_header(), repeated('-', 90)]
        + Seq::new(items.len(), |i: int| run_row(items[i], durations[i]))
        + more_line(total, " more runs"@);
    assert(forall|i: int| 0 <= i < items.len() ==> lines[i + 2] == #[trigger] run_row(items[i], durations[i]));
    assert(runs_table_view(items, total, durations) == joined(lines, "\n"@));
}

/// The issue list of a JSON array of `n > 0` issues is the issue table of
/// its first `min(n, 25)` issues, read in order.
pub proof fn law_issue_list_shows_the_first_issues(raw: Seq<char>, n: nat)
    requires
        json_parses(raw),
        json_array_len(JsonAt::root(raw)) == Some(n),
    ensures
        shown_issues(raw, n).len() == shown(n) <= MAX_ITEMS,
        forall|i: int| 0 <= i < shown(n) ==> #[trigger] shown_issues(raw, n)[i]
            == issue_list_fields_at(JsonAt::root(raw).item(i)),
        issue_list_view(raw) == issue_table(shown_issues(raw, n), n),
{
}

/// A cut string is never longer than the room it was cut to (three
/// characters at least, for the dots), and a string that fits is kept.
pub proof fn law_truncation_bounds(s: Seq<char>, max: nat)
    ensures
        truncated(s, max).len() <= (if max < 3 { 3 } else { max }),
        s.len() <= max ==> truncated(s, max) == s,
        s.len() > max && max >= 3 ==> truncated(s, max).len() == max
            && truncated(s, max) == s.take(max - 3) + ellipsis(),
{
}

/// A rendered duration is `-`, or `~` followed by digits and `m` or `s`.
pub proof fn law_duration_shape<F: Fn(&str) -> Option<i64>>(f: F, started: Seq<char>, completed: Seq<char>, out: Seq<char>)
    requires
        is_duration_of(f, started, completed, out),
    ensures
        out == seq!['-'] || (out.len() >= 3 && out[0] == '~' && (out.last() == 'm' || out.last() == 's')),
{
    if started.len() > 0 && completed.len() > 0 {
        let (a, b) = choose|a: Option<i64>, b: Option<i64>| #[trigger] duration_text(started, completed, a, b) == out
            && parser_gave(f, started, a) && parser_gave(f, completed, b);
        assert(out == duration_text(started, completed, a, b));
        lemma_decimal_nonempty_all();
    }
}

proof fn lemma_decimal_nonempty(n: nat)
    ensures
        decimal(n).len() >= 1,
    decreases n,
{
    if n >= 10 {
        lemma_decimal_nonempty(n / 10);
    }
}

proof fn lemma_decimal_nonempty_all()
    ensures
        forall|n: nat| #[trigger] decimal(n).len() >= 1,
{
    assert forall|n: nat| #[trigger] decimal(n).len() >= 1 by {
        lemma_decimal_nonempty(n);
    }
}

/// ASCII text can be cut at any byte.
pub proof fn lemma_ascii_byte_prefix(s: Seq<char>, n: nat)
    requires
        forall|i: int| 0 <= i < s.len() ==> (s[i] as u32) < 0x80,
    ensures
        byte_prefix(s, n) is Some,
    decreases s.len(),
{
    if s.len() > 0 && n > 0 {
        assert(utf8_width(s[0]) == 1);
        lemma_ascii_byte_prefix(s.drop_first(), (n - 1) as nat);
    }
}

/// Whether every character of `s` is ASCII.
pub open spec fn is_ascii_text(s: Seq<char>) -> bool {
    forall|i: int| 0 <= i < s.len() ==> (s[i] as u32) < 0x80
}

/// A run table renders whenever the shown runs have ASCII ids and start
/// times (as the UUIDs and ISO-8601 stamps of `multica` are).
pub proof fn law_ascii_runs_render(raw: Seq<char>)
    requires
        forall|i: int| 0 <= i < MAX_ITEMS ==> is_ascii_text(or_empty(#[trigger] run_fields_at(JsonAt::root(raw).item(i)).id))
            && is_ascii_text(or_empty(run_fields_at(JsonAt::root(raw).item(i)).started_at)),
    ensures
        runs_printable(raw),
{
    let root = JsonAt::root(raw);
    if json_parses(raw) {
        if let Some(n) = json_array_len(root) {
            let v = shown_runs(raw, n);
            assert forall|i: int| 0 <= i < v.len() implies #[trigger] run_cuttable(v[i]) by {
                let f = run_fields_at(root.item(i));
                assert(v[i] == f);
                lemma_ascii_byte_prefix(or_empty(f.id), 8);
                lemma_ascii_byte_prefix(or_empty(f.started_at), 16);
            }
        }
    }
}

/// Every line of a filtered workspace table is the new header, its rule,
/// or the name and watching columns of a raw line that has a name: the
/// first (ID) column never reaches the output as a column.
pub proof fn law_workspace_rows_drop_the_id_column(lines: Seq<Seq<char>>)
    ensures
        forall|j: int| 0 <= j < workspace_fold(lines).1.len() ==> {
            let out = #[trigger] workspace_fold(lines).1[j];
            ||| out == workspace_header()
            ||| out == repeated('-', 30)
            ||| exists|k: int| 0 <= k < lines.len() && columns(lines[k]).len() >= 2
                && columns(lines[k])[1].len() > 0 && out == #[trigger] workspace_row(lines[k])
        },
    decreases lines.len(),
{
    if lines.len() > 0 {
        let prev = lines.drop_last();
        law_workspace_rows_drop_the_id_column(prev);
        let before = workspace_fold(prev).1;
        let after = workspace_fold(lines).1;
        assert forall|j: int| 0 <= j < after.len() implies {
            let out = #[trigger] after[j];
            ||| out == workspace_header()
            ||| out == repeated('-', 30)
            ||| exists|k: int| 0 <= k < lines.len() && columns(lines[k]).len() >= 2
                && columns(lines[k])[1].len() > 0 && out == #[trigger] workspace_row(lines[k])
        } by {
            if j < before.len() {
                assert(after[j] == before[j]);
                let out = before[j];
                if out != workspace_header() && out != repeated('-', 30) {
                    let k = choose|k: int| 0 <= k < prev.len() && columns(prev[k]).len() >= 2
                        && columns(prev[k])[1].len() > 0 && out == #[trigger] workspace_row(prev[k]);
                    assert(lines[k] == prev[k]);
                }
            } else {
                let k = lines.len() - 1;
                assert(lines[k] == lines.last());
            }
        }
    }
}

/// Unknown subcommands pass through: `multica` gets the subcommand and the
/// arguments unchanged, and the output is not filtered.
pub proof fn law_unknown_subcommand_passes_through(sub: Seq<char>, args: Seq<Seq<char>>, verbose: u8)
    requires
        sub != "issue"@,
        sub != "workspace"@,
    ensures
        multica_invocation(sub, args, verbose).args == seq![sub] + args,
        multica_invocation(sub, args, verbose).mode == ModeView::Passthrough,
{
}

/// Issue verbs other than `list`, `get` and `runs` (create, update, ...)
/// pass through with their arguments unchanged.
pub proof fn law_other_issue_verbs_pass_through(args: Seq<Seq<char>>, verbose: u8)
    requires
        args.len() == 0 || (args[0] != "list"@ && args[0] != "get"@ && args[0] != "runs"@),
    ensures
        issue_invocation(args, verbose).args == seq!["issue"@] + args,
        issue_invocation(args, verbose).mode == ModeView::Passthrough,
{
}

/// Workspace verbs other than `list` pass through unchanged.
pub proof fn law_other_workspace_verbs_pass_through(args: Seq<Seq<char>>, verbose: u8)
    requires
        args.len() == 0 || args[0] != "list"@,
    ensures
        workspace_invocation(args, verbose).args == seq!["workspace"@] + args,
        workspace_invocation(args, verbose).mode == ModeView::Passthrough,
{
}

/// A filtered issue command always asks `multica` for JSON, and adds
/// `--output json` only when the caller has not asked already, so that the
/// caller's arguments then go through unchanged.
pub proof fn law_issue_commands_ask_for_json(args: Seq<Seq<char>>, verbose: u8)
    requires
        args.len() > 0,
        args[0] == "list"@ || args[0] == "get"@ || args[0] == "runs"@,
    ensures
        asks_for_json(issue_invocation(args, verbose).args.skip(2)),
        asks_for_json(args.drop_first()) ==> issue_invocation(args, verbose).args == seq!["issue"@] + args,
{
    let rest = args.drop_first();
    let out = issue_invocation(args, verbose).args;
    assert(out.take(2) =~= seq!["issue"@, args[0]]);
    if asks_for_json(rest) {
        assert(out.skip(2) =~= rest);
        assert(out =~= seq!["issue"@] + args);
    } else {
        let tail = out.skip(2);
        assert(tail =~= rest + seq!["--output"@, "json"@]);
        let k = rest.len() as int;
        assert(tail[k] == "--output"@ && tail[k + 1] == "json"@);
    }
}

/// The verbose level only decides whether a notice is written: the command,
/// its labels and the filter are the same at every level.
pub proof fn law_verbosity_changes_only_the_notice(sub: Seq<char>, args: Seq<Seq<char>>, quiet: u8, loud: u8)
    ensures
        multica_invocation(sub, args, quiet).args == multica_invocation(sub, args, loud).args,
        multica_invocation(sub, args, quiet).command_label == multica_invocation(sub, args, loud).command_label,
        multica_invocation(sub, args, quiet).rtk_label == multica_invocation(sub, args, loud).rtk_label,
        multica_invocation(sub, args, quiet).mode == multica_invocation(sub, args, loud).mode,
        multica_invocation(sub, args, quiet).notice is None <==> quiet == 0,
{
}

/// Whether the seconds parser `f` is a function: equal texts give equal
/// results.
pub open spec fn reads_as_function<F: Fn(&str) -> Option<i64>>(f: F) -> bool {
    forall|x: &str, y: &str, a: Option<i64>, b: Option<i64>|
        #![trigger call_ensures(f, (x,), a), call_ensures(f, (y,), b)]
        x@ == y@ && call_ensures(f, (x,), a) && call_ensures(f, (y,), b) ==> a == b
}

/// Where the seconds parser is consulted on a timestamp, a functional
/// parser's outcome is fixed; where it is not, the outcome does not matter.
proof fn lemma_clock_seconds_determined<F: Fn(&str) -> Option<i64>>(f: F, s: Seq<char>, a: Option<i64>, b: Option<i64>)
    requires
        reads_as_function(f),
        parser_gave(f, s, a),
        parser_gave(f, s, b),
    ensures
        clock_seconds(s, a) == clock_seconds(s, b),
{
    if let Some(t) = seconds_text(s) {
        let x = choose|x: &str| x@ == t && call_ensures(f, (x,), a);
        let y = choose|y: &str| y@ == t && call_ensures(f, (y,), b);
        assert(a == b);
    }
}

/// With a functional seconds parser, a duration is determined by its two
/// timestamps.
pub proof fn law_duration_is_determined<F: Fn(&str) -> Option<i64>>(
    f: F,
    started: Seq<char>,
    completed: Seq<char>,
    one: Seq<char>,
    other: Seq<char>,
)
    requires
        reads_as_function(f),
        is_duration_of(f, started, completed, one),
        is_duration_of(f, started, completed, other),
    ensures
        one == other,
{
    if started.len() > 0 && completed.len() > 0 {
        let (a1, b1) = choose|a: Option<i64>, b: Option<i64>|
            parser_gave(f, started, a) && parser_gave(f, completed, b)
                && one == #[trigger] duration_text(started, completed, a, b);
        let (a2, b2) = choose|a: Option<i64>, b: Option<i64>|
            parser_gave(f, started, a) && parser_gave(f, completed, b)
                && other == #[trigger] duration_text(started, completed, a, b);
        lemma_clock_seconds_determined(f, started, a1, a2);
        lemma_clock_seconds_determined(f, completed, b1, b2);
    }
}

/// With a functional seconds parser, the durations of a run table are
/// determined by its runs.
pub proof fn law_run_durations_are_determined<F: Fn(&str) -> Option<i64>>(
    f: F,
    items: Seq<RunFieldsView>,
    one: Seq<Seq<char>>,
    other: Seq<Seq<char>>,
)
    requires
        reads_as_function(f),
        durations_of(f, items, one),
        durations_of(f, items, other),
    ensures
        one == other,
{
    assert forall|i: int| 0 <= i < items.len() implies one[i] == other[i] by {
        assert(is_duration_of(f, or_empty(items[i].started_at), or_empty(items[i].completed_at), one[i]));
        assert(is_duration_of(f, or_empty(items[i].started_at), or_empty(items[i].completed_at), other[i]));
        law_duration_is_determined(f, or_empty(items[i].started_at), or_empty(items[i].completed_at), one[i], other[i]);
    }
    assert(one =~= other);
}

/// With a functional seconds parser, the filtered `issue runs` output is
/// determined by the raw text: every rendering that `filter_issue_runs`
/// may give is the same.
pub proof fn law_runs_output_is_determined<F: Fn(&str) -> Option<i64>>(
    f: F,
    raw: Seq<char>,
    one: Seq<Seq<char>>,
    other: Seq<Seq<char>>,
)
    requires
        reads_as_function(f),
        run_durations(f, raw, one),
        run_durations(f, raw, other),
    ensures
        issue_runs_view(raw, one) == issue_runs_view(raw, other),
{
    if json_parses(raw) {
        if let Some(n) = json_array_len(JsonAt::root(raw)) {
            law_run_durations_are_determined(f, shown_runs(raw, n), one, other);
        }
    }
}

/// Two runs look alike in the table: the same first 8 bytes of id, and the
/// same status, times, error and output.
pub open spec fn same_shown_run(r1: RunFieldsView, r2: RunFieldsView) -> bool {
    &&& run_short_id(r1) == run_short_id(r2)
    &&& r1.status == r2.status
    &&& r1.started_at == r2.started_at
    &&& r1.completed_at == r2.completed_at
    &&& r1.error == r2.error
    &&& r1.output == r2.output
}

/// Two run documents whose first 25 runs look alike (the rest of each id,
/// other fields and later runs may differ) render alike: the same rows can
/// be cut, the same durations may be given, and the tables are equal.
pub proof fn law_runs_output_depends_on_shown_fields<F: Fn(&str) -> Option<i64>>(
    f: F,
    raw1: Seq<char>,
    raw2: Seq<char>,
    n: nat,
    durations: Seq<Seq<char>>,
)
    requires
        json_parses(raw1),
        json_parses(raw2),
        json_array_len(JsonAt::root(raw1)) == Some(n),
        json_array_len(JsonAt::root(raw2)) == Some(n),
        forall|i: int| 0 <= i < shown(n) ==> same_shown_run(
            #[trigger] run_fields_at(JsonAt::root(raw1).item(i)), run_fields_at(JsonAt::root(raw2).item(i))),
    ensures
        runs_printable(raw1) == runs_printable(raw2),
        run_durations(f, raw1, durations) == run_durations(f, raw2, durations),
        runs_printable(raw1) ==> issue_runs_view(raw1, durations) == issue_runs_view(raw2, durations),
{
    let v1 = shown_runs(raw1, n);
    let v2 = shown_runs(raw2, n);
    assert forall|i: int| 0 <= i < v1.len() implies #[trigger] same_shown_run(v1[i], v2[i]) by {
        assert(v1[i] == run_fields_at(JsonAt::root(raw1).item(i)));
        assert(v2[i] == run_fields_at(JsonAt::root(raw2).item(i)));
    }
    assert forall|i: int| 0 <= i < v1.len() implies #[trigger] run_cuttable(v1[i]) == run_cuttable(v2[i]) by {
        assert(same_shown_run(v1[i], v2[i]));
    }
    if runs_cuttable(v1) {
        assert forall|i: int| 0 <= i < v2.len() implies #[trigger] run_cuttable(v2[i]) by {
            assert(run_cuttable(v1[i]));
        }
    }
    if runs_cuttable(v2) {
        assert forall|i: int| 0 <= i < v1.len() implies #[trigger] run_cuttable(v1[i]) by {
            assert(run_cuttable(v2[i]));
        }
    }
    assert(durations_of(f, v1, durations) == durations_of(f, v2, durations)) by {
        assert forall|i: int| 0 <= i < v1.len() implies (v1[i].started_at == v2[i].started_at
            && v1[i].completed_at == v2[i].completed_at) by {
            assert(same_shown_run(v1[i], v2[i]));
        }
    }
    if runs_cuttable(v1) {
        if n > 0 {
            let rows1 = Seq::new(v1.len(), |i: int| run_row(v1[i], durations[i]));
            let rows2 = Seq::new(v2.len(), |i: int| run_row(v2[i], durations[i]));
            assert forall|i: int| 0 <= i < rows1.len() implies rows1[i] == rows2[i] by {
                assert(same_shown_run(v1[i], v2[i]));
                assert(run_cuttable(v1[i]));
            }
            assert(rows1 =~= rows2);
        }
    }
}

/// Two issue documents whose first 25 issues agree on the shown fields
/// render as the same issue table.
pub proof fn law_issue_list_depends_on_shown_fields(raw1: Seq<char>, raw2: Seq<char>, n: nat)
    requires
        json_parses(raw1),
        json_parses(raw2),
        json_array_len(JsonAt::root(raw1)) == Some(n),
        json_array_len(JsonAt::root(raw2)) == Some(n),
        forall|i: int| 0 <= i < shown(n) ==> #[trigger] issue_list_fields_at(JsonAt::root(raw1).item(i))
            == issue_list_fields_at(JsonAt::root(raw2).item(i)),
    ensures
        issue_list_view(raw1) == issue_list_view(raw2),
{
    assert(shown_issues(raw1, n) =~= shown_issues(raw2, n));
}

/// A first column of a raw workspace table: a non-empty run of characters
/// other than white space that does not start with `ID`.
pub open spec fn id_token(t: Seq<char>) -> bool {
    &&& t.len() > 0
    &&& forall|i: int| 0 <= i < t.len() ==> !is_space(#[trigger] t[i])
    &&& !(t.len() >= 2 && t[0] == 'I' && t[1] == 'D')
}

/// Two raw lines are equal, or differ only in their first column.
pub open spec fn same_but_first_column(l1: Seq<char>, l2: Seq<char>) -> bool {
    ||| l1 == l2
    ||| exists|t1: Seq<char>, t2: Seq<char>, rest: Seq<char>| #![trigger (t1 + rest), (t2 + rest)] {
        &&& id_token(t1)
        &&& id_token(t2)
        &&& (rest.len() == 0 || is_space(rest[0]))
        &&& l1 == t1 + rest
        &&& (t2 + rest) == l2
    }
}

proof fn lemma_trim_end_after_word(t: Seq<char>, rest: Seq<char>)
    requires
        t.len() > 0,
        !is_space(t.last()),
    ensures
        trim_end(t + rest) == t + trim_end(rest),
    decreases rest.len(),
{
    if rest.len() == 0 {
        assert(t + rest =~= t);
        assert(t + trim_end(rest) =~= t);
    } else if is_space(rest.last()) {
        assert((t + rest).drop_last() =~= t + rest.drop_last());
        lemma_trim_end_after_word(t, rest.drop_last());
    } else {
        assert((t + rest).last() == rest.last());
    }
}

proof fn lemma_trim_end_prefix(s: Seq<char>)
    ensures
        trim_end(s).len() <= s.len(),
        forall|i: int| 0 <= i < trim_end(s).len() ==> trim_end(s)[i] == s[i],
    decreases s.len(),
{
    if s.len() > 0 && is_space(s.last()) {
        lemma_trim_end_prefix(s.drop_last());
        assert forall|i: int| 0 <= i < trim_end(s).len() implies trim_end(s)[i] == s[i] by {
            assert(s.drop_last()[i] == s[i]);
        }
    }
}

proof fn lemma_gap_after_word(t: Seq<char>, rest: Seq<char>)
    requires
        forall|i: int| 0 <= i < t.len() ==> t[i] != ' ',
    ensures
        gap_index(t + rest) == (match gap_index(rest) {
            Some(j) => Some(j + t.len()),
            None => None::<int>,
        }),
    decreases t.len(),
{
    if t.len() == 0 {
        assert(t + rest =~= rest);
    } else {
        let tail = t.drop_first();
        assert forall|i: int| 0 <= i < tail.len() implies tail[i] != ' ' by {
            assert(tail[i] == t[i + 1]);
        }
        lemma_gap_after_word(tail, rest);
        assert((t + rest).drop_first() =~= tail + rest);
        assert((t + rest)[0] == t[0]);
    }
}

/// A line made of a first column and the rest is treated like any other
/// line with that rest: it is not blank, not the header, and its name and
/// watching columns come from the rest alone.
proof fn lemma_line_after_token(t: Seq<char>, rest: Seq<char>)
    requires
        id_token(t),
        rest.len() == 0 || is_space(rest[0]),
    ensures
        trim(t + rest).len() > 0,
        !(trim(t + rest).len() >= 2 && trim(t + rest)[0] == 'I' && trim(t + rest)[1] == 'D'),
        gap_index(t + rest) == (match gap_index(rest) {
            Some(j) => Some(j + t.len()),
            None => None::<int>,
        }),
{
    lemma_trim_end_after_word(t, rest);
    let te = t + trim_end(rest);
    assert(!is_space(te[0]));
    assert(trim_start(te) == te);
    lemma_trim_end_prefix(rest);
    if te.len() >= 2 {
        if t.len() == 1 {
            assert(te[1] == trim_end(rest)[0]);
            assert(te[1] == rest[0]);
        }
    }
    assert forall|i: int| 0 <= i < t.len() implies t[i] != ' ' by {
        assert(!is_space(t[i]));
    }
    lemma_gap_after_word(t, rest);
}

proof fn lemma_step_ignores_first_column(state: (bool, Seq<Seq<char>>), l1: Seq<char>, l2: Seq<char>)
    requires
        same_but_first_column(l1, l2),
    ensures
        workspace_step(state, l1) == workspace_step(state, l2),
{
    if l1 != l2 {
        let (t1, t2, rest) = choose|t1: Seq<char>, t2: Seq<char>, rest: Seq<char>| #![trigger (t1 + rest), (t2 + rest)] {
            &&& id_token(t1)
            &&& id_token(t2)
            &&& (rest.len() == 0 || is_space(rest[0]))
            &&& l1 == t1 + rest
            &&& (t2 + rest) == l2
        };
        lemma_line_after_token(t1, rest);
        lemma_line_after_token(t2, rest);
        let c1 = columns(l1);
        let c2 = columns(l2);
        match gap_index(rest) {
            None => {
                assert(c1.len() == 1 && c2.len() == 1);
            },
            Some(j) => {
                lemma_gap_index_bounds(rest);
                assert(l1.skip(j + t1.len()) =~= rest.skip(j));
                assert(l2.skip(j + t2.len()) =~= rest.skip(j));
                assert(c1.len() == c2.len());
                assert(c1[1] == c2[1]);
                assert(c1.len() >= 3 ==> c1[2] == c2[2]);
                assert(workspace_row(l1) == workspace_row(l2));
            },
        }
    }
}

/// The ID column never reaches the workspace table: two raw tables whose
/// lines are equal or differ only in their first column (a token such as
/// a UUID) filter to the same output.
pub proof fn law_workspace_ignores_first_column(raw1: Seq<char>, raw2: Seq<char>)
    requires
        lines_of(raw1).len() == lines_of(raw2).len(),
        forall|k: int| 0 <= k < lines_of(raw1).len() ==>
            same_but_first_column(#[trigger] lines_of(raw1)[k], lines_of(raw2)[k]),
    ensures
        workspace_list_view(raw1) == workspace_list_view(raw2),
{
    let l1 = lines_of(raw1);
    let l2 = lines_of(raw2);
    lemma_fold_ignores_first_column(l1, l2);
}

proof fn lemma_fold_ignores_first_column(l1: Seq<Seq<char>>, l2: Seq<Seq<char>>)
    requires
        l1.len() == l2.len(),
        forall|k: int| 0 <= k < l1.len() ==> same_but_first_column(#[trigger] l1[k], l2[k]),
    ensures
        workspace_fold(l1) == workspace_fold(l2),
    decreases l1.len(),
{
    if l1.len() > 0 {
        let p1 = l1.drop_last();
        let p2 = l2.drop_last();
        assert forall|k: int| 0 <= k < p1.len() implies same_but_first_column(#[trigger] p1[k], p2[k]) by {
            assert(p1[k] == l1[k] && p2[k] == l2[k]);
        }
        lemma_fold_ignores_first_column(p1, p2);
        assert(same_but_first_column(l1[l1.len() - 1], l2[l1.len() - 1]));
        lemma_step_ignores_first_column(workspace_fold(p1), l1.last(), l2.last());
    }
}

} // verus!
