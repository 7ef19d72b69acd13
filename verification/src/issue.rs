//! `multica issue`: routing of the verbs, and the compact renderings of
//! `issue list`, `issue get` and `issue runs`.

use vstd::prelude::*;
use crate::json::{
    json_array_len, json_array_length, json_as_str, json_field, json_is_null, json_item, json_null,
    json_parses, json_string, parse_json, JsonAt, JsonNode,
};
use crate::plan::{
    filtered, filtered_view, join_words, owned, passthrough, passthrough_view, strings_from,
    texts, Filter, Invocation, InvocationView,
};
use crate::tables::{
    durations_of, issue_detail_lines, issue_detail_text, issue_list_table, issue_list_views,
    issue_table, run_views, runs_cuttable, runs_table, runs_table_view, shown, text_of,
    IssueDetailFields, IssueDetailFieldsView, IssueListFields, IssueListFieldsView, RunFields,
    RunFieldsView, MAX_ITEMS,
};
use crate::text::{joined, push_chars, push_str, str_equal};

verus! {

/// The verbose notice after `running multica ` for a filtered issue verb.
pub open spec fn issue_notice(verb: Seq<char>, extra: Seq<Seq<char>>) -> Seq<char> {
    "issue"@ + " "@ + verb + " "@ + joined(extra, " "@)
}

/// The invocation for `multica issue <args...>`: `list`, `get` and `runs`
/// run with JSON output and are filtered; any other verb (or none) passes
/// through unchanged.
pub open spec fn issue_invocation(args: Seq<Seq<char>>, verbose: u8) -> InvocationView {
    let head = "rtk multica issue: running multica "@;
    if args.len() > 0 && args[0] == "list"@ {
        filtered_view("issue"@, "list"@, args.drop_first(), true, head,
            issue_notice("list"@, args.drop_first()), verbose, Filter::IssueList, "multica_issue_list"@, "multica"@)
    } else if args.len() > 0 && args[0] == "get"@ {
        filtered_view("issue"@, "get"@, args.drop_first(), true, head,
            issue_notice("get"@, args.drop_first()), verbose, Filter::IssueGet, "multica_issue_get"@, "multica"@)
    } else if args.len() > 0 && args[0] == "runs"@ {
        filtered_view("issue"@, "runs"@, args.drop_first(), true, head,
            issue_notice("runs"@, args.drop_first()), verbose, Filter::IssueRuns, "multica_issue_runs"@, "multica"@)
    } else {
        passthrough_view("issue"@, args, "rtk multica issue: passthrough for '"@, verbose, joined(args, " "@),
            "multica issue"@)
    }
}

/// A filtered issue verb.
fn issue_filtered(verb: &str, rest: &[String], verbose: u8, filter: Filter, slug: &str) -> (r: Invocation)
    ensures
        r@ == filtered_view("issue"@, verb@, texts(rest@), true, "rtk multica issue: running multica "@,
            issue_notice(verb@, texts(rest@)), verbose, filter, slug@, "multica"@),
{
    let mut tail: Vec<char> = Vec::new();
    push_str(&mut tail, "issue");
    push_str(&mut tail, " ");
    push_str(&mut tail, verb);
    push_str(&mut tail, " ");
    let words = join_words(rest);
    push_chars(&mut tail, &words);
    filtered("issue", verb, rest, true, "rtk multica issue: running multica ", &tail, verbose, filter, slug, "multica")
}

/// Entry point of `multica issue <verb> [args...]`: what to run and how to
/// show it, as [`issue_invocation`] says.
pub fn run(args: &[String], verbose: u8) -> (r: Invocation)
    ensures
        r@ == issue_invocation(texts(args@), verbose),
{
    let ghost a = texts(args@);
    if args.len() > 0 {
        assert(a[0] == args@[0]@);
        let rest = strings_from(args, 1);
        assert(texts(rest@) =~= a.drop_first());
        if str_equal(args[0].as_str(), "list") {
            return issue_filtered("list", &rest, verbose, Filter::IssueList, "multica_issue_list");
        } else if str_equal(args[0].as_str(), "get") {
            return issue_filtered("get", &rest, verbose, Filter::IssueGet, "multica_issue_get");
        } else if str_equal(args[0].as_str(), "runs") {
            return issue_filtered("runs", &rest, verbose, Filter::IssueRuns, "multica_issue_runs");
        }
    }
    let words = join_words(args);
    passthrough("issue", args, "rtk multica issue: passthrough for '", &words, verbose, "multica issue")
}

} // verus!

verus! {

/// The fields of the issue at `at` that the issue table shows.
pub open spec fn issue_list_fields_at(at: JsonAt) -> IssueListFieldsView {
    IssueListFieldsView {
        identifier: json_string(at.field("identifier"@)),
        status: json_string(at.field("status"@)),
        priority: json_string(at.field("priority"@)),
        assignee_type: json_string(at.field("assignee_type"@)),
        title: json_string(at.field("title"@)),
    }
}

/// The fields of the issue at `at` that its summary shows.
pub open spec fn issue_detail_fields_at(at: JsonAt) -> IssueDetailFieldsView {
    IssueDetailFieldsView {
        identifier: json_string(at.field("identifier"@)),
        title: json_string(at.field("title"@)),
        status: json_string(at.field("status"@)),
        priority: json_string(at.field("priority"@)),
        assignee_type: json_string(at.field("assignee_type"@)),
        due_date: json_string(at.field("due_date"@)),
        description: json_string(at.field("description"@)),
        has_parent: !json_is_null(at.field("parent_issue_id"@)),
    }
}

/// The fields of the run at `at` that the run table shows.
pub open spec fn run_fields_at(at: JsonAt) -> RunFieldsView {
    RunFieldsView {
        id: json_string(at.field("id"@)),
        status: json_string(at.field("status"@)),
        started_at: json_string(at.field("started_at"@)),
        completed_at: json_string(at.field("completed_at"@)),
        error: json_string(at.field("error"@)),
        output: json_string(at.field("result"@).field("output"@)),
    }
}

/// The fields of the shown issues of the array `raw` of `n` issues.
pub open spec fn shown_issues(raw: Seq<char>, n: nat) -> Seq<IssueListFieldsView> {
    Seq::new(shown(n), |i: int| issue_list_fields_at(JsonAt::root(raw).item(i)))
}

/// The fields of the shown runs of the array `raw` of `n` runs.
pub open spec fn shown_runs(raw: Seq<char>, n: nat) -> Seq<RunFieldsView> {
    Seq::new(shown(n), |i: int| run_fields_at(JsonAt::root(raw).item(i)))
}

/// The filtered `issue list` output for the raw text `raw`: the raw text
/// itself unless it is a JSON array, else the issue table of its first 25
/// issues ([`issue_table`]).
pub open spec fn issue_list_view(raw: Seq<char>) -> Seq<char> {
    if !json_parses(raw) {
        raw
    } else {
        match json_array_len(JsonAt::root(raw)) {
            None => raw,
            Some(n) => issue_table(shown_issues(raw, n), n),
        }
    }
}

/// The filtered `issue get` output for the raw text `raw`: the raw text
/// itself unless it is JSON, else the summary of the issue it holds.
pub open spec fn issue_get_view(raw: Seq<char>) -> Seq<char> {
    if !json_parses(raw) {
        raw
    } else {
        joined(issue_detail_lines(issue_detail_fields_at(JsonAt::root(raw))), "\n"@)
    }
}

/// Whether every shown run of the document `raw` can be cut (always so
/// when `raw` is no JSON array).
pub open spec fn runs_printable(raw: Seq<char>) -> bool {
    json_parses(raw) ==> match json_array_len(JsonAt::root(raw)) {
        Some(n) => runs_cuttable(shown_runs(raw, n)),
        None => true,
    }
}

/// `durations` are renderings that `compute_duration` may give for the
/// shown runs of `raw`, with the seconds parser `f`.
pub open spec fn run_durations<F: Fn(&str) -> Option<i64>>(f: F, raw: Seq<char>, durations: Seq<Seq<char>>) -> bool {
    json_parses(raw) ==> match json_array_len(JsonAt::root(raw)) {
        Some(n) => durations_of(f, shown_runs(raw, n), durations),
        None => true,
    }
}

/// The filtered `issue runs` output for the raw text `raw`, given the
/// rendered durations of the shown runs: the raw text itself unless it is a
/// JSON array, else the run table of its first 25 runs
/// ([`runs_table_view`]).
pub open spec fn issue_runs_view(raw: Seq<char>, durations: Seq<Seq<char>>) -> Seq<char> {
    if !json_parses(raw) {
        raw
    } else {
        match json_array_len(JsonAt::root(raw)) {
            None => raw,
            Some(n) => runs_table_view(shown_runs(raw, n), n, durations),
        }
    }
}

/// The string under `key` of `node`, if it is a string.
fn field_text_of(node: &JsonNode, key: &str) -> (r: Option<String>)
    ensures
        text_of(r) == json_string(node@.field(key@)),
{
    let child = json_field(node, key);
    json_as_str(&child)
}

/// The fields of one issue that the issue table shows.
fn read_issue_list_fields(item: &JsonNode) -> (r: IssueListFields)
    ensures
        r@ == issue_list_fields_at(item@),
{
    IssueListFields {
        identifier: field_text_of(item, "identifier"),
        status: field_text_of(item, "status"),
        priority: field_text_of(item, "priority"),
        assignee_type: field_text_of(item, "assignee_type"),
        title: field_text_of(item, "title"),
    }
}

/// The fields of one issue that its summary shows.
fn read_issue_detail_fields(v: &JsonNode) -> (r: IssueDetailFields)
    ensures
        r@ == issue_detail_fields_at(v@),
{
    let parent = json_field(v, "parent_issue_id");
    IssueDetailFields {
        identifier: field_text_of(v, "identifier"),
        title: field_text_of(v, "title"),
        status: field_text_of(v, "status"),
        priority: field_text_of(v, "priority"),
        assignee_type: field_text_of(v, "assignee_type"),
        due_date: field_text_of(v, "due_date"),
        description: field_text_of(v, "description"),
        has_parent: !json_null(&parent),
    }
}

/// The fields of one run that the run table shows.
fn read_run_fields(run: &JsonNode) -> (r: RunFields)
    ensures
        r@ == run_fields_at(run@),
{
    let result = json_field(run, "result");
    RunFields {
        id: field_text_of(run, "id"),
        status: field_text_of(run, "status"),
        started_at: field_text_of(run, "started_at"),
        completed_at: field_text_of(run, "completed_at"),
        error: field_text_of(run, "error"),
        output: field_text_of(&result, "output"),
    }
}

/// Filters `multica issue list --output json` output into a compact table
/// (identifier, status, priority, agent, title), as [`issue_list_view`] says.
pub fn filter_issue_list(raw: &str) -> (r: String)
    ensures
        r@ == issue_list_view(raw@),
{
    let root = match parse_json(raw) {
        Some(root) => root,
        None => return owned(raw),
    };
    let n = match json_array_length(&root) {
        Some(n) => n,
        None => return owned(raw),
    };
    let limit = if n < MAX_ITEMS { n } else { MAX_ITEMS };
    let mut items: Vec<IssueListFields> = Vec::new();
    let mut i: usize = 0;
    while i < limit
        invariant
            i <= limit,
            limit == shown(n as nat),
            root@ == JsonAt::root(raw@),
            issue_list_views(items@) == shown_issues(raw@, n as nat).take(i as int),
        decreases limit - i,
    {
        let item = json_item(&root, i);
        let fields = read_issue_list_fields(&item);
        let ghost prev = items@;
        items.push(fields);
        i += 1;
        assert(issue_list_views(items@) =~= issue_list_views(prev).push(fields@));
        assert(issue_list_views(items@) =~= shown_issues(raw@, n as nat).take(i as int));
    }
    assert(shown_issues(raw@, n as nat).take(limit as int) =~= shown_issues(raw@, n as nat));
    issue_list_table(items.as_slice(), n)
}

/// Filters `multica issue get <id> --output json` output into a short
/// summary, as [`issue_get_view`] says.
pub fn filter_issue_get(raw: &str) -> (r: String)
    ensures
        r@ == issue_get_view(raw@),
{
    let v = match parse_json(raw) {
        Some(v) => v,
        None => return owned(raw),
    };
    let fields = read_issue_detail_fields(&v);
    issue_detail_text(&fields)
}

/// The filtered `issue runs` output, or `None` where a shown run cannot be
/// cut; also the rendered durations it used.
fn render_runs<F: Fn(&str) -> Option<i64>>(raw: &str, seconds: &F) -> (r: Option<String>)
    requires
        forall|x: &str| call_requires(*seconds, (x,)),
    ensures
        r is Some <==> runs_printable(raw@),
        r matches Some(s) ==> exists|durations: Seq<Seq<char>>| run_durations(*seconds, raw@, durations)
            && s@ == #[trigger] issue_runs_view(raw@, durations),
{
    let root = match parse_json(raw) {
        Some(root) => root,
        None => {
            let out = owned(raw);
            assert(out@ == issue_runs_view(raw@, Seq::empty()));
            return Some(out);
        },
    };
    let n = match json_array_length(&root) {
        Some(n) => n,
        None => {
            let out = owned(raw);
            assert(out@ == issue_runs_view(raw@, Seq::empty()));
            return Some(out);
        },
    };
    let limit = if n < MAX_ITEMS { n } else { MAX_ITEMS };
    let mut items: Vec<RunFields> = Vec::new();
    let mut i: usize = 0;
    while i < limit
        invariant
            i <= limit,
            limit == shown(n as nat),
            root@ == JsonAt::root(raw@),
            run_views(items@) == shown_runs(raw@, n as nat).take(i as int),
        decreases limit - i,
    {
        let item = json_item(&root, i);
        let fields = read_run_fields(&item);
        let ghost prev = items@;
        items.push(fields);
        i += 1;
        assert(run_views(items@) =~= run_views(prev).push(fields@));
        assert(run_views(items@) =~= shown_runs(raw@, n as nat).take(i as int));
    }
    assert(shown_runs(raw@, n as nat).take(limit as int) =~= shown_runs(raw@, n as nat));
    let ghost v = shown_runs(raw@, n as nat);
    let out = runs_table(items.as_slice(), n, seconds);
    proof {
        if out is Some {
            let s = out->0;
            let d = choose|d: Seq<Seq<char>>| durations_of(*seconds, v, d)
                && s@ == #[trigger] runs_table_view(v, n as nat, d);
            assert(run_durations(*seconds, raw@, d));
            assert(s@ == issue_runs_view(raw@, d));
        }
    }
    out
}

/// Filters `multica issue runs <id> --output json` output into a compact
/// table (short id, status, start, duration, summary), as
/// [`issue_runs_view`] says; the seconds of the timestamps are read with
/// `seconds`.
pub fn filter_issue_runs<F: Fn(&str) -> Option<i64>>(raw: &str, seconds: &F) -> (r: String)
    requires
        forall|x: &str| call_requires(*seconds, (x,)),
        runs_printable(raw@),
    ensures
        exists|durations: Seq<Seq<char>>| run_durations(*seconds, raw@, durations)
            && r@ == #[trigger] issue_runs_view(raw@, durations),
{
    match render_runs(raw, seconds) {
        Some(s) => s,
        None => owned(raw),
    }
}

/// [`filter_issue_runs`] where every shown run can be cut; `None` where a
/// run's id or start time would be cut inside a character.
pub fn try_filter_issue_runs<F: Fn(&str) -> Option<i64>>(raw: &str, seconds: &F) -> (r: Option<String>)
    requires
        forall|x: &str| call_requires(*seconds, (x,)),
    ensures
        r is Some <==> runs_printable(raw@),
        r matches Some(s) ==> exists|durations: Seq<Seq<char>>| run_durations(*seconds, raw@, durations)
            && s@ == #[trigger] issue_runs_view(raw@, durations),
{
    render_runs(raw, seconds)
}

} // verus!
