//! The renderings of issues and runs from the plain field values read out
//! of `multica`'s JSON: the issue table, the issue summary and the run
//! table.

use vstd::prelude::*;
use crate::clock::{compute_duration, is_duration_of, regex_groups, start_column, started_column, TIMESTAMP_PATTERN};
use crate::json::string_or;
use crate::text::{
    byte_prefix, byte_prefix_of, chars_equal_str, chars_of, decimal, find_char, index_of, join,
    joined, padded, push_chars, push_decimal, push_padded, push_repeated, push_str, repeated,
    slice_chars, string_of, truncate_chars, truncated, views,
};

verus! {

/// At most this many issues or runs are shown.
pub const MAX_ITEMS: usize = 25;

/// At most this many characters of an issue's description are shown.
pub const MAX_DESC_CHARS: usize = 500;

/// At most this many characters of a run's output are shown.
pub const MAX_RUN_OUTPUT_CHARS: usize = 300;

/// The view of an optional string.
pub open spec fn text_of(o: Option<String>) -> Option<Seq<char>> {
    match o {
        Some(s) => Some(s@),
        None => None,
    }
}

/// The string in `o`, or nothing.
pub open spec fn or_empty(o: Option<Seq<char>>) -> Seq<char> {
    string_or(o, Seq::empty())
}

/// The characters of the string in `o`, or of `default`.
pub fn text_or(o: &Option<String>, default: &str) -> (r: Vec<char>)
    ensures
        r@ == string_or(text_of(*o), default@),
{
    match o {
        Some(s) => chars_of(s.as_str()),
        None => chars_of(default),
    }
}

/// The characters of the string in `o`, or none.
pub fn text_or_empty(o: &Option<String>) -> (r: Vec<char>)
    ensures
        r@ == or_empty(text_of(*o)),
{
    match o {
        Some(s) => chars_of(s.as_str()),
        None => Vec::new(),
    }
}

/// The two spaces between table columns.
pub open spec fn gap() -> Seq<char> {
    seq![' ', ' ']
}

/// The shown part of a list of `n` items: the first [`MAX_ITEMS`].
pub open spec fn shown(n: nat) -> nat {
    if n < MAX_ITEMS { n } else { MAX_ITEMS as nat }
}

/// The line that counts the items left out of a list of `n`.
pub open spec fn more_line(n: nat, what: Seq<char>) -> Seq<Seq<char>> {
    if n > MAX_ITEMS {
        seq!["... +"@ + decimal((n - MAX_ITEMS) as nat) + what]
    } else {
        Seq::empty()
    }
}

/// Appends `s` cut to `max` characters and padded to `width`, then a gap.
fn push_cell(out: &mut Vec<char>, s: &Vec<char>, max: usize, width: usize)
    ensures
        final(out)@ == old(out)@ + padded(truncated(s@, max as nat), width as nat) + gap(),
{
    let cut = truncate_chars(s, max);
    push_padded(out, &cut, width);
    out.push(' ');
    out.push(' ');
    assert(out@ =~= old(out)@ + padded(truncated(s@, max as nat), width as nat) + gap());
}

/// Appends `s` padded to `width`, then a gap.
fn push_field(out: &mut Vec<char>, s: &Vec<char>, width: usize)
    ensures
        final(out)@ == old(out)@ + padded(s@, width as nat) + gap(),
{
    push_padded(out, s, width);
    out.push(' ');
    out.push(' ');
    assert(out@ =~= old(out)@ + padded(s@, width as nat) + gap());
}

/// The line that counts the items left out of a list of `n`.
fn more_line_of(n: usize, what: &str) -> (r: Vec<char>)
    requires
        n > MAX_ITEMS,
    ensures
        seq![r@] == more_line(n as nat, what@),
{
    let mut r: Vec<char> = Vec::new();
    push_str(&mut r, "... +");
    push_decimal(&mut r, (n - MAX_ITEMS) as u128);
    push_str(&mut r, what);
    r
}

/// Appends `line` to `lines`.
fn add_line(lines: &mut Vec<Vec<char>>, line: Vec<char>)
    ensures
        views(final(lines)@) == views(old(lines)@).push(line@),
{
    let ghost prev = lines@;
    lines.push(line);
    assert(views(lines@) =~= views(prev).push(line@));
}

/// A line made of `head` and then `tail`.
fn labelled(head: &str, tail: &Vec<char>) -> (r: Vec<char>)
    ensures
        r@ == head@ + tail@,
{
    let mut r: Vec<char> = Vec::new();
    push_str(&mut r, head);
    push_chars(&mut r, tail);
    r
}

// ---------------------------------------------------------------------------
// The issue table
// ---------------------------------------------------------------------------

/// The fields of an issue that the issue table shows; `None` where the
/// field is missing or no string.
pub struct IssueListFields {
    pub identifier: Option<String>,
    pub status: Option<String>,
    pub priority: Option<String>,
    pub assignee_type: Option<String>,
    pub title: Option<String>,
}

/// The view of [`IssueListFields`].
pub struct IssueListFieldsView {
    pub identifier: Option<Seq<char>>,
    pub status: Option<Seq<char>>,
    pub priority: Option<Seq<char>>,
    pub assignee_type: Option<Seq<char>>,
    pub title: Option<Seq<char>>,
}

impl View for IssueListFields {
    type V = IssueListFieldsView;

    open spec fn view(&self) -> IssueListFieldsView {
        IssueListFieldsView {
            identifier: text_of(self.identifier),
            status: text_of(self.status),
            priority: text_of(self.priority),
            assignee_type: text_of(self.assignee_type),
            title: text_of(self.title),
        }
    }
}

/// The views of some issues.
pub open spec fn issue_list_views(items: Seq<IssueListFields>) -> Seq<IssueListFieldsView> {
    items.map_values(|f: IssueListFields| f@)
}

/// The short status of an issue: `in_progress` is `active`, `in_review` is
/// `review`, others stay.
pub open spec fn status_short(s: Seq<char>) -> Seq<char> {
    if s == "in_progress"@ {
        "active"@
    } else if s == "in_review"@ {
        "review"@
    } else {
        s
    }
}

/// The short priority of an issue: `urg`, `hi`, `med`, `lo`, else `-`.
pub open spec fn priority_short(p: Seq<char>) -> Seq<char> {
    if p == "urgent"@ {
        "urg"@
    } else if p == "high"@ {
        "hi"@
    } else if p == "medium"@ {
        "med"@
    } else if p == "low"@ {
        "lo"@
    } else {
        "-"@
    }
}

/// Whether an agent is assigned, as `yes` or `no`.
pub open spec fn agent_flag(assignee_type: Seq<char>) -> Seq<char> {
    if assignee_type == "agent"@ {
        "yes"@
    } else {
        "no"@
    }
}

/// The header of the issue table.
pub open spec fn issue_list_header() -> Seq<char> {
    padded("ID"@, 10) + gap() + padded("STATUS"@, 12) + gap() + padded("PRI"@, 7) + gap()
        + padded("AGENT"@, 6) + gap() + "TITLE"@
}

/// The table row of an issue: identifier, short status, short priority
/// (from `none` when missing), agent flag (from `-` when missing) and title,
/// each cut and padded to its column.
pub open spec fn issue_row(f: IssueListFieldsView) -> Seq<char> {
    padded(truncated(or_empty(f.identifier), 10), 10) + gap()
        + padded(truncated(status_short(or_empty(f.status)), 12), 12) + gap()
        + padded(truncated(priority_short(string_or(f.priority, "none"@)), 7), 7) + gap()
        + padded(agent_flag(string_or(f.assignee_type, "-"@)), 6) + gap()
        + truncated(or_empty(f.title), 60)
}

/// The issue table for the shown issues `items` of a list of `total`:
/// `No issues found.` when the list is empty; else the header, a rule, a
/// row for each shown issue, and a line counting the rest.
pub open spec fn issue_table(items: Seq<IssueListFieldsView>, total: nat) -> Seq<char> {
    if total == 0 {
        "No issues found."@
    } else {
        joined(
            seq![issue_list_header(), repeated('-', 90)]
                + Seq::new(items.len(), |i: int| issue_row(items[i]))
                + more_line(total, " more issues"@),
            "\n"@,
        )
    }
}

/// The header of the issue table.
fn issue_list_header_line() -> (r: Vec<char>)
    ensures
        r@ == issue_list_header(),
{
    let mut r: Vec<char> = Vec::new();
    let id = chars_of("ID");
    push_cell(&mut r, &id, 10, 10);
    let status = chars_of("STATUS");
    push_cell(&mut r, &status, 12, 12);
    let pri = chars_of("PRI");
    push_cell(&mut r, &pri, 7, 7);
    let agent = chars_of("AGENT");
    push_cell(&mut r, &agent, 6, 6);
    push_str(&mut r, "TITLE");
    proof {
        reveal_strlit("ID");
        reveal_strlit("STATUS");
        reveal_strlit("PRI");
        reveal_strlit("AGENT");
    }
    assert(r@ =~= issue_list_header());
    r
}

/// The short status, as [`status_short`] says.
fn status_short_of(s: &Vec<char>) -> (r: Vec<char>)
    ensures
        r@ == status_short(s@),
{
    if chars_equal_str(s, "in_progress") {
        chars_of("active")
    } else if chars_equal_str(s, "in_review") {
        chars_of("review")
    } else {
        s.clone()
    }
}

/// The short priority, as [`priority_short`] says.
fn priority_short_of(p: &Vec<char>) -> (r: Vec<char>)
    ensures
        r@ == priority_short(p@),
{
    if chars_equal_str(p, "urgent") {
        chars_of("urg")
    } else if chars_equal_str(p, "high") {
        chars_of("hi")
    } else if chars_equal_str(p, "medium") {
        chars_of("med")
    } else if chars_equal_str(p, "low") {
        chars_of("lo")
    } else {
        chars_of("-")
    }
}

/// The table row of one issue, as [`issue_row`] says.
pub fn issue_row_of(f: &IssueListFields) -> (r: Vec<char>)
    ensures
        r@ == issue_row(f@),
{
    let identifier = text_or_empty(&f.identifier);
    let status = text_or_empty(&f.status);
    let priority = text_or(&f.priority, "none");
    let assignee_type = text_or(&f.assignee_type, "-");
    let title = text_or_empty(&f.title);
    let mut r: Vec<char> = Vec::new();
    push_cell(&mut r, &identifier, 10, 10);
    let status_s = status_short_of(&status);
    push_cell(&mut r, &status_s, 12, 12);
    let pri_s = priority_short_of(&priority);
    push_cell(&mut r, &pri_s, 7, 7);
    let flag = if chars_equal_str(&assignee_type, "agent") { chars_of("yes") } else { chars_of("no") };
    assert(flag@ == agent_flag(assignee_type@));
    proof {
        reveal_strlit("yes");
        reveal_strlit("no");
    }
    assert(truncated(flag@, 6) == flag@);
    push_cell(&mut r, &flag, 6, 6);
    let title_cut = truncate_chars(&title, 60);
    push_chars(&mut r, &title_cut);
    r
}

/// The issue table for the shown issues of a list of `total`, as
/// [`issue_table`] says.
pub fn issue_list_table(items: &[IssueListFields], total: usize) -> (r: String)
    requires
        items.len() == shown(total as nat),
    ensures
        r@ == issue_table(issue_list_views(items@), total as nat),
{
    if total == 0 {
        return crate::plan::owned("No issues found.");
    }
    let ghost v = issue_list_views(items@);
    let mut lines: Vec<Vec<char>> = Vec::new();
    lines.push(issue_list_header_line());
    let mut rule: Vec<char> = Vec::new();
    push_repeated(&mut rule, '-', 90);
    lines.push(rule);
    let ghost head = seq![issue_list_header(), repeated('-', 90)];
    assert(views(lines@) =~= head);
    let mut i: usize = 0;
    while i < items.len()
        invariant
            i <= items.len(),
            v == issue_list_views(items@),
            views(lines@) == head + Seq::new(i as nat, |k: int| issue_row(v[k])),
        decreases items.len() - i,
    {
        let row = issue_row_of(&items[i]);
        assert(items@[i as int]@ == v[i as int]);
        add_line(&mut lines, row);
        i += 1;
        assert(views(lines@) =~= head + Seq::new(i as nat, |k: int| issue_row(v[k])));
    }
    let ghost body = head + Seq::new(v.len(), |k: int| issue_row(v[k]));
    assert(views(lines@) =~= body);
    if total > MAX_ITEMS {
        let more = more_line_of(total, " more issues");
        add_line(&mut lines, more);
        assert(views(lines@) =~= body + more_line(total as nat, " more issues"@));
    } else {
        assert(views(lines@) =~= body + more_line(total as nat, " more issues"@));
    }
    let text = join(&lines, "\n");
    string_of(&text)
}

} // verus!

verus! {

// ---------------------------------------------------------------------------
// The issue summary
// ---------------------------------------------------------------------------

/// The fields of an issue that its summary shows; `None` where a text field
/// is missing or no string; `has_parent` when its parent is not null.
pub struct IssueDetailFields {
    pub identifier: Option<String>,
    pub title: Option<String>,
    pub status: Option<String>,
    pub priority: Option<String>,
    pub assignee_type: Option<String>,
    pub due_date: Option<String>,
    pub description: Option<String>,
    pub has_parent: bool,
}

/// The view of [`IssueDetailFields`].
pub struct IssueDetailFieldsView {
    pub identifier: Option<Seq<char>>,
    pub title: Option<Seq<char>>,
    pub status: Option<Seq<char>>,
    pub priority: Option<Seq<char>>,
    pub assignee_type: Option<Seq<char>>,
    pub due_date: Option<Seq<char>>,
    pub description: Option<Seq<char>>,
    pub has_parent: bool,
}

impl View for IssueDetailFields {
    type V = IssueDetailFieldsView;

    open spec fn view(&self) -> IssueDetailFieldsView {
        IssueDetailFieldsView {
            identifier: text_of(self.identifier),
            title: text_of(self.title),
            status: text_of(self.status),
            priority: text_of(self.priority),
            assignee_type: text_of(self.assignee_type),
            due_date: text_of(self.due_date),
            description: text_of(self.description),
            has_parent: self.has_parent,
        }
    }
}

/// The note shown for an issue that has a parent.
pub open spec fn parent_note() -> Seq<char> {
    "Parent: (see parent_issue_id — fetch with multica issue get)"@
}

/// The part of `s` before its first `T` (all of `s` when there is none).
pub open spec fn before_t(s: Seq<char>) -> Seq<char> {
    match index_of(s, 'T') {
        Some(i) => s.take(i),
        None => s,
    }
}

/// `line` when `keep`, else nothing.
pub open spec fn line_if(keep: bool, line: Seq<char>) -> Seq<Seq<char>> {
    if keep { seq![line] } else { Seq::empty() }
}

/// The first line of an issue: `IDENTIFIER [STATUS] Title`, with `?` for
/// a missing identifier.
pub open spec fn issue_detail_header(f: IssueDetailFieldsView) -> Seq<char> {
    let identifier = or_empty(f.identifier);
    (if identifier.len() == 0 { "?"@ } else { identifier }) + " ["@ + or_empty(f.status) + "] "@
        + or_empty(f.title)
}

/// The detail lines of an issue: priority (unless none), assignee type, due
/// date (the day only) and the parent note, each when present.
pub open spec fn issue_detail_extras(f: IssueDetailFieldsView) -> Seq<Seq<char>> {
    let priority = string_or(f.priority, "none"@);
    let assignee_type = or_empty(f.assignee_type);
    let due_date = or_empty(f.due_date);
    line_if(priority != "none"@ && priority.len() > 0, "Priority: "@ + priority)
        + line_if(assignee_type.len() > 0, "Assigned to: "@ + assignee_type)
        + line_if(due_date.len() > 0, "Due: "@ + before_t(due_date))
        + line_if(f.has_parent, parent_note())
}

/// The description of an issue, cut to 500 characters, after a blank line
/// and a title; nothing when it is empty.
pub open spec fn issue_detail_description(f: IssueDetailFieldsView) -> Seq<Seq<char>> {
    let description = or_empty(f.description);
    if description.len() > 0 {
        seq![Seq::empty(), "Description:"@, truncated(description, MAX_DESC_CHARS as nat)]
    } else {
        Seq::empty()
    }
}

/// The lines of an issue's summary.
pub open spec fn issue_detail_lines(f: IssueDetailFieldsView) -> Seq<Seq<char>> {
    seq![issue_detail_header(f)] + issue_detail_extras(f) + issue_detail_description(f)
}

/// The first line of an issue, as [`issue_detail_header`] says.
fn issue_detail_header_of(f: &IssueDetailFields) -> (r: Vec<char>)
    ensures
        r@ == issue_detail_header(f@),
{
    let identifier = text_or_empty(&f.identifier);
    let title = text_or_empty(&f.title);
    let status = text_or_empty(&f.status);
    let mut header: Vec<char> = Vec::new();
    if identifier.len() == 0 {
        push_str(&mut header, "?");
    } else {
        push_chars(&mut header, &identifier);
    }
    push_str(&mut header, " [");
    push_chars(&mut header, &status);
    push_str(&mut header, "] ");
    push_chars(&mut header, &title);
    header
}

/// Appends the detail lines of an issue, as [`issue_detail_extras`] says.
fn push_issue_extras(lines: &mut Vec<Vec<char>>, f: &IssueDetailFields)
    ensures
        views(final(lines)@) == views(old(lines)@) + issue_detail_extras(f@),
{
    let priority = text_or(&f.priority, "none");
    let assignee_type = text_or_empty(&f.assignee_type);
    let due_date = text_or_empty(&f.due_date);
    let ghost l0 = views(lines@);

    if !chars_equal_str(&priority, "none") && priority.len() > 0 {
        add_line(lines, labelled("Priority: ", &priority));
    }
    let ghost l1 = views(lines@);
    assert(l1 =~= l0 + line_if(priority@ != "none"@ && priority@.len() > 0, "Priority: "@ + priority@));

    if assignee_type.len() > 0 {
        add_line(lines, labelled("Assigned to: ", &assignee_type));
    }
    let ghost l2 = views(lines@);
    assert(l2 =~= l1 + line_if(assignee_type@.len() > 0, "Assigned to: "@ + assignee_type@));

    if due_date.len() > 0 {
        let day = match find_char(&due_date, 'T') {
            Some(i) => slice_chars(&due_date, 0, i),
            None => due_date.clone(),
        };
        assert(day@ =~= before_t(due_date@));
        add_line(lines, labelled("Due: ", &day));
    }
    let ghost l3 = views(lines@);
    assert(l3 =~= l2 + line_if(due_date@.len() > 0, "Due: "@ + before_t(due_date@)));

    if f.has_parent {
        let mut note: Vec<char> = Vec::new();
        push_str(&mut note, "Parent: (see parent_issue_id — fetch with multica issue get)");
        add_line(lines, note);
    }
    assert(views(lines@) =~= l3 + line_if(f.has_parent, parent_note()));
    assert(views(lines@) =~= l0 + issue_detail_extras(f@));
}

/// Appends the description lines of an issue, as
/// [`issue_detail_description`] says.
fn push_issue_description(lines: &mut Vec<Vec<char>>, f: &IssueDetailFields)
    ensures
        views(final(lines)@) == views(old(lines)@) + issue_detail_description(f@),
{
    let description = text_or_empty(&f.description);
    let ghost l0 = views(lines@);
    if description.len() > 0 {
        add_line(lines, Vec::new());
        let mut title_line: Vec<char> = Vec::new();
        push_str(&mut title_line, "Description:");
        add_line(lines, title_line);
        add_line(lines, truncate_chars(&description, MAX_DESC_CHARS));
        assert(views(lines@) =~= l0 + seq![Seq::empty(), "Description:"@, truncated(description@, MAX_DESC_CHARS as nat)]);
    } else {
        assert(views(lines@) =~= l0 + Seq::<Seq<char>>::empty());
    }
}

/// The summary of an issue: its lines, as [`issue_detail_lines`] says,
/// joined with newlines.
pub fn issue_detail_text(f: &IssueDetailFields) -> (r: String)
    ensures
        r@ == joined(issue_detail_lines(f@), "\n"@),
{
    let mut lines: Vec<Vec<char>> = Vec::new();
    add_line(&mut lines, issue_detail_header_of(f));
    push_issue_extras(&mut lines, f);
    push_issue_description(&mut lines, f);
    assert(views(lines@) =~= issue_detail_lines(f@));
    let text = join(&lines, "\n");
    string_of(&text)
}

} // verus!

verus! {

// ---------------------------------------------------------------------------
// The run table
// ---------------------------------------------------------------------------

/// The fields of a run that the run table shows; `None` where a field is
/// missing or no string (`output` is the `output` of its `result`).
pub struct RunFields {
    pub id: Option<String>,
    pub status: Option<String>,
    pub started_at: Option<String>,
    pub completed_at: Option<String>,
    pub error: Option<String>,
    pub output: Option<String>,
}

/// The view of [`RunFields`].
pub struct RunFieldsView {
    pub id: Option<Seq<char>>,
    pub status: Option<Seq<char>>,
    pub started_at: Option<Seq<char>>,
    pub completed_at: Option<Seq<char>>,
    pub error: Option<Seq<char>>,
    pub output: Option<Seq<char>>,
}

impl View for RunFields {
    type V = RunFieldsView;

    open spec fn view(&self) -> RunFieldsView {
        RunFieldsView {
            id: text_of(self.id),
            status: text_of(self.status),
            started_at: text_of(self.started_at),
            completed_at: text_of(self.completed_at),
            error: text_of(self.error),
            output: text_of(self.output),
        }
    }
}

/// The views of some runs.
pub open spec fn run_views(items: Seq<RunFields>) -> Seq<RunFieldsView> {
    items.map_values(|f: RunFields| f@)
}

/// The header of the run table.
pub open spec fn runs_header() -> Seq<char> {
    padded("RUN"@, 8) + gap() + padded("STATUS"@, 10) + gap() + padded("STARTED"@, 16) + gap()
        + padded("DURATION"@, 8) + gap() + "SUMMARY"@
}

/// The summary of a run: `ERROR: ` and its error cut to 60 characters when
/// it failed, else its result output cut to 300.
pub open spec fn run_summary(f: RunFieldsView) -> Seq<char> {
    let error = or_empty(f.error);
    if error.len() > 0 {
        "ERROR: "@ + truncated(error, 60)
    } else {
        truncated(or_empty(f.output), MAX_RUN_OUTPUT_CHARS as nat)
    }
}

/// The short id of a run: the first 8 bytes of its id.
pub open spec fn run_short_id(f: RunFieldsView) -> Option<Seq<char>> {
    byte_prefix(or_empty(f.id), 8)
}

/// The start column of a run.
pub open spec fn run_start(f: RunFieldsView) -> Option<Seq<char>> {
    let started = or_empty(f.started_at);
    start_column(started, regex_groups(TIMESTAMP_PATTERN@, started))
}

/// Whether the run's row can be cut: its short id and start column fall on
/// character boundaries (where they do not, slicing the text panics).
pub open spec fn run_cuttable(f: RunFieldsView) -> bool {
    run_short_id(f) is Some && run_start(f) is Some
}

/// The table row of a run whose duration renders as `duration`.
pub open spec fn run_row(f: RunFieldsView, duration: Seq<char>) -> Seq<char> {
    padded(run_short_id(f).unwrap(), 8) + gap()
        + padded(truncated(or_empty(f.status), 10), 10) + gap()
        + padded(run_start(f).unwrap(), 16) + gap()
        + padded(duration, 8) + gap()
        + run_summary(f)
}

/// Whether every run can be cut.
pub open spec fn runs_cuttable(items: Seq<RunFieldsView>) -> bool {
    forall|i: int| 0 <= i < items.len() ==> #[trigger] run_cuttable(items[i])
}

/// `durations` are renderings that `compute_duration` may give for the
/// runs, with the seconds parser `f`.
pub open spec fn durations_of<F: Fn(&str) -> Option<i64>>(f: F, items: Seq<RunFieldsView>, durations: Seq<Seq<char>>) -> bool {
    &&& durations.len() == items.len()
    &&& forall|i: int| 0 <= i < items.len() ==>
        is_duration_of(f, or_empty(items[i].started_at), or_empty(items[i].completed_at), #[trigger] durations[i])
}

/// The run table for the shown runs `items` of a list of `total`, given
/// their rendered durations: `No runs found.` when the list is empty; else
/// the header, a rule, a row for each shown run, and a line counting the
/// rest.
pub open spec fn runs_table_view(items: Seq<RunFieldsView>, total: nat, durations: Seq<Seq<char>>) -> Seq<char> {
    if total == 0 {
        "No runs found."@
    } else {
        joined(
            seq![runs_header(), repeated('-', 90)]
                + Seq::new(items.len(), |i: int| run_row(items[i], durations[i]))
                + more_line(total, " more runs"@),
            "\n"@,
        )
    }
}

/// The header of the run table.
fn runs_header_line() -> (r: Vec<char>)
    ensures
        r@ == runs_header(),
{
    let mut r: Vec<char> = Vec::new();
    let run = chars_of("RUN");
    push_cell(&mut r, &run, 8, 8);
    let status = chars_of("STATUS");
    push_cell(&mut r, &status, 10, 10);
    let started = chars_of("STARTED");
    push_cell(&mut r, &started, 16, 16);
    let duration = chars_of("DURATION");
    push_cell(&mut r, &duration, 8, 8);
    push_str(&mut r, "SUMMARY");
    proof {
        reveal_strlit("RUN");
        reveal_strlit("STATUS");
        reveal_strlit("STARTED");
        reveal_strlit("DURATION");
    }
    assert(r@ =~= runs_header());
    r
}

/// The summary of a run, as [`run_summary`] says.
fn run_summary_of(f: &RunFields) -> (r: Vec<char>)
    ensures
        r@ == run_summary(f@),
{
    let error = text_or_empty(&f.error);
    if error.len() > 0 {
        let cut = truncate_chars(&error, 60);
        labelled("ERROR: ", &cut)
    } else {
        let output = text_or_empty(&f.output);
        truncate_chars(&output, MAX_RUN_OUTPUT_CHARS)
    }
}

/// The row of one run, or `None` where it cannot be cut; the duration is
/// read with `seconds`.
fn run_row_of<F: Fn(&str) -> Option<i64>>(f: &RunFields, seconds: &F) -> (r: (Option<Vec<char>>, Ghost<Seq<char>>))
    requires
        forall|x: &str| call_requires(*seconds, (x,)),
    ensures
        r.0 is Some <==> run_cuttable(f@),
        r.0 matches Some(row) ==> row@ == run_row(f@, r.1@) && is_duration_of(*seconds,
            or_empty(f@.started_at), or_empty(f@.completed_at), r.1@),
{
    let id = text_or_empty(&f.id);
    let short_id = match byte_prefix_of(&id, 8) {
        Some(s) => s,
        None => return (None, Ghost(Seq::empty())),
    };
    let started = text_or_empty(&f.started_at);
    let started_str = string_of(&started);
    let start = match started_column(started_str.as_str()) {
        Some(s) => s,
        None => return (None, Ghost(Seq::empty())),
    };
    let status = text_or_empty(&f.status);
    let completed = text_or_empty(&f.completed_at);
    let completed_str = string_of(&completed);
    let duration = compute_duration(started_str.as_str(), completed_str.as_str(), seconds);
    let duration_chars = chars_of(duration.as_str());
    let mut row: Vec<char> = Vec::new();
    push_field(&mut row, &short_id, 8);
    push_cell(&mut row, &status, 10, 10);
    push_field(&mut row, &start, 16);
    push_field(&mut row, &duration_chars, 8);
    let summary = run_summary_of(f);
    push_chars(&mut row, &summary);
    assert(row@ =~= run_row(f@, duration@));
    (Some(row), Ghost(duration@))
}

/// The run table for the shown runs of a list of `total`, as
/// [`runs_table_view`] says, for durations that `compute_duration` may give
/// with `seconds`; `None` exactly when a run cannot be cut.
pub fn runs_table<F: Fn(&str) -> Option<i64>>(items: &[RunFields], total: usize, seconds: &F) -> (r: Option<String>)
    requires
        items.len() == shown(total as nat),
        forall|x: &str| call_requires(*seconds, (x,)),
    ensures
        r is Some <==> runs_cuttable(run_views(items@)),
        r matches Some(s) ==> exists|durations: Seq<Seq<char>>| durations_of(*seconds, run_views(items@), durations)
            && s@ == #[trigger] runs_table_view(run_views(items@), total as nat, durations),
{
    let ghost v = run_views(items@);
    if total == 0 {
        let none = crate::plan::owned("No runs found.");
        assert(durations_of(*seconds, v, Seq::empty()));
        assert(none@ == runs_table_view(v, total as nat, Seq::empty()));
        return Some(none);
    }
    let mut lines: Vec<Vec<char>> = Vec::new();
    lines.push(runs_header_line());
    let mut rule: Vec<char> = Vec::new();
    push_repeated(&mut rule, '-', 90);
    lines.push(rule);
    let ghost head = seq![runs_header(), repeated('-', 90)];
    assert(views(lines@) =~= head);
    let ghost mut durations: Seq<Seq<char>> = Seq::empty();
    let mut i: usize = 0;
    while i < items.len()
        invariant
            i <= items.len(),
            v == run_views(items@),
            forall|x: &str| call_requires(*seconds, (x,)),
            durations.len() == i,
            forall|k: int| 0 <= k < i ==> #[trigger] run_cuttable(v[k]),
            forall|k: int| 0 <= k < i ==> is_duration_of(*seconds, or_empty(v[k].started_at),
                or_empty(v[k].completed_at), #[trigger] durations[k]),
            views(lines@) == head + Seq::new(i as nat, |k: int| run_row(v[k], durations[k])),
        decreases items.len() - i,
    {
        assert(items@[i as int]@ == v[i as int]);
        let (row, duration) = run_row_of(&items[i], seconds);
        let row = match row {
            Some(row) => row,
            None => {
                assert(!run_cuttable(v[i as int]));
                return None;
            },
        };
        let ghost prev_durations = durations;
        proof {
            durations = durations.push(duration@);
        }
        add_line(&mut lines, row);
        i += 1;
        assert(forall|k: int| 0 <= k < i - 1 ==> durations[k] == prev_durations[k]);
        assert(views(lines@) =~= head + Seq::new(i as nat, |k: int| run_row(v[k], durations[k])));
    }
    let ghost body = head + Seq::new(v.len(), |k: int| run_row(v[k], durations[k]));
    assert(views(lines@) =~= body);
    if total > MAX_ITEMS {
        let more = more_line_of(total, " more runs");
        add_line(&mut lines, more);
        assert(views(lines@) =~= body + more_line(total as nat, " more runs"@));
    } else {
        assert(views(lines@) =~= body + more_line(total as nat, " more runs"@));
    }
    assert(durations_of(*seconds, v, durations));
    let text = join(&lines, "\n");
    let out = string_of(&text);
    assert(out@ == runs_table_view(v, total as nat, durations));
    Some(out)
}

} // verus!
