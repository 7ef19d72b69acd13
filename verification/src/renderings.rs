//! What the filtered outputs hold, stated over the fields read from the
//! JSON document and the lines of the output: the first lines of an issue
//! summary, the status column of the issue table and the summary column of
//! the run table.

use vstd::prelude::*;
use crate::issue::{issue_get_view, issue_list_view, issue_runs_view, shown_issues, shown_runs};
use crate::json::{json_array_len, json_parses, json_string, JsonAt};
use crate::multica_cmd::is_rendering;
use crate::plan::Filter;
use crate::tables::{or_empty, shown};
use crate::text::{joined, padded, truncated};

verus! {

/// The string under `key` of the value at `at`, or nothing.
pub open spec fn text_at(at: JsonAt, key: Seq<char>) -> Seq<char> {
    or_empty(json_string(at.field(key)))
}

/// Whether `s` ends with `t`.
pub open spec fn ends_with(s: Seq<char>, t: Seq<char>) -> bool {
    s.len() >= t.len() && s.subrange(s.len() - t.len(), s.len() as int) == t
}

/// The first line of an issue summary: `IDENTIFIER [STATUS] Title`, with
/// `?` for a missing or empty identifier.
pub open spec fn summary_head(raw: Seq<char>) -> Seq<char> {
    let root = JsonAt::root(raw);
    let id = text_at(root, "identifier"@);
    (if id.len() == 0 { "?"@ } else { id }) + " ["@ + text_at(root, "status"@) + "] "@ + text_at(root, "title"@)
}


/// The characters of an issue's status as the table's STATUS column shows
/// them before cutting: `active` for `in_progress`, `review` for
/// `in_review`, and the status itself for every other status.
pub open spec fn listed_status(s: Seq<char>) -> Seq<char> {
    if s == "in_progress"@ {
        "active"@
    } else if s == "in_review"@ {
        "review"@
    } else {
        s
    }
}

/// A column cut and padded to `w` (at least three) characters is exactly
/// `w` characters wide.
proof fn lemma_cell_width(s: Seq<char>, w: nat)
    requires
        w >= 3,
    ensures
        padded(truncated(s, w), w).len() == w,
{
}

/// An issue summary: the output of `multica issue get` that parses is a
/// list of lines whose first is `IDENTIFIER [STATUS] Title`; the second is
/// `Priority: p` when the issue has a priority `p` other than `none`; and
/// an issue with a non-empty assignee type `a` (whatever it is) has the
/// line `Assigned to: a`.
pub proof fn law_issue_summary_lines(raw: Seq<char>)
    requires
        json_parses(raw),
    ensures
        exists|ls: Seq<Seq<char>>| #![trigger joined(ls, "\n"@)]
            issue_get_view(raw) == joined(ls, "\n"@)
            && ls.len() >= 1
            && ls[0] == summary_head(raw)
            && ({
                let p = text_at(JsonAt::root(raw), "priority"@);
                p.len() > 0 && p != "none"@ ==> ls.len() >= 2 && ls[1] == "Priority: "@ + p
            })
            && ({
                let a = text_at(JsonAt::root(raw), "assignee_type"@);
                a.len() > 0 ==> ls.contains("Assigned to: "@ + a)
            }),
{
    let root = JsonAt::root(raw);
    let f = crate::issue::issue_detail_fields_at(root);
    let ls = crate::tables::issue_detail_lines(f);
    let p = text_at(root, "priority"@);
    let a = text_at(root, "assignee_type"@);
    let pl: Seq<Seq<char>> = crate::tables::line_if(p != "none"@ && p.len() > 0, "Priority: "@ + p);
    assert(crate::json::string_or(f.priority, "none"@).len() > 0 && crate::json::string_or(f.priority, "none"@) != "none"@
        ==> crate::json::string_or(f.priority, "none"@) == p);
    if p.len() > 0 && p != "none"@ {
        assert(ls[1] == "Priority: "@ + p);
    }
    if a.len() > 0 {
        let k: int = 1 + pl.len() as int;
        assert(ls[k] == "Assigned to: "@ + a);
    }
    assert(issue_get_view(raw) == joined(ls, "\n"@));
}

/// A rendering of `multica issue get` output that parses is its summary,
/// whose first line is `IDENTIFIER [STATUS] Title`, not the text as it came.
pub proof fn law_issue_get_renders_a_summary<F: Fn(&str) -> Option<i64>>(f: F, raw: Seq<char>, out: Seq<char>)
    requires
        is_rendering(f, Filter::IssueGet, raw, out),
        json_parses(raw),
    ensures
        exists|ls: Seq<Seq<char>>| #![trigger joined(ls, "\n"@)]
            out == joined(ls, "\n"@) && ls.len() >= 1 && ls[0] == summary_head(raw),
{
    law_issue_summary_lines(raw);
}

/// The issue table of a JSON array of `n > 0` issues is a list of lines
/// whose row for the `i`-th shown issue has, in its characters 12 to 24,
/// the issue's status cut and padded to 12: `active` for `in_progress`,
/// `review` for `in_review`, and the status itself for any other status.
pub proof fn law_issue_table_status_column(raw: Seq<char>, n: nat)
    requires
        json_parses(raw),
        json_array_len(JsonAt::root(raw)) == Some(n),
        n > 0,
    ensures
        exists|ls: Seq<Seq<char>>| #![trigger joined(ls, "\n"@)]
            issue_list_view(raw) == joined(ls, "\n"@)
            && ls.len() >= shown(n) + 2
            && forall|i: int| #![trigger JsonAt::root(raw).item(i)] 0 <= i < shown(n) ==> {
                let s = text_at(JsonAt::root(raw).item(i), "status"@);
                let row = ls[i + 2];
                &&& row.len() >= 24
                &&& s == "in_progress"@ ==> row.subrange(12, 24) == padded("active"@, 12)
                &&& s == "in_review"@ ==> row.subrange(12, 24) == padded("review"@, 12)
                &&& s != "in_progress"@ && s != "in_review"@ ==> row.subrange(12, 24) == padded(truncated(s, 12), 12)
            },
{
    let items = shown_issues(raw, n);
    let rows = Seq::new(items.len(), |i: int| crate::tables::issue_row(items[i]));
    let ls = seq![crate::tables::issue_list_header(), crate::text::repeated('-', 90)] + rows
        + crate::tables::more_line(n, " more issues"@);
    assert(issue_list_view(raw) == joined(ls, "\n"@));
    assert forall|i: int| #![trigger JsonAt::root(raw).item(i)] 0 <= i < shown(n) implies {
        let s = text_at(JsonAt::root(raw).item(i), "status"@);
        let row = ls[i + 2];
        &&& row.len() >= 24
        &&& s == "in_progress"@ ==> row.subrange(12, 24) == padded("active"@, 12)
        &&& s == "in_review"@ ==> row.subrange(12, 24) == padded("review"@, 12)
        &&& s != "in_progress"@ && s != "in_review"@ ==> row.subrange(12, 24) == padded(truncated(s, 12), 12)
    } by {
        reveal_strlit("in_progress");
        reveal_strlit("in_review");
        let fi = items[i];
        let s = text_at(JsonAt::root(raw).item(i), "status"@);
        assert(or_empty(fi.status) == s);
        let a = padded(truncated(or_empty(fi.identifier), 10), 10) + crate::tables::gap();
        let c = padded(truncated(crate::tables::status_short(s), 12), 12);
        lemma_cell_width(or_empty(fi.identifier), 10);
        lemma_cell_width(crate::tables::status_short(s), 12);
        assert(a.len() == 12);
        let rest = crate::tables::gap()
            + padded(truncated(crate::tables::priority_short(crate::json::string_or(fi.priority, "none"@)), 7), 7)
            + crate::tables::gap()
            + padded(crate::tables::agent_flag(crate::json::string_or(fi.assignee_type, "-"@)), 6)
            + crate::tables::gap() + truncated(or_empty(fi.title), 60);
        assert(ls[i + 2] == rows[i]);
        assert(rows[i] =~= a + c + rest);
        assert((a + c + rest).subrange(12, 24) =~= c);
        if s == "in_progress"@ {
            assert(crate::tables::status_short(s) == "active"@);
            reveal_strlit("active");
            assert(truncated("active"@, 12) == "active"@);
            assert(ls[i + 2].subrange(12, 24) == padded("active"@, 12));
        } else if s == "in_review"@ {
            assert(crate::tables::status_short(s) == "review"@);
            reveal_strlit("review");
            assert(truncated("review"@, 12) == "review"@);
            assert(ls[i + 2].subrange(12, 24) == padded("review"@, 12));
        } else {
            assert(crate::tables::status_short(s) == s);
            assert(ls[i + 2].subrange(12, 24) == padded(truncated(s, 12), 12));
        }
        assert(ls[i + 2].len() >= 24);
        assert(ls[i + 2].subrange(12, 24) == c);
    }
}

/// The run table of a JSON array of `n > 0` runs is a list of lines whose
/// row for the `i`-th shown run ends with the run's summary: `ERROR: ` and
/// its error (cut to 57 characters and `...` when longer than 60) when it
/// has one; else its result output, whole up to 300 characters and cut to
/// 297 and `...` when longer.
pub proof fn law_run_table_summary_column(raw: Seq<char>, n: nat, durations: Seq<Seq<char>>)
    requires
        json_parses(raw),
        json_array_len(JsonAt::root(raw)) == Some(n),
        n > 0,
    ensures
        exists|ls: Seq<Seq<char>>| #![trigger joined(ls, "\n"@)]
            issue_runs_view(raw, durations) == joined(ls, "\n"@)
            && ls.len() >= shown(n) + 2
            && forall|i: int| #![trigger JsonAt::root(raw).item(i)] 0 <= i < shown(n) ==> {
                let e = text_at(JsonAt::root(raw).item(i), "error"@);
                let o = text_at(JsonAt::root(raw).item(i).field("result"@), "output"@);
                let row = ls[i + 2];
                &&& 0 < e.len() <= 60 ==> ends_with(row, "ERROR: "@ + e)
                &&& e.len() > 60 ==> ends_with(row, "ERROR: "@ + e.take(57) + seq!['.', '.', '.'])
                &&& e.len() == 0 && o.len() <= 300 ==> ends_with(row, o)
                &&& e.len() == 0 && o.len() > 300 ==> ends_with(row, o.take(297) + seq!['.', '.', '.'])
            },
{
    let items = shown_runs(raw, n);
    let rows = Seq::new(items.len(), |i: int| crate::tables::run_row(items[i], durations[i]));
    let ls = seq![crate::tables::runs_header(), crate::text::repeated('-', 90)] + rows
        + crate::tables::more_line(n, " more runs"@);
    assert(issue_runs_view(raw, durations) == joined(ls, "\n"@));
    assert forall|i: int| #![trigger JsonAt::root(raw).item(i)] 0 <= i < shown(n) implies {
        let e = text_at(JsonAt::root(raw).item(i), "error"@);
        let o = text_at(JsonAt::root(raw).item(i).field("result"@), "output"@);
        let row = ls[i + 2];
        &&& 0 < e.len() <= 60 ==> ends_with(row, "ERROR: "@ + e)
        &&& e.len() > 60 ==> ends_with(row, "ERROR: "@ + e.take(57) + seq!['.', '.', '.'])
        &&& e.len() == 0 && o.len() <= 300 ==> ends_with(row, o)
        &&& e.len() == 0 && o.len() > 300 ==> ends_with(row, o.take(297) + seq!['.', '.', '.'])
    } by {
        let fi = items[i];
        let sum = crate::tables::run_summary(fi);
        let front = padded(crate::tables::run_short_id(fi).unwrap(), 8) + crate::tables::gap()
            + padded(truncated(or_empty(fi.status), 10), 10) + crate::tables::gap()
            + padded(crate::tables::run_start(fi).unwrap(), 16) + crate::tables::gap()
            + padded(durations[i], 8) + crate::tables::gap();
        assert(ls[i + 2] == rows[i]);
        assert(rows[i] =~= front + sum);
        let row = front + sum;
        assert(row.subrange(row.len() - sum.len(), row.len() as int) =~= sum);
        assert(ends_with(ls[i + 2], sum));
        let e = text_at(JsonAt::root(raw).item(i), "error"@);
        let o = text_at(JsonAt::root(raw).item(i).field("result"@), "output"@);
        assert(or_empty(fi.error) == e);
        assert(or_empty(fi.output) == o);
        if e.len() > 60 {
            assert(truncated(e, 60) == e.take(57) + seq!['.', '.', '.']);
            assert(sum == "ERROR: "@ + e.take(57) + seq!['.', '.', '.']);
        } else if e.len() > 0 {
            assert(sum == "ERROR: "@ + e);
        } else if o.len() > 300 {
            assert(sum == o.take(297) + seq!['.', '.', '.']);
        } else {
            assert(sum == o);
        }
    }
}

} // verus!
