//! `multica workspace`: the table that `workspace list` prints, without its
//! ID column, and the routing of the other verbs.

use vstd::prelude::*;
use crate::plan::{
    filtered, filtered_view, join_words, passthrough, passthrough_view, strings_from, texts,
    Filter, Invocation, InvocationView,
};
use crate::text::{
    chars_of, join, joined, lines_of, padded, push_padded, push_repeated, push_str, repeated,
    slice_chars, split_lines, str_equal, string_of, trim, trim_chars, views,
};

verus! {

/// The first position of two spaces in a row in `s`.
pub open spec fn gap_index(s: Seq<char>) -> Option<int>
    decreases s.len(),
{
    if s.len() < 2 {
        None
    } else if s[0] == ' ' && s[1] == ' ' {
        Some(0)
    } else {
        match gap_index(s.drop_first()) {
            Some(i) => Some(i + 1),
            None => None,
        }
    }
}

/// A position `gap_index` finds starts two spaces inside `s`.
pub proof fn lemma_gap_index_bounds(s: Seq<char>)
    ensures
        gap_index(s) matches Some(i) ==> 0 <= i && i + 2 <= s.len() && s[i] == ' ' && s[i + 1] == ' ',
    decreases s.len(),
{
    if s.len() >= 2 {
        lemma_gap_index_bounds(s.drop_first());
    }
}

/// `s` without the spaces at its start.
pub open spec fn skip_spaces(s: Seq<char>) -> Seq<char>
    decreases s.len(),
{
    if s.len() > 0 && s[0] == ' ' {
        skip_spaces(s.drop_first())
    } else {
        s
    }
}

/// `s` split into at most three columns at runs of two or more spaces,
/// each column trimmed.
pub open spec fn columns(s: Seq<char>) -> Seq<Seq<char>> {
    match gap_index(s) {
        None => seq![trim(s)],
        Some(i) => {
            let rest = skip_spaces(s.skip(i));
            match gap_index(rest) {
                None => seq![trim(s.take(i)), trim(rest)],
                Some(j) => seq![trim(s.take(i)), trim(rest.take(j)), trim(skip_spaces(rest.skip(j)))],
            }
        },
    }
}

/// The header of the filtered table.
pub open spec fn workspace_header() -> Seq<char> {
    padded("NAME"@, 20) + seq![' ', ' '] + "WATCHING"@
}

/// The filtered row of a raw table line: the second column (the name)
/// padded to 20, two spaces, and the third column (the watching mark).
pub open spec fn workspace_row(line: Seq<char>) -> Seq<char> {
    let cols = columns(line);
    let watching = if cols.len() >= 3 { trim(cols[2]) } else { Seq::empty() };
    padded(cols[1], 20) + seq![' ', ' '] + watching
}

/// The lines of the filtered table after one more raw line, from whether
/// the raw header was seen and the lines so far.
pub open spec fn workspace_step(state: (bool, Seq<Seq<char>>), line: Seq<char>) -> (bool, Seq<Seq<char>>) {
    let (header_seen, out) = state;
    let trimmed = trim(line);
    if trimmed.len() == 0 {
        state
    } else if trimmed.len() >= 2 && trimmed[0] == 'I' && trimmed[1] == 'D' && !header_seen {
        (true, out + seq![workspace_header(), repeated('-', 30)])
    } else {
        let cols = columns(line);
        if cols.len() >= 2 && cols[1].len() > 0 {
            (header_seen, out.push(workspace_row(line)))
        } else {
            state
        }
    }
}

/// The state after the given raw lines.
pub open spec fn workspace_fold(lines: Seq<Seq<char>>) -> (bool, Seq<Seq<char>>)
    decreases lines.len(),
{
    if lines.len() == 0 {
        (false, Seq::empty())
    } else {
        workspace_step(workspace_fold(lines.drop_last()), lines.last())
    }
}

/// The filtered `workspace list` table for the raw table `raw`: the header
/// replaced by `NAME  WATCHING` and a rule, each row by its name (padded to
/// 20) and its watching mark, the first column dropped; blank lines and
/// rows without a name dropped; `No workspaces found.` when nothing is left.
pub open spec fn workspace_list_view(raw: Seq<char>) -> Seq<char> {
    let out = workspace_fold(lines_of(raw)).1;
    if out.len() == 0 {
        "No workspaces found."@
    } else {
        joined(out, "\n"@)
    }
}

/// The first position of two spaces in a row at or after `from`.
fn find_gap(s: &Vec<char>, from: usize) -> (r: Option<usize>)
    requires
        from <= s.len(),
    ensures
        match r {
            Some(i) => from <= i && i + 2 <= s.len() && gap_index(s@.skip(from as int)) == Some(i - from),
            None => gap_index(s@.skip(from as int)) is None,
        },
{
    let mut i: usize = from;
    while s.len() - i >= 2
        invariant
            from <= i <= s.len(),
            forall|t: int| #![trigger gap_index(s@.skip(t))]
                from <= t <= i ==> gap_index(s@.skip(from as int)) == (match gap_index(s@.skip(t)) {
                    Some(k) => Some(k + (t - from)),
                    None => None::<int>,
                }),
        decreases s.len() - i,
    {
        let ghost here = s@.skip(i as int);
        assert(here.drop_first() =~= s@.skip(i + 1));
        if s[i] == ' ' && s[i + 1] == ' ' {
            assert(gap_index(here) == Some(0int));
            return Some(i);
        }
        assert(gap_index(s@.skip(i + 1)) == (match gap_index(here) {
            Some(k) => Some(k - 1),
            None => None::<int>,
        })) by {
            lemma_gap_index_bounds(here);
        }
        i += 1;
    }
    assert(gap_index(s@.skip(i as int)) is None);
    None
}

/// The first position at or after `from` that holds no space.
fn skip_spaces_from(s: &Vec<char>, from: usize) -> (r: usize)
    requires
        from <= s.len(),
    ensures
        from <= r <= s.len(),
        s@.skip(r as int) == skip_spaces(s@.skip(from as int)),
{
    let mut k: usize = from;
    while k < s.len() && s[k] == ' '
        invariant
            from <= k <= s.len(),
            skip_spaces(s@.skip(k as int)) == skip_spaces(s@.skip(from as int)),
        decreases s.len() - k,
    {
        assert(s@.skip(k as int).drop_first() =~= s@.skip(k + 1));
        k += 1;
    }
    proof {
        lemma_no_leading_space(s@.skip(k as int));
    }
    k
}

/// A sequence that does not start with a space is its own `skip_spaces`.
proof fn lemma_no_leading_space(s: Seq<char>)
    requires
        s.len() == 0 || s[0] != ' ',
    ensures
        skip_spaces(s) == s,
{
}

/// The trimmed columns of `line`, as [`columns`] says.
pub fn split_columns(line: &Vec<char>) -> (r: Vec<Vec<char>>)
    ensures
        views(r@) == columns(line@),
{
    let mut r: Vec<Vec<char>> = Vec::new();
    assert(line@.skip(0) =~= line@);
    match find_gap(line, 0) {
        None => {
            r.push(trim_chars(line));
            assert(views(r@) =~= columns(line@));
        },
        Some(i) => {
            proof { lemma_gap_index_bounds(line@); }
            let first = slice_chars(line, 0, i);
            assert(first@ =~= line@.take(i as int));
            r.push(trim_chars(&first));
            let k = skip_spaces_from(line, i);
            let ghost rest = line@.skip(k as int);
            match find_gap(line, k) {
                None => {
                    let second = slice_chars(line, k, line.len());
                    assert(second@ =~= rest);
                    r.push(trim_chars(&second));
                    assert(views(r@) =~= columns(line@));
                },
                Some(j) => {
                    proof { lemma_gap_index_bounds(rest); }
                    let second = slice_chars(line, k, j);
                    assert(second@ =~= rest.take(j - k));
                    r.push(trim_chars(&second));
                    let k2 = skip_spaces_from(line, j);
                    assert(line@.skip(j as int) =~= rest.skip(j - k));
                    let third = slice_chars(line, k2, line.len());
                    assert(third@ =~= line@.skip(k2 as int));
                    r.push(trim_chars(&third));
                    assert(views(r@) =~= columns(line@));
                },
            }
        },
    }
    r
}

/// Filters `multica workspace list` table output: the UUID column is
/// stripped, names and the watching mark stay.
pub fn filter_workspace_list(raw: &str) -> (r: String)
    ensures
        r@ == workspace_list_view(raw@),
{
    let raw_chars = chars_of(raw);
    let lines = split_lines(&raw_chars);
    let mut out: Vec<Vec<char>> = Vec::new();
    let mut header_seen = false;
    let mut i: usize = 0;
    while i < lines.len()
        invariant
            i <= lines.len(),
            views(lines@) == lines_of(raw@),
            workspace_fold(views(lines@).take(i as int)) == (header_seen, views(out@)),
        decreases lines.len() - i,
    {
        let ghost before = views(lines@).take(i as int);
        let ghost after = views(lines@).take(i + 1);
        assert(after.drop_last() =~= before);
        assert(after.last() == lines@[i as int]@);
        let line = &lines[i];
        let trimmed = trim_chars(line);
        if trimmed.len() == 0 {
        } else if trimmed.len() >= 2 && trimmed[0] == 'I' && trimmed[1] == 'D' && !header_seen {
            header_seen = true;
            let mut head: Vec<char> = Vec::new();
            let name = chars_of("NAME");
            push_padded(&mut head, &name, 20);
            head.push(' ');
            head.push(' ');
            push_str(&mut head, "WATCHING");
            assert(head@ =~= workspace_header());
            out.push(head);
            let mut rule: Vec<char> = Vec::new();
            push_repeated(&mut rule, '-', 30);
            assert(rule@ =~= repeated('-', 30));
            out.push(rule);
            assert(views(out@) =~= workspace_fold(before).1 + seq![workspace_header(), repeated('-', 30)]);
        } else {
            let cols = split_columns(line);
            assert(views(cols@) == columns(line@));
            if cols.len() >= 2 && cols[1].len() > 0 {
                let watching = if cols.len() >= 3 {
                    trim_chars(&cols[2])
                } else {
                    Vec::new()
                };
                let mut row: Vec<char> = Vec::new();
                push_padded(&mut row, &cols[1], 20);
                row.push(' ');
                row.push(' ');
                let ghost row_start = row@;
                let mut k: usize = 0;
                while k < watching.len()
                    invariant
                        k <= watching.len(),
                        row@ == row_start + watching@.take(k as int),
                    decreases watching.len() - k,
                {
                    row.push(watching[k]);
                    k += 1;
                    assert(row@ =~= row_start + watching@.take(k as int));
                }
                assert(watching@.take(watching.len() as int) =~= watching@);
                assert(row@ =~= padded(cols@[1]@, 20) + seq![' ', ' '] + watching@);
                assert(views(cols@)[1] == cols@[1]@);
                let ghost out_before = views(out@);
                out.push(row);
                assert(views(out@) =~= out_before.push(row@));
                assert(views(out@) =~= workspace_fold(before).1.push(
                    padded(views(cols@)[1], 20) + seq![' ', ' '] + watching@,
                ));
            }
        }
        i += 1;
    }
    assert(views(lines@).take(lines.len() as int) =~= views(lines@));
    if out.len() == 0 {
        let mut none: Vec<char> = Vec::new();
        push_str(&mut none, "No workspaces found.");
        return string_of(&none);
    }
    let text = join(&out, "\n");
    string_of(&text)
}

} // verus!

verus! {

/// The invocation for `multica workspace <args...>`: `list` runs as is and
/// is filtered; any other verb (or none) passes through unchanged.
pub open spec fn workspace_invocation(args: Seq<Seq<char>>, verbose: u8) -> InvocationView {
    if args.len() > 0 && args[0] == "list"@ {
        filtered_view("workspace"@, "list"@, args.drop_first(), false,
            "rtk multica workspace: running multica workspace list"@, Seq::empty(), verbose,
            Filter::WorkspaceList, "multica_workspace_list"@, "multica workspace list"@)
    } else {
        passthrough_view("workspace"@, args, "rtk multica workspace: passthrough for '"@, verbose, joined(args, " "@),
            "multica workspace"@)
    }
}

/// Entry point of `multica workspace <verb> [args...]`: what to run and how
/// to show it, as [`workspace_invocation`] says.
pub fn run(args: &[String], verbose: u8) -> (r: Invocation)
    ensures
        r@ == workspace_invocation(texts(args@), verbose),
{
    let ghost a = texts(args@);
    if args.len() > 0 {
        assert(a[0] == args@[0]@);
        if str_equal(args[0].as_str(), "list") {
            let rest = strings_from(args, 1);
            assert(texts(rest@) =~= a.drop_first());
            let none: Vec<char> = Vec::new();
            return filtered("workspace", "list", &rest, false,
                "rtk multica workspace: running multica workspace list", &none, verbose,
                Filter::WorkspaceList, "multica_workspace_list", "multica workspace list");
        }
    }
    let words = join_words(args);
    passthrough("workspace", args, "rtk multica workspace: passthrough for '", &words, verbose, "multica workspace")
}

} // verus!
