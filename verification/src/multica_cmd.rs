//! `multica <subcommand>`: the top-level routing to the issue and workspace
//! surfaces; any other subcommand passes through unchanged.

use vstd::prelude::*;
use crate::issue::{
    filter_issue_get, filter_issue_list, issue_get_view, issue_invocation, issue_list_view,
    issue_runs_view, run_durations, runs_printable, try_filter_issue_runs,
};
use crate::plan::{passthrough, passthrough_view, texts, Filter, Invocation, InvocationView};
use crate::text::{chars_of, str_equal};
use crate::workspace::{filter_workspace_list, workspace_invocation, workspace_list_view};

verus! {

/// The invocation for `multica <subcommand> <args...>`.
pub open spec fn multica_invocation(subcommand: Seq<char>, args: Seq<Seq<char>>, verbose: u8) -> InvocationView {
    if subcommand == "issue"@ {
        issue_invocation(args, verbose)
    } else if subcommand == "workspace"@ {
        workspace_invocation(args, verbose)
    } else {
        passthrough_view(subcommand, args, "rtk multica: passthrough for subcommand '"@, verbose, subcommand,
            "multica"@)
    }
}

/// Entry point of `multica <subcommand> [args...]`: what to run and how to
/// show it, as [`multica_invocation`] says.
pub fn run(subcommand: &str, args: &[String], verbose: u8) -> (r: Invocation)
    ensures
        r@ == multica_invocation(subcommand@, texts(args@), verbose),
{
    if str_equal(subcommand, "issue") {
        crate::issue::run(args, verbose)
    } else if str_equal(subcommand, "workspace") {
        crate::workspace::run(args, verbose)
    } else {
        let sub = chars_of(subcommand);
        passthrough(subcommand, args, "rtk multica: passthrough for subcommand '", &sub, verbose, "multica")
    }
}

} // verus!

verus! {

/// What `render_output` may give for `filter` on `stdout`: the filter's
/// rendering, with durations that the seconds parser `f` may yield.
pub open spec fn is_rendering<F: Fn(&str) -> Option<i64>>(f: F, filter: Filter, stdout: Seq<char>, out: Seq<char>) -> bool {
    match filter {
        Filter::IssueList => out == issue_list_view(stdout),
        Filter::IssueGet => out == issue_get_view(stdout),
        Filter::IssueRuns => exists|durations: Seq<Seq<char>>| run_durations(f, stdout, durations)
            && out == #[trigger] issue_runs_view(stdout, durations),
        Filter::WorkspaceList => out == workspace_list_view(stdout),
    }
}

/// The output of a successful filtered command rendered by its filter;
/// `None` only for a run table with a run that cannot be cut.
pub fn render_output<F: Fn(&str) -> Option<i64>>(filter: Filter, stdout: &str, seconds: &F) -> (r: Option<String>)
    requires
        forall|x: &str| call_requires(*seconds, (x,)),
    ensures
        r is None <==> (filter == Filter::IssueRuns && !runs_printable(stdout@)),
        r matches Some(s) ==> is_rendering(*seconds, filter, stdout@, s@),
{
    match filter {
        Filter::IssueList => Some(filter_issue_list(stdout)),
        Filter::IssueGet => Some(filter_issue_get(stdout)),
        Filter::IssueRuns => try_filter_issue_runs(stdout, seconds),
        Filter::WorkspaceList => Some(filter_workspace_list(stdout)),
    }
}

} // verus!
