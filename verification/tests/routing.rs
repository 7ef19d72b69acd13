use multica_filter::multica_cmd::{render_output, run};
use multica_filter::plan::{Filter, Mode};

fn strings(v: &[&str]) -> Vec<String> {
    v.iter().map(|s| s.to_string()).collect()
}

fn seconds(s: &str) -> Option<i64> {
    s.parse::<f64>().ok().map(|v| v as i64)
}

#[test]
fn issue_list_asks_for_json() {
    let inv = run("issue", &strings(&["list"]), 0);
    assert_eq!(inv.args, strings(&["issue", "list", "--output", "json"]));
    assert_eq!(inv.command_label, "multica issue list");
    assert_eq!(inv.rtk_label, "rtk multica issue list");
    assert_eq!(inv.notice, None);
    assert_eq!(inv.program, "multica");
    assert!(matches!(inv.mode, Mode::Filtered(Filter::IssueList, ref slug) if slug == "multica_issue_list"));
}

#[test]
fn issue_json_flag_is_not_repeated() {
    let inv = run("issue", &strings(&["list", "--output", "json", "--limit", "5"]), 0);
    assert_eq!(inv.args, strings(&["issue", "list", "--output", "json", "--limit", "5"]));
    let inv = run("issue", &strings(&["get", "DEMO-1", "--output=json"]), 0);
    assert_eq!(inv.args, strings(&["issue", "get", "DEMO-1", "--output=json"]));
    assert!(matches!(inv.mode, Mode::Filtered(Filter::IssueGet, ref slug) if slug == "multica_issue_get"));
    let inv = run("issue", &strings(&["runs", "--output", "table"]), 0);
    assert_eq!(inv.args, strings(&["issue", "runs", "--output", "table", "--output", "json"]));
    assert!(matches!(inv.mode, Mode::Filtered(Filter::IssueRuns, ref slug) if slug == "multica_issue_runs"));
}

#[test]
fn issue_verbose_notice() {
    let inv = run("issue", &strings(&["list", "--limit", "5"]), 1);
    assert_eq!(inv.notice.as_deref(), Some("rtk multica issue: running multica issue list --limit 5"));
}

#[test]
fn issue_other_verbs_pass_through() {
    let inv = run("issue", &strings(&["create", "--title", "x"]), 2);
    assert_eq!(inv.args, strings(&["issue", "create", "--title", "x"]));
    assert_eq!(inv.command_label, "multica issue create --title x");
    assert_eq!(inv.rtk_label, "rtk multica issue create --title x (passthrough)");
    assert_eq!(inv.notice.as_deref(), Some("rtk multica issue: passthrough for 'create --title x'"));
    assert_eq!(inv.program, "multica issue");
    assert!(matches!(inv.mode, Mode::Passthrough));
}

#[test]
fn issue_without_verb_passes_through() {
    let inv = run("issue", &[], 0);
    assert_eq!(inv.args, strings(&["issue"]));
    assert_eq!(inv.command_label, "multica issue ");
    assert!(matches!(inv.mode, Mode::Passthrough));
}

#[test]
fn workspace_list_is_filtered_without_json() {
    let inv = run("workspace", &strings(&["list", "--all"]), 1);
    assert_eq!(inv.args, strings(&["workspace", "list", "--all"]));
    assert_eq!(inv.command_label, "multica workspace list");
    assert_eq!(inv.rtk_label, "rtk multica workspace list");
    assert_eq!(inv.notice.as_deref(), Some("rtk multica workspace: running multica workspace list"));
    assert_eq!(inv.program, "multica workspace list");
    assert!(matches!(inv.mode, Mode::Filtered(Filter::WorkspaceList, ref slug) if slug == "multica_workspace_list"));
}

#[test]
fn workspace_other_verbs_pass_through() {
    let inv = run("workspace", &strings(&["members", "W1"]), 1);
    assert_eq!(inv.args, strings(&["workspace", "members", "W1"]));
    assert_eq!(inv.notice.as_deref(), Some("rtk multica workspace: passthrough for 'members W1'"));
    assert_eq!(inv.program, "multica workspace");
    assert!(matches!(inv.mode, Mode::Passthrough));
}

#[test]
fn unknown_subcommand_passes_through() {
    let inv = run("daemon", &strings(&["status"]), 1);
    assert_eq!(inv.args, strings(&["daemon", "status"]));
    assert_eq!(inv.command_label, "multica daemon status");
    assert_eq!(inv.rtk_label, "rtk multica daemon status (passthrough)");
    assert_eq!(inv.notice.as_deref(), Some("rtk multica: passthrough for subcommand 'daemon'"));
    assert_eq!(inv.program, "multica");
    assert!(matches!(inv.mode, Mode::Passthrough));
}

#[test]
fn verbosity_changes_only_the_notice() {
    for sub in ["issue", "workspace", "auth"] {
        let quiet = run(sub, &strings(&["list", "-x"]), 0);
        let loud = run(sub, &strings(&["list", "-x"]), 3);
        assert_eq!(quiet.args, loud.args);
        assert_eq!(quiet.command_label, loud.command_label);
        assert_eq!(quiet.rtk_label, loud.rtk_label);
        assert!(quiet.notice.is_none() && loud.notice.is_some());
    }
}

#[test]
fn render_dispatches_to_the_filters() {
    assert_eq!(render_output(Filter::IssueList, "[]", &seconds).as_deref(), Some("No issues found."));
    assert_eq!(render_output(Filter::IssueRuns, "[]", &seconds).as_deref(), Some("No runs found."));
    assert_eq!(render_output(Filter::IssueGet, "oops", &seconds).as_deref(), Some("oops"));
    assert_eq!(render_output(Filter::WorkspaceList, "", &seconds).as_deref(), Some("No workspaces found."));
    assert_eq!(render_output(Filter::IssueRuns, "[{\"id\": \"aéééé\"}]", &seconds), None);
}
