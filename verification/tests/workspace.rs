use multica_filter::workspace::filter_workspace_list;

const WORKSPACE_LIST_RAW: &str = "ID                                    NAME           WATCHING\ndddddddd-0001-4000-8000-000000000001  My Workspace   *\n";

fn count_tokens(s: &str) -> usize {
    s.split_whitespace().count()
}

#[test]
fn test_workspace_list_savings() {
    let input = WORKSPACE_LIST_RAW;
    let output = filter_workspace_list(input);
    let pct = 100.0 - (count_tokens(&output) as f64 / count_tokens(input) as f64 * 100.0);
    assert!(
        pct >= 5.0,
        "workspace list: expected ≥5% savings (UUID stripped), got {:.1}%",
        pct
    );
}

#[test]
fn test_workspace_list_strips_uuid() {
    let input = WORKSPACE_LIST_RAW;
    let output = filter_workspace_list(input);
    assert!(
        !output.contains("dddddddd-0001"),
        "UUID should be stripped from output"
    );
}

#[test]
fn test_workspace_list_has_name() {
    let input = WORKSPACE_LIST_RAW;
    let output = filter_workspace_list(input);
    assert!(output.contains("My Workspace"), "should contain workspace name");
}

#[test]
fn test_workspace_list_empty() {
    let out = filter_workspace_list("");
    assert_eq!(out, "No workspaces found.");
}

#[test]
fn test_workspace_list_watching_indicator() {
    let input = WORKSPACE_LIST_RAW;
    let output = filter_workspace_list(input);
    assert!(output.contains('*'), "should preserve watching indicator");
}

#[test]
fn workspace_list_exact_table() {
    let output = filter_workspace_list(WORKSPACE_LIST_RAW);
    assert_eq!(
        output,
        "NAME                  WATCHING\n------------------------------\nMy Workspace          *"
    );
}

#[test]
fn workspace_list_second_header_is_a_row() {
    let raw = "ID  NAME  WATCHING\nID  Other\n";
    assert_eq!(
        filter_workspace_list(raw),
        "NAME                  WATCHING\n------------------------------\nOther                 "
    );
}

#[test]
fn workspace_list_skips_blank_and_single_column_lines() {
    let raw = "\n   \nabc\nu-1  Team A\r\nu-2  Team B    \n";
    assert_eq!(
        filter_workspace_list(raw),
        "Team A                \nTeam B                "
    );
}

#[test]
fn workspace_list_keeps_long_names() {
    let raw = "u-1  A very long workspace name here  *";
    assert_eq!(filter_workspace_list(raw), "A very long workspace name here  *");
}

#[test]
fn workspace_list_only_blank_lines() {
    assert_eq!(filter_workspace_list("\n\n  \n"), "No workspaces found.");
}

#[test]
fn workspace_list_wide_columns() {
    let raw = "ID    NAME    WATCHING\nuuid-1    Team A    *";
    assert_eq!(
        filter_workspace_list(raw),
        format!("{:<20}  {}\n{}\n{:<20}  {}", "NAME", "WATCHING", "-".repeat(30), "Team A", "*")
    );
}
