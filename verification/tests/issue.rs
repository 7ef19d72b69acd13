use multica_filter::text::truncate;
use multica_filter::issue::{filter_issue_get, filter_issue_list, filter_issue_runs, try_filter_issue_runs};

const ISSUE_LIST_RAW: &str = r#"[
  {
    "id": "cccccccc-0001-4000-8000-000000000000",
    "workspace_id": "aaaaaaaa-0001-4000-8000-000000000000",
    "number": 13,
    "identifier": "DEMO-13",
    "title": "Add rate limiting to the public API",
    "description": "See the linked design notes for details.",
    "status": "in_review",
    "priority": "high",
    "assignee_type": "agent",
    "assignee_id": "bbbbbbbb-0001-4000-8000-000000000000",
    "creator_type": "member",
    "creator_id": "bbbbbbbb-0009-4000-8000-000000000000",
    "parent_issue_id": null,
    "position": 0.0,
    "due_date": null,
    "created_at": "2026-04-10T09:00:00Z",
    "updated_at": "2026-04-14T10:00:00Z"
  },
  {
    "id": "cccccccc-0002-4000-8000-000000000000",
    "workspace_id": "aaaaaaaa-0001-4000-8000-000000000000",
    "number": 12,
    "identifier": "DEMO-12",
    "title": "Migrate billing jobs to the new queue",
    "description": "See the linked design notes for details.",
    "status": "in_progress",
    "priority": "urgent",
    "assignee_type": "member",
    "assignee_id": "bbbbbbbb-0002-4000-8000-000000000000",
    "creator_type": "member",
    "creator_id": "bbbbbbbb-0009-4000-8000-000000000000",
    "parent_issue_id": null,
    "position": 1.0,
    "due_date": null,
    "created_at": "2026-04-10T09:00:00Z",
    "updated_at": "2026-04-14T10:00:00Z"
  },
  {
    "id": "cccccccc-0003-4000-8000-000000000000",
    "workspace_id": "aaaaaaaa-0001-4000-8000-000000000000",
    "number": 11,
    "identifier": "DEMO-11",
    "title": "Document the webhook retry policy",
    "description": "See the linked design notes for details.",
    "status": "todo",
    "priority": "medium",
    "assignee_type": null,
    "assignee_id": null,
    "creator_type": "member",
    "creator_id": "bbbbbbbb-0009-4000-8000-000000000000",
    "parent_issue_id": null,
    "position": 2.0,
    "due_date": null,
    "created_at": "2026-04-10T09:00:00Z",
    "updated_at": "2026-04-14T10:00:00Z"
  },
  {
    "id": "cccccccc-0004-4000-8000-000000000000",
    "workspace_id": "aaaaaaaa-0001-4000-8000-000000000000",
    "number": 10,
    "identifier": "DEMO-10",
    "title": "Fix flaky login test on CI",
    "description": "See the linked design notes for details.",
    "status": "done",
    "priority": "low",
    "assignee_type": "agent",
    "assignee_id": "bbbbbbbb-0004-4000-8000-000000000000",
    "creator_type": "member",
    "creator_id": "bbbbbbbb-0009-4000-8000-000000000000",
    "parent_issue_id": null,
    "position": 3.0,
    "due_date": null,
    "created_at": "2026-04-10T09:00:00Z",
    "updated_at": "2026-04-14T10:00:00Z"
  },
  {
    "id": "cccccccc-0005-4000-8000-000000000000",
    "workspace_id": "aaaaaaaa-0001-4000-8000-000000000000",
    "number": 9,
    "identifier": "DEMO-9",
    "title": "Investigate slow dashboard queries",
    "description": "See the linked design notes for details.",
    "status": "backlog",
    "priority": "none",
    "assignee_type": "member",
    "assignee_id": "bbbbbbbb-0005-4000-8000-000000000000",
    "creator_type": "member",
    "creator_id": "bbbbbbbb-0009-4000-8000-000000000000",
    "parent_issue_id": null,
    "position": 4.0,
    "due_date": null,
    "created_at": "2026-04-10T09:00:00Z",
    "updated_at": "2026-04-14T10:00:00Z"
  }
]"#;

const ISSUE_GET_RAW: &str = r#"{
  "id": "cccccccc-0001-4000-8000-000000000000",
  "workspace_id": "aaaaaaaa-0001-4000-8000-000000000000",
  "number": 13,
  "identifier": "DEMO-13",
  "title": "Add rate limiting to the public API",
  "description": "Limit each token to 100 requests per minute.",
  "status": "in_review",
  "priority": "high",
  "assignee_type": "agent",
  "assignee_id": "bbbbbbbb-0001-4000-8000-000000000000",
  "creator_type": "member",
  "creator_id": "bbbbbbbb-0009-4000-8000-000000000000",
  "parent_issue_id": "cccccccc-0042-4000-8000-000000000000",
  "position": 0,
  "due_date": "2026-04-30T00:00:00Z",
  "created_at": "2026-04-10T09:00:00Z",
  "updated_at": "2026-04-14T10:00:00Z"
}"#;

const ISSUE_RUNS_RAW: &str = r#"[
  {
    "id": "eeeeeeee-0001-4000-8000-000000000000",
    "issue_id": "cccccccc-0001-4000-8000-000000000000",
    "agent_id": "ffffffff-0001-4000-8000-000000000000",
    "runtime_id": "99999999-0001-4000-8000-000000000000",
    "status": "completed",
    "priority": 0,
    "dispatched_at": "2026-04-14T09:59:58Z",
    "started_at": "2026-04-14T10:00:01Z",
    "completed_at": "2026-04-14T10:05:40Z",
    "result": {
      "output": "Implemented the limiter middleware and added tests.",
      "session_id": "sess-0001",
      "work_dir": "/tmp/work/run-0001"
    },
    "error": null,
    "created_at": "2026-04-14T09:59:58Z"
  }
]"#;

fn seconds(s: &str) -> Option<i64> {
    s.parse::<f64>().ok().map(|v| v as i64)
}

fn count_tokens(s: &str) -> usize {
    s.split_whitespace().count()
}

// ---- issue list ----

#[test]
fn test_issue_list_savings() {
    let input = ISSUE_LIST_RAW;
    let output = filter_issue_list(input);
    let pct = 100.0 - (count_tokens(&output) as f64 / count_tokens(input) as f64 * 100.0);
    assert!(pct >= 60.0, "issue list: expected ≥60% savings, got {:.1}%", pct);
}

#[test]
fn test_issue_list_empty_array() {
    assert_eq!(filter_issue_list("[]"), "No issues found.");
}

#[test]
fn test_issue_list_not_json() {
    let out = filter_issue_list("Error: unauthorized");
    assert_eq!(out, "Error: unauthorized");
}

#[test]
fn test_issue_list_has_header() {
    let output = filter_issue_list(ISSUE_LIST_RAW);
    assert!(output.contains("ID"), "should contain table header");
    assert!(output.contains("STATUS"), "should contain STATUS column");
    assert!(output.contains("TITLE"), "should contain TITLE column");
}

#[test]
fn test_issue_list_has_identifiers() {
    let output = filter_issue_list(ISSUE_LIST_RAW);
    assert!(output.contains("DEMO-13"), "should contain first issue identifier");
    assert!(output.contains("DEMO-9"), "should contain last issue identifier");
}

#[test]
fn test_issue_list_no_uuids() {
    let output = filter_issue_list(ISSUE_LIST_RAW);
    assert!(!output.contains("aaaaaaaa-0001"), "should not contain raw UUID");
    assert!(!output.contains("cccccccc-0001"), "should not contain raw UUID");
}

// ---- issue get ----

#[test]
fn test_issue_get_savings() {
    let input = ISSUE_GET_RAW;
    let output = filter_issue_get(input);
    let pct = 100.0 - (count_tokens(&output) as f64 / count_tokens(input) as f64 * 100.0);
    assert!(pct >= 25.0, "issue get: expected ≥25% savings, got {:.1}%", pct);
}

#[test]
fn test_issue_get_empty() {
    let _ = filter_issue_get("");
}

#[test]
fn test_issue_get_not_json() {
    let out = filter_issue_get("Error: issue not found");
    assert_eq!(out, "Error: issue not found");
}

#[test]
fn test_issue_get_has_key_fields() {
    let output = filter_issue_get(ISSUE_GET_RAW);
    assert!(output.contains("DEMO-13"), "should contain identifier");
    assert!(output.contains("in_review"), "should contain status");
    assert!(output.contains("high"), "should contain priority");
    assert!(output.contains("Description:"), "should contain description section");
}

#[test]
fn test_issue_get_no_uuids() {
    let output = filter_issue_get(ISSUE_GET_RAW);
    assert!(!output.contains("cccccccc-0001"), "should not contain raw UUID in output");
}

#[test]
fn test_issue_get_has_parent_indicator() {
    let output = filter_issue_get(ISSUE_GET_RAW);
    assert!(output.contains("Parent:"), "should indicate parent issue exists");
}

// ---- issue runs ----

#[test]
fn test_issue_runs_savings() {
    let input = ISSUE_RUNS_RAW;
    let output = filter_issue_runs(input, &seconds);
    let pct = 100.0 - (count_tokens(&output) as f64 / count_tokens(input) as f64 * 100.0);
    assert!(pct >= 25.0, "issue runs: expected ≥25% savings, got {:.1}%", pct);
}

#[test]
fn test_issue_runs_empty_array() {
    assert_eq!(filter_issue_runs("[]", &seconds), "No runs found.");
}

#[test]
fn test_issue_runs_not_json() {
    let out = filter_issue_runs("Error: issue not found", &seconds);
    assert_eq!(out, "Error: issue not found");
}

#[test]
fn test_issue_runs_has_status() {
    let output = filter_issue_runs(ISSUE_RUNS_RAW, &seconds);
    assert!(output.contains("completed"), "should contain run status");
}

// ---- exact renderings and edge cases ----

#[test]
fn issue_list_exact_table() {
    assert_eq!(
        filter_issue_list(ISSUE_LIST_RAW),
        "ID          STATUS        PRI      AGENT   TITLE\n------------------------------------------------------------------------------------------\nDEMO-13     review        hi       yes     Add rate limiting to the public API\nDEMO-12     active        urg      no      Migrate billing jobs to the new queue\nDEMO-11     todo          med      no      Document the webhook retry policy\nDEMO-10     done          lo       yes     Fix flaky login test on CI\nDEMO-9      backlog       -        no      Investigate slow dashboard queries"
    );
}

fn many_issues(n: usize) -> String {
    let items: Vec<String> = (0..n)
        .map(|i| format!("{{\"identifier\": \"DEMO-{}\", \"status\": \"todo\", \"title\": \"t{}\"}}", i, i))
        .collect();
    format!("[{}]", items.join(","))
}

#[test]
fn issue_list_caps_at_25_rows() {
    let out = filter_issue_list(&many_issues(30));
    let lines: Vec<&str> = out.lines().collect();
    assert_eq!(lines.len(), 2 + 25 + 1);
    assert_eq!(lines[27], "... +5 more issues");
    assert!(lines[26].starts_with("DEMO-24 "));
    assert!(!out.contains("DEMO-25 "));
}

#[test]
fn issue_list_exactly_25_has_no_more_line() {
    let out = filter_issue_list(&many_issues(25));
    assert_eq!(out.lines().count(), 27);
    assert!(!out.contains("more issues"));
}

#[test]
fn issue_list_json_object_is_returned_raw() {
    assert_eq!(filter_issue_list("{\"a\": 1}"), "{\"a\": 1}");
}

#[test]
fn issue_list_truncates_long_fields() {
    let raw = "[{\"identifier\": \"VERYLONGID-12345\", \"status\": \"waiting_for_review\", \"priority\": \"high\", \"assignee_type\": \"agent\", \"title\": \"0123456789012345678901234567890123456789012345678901234567890123456789\"}]";
    let out = filter_issue_list(raw);
    let row = out.lines().nth(2).unwrap();
    assert_eq!(
        row,
        "VERYLON...  waiting_f...  hi       yes     012345678901234567890123456789012345678901234567890123456..."
    );
}

#[test]
fn issue_list_missing_fields_use_defaults() {
    let out = filter_issue_list("[{}]");
    assert_eq!(out.lines().nth(2).unwrap(), "                          -        no      ");
}

#[test]
fn issue_get_exact_summary() {
    assert_eq!(
        filter_issue_get(ISSUE_GET_RAW),
        "DEMO-13 [in_review] Add rate limiting to the public API\nPriority: high\nAssigned to: agent\nDue: 2026-04-30\nParent: (see parent_issue_id — fetch with multica issue get)\n\nDescription:\nLimit each token to 100 requests per minute."
    );
}

#[test]
fn issue_get_minimal_object() {
    assert_eq!(filter_issue_get("{\"priority\": \"none\"}"), "? [] ");
    assert_eq!(filter_issue_get("{}"), "? [] ");
}

#[test]
fn issue_get_cuts_description_at_500() {
    let desc = "x".repeat(600);
    let out = filter_issue_get(&format!("{{\"identifier\": \"D-1\", \"description\": \"{}\"}}", desc));
    let last = out.lines().last().unwrap();
    assert_eq!(last.chars().count(), 500);
    assert!(last.ends_with("..."));
}

#[test]
fn issue_runs_exact_table() {
    assert_eq!(
        filter_issue_runs(ISSUE_RUNS_RAW, &seconds),
        "RUN       STATUS      STARTED           DURATION  SUMMARY\n------------------------------------------------------------------------------------------\neeeeeeee  completed   2026-04-14 10:00  ~5m       Implemented the limiter middleware and added tests."
    );
}

#[test]
fn issue_runs_error_summary_and_short_start() {
    let raw = "[{\"id\": \"ab\", \"status\": \"failed\", \"started_at\": \"yesterday noon\", \"error\": \"boom\"}]";
    let out = filter_issue_runs(raw, &seconds);
    assert_eq!(
        out.lines().nth(2).unwrap(),
        "ab        failed      yesterday noon    -         ERROR: boom"
    );
}

#[test]
fn issue_runs_cut_inside_a_character_is_refused() {
    let raw = "[{\"id\": \"aéééé\", \"status\": \"done\"}]";
    assert_eq!(try_filter_issue_runs(raw, &seconds), None);
    let ok = "[{\"id\": \"éééé\", \"status\": \"done\"}]";
    assert!(try_filter_issue_runs(ok, &seconds).unwrap().contains("éééé  "));
}

#[test]
fn issue_runs_caps_at_25_rows() {
    let items: Vec<String> = (0..26).map(|i| format!("{{\"id\": \"run{}\"}}", i)).collect();
    let out = filter_issue_runs(&format!("[{}]", items.join(",")), &seconds);
    assert_eq!(out.lines().count(), 28);
    assert_eq!(out.lines().last().unwrap(), "... +1 more runs");
}

#[test]
fn truncate_cuts_with_dots() {
    assert_eq!(truncate("hello world", 5), "he...");
    assert_eq!(truncate("hello", 5), "hello");
    assert_eq!(truncate("hello", 2), "...");
    assert_eq!(truncate("héllo wörld", 8), "héllo...");
}
