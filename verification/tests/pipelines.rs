use atlassian_cli::pipelines::{
    build_request_path, format_elapsed, format_seconds, format_steps_summary, get_pipeline_status,
    get_status_icon, get_step_status, icon_for, is_terminal_state, is_terminal_word,
    validate_sort_field, Pipeline, PipelineState, PipelineStep, StateResult, StepInfo,
};
use std::time::Instant;

#[test]
fn test_status_icons() {
    assert_eq!(get_status_icon("SUCCESSFUL"), "✅");
    assert_eq!(get_status_icon("IN_PROGRESS"), "🔄");
    assert_eq!(get_status_icon("FAILED"), "❌");
    assert_eq!(get_status_icon("STOPPED"), "⏹");
    assert_eq!(get_status_icon("PENDING"), "⏳");
    assert_eq!(get_status_icon("UNKNOWN"), "❓");
}

#[test]
fn test_terminal_states() {
    assert!(is_terminal_state("SUCCESSFUL"));
    assert!(is_terminal_state("FAILED"));
    assert!(is_terminal_state("STOPPED"));
    assert!(is_terminal_state("ERROR"));
    assert!(is_terminal_state("EXPIRED"));
    assert!(!is_terminal_state("IN_PROGRESS"));
    assert!(!is_terminal_state("PENDING"));
}

#[test]
fn test_format_steps_summary() {
    let steps = vec![
        StepInfo {
            name: "Clone".to_string(),
            status: "SUCCESSFUL".to_string(),
        },
        StepInfo {
            name: "Build".to_string(),
            status: "IN_PROGRESS".to_string(),
        },
        StepInfo {
            name: "Deploy".to_string(),
            status: "PENDING".to_string(),
        },
    ];
    let summary = format_steps_summary(&steps);
    assert!(summary.contains("Clone ✅"));
    assert!(summary.contains("Build 🔄"));
    assert!(summary.contains("Deploy ⏳"));
}

#[test]
fn test_format_elapsed() {
    let start = Instant::now();
    let _elapsed = format_elapsed(start);
}

#[test]
fn test_validate_sort_valid() {
    assert!(validate_sort_field("created_on").is_ok());
    assert!(validate_sort_field("-created_on").is_ok());
    assert!(validate_sort_field("updated_on").is_ok());
    assert!(validate_sort_field("-updated_on").is_ok());
    assert!(validate_sort_field("build_number").is_ok());
    assert!(validate_sort_field("-build_number").is_ok());
    assert!(validate_sort_field("state.name").is_ok());
    assert!(validate_sort_field("-state.name").is_ok());
}

#[test]
fn test_validate_sort_invalid() {
    let result = validate_sort_field("invalid_field");
    assert!(result.is_err());
    let err = result.unwrap_err().to_string();
    assert!(err.contains("Invalid sort field"));
    assert!(err.contains("invalid_field"));
}

#[test]
fn test_build_request_path_initial() {
    let path = build_request_path(&None, "myworkspace", "myrepo", 100, "-created_on", None);
    assert!(path.contains("/2.0/repositories/myworkspace/myrepo/pipelines?"));
    assert!(path.contains("pagelen=100"));
    assert!(path.contains("sort=-created_on"));
}

#[test]
fn test_build_request_path_with_branch() {
    let path = build_request_path(
        &None,
        "myworkspace",
        "myrepo",
        100,
        "-created_on",
        Some("main"),
    );
    assert!(path.contains("q=target.ref_name"));
    assert!(path.contains("%22main%22"));
}

#[test]
fn test_build_request_path_next_page() {
    let next_url =
        Some("https://api.bitbucket.org/2.0/repositories/ws/repo/pipelines?page=2".to_string());
    let path = build_request_path(&next_url, "ws", "repo", 100, "-created_on", None);
    assert_eq!(path, "/2.0/repositories/ws/repo/pipelines?page=2");
}

#[test]
fn test_steps_empty_returns_empty_summary() {
    let steps: Vec<StepInfo> = vec![];
    let summary = format_steps_summary(&steps);
    assert!(summary.is_empty());
}

#[test]
fn request_path_in_full() {
    assert_eq!(
        build_request_path(&None, "ws", "repo", 25, "-created_on", None),
        "/2.0/repositories/ws/repo/pipelines?pagelen=25&sort=-created_on"
    );
    assert_eq!(
        build_request_path(&None, "ws", "repo", 0, "state.name", Some("")),
        "/2.0/repositories/ws/repo/pipelines?pagelen=0&sort=state.name"
    );
    assert_eq!(
        build_request_path(&None, "ws", "repo", 10, "build_number", Some("feature/a b")),
        "/2.0/repositories/ws/repo/pipelines?pagelen=10&sort=build_number&q=target.ref_name%3D%22feature%2Fa+b%22"
    );
    let elsewhere = Some("https://example.org/next?page=3".to_string());
    assert_eq!(
        build_request_path(&elsewhere, "ws", "repo", 10, "build_number", Some("main")),
        "https://example.org/next?page=3"
    );
}

#[test]
fn icons_ignore_case() {
    assert_eq!(get_status_icon("successful"), "✅");
    assert_eq!(get_status_icon("Completed"), "✅");
    assert_eq!(get_status_icon("running"), "🔄");
    assert_eq!(get_status_icon("error"), "❌");
    assert_eq!(get_status_icon("not_run"), "⏳");
    assert_eq!(get_status_icon("Paused"), "⏸");
    assert_eq!(get_status_icon(""), "❓");
    assert_eq!(icon_for("PAUSED"), "⏸");
    assert_eq!(icon_for("paused"), "❓");
    assert!(is_terminal_state("completed"));
    assert!(is_terminal_state("Expired"));
    assert!(is_terminal_word("COMPLETED"));
    assert!(!is_terminal_word("completed"));
    assert!(!is_terminal_state("paused"));
}

#[test]
fn steps_summary_in_full() {
    let steps = vec![
        StepInfo { name: "Clone".to_string(), status: "successful".to_string() },
        StepInfo { name: "Build".to_string(), status: "weird".to_string() },
    ];
    assert_eq!(format_steps_summary(&steps), "Clone ✅ | Build ❓");
    assert_eq!(format_steps_summary(&steps[..1]), "Clone ✅");
}

#[test]
fn elapsed_time_formats() {
    assert_eq!(format_seconds(0), "00:00");
    assert_eq!(format_seconds(9), "00:09");
    assert_eq!(format_seconds(59), "00:59");
    assert_eq!(format_seconds(60), "01:00");
    assert_eq!(format_seconds(754), "12:34");
    assert_eq!(format_seconds(3599), "59:59");
    assert_eq!(format_seconds(3600), "01:00:00");
    assert_eq!(format_seconds(3661), "01:01:01");
    assert_eq!(format_seconds(360_000), "100:00:00");
    assert_eq!(format_seconds(u64::MAX), "5124095576030431:00:15");
    assert_eq!(format_elapsed(Instant::now()), "00:00");
}

#[test]
fn sort_field_complaint_lists_the_fields() {
    assert_eq!(
        validate_sort_field("name"),
        Err(String::from(
            "Invalid sort field 'name'. Valid options: created_on, -created_on, updated_on, -updated_on, build_number, -build_number, state.name, -state.name"
        ))
    );
    assert!(validate_sort_field("").is_err());
    assert!(validate_sort_field("Created_on").is_err());
    assert!(validate_sort_field("--created_on").is_err());
}

#[test]
fn status_words() {
    let state = |name: &str, result: Option<&str>| PipelineState {
        name: name.to_string(),
        result: result.map(|r| StateResult { name: r.to_string() }),
    };
    let step = |state: Option<PipelineState>| PipelineStep {
        uuid: "{1}".to_string(),
        name: None,
        state,
    };
    assert_eq!(get_step_status(&step(None)), "UNKNOWN");
    assert_eq!(get_step_status(&step(Some(state("IN_PROGRESS", None)))), "IN_PROGRESS");
    assert_eq!(get_step_status(&step(Some(state("COMPLETED", Some("FAILED"))))), "FAILED");
    let pipeline = |state: Option<PipelineState>| Pipeline {
        uuid: "{2}".to_string(),
        build_number: Some(7),
        state,
        created_on: None,
        completed_on: None,
        target: None,
    };
    assert_eq!(get_pipeline_status(&pipeline(None)), "UNKNOWN");
    assert_eq!(get_pipeline_status(&pipeline(Some(state("PENDING", None)))), "PENDING");
    assert_eq!(
        get_pipeline_status(&pipeline(Some(state("COMPLETED", Some("SUCCESSFUL"))))),
        "SUCCESSFUL"
    );
}
