use accounting_engine::model_cli::{cli_args, exit_failure, reply_failed};
use accounting_engine::types::EngineError;

#[test]
fn cli_args_name_every_flag_and_the_model_when_given() {
    let base = vec![
        "-p",
        "Case:\nq",
        "--system-prompt",
        "sys",
        "--output-format",
        "json",
        "--strict-mcp-config",
        "--setting-sources",
        "project",
    ];
    assert_eq!(cli_args("Case:\nq", "sys", None), base);
    let mut with_model = base.clone();
    with_model.push("--model");
    with_model.push("m-1");
    assert_eq!(cli_args("Case:\nq", "sys", Some("m-1")), with_model);
}

#[test]
fn a_reply_fails_when_flagged_or_not_a_success() {
    assert!(!reply_failed(None, None));
    assert!(!reply_failed(Some(false), Some("success")));
    assert!(reply_failed(Some(true), Some("success")));
    assert!(reply_failed(Some(false), Some("error_max_turns")));
    assert!(reply_failed(None, Some("")));
    assert!(!reply_failed(Some(false), None));
}

#[test]
fn exit_failure_names_the_code_and_a_trimmed_excerpt() {
    assert_eq!(
        exit_failure(Some(2), "  not logged in \n"),
        EngineError::Claude("model cli exit 2: not logged in".to_string())
    );
    assert_eq!(
        exit_failure(Some(-9), ""),
        EngineError::Claude("model cli exit -9: ".to_string())
    );
    assert_eq!(
        exit_failure(None, "x"),
        EngineError::Claude("model cli exit signal: x".to_string())
    );
    let long = format!(" {}", "é".repeat(250));
    assert_eq!(
        exit_failure(Some(1), &long),
        EngineError::Claude(format!("model cli exit 1: {}", "é".repeat(200)))
    );
    assert_eq!(
        exit_failure(Some(i32::MIN), "e"),
        EngineError::Claude("model cli exit -2147483648: e".to_string())
    );
}
