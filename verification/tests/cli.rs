use slam::cli::{
    change_id_at, default_change_id, validate_buffer, CreateAction, ReviewAction, SandboxAction,
    SlamCli, SlamCommand,
};
use slam::repo::Change;

#[test]
fn test_default_change_id_format() {
    let change_id = default_change_id();
    assert!(change_id.starts_with("SLAM-"));

    // Should be in format SLAM-YYYY-MM-DDTHH-MM-SS
    let timestamp_part = change_id.strip_prefix("SLAM-").unwrap();
    assert_eq!(timestamp_part.len(), 19); // YYYY-MM-DDTHH-MM-SS
    assert_eq!(timestamp_part.chars().nth(4), Some('-'));
    assert_eq!(timestamp_part.chars().nth(7), Some('-'));
    assert_eq!(timestamp_part.chars().nth(10), Some('T'));
    assert_eq!(timestamp_part.chars().nth(13), Some('-'));
    assert_eq!(timestamp_part.chars().nth(16), Some('-'));
    assert!(timestamp_part.chars().filter(|c| c.is_ascii_digit()).count() == 14);
}

#[test]
fn change_ids_of_different_times_differ() {
    assert_eq!(change_id_at("2024-06-01T12-30-59"), "SLAM-2024-06-01T12-30-59");
    assert_ne!(change_id_at("2024-06-01T12-30-59"), change_id_at("2024-06-01T12-31-00"));
}

#[test]
fn test_validate_buffer_valid_values() {
    assert_eq!(validate_buffer("1"), Ok(1));
    assert_eq!(validate_buffer("2"), Ok(2));
    assert_eq!(validate_buffer("3"), Ok(3));
}

#[test]
fn test_validate_buffer_invalid_values() {
    assert!(validate_buffer("0").is_err());
    assert!(validate_buffer("4").is_err());
    assert!(validate_buffer("-1").is_err());
    assert!(validate_buffer("abc").is_err());
    assert!(validate_buffer("").is_err());
}

#[test]
fn test_validate_buffer_error_messages() {
    let err = validate_buffer("abc").unwrap_err();
    assert!(err.contains("isn't a valid number"));

    let err = validate_buffer("0").unwrap_err();
    assert!(err.contains("Buffer must be between 1 and 3"));

    let err = validate_buffer("4").unwrap_err();
    assert!(err.contains("Buffer must be between 1 and 3"));
}

#[test]
fn validate_buffer_takes_what_a_number_may_look_like() {
    assert_eq!(validate_buffer("+2"), Ok(2));
    assert_eq!(validate_buffer("003"), Ok(3));
    assert_eq!(validate_buffer("+"), Err("`+` isn't a valid number".to_string()));
    assert_eq!(validate_buffer(" 1"), Err("` 1` isn't a valid number".to_string()));
    assert_eq!(
        validate_buffer("99999999999999999999999"),
        Err("`99999999999999999999999` isn't a valid number".to_string())
    );
    assert_eq!(
        validate_buffer("170"),
        Err("Buffer must be between 1 and 3, but got 170".to_string())
    );
}

#[test]
fn test_create_action_decompose_delete() {
    let action = CreateAction::Delete {
        commit: Some("test commit".to_string()),
        simplified: true,
    };

    let (change, commit, simplified) = action.decompose();
    assert!(matches!(change, Change::Delete));
    assert_eq!(commit, Some("test commit".to_string()));
    assert!(simplified);
}

#[test]
fn test_create_action_decompose_add() {
    let action = CreateAction::Add {
        path: "test.txt".to_string(),
        content: "test content".to_string(),
        commit: None,
        simplified: false,
    };

    let (change, commit, simplified) = action.decompose();
    assert!(matches!(change, Change::Add(path, content) if path == "test.txt" && content == "test content"));
    assert_eq!(commit, None);
    assert!(!simplified);
}

#[test]
fn test_create_action_decompose_sub() {
    let action = CreateAction::Sub {
        ptn: "old".to_string(),
        repl: "new".to_string(),
        commit: Some("sub commit".to_string()),
        simplified: false,
    };

    let (change, commit, simplified) = action.decompose();
    assert!(matches!(change, Change::Sub(ptn, repl) if ptn == "old" && repl == "new"));
    assert_eq!(commit, Some("sub commit".to_string()));
    assert!(!simplified);
}

#[test]
fn test_create_action_decompose_regex() {
    let action = CreateAction::Regex {
        ptn: "foo".to_string(),
        repl: "bar".to_string(),
        commit: Some("regex commit".to_string()),
        simplified: true,
    };

    let (change, commit, simplified) = action.decompose();
    assert!(matches!(change, Change::Regex(ptn, repl) if ptn == "foo" && repl == "bar"));
    assert_eq!(commit, Some("regex commit".to_string()));
    assert!(simplified);
}

#[test]
fn test_sandbox_action_debug() {
    let setup = SandboxAction::Setup {};
    let refresh = SandboxAction::Refresh {};

    // Ensure Debug is implemented
    assert!(!format!("{:?}", setup).is_empty());
    assert!(!format!("{:?}", refresh).is_empty());
}

#[test]
fn test_review_action_debug() {
    let ls = ReviewAction::Ls {
        change_id_ptns: vec!["SLAM-test".to_string()],
        buffer: 2,
    };

    let clone = ReviewAction::Clone {
        change_id: "SLAM-test".to_string(),
        all: true,
    };

    let approve = ReviewAction::Approve {
        change_id: "SLAM-test".to_string(),
        admin_override: false,
    };

    let delete = ReviewAction::Delete {
        change_id: "SLAM-test".to_string(),
    };

    let purge = ReviewAction::Purge {};

    // Ensure Debug is implemented for all variants
    assert!(!format!("{:?}", ls).is_empty());
    assert!(!format!("{:?}", clone).is_empty());
    assert!(!format!("{:?}", approve).is_empty());
    assert!(!format!("{:?}", delete).is_empty());
    assert!(!format!("{:?}", purge).is_empty());
}

#[test]
fn commands_can_be_shown() {
    let cli = SlamCli {
        command: SlamCommand::Sandbox {
            repo_ptns: vec!["app".to_string()],
            action: SandboxAction::Setup {},
        },
    };
    assert!(format!("{:?}", cli).contains("app"));
}
