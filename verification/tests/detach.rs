use latch::commands::detach::{resolve_detach_target, DetachError};

#[test]
fn resolve_detach_target_with_argument() {
    let target = resolve_detach_target(Some("mysession".to_string()), None).unwrap();
    assert_eq!(target, "mysession");
}

#[test]
fn resolve_detach_target_from_env() {
    let target = resolve_detach_target(None, Some("envsession".to_string())).unwrap();
    assert_eq!(target, "envsession");
}

#[test]
fn resolve_detach_target_error_when_no_env() {
    let result = resolve_detach_target(None, None);
    assert!(result.is_err());
    let err = result.unwrap_err().message();
    assert_eq!(err, "error: not in a latch session (LATCH_SESSION not set)");
}

#[test]
fn resolve_detach_argument_takes_priority_over_env() {
    let target =
        resolve_detach_target(Some("explicit".to_string()), Some("envsession".to_string())).unwrap();
    assert_eq!(target, "explicit");
}

#[test]
fn empty_env_value_is_not_a_session() {
    assert_eq!(
        resolve_detach_target(None, Some(String::new())),
        Err(DetachError::NotInSession)
    );
}
