use kunger_lib::commands::{blocking_result, CommandError};

#[test]
fn constructors_set_the_machine_readable_kind() {
    let e = CommandError::invalid_request("bad id");
    assert_eq!(e.kind, "invalidRequest");
    assert_eq!(e.message, "bad id");
    assert_eq!(CommandError::not_found("x").kind, "notFound");
    assert_eq!(CommandError::conflict("x").kind, "conflict");
    let i = CommandError::internal("boom");
    assert_eq!(i.kind, "internal");
    assert_eq!(i.message, "boom");
}

#[test]
fn display_text_is_kind_colon_message() {
    assert_eq!(
        CommandError::not_found("no scan yet").to_display_string(),
        "notFound: no scan yet"
    );
    assert_eq!(CommandError::conflict("").to_display_string(), "conflict: ");
}

#[test]
fn blocking_results_map_every_failure_to_internal() {
    let ok: Result<Result<u32, String>, String> = Ok(Ok(7));
    assert_eq!(blocking_result(ok).unwrap(), 7);

    let inner: Result<Result<u32, String>, String> = Ok(Err("database is locked".to_string()));
    let e = blocking_result(inner).unwrap_err();
    assert_eq!(e.kind, "internal");
    assert_eq!(e.message, "database is locked");

    let joined: Result<Result<u32, String>, String> = Err("task panicked".to_string());
    let e = blocking_result(joined).unwrap_err();
    assert_eq!(e.kind, "internal");
    assert_eq!(e.message, "task panicked");
}
