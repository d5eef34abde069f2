//! Error codes.

use fastclaw::{Error, ErrorCode};

#[test]
fn error_code_mapping() {
    assert_eq!(Error::NotFound("x".into()).code(), ErrorCode::NotFound);
    assert_eq!(Error::AlreadyExists("x".into()).code(), ErrorCode::AlreadyExists);
    assert_eq!(Error::InvalidConfig("x".into()).code(), ErrorCode::InvalidConfig);
    assert_eq!(Error::Workspace("x".into()).code(), ErrorCode::Workspace);
    assert_eq!(Error::WorkDir("x".into()).code(), ErrorCode::WorkDir);
    assert_eq!(Error::Permission("x".into()).code(), ErrorCode::Permission);
    assert_eq!(Error::Llm("x".into()).code(), ErrorCode::Llm);
    assert_eq!(Error::Skill("x".into()).code(), ErrorCode::Skill);
    assert_eq!(Error::SessionStopped("x".into()).code(), ErrorCode::SessionStopped);
}

#[test]
fn error_codes_are_stable_integers() {
    assert_eq!(ErrorCode::Unknown.as_i32(), 1);
    assert_eq!(ErrorCode::NotFound.as_i32(), 2);
    assert_eq!(ErrorCode::Io.as_i32(), 10);
    assert_eq!(ErrorCode::Json.as_i32(), 13);
}

#[test]
fn error_display_is_human_readable() {
    let e = Error::Permission("denied".into());
    assert!(e.message().contains("denied"));
}

#[test]
fn error_message_is_the_payload_exactly() {
    assert_eq!(Error::Io("disk full".into()).message(), "disk full");
    assert_eq!(Error::Json("bad".into()).code(), ErrorCode::Json);
    assert_eq!(Error::FastMind("graph".into()).code(), ErrorCode::FastMind);
}
