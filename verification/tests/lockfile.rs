use cargo_ebuild::lockfile::{
    cargo_program, generate_lockfile_arguments, generation_result, lockfile_step,
    GenerationError, LockfileStep, DEFAULT_CARGO, LOCKFILE_NAME,
};
use cargo_ebuild::text::signed_decimal_string;

#[test]
fn lockfile_goes_by_its_usual_name() {
    assert_eq!(LOCKFILE_NAME, "Cargo.lock");
}

#[test]
fn cargo_program_defaults_to_cargo() {
    assert_eq!(cargo_program(None), "cargo");
    assert_eq!(cargo_program(None), DEFAULT_CARGO);
    assert_eq!(cargo_program(Some("/opt/rust/bin/cargo".to_string())), "/opt/rust/bin/cargo");
    assert_eq!(cargo_program(Some(String::new())), "");
}

#[test]
fn existing_lockfile_is_loaded() {
    assert_eq!(lockfile_step(true), LockfileStep::Load);
}

#[test]
fn missing_lockfile_is_generated() {
    assert_eq!(lockfile_step(false), LockfileStep::Generate);
}

#[test]
fn arguments_without_manifest_path() {
    assert_eq!(generate_lockfile_arguments(false), vec!["generate-lockfile"]);
}

#[test]
fn arguments_with_manifest_path() {
    assert_eq!(
        generate_lockfile_arguments(true),
        vec!["generate-lockfile", "--manifest-path"]
    );
}

#[test]
fn status_zero_is_success() {
    assert_eq!(generation_result(Some(0)), Ok(()));
}

#[test]
fn other_status_is_failure() {
    assert_eq!(generation_result(Some(1)), Err(GenerationError::Failed(1)));
    assert_eq!(generation_result(Some(101)), Err(GenerationError::Failed(101)));
    assert_eq!(generation_result(Some(-1)), Err(GenerationError::Failed(-1)));
}

#[test]
fn no_status_is_termination() {
    assert_eq!(generation_result(None), Err(GenerationError::Terminated));
}

#[test]
fn generation_error_messages() {
    assert_eq!(
        GenerationError::Failed(101).message(),
        "Non-zero status (101) on `cargo generate-lockfile`"
    );
    assert_eq!(
        GenerationError::Failed(-7).message(),
        "Non-zero status (-7) on `cargo generate-lockfile`"
    );
    assert_eq!(
        GenerationError::Terminated.message(),
        "Unexpected termination on `cargo generate-lockfile`"
    );
}

#[test]
fn signed_decimal_string_writes_the_sign() {
    assert_eq!(signed_decimal_string(0), "0");
    assert_eq!(signed_decimal_string(5), "5");
    assert_eq!(signed_decimal_string(-5), "-5");
    assert_eq!(signed_decimal_string(-120), "-120");
    assert_eq!(signed_decimal_string(i32::MAX), "2147483647");
    assert_eq!(signed_decimal_string(i32::MIN), "-2147483648");
}
