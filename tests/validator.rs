use vitax::validator::{
    FileValidator, IoFailureKind, ValidationAction, ValidationError, ValidationEvent,
};

const MIB: u64 = 1024 * 1024;

#[test]
fn size_ceiling_defaults_to_ten_mib() {
    assert!(FileValidator::validate_file_size(10 * MIB, None).is_ok());
    assert!(matches!(
        FileValidator::validate_file_size(10 * MIB + 1, None),
        Err(ValidationError::FileTooLarge)
    ));
    assert!(FileValidator::validate_file_size(MIB, Some(1)).is_ok());
    assert!(matches!(
        FileValidator::validate_file_size(MIB + 1, Some(1)),
        Err(ValidationError::FileTooLarge)
    ));
}

#[test]
fn large_file_stops_before_content() {
    let step = FileValidator::quick_validate_step(ValidationEvent::SizeRead(15 * MIB));
    assert!(matches!(step, ValidationAction::Finish(Err(ValidationError::FileTooLarge))));
    let step = FileValidator::quick_validate_step(ValidationEvent::SizeRead(100));
    assert!(matches!(step, ValidationAction::ReadSample));
}

#[test]
fn validation_steps_in_order() {
    let step = FileValidator::quick_validate_step(ValidationEvent::PathChecked {
        found: true,
        is_file: true,
    });
    assert!(matches!(step, ValidationAction::ReadSize));
    let step = FileValidator::quick_validate_step(ValidationEvent::PathChecked {
        found: true,
        is_file: false,
    });
    assert!(matches!(step, ValidationAction::Finish(Err(ValidationError::FileNotFound))));
    let step = FileValidator::quick_validate_step(ValidationEvent::SampleRead(b"ok".to_vec()));
    assert!(matches!(step, ValidationAction::Finish(Ok(()))));
    let step = FileValidator::quick_validate_step(ValidationEvent::SampleRead(vec![0u8, 1]));
    assert!(matches!(step, ValidationAction::Finish(Err(ValidationError::SuspiciousContent))));
    let step = FileValidator::quick_validate_step(ValidationEvent::Failed(
        ValidationError::PermissionDenied,
    ));
    assert!(matches!(step, ValidationAction::Finish(Err(ValidationError::PermissionDenied))));
}

#[test]
fn safety_of_content() {
    assert!(FileValidator::is_safe_to_display(&[]));
    assert!(FileValidator::is_safe_to_display(b"line one\nline two\r\n\tindented"));
    assert!(!FileValidator::is_safe_to_display(b"abc\0def"));
    // one control byte in ten is a tenth: unsafe
    let mut ten = vec![b'a'; 10];
    ten[3] = 0x1B;
    assert!(!FileValidator::is_safe_to_display(&ten));
    // one in eleven is under a tenth: safe
    let mut eleven = vec![b'a'; 11];
    eleven[3] = 0x1B;
    assert!(FileValidator::is_safe_to_display(&eleven));
    // only the first 1024 bytes count
    let mut long = vec![b'a'; 2000];
    long[1500] = 0;
    assert!(FileValidator::is_safe_to_display(&long));
}

#[test]
fn path_outcomes() {
    assert!(FileValidator::path_outcome(true, true).is_ok());
    assert!(matches!(FileValidator::path_outcome(false, false), Err(ValidationError::FileNotFound)));
    assert!(matches!(
        FileValidator::validate_path("/no/such/path/for/this/test"),
        Err(ValidationError::FileNotFound)
    ));
}

#[test]
fn io_failures_and_messages() {
    let e = ValidationError::from_io_failure(IoFailureKind::NotFound, "x".to_string());
    assert!(matches!(e, ValidationError::FileNotFound));
    let e = ValidationError::from_io_failure(IoFailureKind::PermissionDenied, "x".to_string());
    assert!(matches!(e, ValidationError::PermissionDenied));
    let e = ValidationError::from_io_failure(IoFailureKind::Other, "disk on fire".to_string());
    assert_eq!(e.message(), "IO error: disk on fire");
    assert_eq!(ValidationError::FileNotFound.message(), "File not found or not accessible");
    assert_eq!(ValidationError::PermissionDenied.message(), "Permission denied");
    assert_eq!(ValidationError::FileTooLarge.message(), "File is too large");
    assert_eq!(
        ValidationError::SuspiciousContent.message(),
        "File contains suspicious content"
    );
}
