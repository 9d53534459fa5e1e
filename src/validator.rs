//! Checks a file must pass before its content is shown: it must be a regular
//! file, not too large, and its leading bytes must look safe for a terminal.

use vstd::prelude::*;
use crate::foreign::{path_exists, path_is_file};

verus! {

/// Number of leading bytes that the safety check looks at.
pub const SAFETY_CHECK_BYTES: usize = 1024;

/// The size ceiling in MiB when none is given.
pub const DEFAULT_MAX_SIZE_MB: u64 = 10;

/// Bytes in one MiB.
pub const BYTES_PER_MB: u64 = 1048576;

/// Why a file is not shown.
#[derive(Debug, Clone)]
pub enum ValidationError {
    FileNotFound,
    PermissionDenied,
    FileTooLarge,
    SuspiciousContent,
    IoError(String),
}

/// The kind of an I/O failure, as far as validation tells kinds apart.
#[derive(Debug, Clone, Copy, PartialEq, Eq, Structural)]
pub enum IoFailureKind {
    NotFound,
    PermissionDenied,
    Other,
}

impl ValidationError {
    /// Maps an I/O failure: not-found and permission failures keep their own
    /// variants, any other becomes `IoError` with its description.
    pub fn from_io_failure(kind: IoFailureKind, detail: String) -> (r: Self)
        ensures
            kind == IoFailureKind::NotFound ==> r == ValidationError::FileNotFound,
            kind == IoFailureKind::PermissionDenied ==> r == ValidationError::PermissionDenied,
            kind == IoFailureKind::Other ==> (r matches ValidationError::IoError(d) && d@ == detail@),
    {
        match kind {
            IoFailureKind::NotFound => ValidationError::FileNotFound,
            IoFailureKind::PermissionDenied => ValidationError::PermissionDenied,
            IoFailureKind::Other => ValidationError::IoError(detail),
        }
    }

    /// A sentence describing the error.
    pub fn message(&self) -> (r: String)
        ensures
            match self {
                ValidationError::FileNotFound => r@ == "File not found or not accessible"@,
                ValidationError::PermissionDenied => r@ == "Permission denied"@,
                ValidationError::FileTooLarge => r@ == "File is too large"@,
                ValidationError::SuspiciousContent => r@ == "File contains suspicious content"@,
                ValidationError::IoError(d) => r@ == "IO error: "@ + d@,
            },
    {
        match self {
            ValidationError::FileNotFound => "File not found or not accessible".to_string(),
            ValidationError::PermissionDenied => "Permission denied".to_string(),
            ValidationError::FileTooLarge => "File is too large".to_string(),
            ValidationError::SuspiciousContent => "File contains suspicious content".to_string(),
            ValidationError::IoError(d) => {
                let mut r = "IO error: ".to_string();
                r.append(d.as_str());
                r
            },
        }
    }
}

/// A control byte other than newline, carriage return and tab.
pub open spec fn is_control(b: u8) -> bool {
    b < 32 && b != 10 && b != 13 && b != 9
}

/// How many bytes of `s` are control bytes.
pub open spec fn control_count(s: Seq<u8>) -> nat
    decreases s.len(),
{
    if s.len() == 0 {
        0
    } else {
        control_count(s.drop_last()) + if is_control(s.last()) {
            1nat
        } else {
            0nat
        }
    }
}

/// The part of a file that the safety check reads.
pub open spec fn safety_sample(b: Seq<u8>) -> Seq<u8> {
    if b.len() <= SAFETY_CHECK_BYTES {
        b
    } else {
        b.take(SAFETY_CHECK_BYTES as int)
    }
}

/// Content is safe to show when its sample is empty, or holds no null byte
/// and under a tenth of it are control bytes.
pub open spec fn safe_to_display(b: Seq<u8>) -> bool {
    let s = safety_sample(b);
    s.len() == 0 || (!s.contains(0u8) && 10 * control_count(s) < s.len())
}

/// The size ceiling in bytes.
pub open spec fn max_bytes(max_size_mb: Option<u64>) -> int {
    match max_size_mb {
        Some(m) => m * BYTES_PER_MB,
        None => DEFAULT_MAX_SIZE_MB * BYTES_PER_MB,
    }
}

/// What validation learnt from its last look at the file.
#[derive(Debug, Clone)]
pub enum ValidationEvent {
    /// Whether the path exists and is a regular file.
    PathChecked { found: bool, is_file: bool },
    /// The file's size in bytes, from its metadata.
    SizeRead(u64),
    /// The file's leading bytes.
    SampleRead(Vec<u8>),
    /// A look at the file failed.
    Failed(ValidationError),
}

/// What validation does next.
#[derive(Debug)]
pub enum ValidationAction {
    /// Read the file's size from its metadata.
    ReadSize,
    /// Read the file's leading bytes.
    ReadSample,
    /// Validation is over, with this outcome.
    Finish(Result<(), ValidationError>),
}

/// The step that follows an event, in the order path, size, content.
pub open spec fn validation_step(event: ValidationEvent) -> ValidationAction {
    match event {
        ValidationEvent::PathChecked { found, is_file } => if found && is_file {
            ValidationAction::ReadSize
        } else {
            ValidationAction::Finish(Err(ValidationError::FileNotFound))
        },
        ValidationEvent::SizeRead(len) => if len > max_bytes(None) {
            ValidationAction::Finish(Err(ValidationError::FileTooLarge))
        } else {
            ValidationAction::ReadSample
        },
        ValidationEvent::SampleRead(bytes) => if safe_to_display(bytes@) {
            ValidationAction::Finish(Ok(()))
        } else {
            ValidationAction::Finish(Err(ValidationError::SuspiciousContent))
        },
        ValidationEvent::Failed(e) => ValidationAction::Finish(Err(e)),
    }
}

/// Checks on a file before its content is shown.
pub struct FileValidator;

impl FileValidator {
    /// The outcome of the path check: the path must exist and be a regular
    /// file.
    pub fn path_outcome(found: bool, is_file: bool) -> (r: Result<(), ValidationError>)
        ensures
            found && is_file ==> r is Ok,
            !(found && is_file) ==> r == Err::<(), ValidationError>(ValidationError::FileNotFound),
    {
        if !found || !is_file {
            return Err(ValidationError::FileNotFound);
        }
        Ok(())
    }

    /// Asks the file system whether the path found and is a regular file;
    /// fails with `FileNotFound` otherwise.
    pub fn validate_path(path: &str) -> (r: Result<(), ValidationError>)
        ensures
            r is Ok || r == Err::<(), ValidationError>(ValidationError::FileNotFound),
    {
        let found = path_exists(path);
        if !found {
            return Self::path_outcome(false, false);
        }
        let is_file = path_is_file(path);
        Self::path_outcome(found, is_file)
    }

    /// The outcome of the size check for a file of `len` bytes against a
    /// ceiling of `max_size_mb` MiB (10 when none is given).
    pub fn validate_file_size(len: u64, max_size_mb: Option<u64>) -> (r: Result<(), ValidationError>)
        requires
            max_size_mb matches Some(m) ==> m * BYTES_PER_MB <= u64::MAX,
        ensures
            len <= max_bytes(max_size_mb) ==> r is Ok,
            len > max_bytes(max_size_mb) ==> r == Err::<(), ValidationError>(
                ValidationError::FileTooLarge,
            ),
    {
        let mb = match max_size_mb {
            Some(m) => m,
            None => DEFAULT_MAX_SIZE_MB,
        };
        let max = mb * BYTES_PER_MB;
        if len > max {
            return Err(ValidationError::FileTooLarge);
        }
        Ok(())
    }

    /// Whether content whose leading bytes are `bytes` is safe to show.
    pub fn is_safe_to_display(bytes: &[u8]) -> (r: bool)
        ensures
            r == safe_to_display(bytes@),
    {
        let n = if bytes.len() <= SAFETY_CHECK_BYTES {
            bytes.len()
        } else {
            SAFETY_CHECK_BYTES
        };
        let sample = &bytes[0..n];
        assert(sample@ =~= safety_sample(bytes@));
        if n == 0 {
            return true;
        }
        let mut count: usize = 0;
        let mut i: usize = 0;
        assert(sample@.take(0) =~= Seq::<u8>::empty());
        while i < n
            invariant
                n == sample@.len(),
                sample@ == safety_sample(bytes@),
                i <= n,
                count <= i,
                count == control_count(sample@.take(i as int)),
                forall|k: int| 0 <= k < i ==> sample@[k] != 0u8,
            decreases n - i,
        {
            assert(sample@.take(i + 1).drop_last() =~= sample@.take(i as int));
            let b = sample[i];
            if b == 0 {
                assert(sample@[i as int] == 0u8);
                return false;
            }
            if b < 32 && b != 10 && b != 13 && b != 9 {
                count += 1;
            }
            i += 1;
        }
        assert(sample@.take(n as int) =~= sample@);
        assert(!sample@.contains(0u8));
        10 * count < n
    }

    /// The next step of validation after `event`: a path that is not a
    /// regular file, a file over the default ceiling, or unsafe leading bytes
    /// end it with their error, and a file too large is never read.
    pub fn quick_validate_step(event: ValidationEvent) -> (r: ValidationAction)
        ensures
            r == validation_step(event),
    {
        match event {
            ValidationEvent::PathChecked { found, is_file } => {
                match Self::path_outcome(found, is_file) {
                    Ok(()) => ValidationAction::ReadSize,
                    Err(e) => ValidationAction::Finish(Err(e)),
                }
            },
            ValidationEvent::SizeRead(len) => {
                match Self::validate_file_size(len, None) {
                    Ok(()) => ValidationAction::ReadSample,
                    Err(e) => ValidationAction::Finish(Err(e)),
                }
            },
            ValidationEvent::SampleRead(bytes) => {
                if Self::is_safe_to_display(bytes.as_slice()) {
                    ValidationAction::Finish(Ok(()))
                } else {
                    ValidationAction::Finish(Err(ValidationError::SuspiciousContent))
                }
            },
            ValidationEvent::Failed(e) => ValidationAction::Finish(Err(e)),
        }
    }
}

/// A file over the size ceiling ends validation with `FileTooLarge` at the
/// size check: its content is never asked for.
pub proof fn law_too_large_is_never_read(len: u64)
    requires
        len > max_bytes(None),
    ensures
        validation_step(ValidationEvent::SizeRead(len)) == ValidationAction::Finish(
            Err::<(), ValidationError>(ValidationError::FileTooLarge),
        ),
        !(validation_step(ValidationEvent::SizeRead(len)) is ReadSample),
{
}

} // verus!
