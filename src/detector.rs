//! Byte-level classification of file content as text or binary, and
//! detection of its encoding.

use vstd::prelude::*;

verus! {

/// Number of leading bytes that the detector looks at.
pub const BINARY_CHECK_BYTES: usize = 2048;

/// Whether a file is shown as text or reported as binary.
#[derive(Debug, Clone, Copy, PartialEq, Eq, Structural)]
pub enum FileType {
    Text,
    Binary,
}

/// The encoding that a byte sample is consistent with.
#[derive(Debug, Clone, Copy, PartialEq, Eq, Structural)]
pub enum Encoding {
    Utf8,
    ShiftJis,
    Unknown,
}

/// A UTF-8 continuation byte, `10xxxxxx`.
pub open spec fn is_continuation(b: u8) -> bool {
    0x80 <= b <= 0xBF
}

/// What the UTF-8 scanner accepts: every sequence starts with a lead byte of
/// one to four bytes, its continuation bytes are present and well-formed, and
/// no sequence is an overlong form of a shorter one.
pub open spec fn utf8_scan_ok(s: Seq<u8>) -> bool
    decreases s.len(),
{
    if s.len() == 0 {
        true
    } else {
        let b = s[0];
        if b <= 0x7F {
            utf8_scan_ok(s.skip(1))
        } else if 0xC2 <= b <= 0xDF {
            s.len() >= 2 && is_continuation(s[1]) && utf8_scan_ok(s.skip(2))
        } else if 0xE0 <= b <= 0xEF {
            s.len() >= 3 && is_continuation(s[1]) && is_continuation(s[2]) && (b != 0xE0
                || s[1] >= 0xA0) && utf8_scan_ok(s.skip(3))
        } else if 0xF0 <= b <= 0xF7 {
            s.len() >= 4 && is_continuation(s[1]) && is_continuation(s[2]) && is_continuation(
                s[3],
            ) && (b != 0xF0 || s[1] >= 0x90) && utf8_scan_ok(s.skip(4))
        } else {
            false
        }
    }
}

/// Well-formed UTF-8 as the Unicode standard defines it (its table of
/// well-formed byte sequences).
pub open spec fn utf8_well_formed(s: Seq<u8>) -> bool
    decreases s.len(),
{
    if s.len() == 0 {
        true
    } else {
        let b = s[0];
        if b <= 0x7F {
            utf8_well_formed(s.skip(1))
        } else if 0xC2 <= b <= 0xDF {
            s.len() >= 2 && is_continuation(s[1]) && utf8_well_formed(s.skip(2))
        } else if 0xE0 <= b <= 0xEF {
            let lo: u8 = if b == 0xE0 { 0xA0 } else { 0x80 };
            let hi: u8 = if b == 0xED { 0x9F } else { 0xBF };
            s.len() >= 3 && lo <= s[1] <= hi && is_continuation(s[2]) && utf8_well_formed(
                s.skip(3),
            )
        } else if 0xF0 <= b <= 0xF4 {
            let lo: u8 = if b == 0xF0 { 0x90 } else { 0x80 };
            let hi: u8 = if b == 0xF4 { 0x8F } else { 0xBF };
            s.len() >= 4 && lo <= s[1] <= hi && is_continuation(s[2]) && is_continuation(s[3])
                && utf8_well_formed(s.skip(4))
        } else {
            false
        }
    }
}

/// A byte that may follow a Shift-JIS double-byte lead.
pub open spec fn is_sjis_trail(b: u8) -> bool {
    (0x40 <= b <= 0x7E) || (0x80 <= b <= 0xFC)
}

/// A Shift-JIS single-byte character: ASCII or half-width katakana.
pub open spec fn is_sjis_single(b: u8) -> bool {
    b <= 0x7F || (0xA1 <= b <= 0xDF)
}

/// A Shift-JIS double-byte lead.
pub open spec fn is_sjis_lead(b: u8) -> bool {
    (0x81 <= b <= 0x9F) || (0xE0 <= b <= 0xEF)
}

/// What the Shift-JIS scanner accepts.
pub open spec fn sjis_scan_ok(s: Seq<u8>) -> bool
    decreases s.len(),
{
    if s.len() == 0 {
        true
    } else if is_sjis_single(s[0]) {
        sjis_scan_ok(s.skip(1))
    } else if is_sjis_lead(s[0]) {
        s.len() >= 2 && is_sjis_trail(s[1]) && sjis_scan_ok(s.skip(2))
    } else {
        false
    }
}

/// Printable ASCII, or one of newline, carriage return and tab.
pub open spec fn is_printable(b: u8) -> bool {
    (32 <= b <= 126) || b == 10 || b == 13 || b == 9
}

/// How many bytes of `s` are not printable.
pub open spec fn non_printable_count(s: Seq<u8>) -> nat
    decreases s.len(),
{
    if s.len() == 0 {
        0
    } else {
        non_printable_count(s.drop_last()) + if is_printable(s.last()) {
            0nat
        } else {
            1nat
        }
    }
}

/// The non-printable ratio `count / len` is above one quarter.
pub open spec fn mostly_non_printable(s: Seq<u8>) -> bool {
    4 * non_printable_count(s) > s.len()
}

/// The part of the input that the detector reads.
pub open spec fn sample_of(b: Seq<u8>) -> Seq<u8> {
    if b.len() <= BINARY_CHECK_BYTES {
        b
    } else {
        b.take(BINARY_CHECK_BYTES as int)
    }
}

/// The classification of a whole input.
pub open spec fn file_type_of(b: Seq<u8>) -> FileType {
    let s = sample_of(b);
    if s.contains(0u8) {
        FileType::Binary
    } else if utf8_scan_ok(s) || sjis_scan_ok(s) {
        FileType::Text
    } else if mostly_non_printable(s) {
        FileType::Binary
    } else {
        FileType::Text
    }
}

/// The encoding reported for a whole input.
pub open spec fn encoding_of(b: Seq<u8>) -> Encoding {
    let s = sample_of(b);
    if utf8_scan_ok(s) {
        Encoding::Utf8
    } else if sjis_scan_ok(s) {
        Encoding::ShiftJis
    } else {
        Encoding::Unknown
    }
}

proof fn lemma_skip_skip(s: Seq<u8>, i: int, k: int)
    requires
        0 <= i,
        0 <= k,
        i + k <= s.len(),
    ensures
        s.skip(i).skip(k) == s.skip(i + k),
{
    assert(s.skip(i).skip(k) =~= s.skip(i + k));
}

proof fn lemma_well_formed_is_scanned(s: Seq<u8>)
    requires
        utf8_well_formed(s),
    ensures
        utf8_scan_ok(s),
    decreases s.len(),
{
    if s.len() > 0 {
        let b = s[0];
        if b <= 0x7F {
            lemma_well_formed_is_scanned(s.skip(1));
        } else if 0xC2 <= b <= 0xDF {
            lemma_well_formed_is_scanned(s.skip(2));
        } else if 0xE0 <= b <= 0xEF {
            lemma_well_formed_is_scanned(s.skip(3));
        } else {
            lemma_well_formed_is_scanned(s.skip(4));
        }
    }
}

/// A null byte among the bytes that the detector reads makes the content
/// binary, whatever else it holds.
pub proof fn law_null_byte_is_binary(b: Seq<u8>, i: int)
    requires
        0 <= i < b.len(),
        i < BINARY_CHECK_BYTES,
        b[i] == 0u8,
    ensures
        file_type_of(b) == FileType::Binary,
{
    assert(sample_of(b)[i] == 0u8);
}

/// Well-formed UTF-8 without null bytes is text, and its encoding is reported
/// as UTF-8, provided the sample boundary does not split a character.
pub proof fn law_utf8_is_text(b: Seq<u8>)
    requires
        utf8_well_formed(b),
        !b.contains(0u8),
        utf8_well_formed(sample_of(b)),
    ensures
        file_type_of(b) == FileType::Text,
        encoding_of(b) == Encoding::Utf8,
{
    lemma_well_formed_is_scanned(sample_of(b));
    if sample_of(b).contains(0u8) {
        let i = choose|i: int| 0 <= i < sample_of(b).len() && sample_of(b)[i] == 0u8;
        assert(b[i] == 0u8);
    }
}

/// An empty sample has no non-printable byte; each byte adds one to the count
/// exactly when it is not printable; and of two samples of one length, the one
/// with more non-printable bytes is above the binary threshold whenever the
/// other is.
pub proof fn law_non_printable_ratio(a: Seq<u8>, c: Seq<u8>, x: u8)
    requires
        a.len() == c.len(),
        non_printable_count(a) <= non_printable_count(c),
    ensures
        non_printable_count(Seq::<u8>::empty()) == 0,
        non_printable_count(a.push(x)) == non_printable_count(a) + if is_printable(x) {
            0nat
        } else {
            1nat
        },
        mostly_non_printable(a) ==> mostly_non_printable(c),
{
    assert(a.push(x).drop_last() =~= a);
}

/// Stateless detector over byte samples.
pub struct FileDetector;

impl FileDetector {
    /// Classifies content: binary when its sample holds a null byte; text when
    /// the sample is valid UTF-8 or Shift-JIS; otherwise binary exactly when
    /// more than a quarter of the sample is non-printable.
    pub fn detect_file_type(bytes: &[u8]) -> (r: FileType)
        ensures
            r == file_type_of(bytes@),
    {
        let sample = Self::sample(bytes);
        if Self::contains_null(sample) {
            return FileType::Binary;
        }
        if Self::is_valid_utf8(sample) || Self::is_valid_shift_jis(sample) {
            return FileType::Text;
        }
        let count = Self::count_non_printable(sample);
        if 4 * count > sample.len() {
            FileType::Binary
        } else {
            FileType::Text
        }
    }

    /// Reports the first of UTF-8 and Shift-JIS that the sample is valid in,
    /// or `Unknown`.
    pub fn detect_encoding(bytes: &[u8]) -> (r: Encoding)
        ensures
            r == encoding_of(bytes@),
    {
        let sample = Self::sample(bytes);
        if Self::is_valid_utf8(sample) {
            Encoding::Utf8
        } else if Self::is_valid_shift_jis(sample) {
            Encoding::ShiftJis
        } else {
            Encoding::Unknown
        }
    }

    fn sample(bytes: &[u8]) -> (r: &[u8])
        ensures
            r@ == sample_of(bytes@),
            r@.len() <= BINARY_CHECK_BYTES,
    {
        if bytes.len() <= BINARY_CHECK_BYTES {
            bytes
        } else {
            let r = &bytes[0..BINARY_CHECK_BYTES];
            assert(r@ =~= bytes@.take(BINARY_CHECK_BYTES as int));
            r
        }
    }

    /// Whether `bytes` holds a zero byte.
    pub fn contains_null(bytes: &[u8]) -> (r: bool)
        ensures
            r == bytes@.contains(0u8),
    {
        let mut i: usize = 0;
        while i < bytes.len()
            invariant
                i <= bytes@.len(),
                forall|j: int| 0 <= j < i ==> bytes@[j] != 0u8,
            decreases bytes@.len() - i,
        {
            if bytes[i] == 0 {
                return true;
            }
            i += 1;
        }
        false
    }

    /// The UTF-8 scanner.
    pub fn is_valid_utf8(bytes: &[u8]) -> (r: bool)
        ensures
            r == utf8_scan_ok(bytes@),
    {
        let n = bytes.len();
        let mut i: usize = 0;
        assert(bytes@.skip(0) =~= bytes@);
        while i < n
            invariant
                n == bytes@.len(),
                i <= n,
                utf8_scan_ok(bytes@) == utf8_scan_ok(bytes@.skip(i as int)),
            decreases n - i,
        {
            let b = bytes[i];
            let step: usize;
            if b <= 0x7F {
                step = 1;
            } else if 0xC2 <= b && b <= 0xDF {
                if i + 1 >= n || !(0x80 <= bytes[i + 1] && bytes[i + 1] <= 0xBF) {
                    return false;
                }
                step = 2;
            } else if 0xE0 <= b && b <= 0xEF {
                if n - i <= 2 || !(0x80 <= bytes[i + 1] && bytes[i + 1] <= 0xBF) || !(0x80
                    <= bytes[i + 2] && bytes[i + 2] <= 0xBF) || (b == 0xE0 && bytes[i + 1]
                    < 0xA0) {
                    return false;
                }
                step = 3;
            } else if 0xF0 <= b && b <= 0xF7 {
                if n - i <= 3 || !(0x80 <= bytes[i + 1] && bytes[i + 1] <= 0xBF) || !(0x80
                    <= bytes[i + 2] && bytes[i + 2] <= 0xBF) || !(0x80 <= bytes[i + 3]
                    && bytes[i + 3] <= 0xBF) || (b == 0xF0 && bytes[i + 1] < 0x90) {
                    return false;
                }
                step = 4;
            } else {
                return false;
            }
            proof {
                lemma_skip_skip(bytes@, i as int, step as int);
            }
            i = i + step;
        }
        true
    }

    /// The Shift-JIS scanner.
    pub fn is_valid_shift_jis(bytes: &[u8]) -> (r: bool)
        ensures
            r == sjis_scan_ok(bytes@),
    {
        let n = bytes.len();
        let mut i: usize = 0;
        assert(bytes@.skip(0) =~= bytes@);
        while i < n
            invariant
                n == bytes@.len(),
                i <= n,
                sjis_scan_ok(bytes@) == sjis_scan_ok(bytes@.skip(i as int)),
            decreases n - i,
        {
            let b = bytes[i];
            let step: usize;
            if b <= 0x7F || (0xA1 <= b && b <= 0xDF) {
                step = 1;
            } else if (0x81 <= b && b <= 0x9F) || (0xE0 <= b && b <= 0xEF) {
                if i + 1 >= n {
                    return false;
                }
                let second = bytes[i + 1];
                if !((0x40 <= second && second <= 0x7E) || (0x80 <= second && second <= 0xFC)) {
                    return false;
                }
                step = 2;
            } else {
                return false;
            }
            proof {
                lemma_skip_skip(bytes@, i as int, step as int);
            }
            i = i + step;
        }
        true
    }

    /// Number of bytes outside the printable set.
    pub fn count_non_printable(bytes: &[u8]) -> (r: usize)
        ensures
            r == non_printable_count(bytes@),
            r <= bytes@.len(),
    {
        let mut count: usize = 0;
        let mut i: usize = 0;
        while i < bytes.len()
            invariant
                i <= bytes@.len(),
                count <= i,
                count == non_printable_count(bytes@.take(i as int)),
            decreases bytes@.len() - i,
        {
            assert(bytes@.take(i + 1).drop_last() =~= bytes@.take(i as int));
            if !Self::is_printable_ascii(bytes[i]) {
                count += 1;
            }
            i += 1;
        }
        assert(bytes@.take(bytes@.len() as int) =~= bytes@);
        count
    }

    /// Printable ASCII, or newline, carriage return or tab.
    pub fn is_printable_ascii(byte: u8) -> (r: bool)
        ensures
            r == is_printable(byte),
    {
        (32 <= byte && byte <= 126) || byte == 10 || byte == 13 || byte == 9
    }
}

} // verus!
