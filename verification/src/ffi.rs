//! Conversions between host text and the null-terminated unit sequences
//! that a C interface takes and hands out.
//!
//! Outbound, a path or a string becomes its units followed by exactly one
//! terminator; content that already holds a terminator is refused, because
//! the native side would read it as a shorter string. Inbound, a borrowed
//! buffer is read up to its first terminator and must be UTF-8.

use vstd::prelude::*;
use vstd::slice::slice_subrange;
use vstd::utf8::{
    decode_utf8, encode_scalar, encode_utf8, has_width_1_encoding, last_continuation_byte,
    leading_byte_width_1, leading_byte_width_2, leading_byte_width_3, leading_byte_width_4,
    second_last_continuation_byte, third_last_continuation_byte, valid_utf8,
};

verus! {

/// A broken promise between the host and the native side. None of them can
/// be repaired where it is found: the caller is expected to fail loudly.
#[derive(Clone, Copy, Debug, PartialEq, Eq, Structural)]
pub enum Violation {
    /// Content bound for the native side holds the terminator itself.
    NulByte,
    /// A buffer borrowed from the native side ends without a terminator.
    Unterminated,
    /// The content of a buffer borrowed from the native side is not UTF-8.
    InvalidUtf8,
}

impl Violation {
    /// What a caller that fails on this violation reports.
    pub open spec fn reported(self) -> Seq<char> {
        match self {
            Violation::NulByte => "found null byte"@,
            Violation::Unterminated => "found no terminator"@,
            Violation::InvalidUtf8 => "found invalid UTF-8"@,
        }
    }

    /// The message to fail with.
    pub fn message(&self) -> (message: &'static str)
        ensures
            message@ == self.reported(),
    {
        match self {
            Violation::NulByte => "found null byte",
            Violation::Unterminated => "found no terminator",
            Violation::InvalidUtf8 => "found invalid UTF-8",
        }
    }
}

/// The unit of a narrow native path: a C `char`, taken as signed.
pub type COsString = i8;

/// The signed unit with the bit pattern of `byte`.
pub open spec fn c_char(byte: u8) -> i8 {
    if byte < 0x80 {
        byte as i8
    } else {
        (byte - 0x100) as i8
    }
}

/// The byte with the bit pattern of `unit`.
pub open spec fn byte_of(unit: i8) -> u8 {
    if unit >= 0 {
        unit as u8
    } else {
        (unit + 0x100) as u8
    }
}

/// The narrow native form of a path without terminator in it: each byte as
/// a signed unit, then the terminator.
pub open spec fn narrow_units(path: Seq<u8>) -> Seq<i8> {
    path.map_values(|byte: u8| c_char(byte)).push(0i8)
}

/// The wide native form of a path without terminator in it: its UTF-16 code
/// units as they are, then the terminator.
pub open spec fn wide_units(path: Seq<u16>) -> Seq<u16> {
    path.push(0u16)
}

/// The C string of a text without null byte in it: its UTF-8 bytes, then the
/// terminator.
pub open spec fn c_string(text: Seq<char>) -> Seq<u8> {
    encode_utf8(text).push(0u8)
}

/// What encoding the raw bytes of a path for a narrow target gives.
pub open spec fn encoded_path(path: Seq<u8>) -> Result<Seq<i8>, Violation> {
    if path.contains(0u8) {
        Err(Violation::NulByte)
    } else {
        Ok(narrow_units(path))
    }
}

/// What encoding the UTF-16 code units of a path for a wide target gives.
pub open spec fn encoded_wide_path(path: Seq<u16>) -> Result<Seq<u16>, Violation> {
    if path.contains(0u16) {
        Err(Violation::NulByte)
    } else {
        Ok(wide_units(path))
    }
}

/// What encoding a text for a C interface gives.
pub open spec fn encoded_text(text: Seq<char>) -> Result<Seq<u8>, Violation> {
    if encode_utf8(text).contains(0u8) {
        Err(Violation::NulByte)
    } else {
        Ok(c_string(text))
    }
}

/// Whether `at` is where the first terminator of `buffer` stands.
pub open spec fn first_nul(buffer: Seq<u8>, at: int) -> bool {
    &&& 0 <= at < buffer.len()
    &&& buffer[at] == 0u8
    &&& forall|j: int| 0 <= j < at ==> buffer[j] != 0u8
}

/// The content of a buffer that holds a terminator: the bytes before the
/// first one.
pub open spec fn c_content(buffer: Seq<u8>) -> Seq<u8>
    recommends
        buffer.contains(0u8),
{
    buffer.subrange(0, choose|at: int| first_nul(buffer, at))
}

/// What decoding a possibly-null pointer to a C string gives. A null pointer
/// stands for absent text and is no violation.
pub open spec fn decoded(pointee: Option<Seq<u8>>) -> Result<Option<Seq<char>>, Violation> {
    match pointee {
        None => Ok(None),
        Some(buffer) => if !buffer.contains(0u8) {
            Err(Violation::Unterminated)
        } else if !valid_utf8(c_content(buffer)) {
            Err(Violation::InvalidUtf8)
        } else {
            Ok(Some(decode_utf8(c_content(buffer))))
        },
    }
}

/// The raw bytes that a narrow native path stands for: the units before its
/// last one, each taken as unsigned.
pub open spec fn path_of(units: Seq<i8>) -> Seq<u8> {
    units.drop_last().map_values(|unit: i8| byte_of(unit))
}

/// Reinterprets a byte as a signed C `char`. The bit pattern is kept.
pub fn to_c_char(byte: u8) -> (unit: i8)
    ensures
        unit == c_char(byte),
        byte_of(unit) == byte,
{
    if byte < 0x80 {
        byte as i8
    } else {
        (byte as i16 - 0x100) as i8
    }
}

/// Encodes the raw bytes of a path for a narrow target, where a native path
/// is a sequence of C `char`.
///
/// Fails with [`Violation::NulByte`] exactly when the path holds a zero byte,
/// wherever it stands.
pub fn encode_path(path: &[u8]) -> (units: Result<Vec<i8>, Violation>)
    ensures
        match units {
            Ok(native) => encoded_path(path@) == Ok::<Seq<i8>, Violation>(native@),
            Err(violation) => encoded_path(path@) == Err::<Seq<i8>, Violation>(violation),
        },
{
    let mut native: Vec<i8> = Vec::new();
    let mut i: usize = 0;
    while i < path.len()
        invariant
            i <= path.len(),
            native@.len() == i,
            forall|j: int| 0 <= j < i ==> path@[j] != 0u8,
            forall|j: int| 0 <= j < i ==> native@[j] == c_char(path@[j]),
        decreases path.len() - i,
    {
        let byte = path[i];
        if byte == 0 {
            return Err(Violation::NulByte);
        }
        native.push(to_c_char(byte));
        i += 1;
    }
    native.push(0);
    assert(native@ == narrow_units(path@));
    Ok(native)
}

/// Encodes the UTF-16 code units of a path for a wide target, where a native
/// path is a sequence of 16-bit units.
///
/// Fails with [`Violation::NulByte`] exactly when the path holds a zero unit,
/// wherever it stands.
pub fn encode_wide_path(path: &[u16]) -> (units: Result<Vec<u16>, Violation>)
    ensures
        match units {
            Ok(native) => encoded_wide_path(path@) == Ok::<Seq<u16>, Violation>(native@),
            Err(violation) => encoded_wide_path(path@) == Err::<Seq<u16>, Violation>(violation),
        },
{
    let mut native: Vec<u16> = Vec::new();
    let mut i: usize = 0;
    while i < path.len()
        invariant
            i <= path.len(),
            native@.len() == i,
            forall|j: int| 0 <= j < i ==> path@[j] != 0u16,
            forall|j: int| 0 <= j < i ==> native@[j] == path@[j],
        decreases path.len() - i,
    {
        let unit = path[i];
        if unit == 0 {
            return Err(Violation::NulByte);
        }
        native.push(unit);
        i += 1;
    }
    native.push(0);
    assert(native@ == wide_units(path@));
    Ok(native)
}

/// Encodes a text for a C interface parameter: its UTF-8 bytes and one
/// terminator.
///
/// Fails with [`Violation::NulByte`] exactly when the text's UTF-8 form holds
/// a zero byte, wherever it stands.
pub fn encode_text(text: &str) -> (units: Result<Vec<u8>, Violation>)
    ensures
        match units {
            Ok(native) => encoded_text(text@) == Ok::<Seq<u8>, Violation>(native@),
            Err(violation) => encoded_text(text@) == Err::<Seq<u8>, Violation>(violation),
        },
{
    let bytes = text.as_bytes();
    let mut native: Vec<u8> = Vec::new();
    let mut i: usize = 0;
    while i < bytes.len()
        invariant
            i <= bytes.len(),
            bytes@ == encode_utf8(text@),
            native@.len() == i,
            forall|j: int| 0 <= j < i ==> bytes@[j] != 0u8,
            forall|j: int| 0 <= j < i ==> native@[j] == bytes@[j],
        decreases bytes.len() - i,
    {
        let byte = bytes[i];
        if byte == 0 {
            assert(encode_utf8(text@)[i as int] == 0u8);
            return Err(Violation::NulByte);
        }
        native.push(byte);
        i += 1;
    }
    native.push(0);
    assert(native@ == c_string(text@));
    Ok(native)
}

/// The error of `core::str::from_utf8`, carried through unread.
#[verifier::external_type_specification]
#[verifier::external_body]
pub struct ExUtf8Error(core::str::Utf8Error);

/// `core::str::from_utf8` succeeds exactly on the byte slices that are valid
/// UTF-8, and the string slice it then returns is made of those same bytes.
pub assume_specification[ core::str::from_utf8 ](v: &[u8]) -> (text: Result<
    &str,
    core::str::Utf8Error,
>)
    ensures
        text is Ok <==> valid_utf8(v@),
        text matches Ok(s) ==> encode_utf8(s@) == v@,
;

/// A buffer that holds a terminator has a first one.
pub proof fn lemma_first_nul_exists(buffer: Seq<u8>, at: int)
    requires
        0 <= at < buffer.len(),
        buffer[at] == 0u8,
    ensures
        exists|first: int| first_nul(buffer, first) && first <= at,
    decreases at,
{
    if exists|j: int| 0 <= j < at && buffer[j] == 0u8 {
        let j = choose|j: int| 0 <= j < at && buffer[j] == 0u8;
        lemma_first_nul_exists(buffer, j);
    } else {
        assert(first_nul(buffer, at));
    }
}

/// The first terminator of a buffer stands in one place only.
pub proof fn lemma_first_nul_unique(buffer: Seq<u8>, a: int, b: int)
    requires
        first_nul(buffer, a),
        first_nul(buffer, b),
    ensures
        a == b,
{
}

/// Decodes the text behind a possibly-null pointer to a foreign C string.
///
/// `None` stands for the null pointer and gives `Ok(None)`. `Some(buffer)`
/// stands for a pointer to the first byte of `buffer`: the bytes before the
/// first terminator are the content, and what lies behind it is not read.
/// The content must be UTF-8, else the result is [`Violation::InvalidUtf8`]; a
/// buffer without terminator gives [`Violation::Unterminated`]. The text that
/// is returned borrows from the buffer.
pub fn decode_borrowed<'a>(pointer: Option<&'a [u8]>) -> (text: Result<Option<&'a str>, Violation>)
    ensures
        match text {
            Ok(Some(s)) => decoded(pointer.pointee()) == Ok::<Option<Seq<char>>, Violation>(
                Some(s@),
            ),
            Ok(None) => decoded(pointer.pointee()) == Ok::<Option<Seq<char>>, Violation>(None),
            Err(violation) => decoded(pointer.pointee()) == Err::<Option<Seq<char>>, Violation>(
                violation,
            ),
        },
{
    let buffer = match pointer {
        Some(buffer) => buffer,
        None => {
            return Ok(None);
        },
    };
    let mut end: usize = 0;
    while end < buffer.len() && buffer[end] != 0
        invariant
            end <= buffer.len(),
            forall|j: int| 0 <= j < end ==> buffer@[j] != 0u8,
        decreases buffer.len() - end,
    {
        end += 1;
    }
    if end == buffer.len() {
        return Err(Violation::Unterminated);
    }
    proof {
        assert(first_nul(buffer@, end as int));
        lemma_first_nul_unique(buffer@, end as int, choose|at: int| first_nul(buffer@, at));
    }
    let content = slice_subrange(buffer, 0, end);
    match core::str::from_utf8(content) {
        Ok(s) => {
            proof {
                vstd::utf8::encode_utf8_decode_utf8(s@);
            }
            Ok(Some(s))
        },
        Err(_) => Err(Violation::InvalidUtf8),
    }
}

/// A path that can be handed to the native side.
///
/// The library takes a path as the units that the host's path type holds: raw
/// bytes where native paths are narrow, UTF-16 code units where they are wide.
pub trait CPath: Sized {
    /// The unit of the native path.
    type Unit;

    /// What encoding this path gives.
    spec fn encoded(&self) -> Result<Seq<Self::Unit>, Violation>;

    /// Re-encodes `self` into a null-terminated sequence of native units.
    ///
    /// The path must hold no null unit; [`encode_path`] and
    /// [`encode_wide_path`] take any path and report one that does.
    fn into_os_vec(self) -> (units: Vec<Self::Unit>)
        requires
            self.encoded() is Ok,
        ensures
            self.encoded() == Ok::<Seq<Self::Unit>, Violation>(units@),
    ;
}

impl CPath for Vec<u8> {
    type Unit = COsString;

    open spec fn encoded(&self) -> Result<Seq<COsString>, Violation> {
        encoded_path(self@)
    }

    fn into_os_vec(self) -> (units: Vec<COsString>) {
        match encode_path(self.as_slice()) {
            Ok(units) => units,
            Err(_) => unreached(),
        }
    }
}

impl CPath for Vec<u16> {
    type Unit = u16;

    open spec fn encoded(&self) -> Result<Seq<u16>, Violation> {
        encoded_wide_path(self@)
    }

    fn into_os_vec(self) -> (units: Vec<u16>) {
        match encode_wide_path(self.as_slice()) {
            Ok(units) => units,
            Err(_) => unreached(),
        }
    }
}

/// A possibly-null pointer to a foreign C string, to be read as host text.
pub trait CToR<'a>: Sized {
    /// What the pointer leads to: nothing, or the bytes that lie from its
    /// address on.
    spec fn pointee(&self) -> Option<Seq<u8>>;

    /// Yields the text that `self` points to, or `None` for the null pointer.
    ///
    /// The buffer must hold a terminator and UTF-8 before it;
    /// [`decode_borrowed`] takes any buffer and reports one that does not.
    fn as_str(self) -> (text: Option<&'a str>)
        requires
            decoded(self.pointee()) is Ok,
        ensures
            match text {
                Some(s) => decoded(self.pointee()) == Ok::<Option<Seq<char>>, Violation>(
                    Some(s@),
                ),
                None => decoded(self.pointee()) == Ok::<Option<Seq<char>>, Violation>(None),
            },
    ;
}

impl<'a> CToR<'a> for Option<&'a [u8]> {
    open spec fn pointee(&self) -> Option<Seq<u8>> {
        match *self {
            Some(buffer) => Some(buffer@),
            None => None,
        }
    }

    fn as_str(self) -> (text: Option<&'a str>) {
        match decode_borrowed(self) {
            Ok(text) => text,
            Err(_) => unreached(),
        }
    }
}

/// Host text that can be handed to the native side as a C string.
pub trait RToC: Sized {
    /// The characters of the text.
    spec fn text(&self) -> Seq<char>;

    /// Re-encodes `self` into an owned C string: its UTF-8 bytes and one
    /// terminator.
    ///
    /// The text must hold no null byte; [`encode_text`] takes any text and
    /// reports one that does.
    fn into_cstring(self) -> (units: Vec<u8>)
        requires
            encoded_text(self.text()) is Ok,
        ensures
            encoded_text(self.text()) == Ok::<Seq<u8>, Violation>(units@),
    ;
}

impl RToC for String {
    open spec fn text(&self) -> Seq<char> {
        self@
    }

    fn into_cstring(self) -> (units: Vec<u8>) {
        match encode_text(self.as_str()) {
            Ok(units) => units,
            Err(_) => unreached(),
        }
    }
}

/// Decides what the boundary does once work that ran under it has ended.
///
/// Work that returned hands its result on unchanged: `Some` of it. Work that
/// unwound must not unwind further, into the native frames below: `None`
/// tells the caller to end the process, with no cleanup and no other code of
/// the host run before.
pub fn contain<R, E>(outcome: Result<R, E>) -> (ret: Option<R>)
    ensures
        ret == match outcome {
            Ok(ret) => Some(ret),
            Err(_) => None::<R>,
        },
    no_unwind
{
    match outcome {
        Ok(ret) => Some(ret),
        Err(_) => None,
    }
}

/// The signed unit of a byte has the bits of the byte: casting either to the
/// other type gives the other, and the two conversions undo each other.
pub proof fn lemma_c_char_keeps_bits(byte: u8, unit: i8)
    ensures
        c_char(byte) == byte as i8,
        byte_of(unit) == unit as u8,
        byte_of(c_char(byte)) == byte,
        c_char(byte_of(unit)) == unit,
        c_char(byte) == 0 <==> byte == 0,
{
    assert(c_char(byte) == byte as i8) by (bit_vector);
    assert(byte_of(unit) == unit as u8) by (bit_vector);
}

/// In the UTF-8 form of a scalar only the first byte of a one-byte form can be
/// zero, and it is zero for the scalar zero alone.
proof fn lemma_scalar_bytes(scalar: u32)
    by (bit_vector)
    ensures
        has_width_1_encoding(scalar) ==> (leading_byte_width_1(scalar) == 0 <==> scalar == 0),
        leading_byte_width_2(scalar) != 0,
        leading_byte_width_3(scalar) != 0,
        leading_byte_width_4(scalar) != 0,
        last_continuation_byte(scalar) != 0,
        second_last_continuation_byte(scalar) != 0,
        third_last_continuation_byte(scalar) != 0,
{
}

/// The UTF-8 form of a character holds a zero byte exactly when the character
/// is the null character.
pub proof fn lemma_nul_in_scalar(c: char)
    ensures
        encode_scalar(c as u32).contains(0u8) <==> c == '\0',
{
    let scalar = c as u32;
    let bytes = encode_scalar(scalar);
    lemma_scalar_bytes(scalar);
    vstd::utf8::char_is_scalar(c);
    if c == '\0' {
        assert(has_width_1_encoding(scalar));
        assert(bytes[0] == 0u8);
    } else {
        assert forall|i: int| 0 <= i < bytes.len() implies bytes[i] != 0u8 by {}
    }
}

/// The UTF-8 form of a text holds a zero byte exactly when the text holds the
/// null character.
pub proof fn lemma_nul_in_text(text: Seq<char>)
    ensures
        encode_utf8(text).contains(0u8) <==> text.contains('\0'),
    decreases text.len(),
{
    if text.len() > 0 {
        let head = encode_scalar(text[0] as u32);
        let rest = text.drop_first();
        lemma_nul_in_scalar(text[0]);
        lemma_nul_in_text(rest);
        assert(encode_utf8(text) == head + encode_utf8(rest));
        if encode_utf8(text).contains(0u8) {
            let i = choose|i: int| 0 <= i < encode_utf8(text).len() && encode_utf8(text)[i] == 0u8;
            if i < head.len() {
                assert(head[i] == 0u8);
                assert(text[0] == '\0');
            } else {
                assert(encode_utf8(rest)[i - head.len()] == 0u8);
                let j = choose|j: int| 0 <= j < rest.len() && rest[j] == '\0';
                assert(text[j + 1] == '\0');
            }
        }
        if text.contains('\0') {
            let j = choose|j: int| 0 <= j < text.len() && text[j] == '\0';
            if j == 0 {
                let i = choose|i: int| 0 <= i < head.len() && head[i] == 0u8;
                assert(encode_utf8(text)[i] == 0u8);
            } else {
                assert(rest[j - 1] == '\0');
                let i = choose|i: int|
                    0 <= i < encode_utf8(rest).len() && encode_utf8(rest)[i] == 0u8;
                assert(encode_utf8(text)[head.len() + i] == 0u8);
            }
        }
    }
}

/// Encoding a path without null byte for a narrow target and reading the
/// units back, without the terminator, gives the path again. The terminator
/// is the last unit and the only null unit.
pub proof fn lemma_path_round_trip(path: Seq<u8>)
    requires
        !path.contains(0u8),
    ensures
        encoded_path(path) == Ok::<Seq<i8>, Violation>(narrow_units(path)),
        path_of(narrow_units(path)) == path,
        narrow_units(path).last() == 0i8,
        !narrow_units(path).drop_last().contains(0i8),
{
    let units = narrow_units(path);
    assert(units.drop_last() == path.map_values(|byte: u8| c_char(byte)));
    assert(path_of(units) == path);
    assert forall|i: int| 0 <= i < units.drop_last().len() implies units.drop_last()[i]
        != 0i8 by {
        assert(path[i] != 0u8);
    }
}

/// Encoding a path without null unit for a wide target and dropping the
/// terminator gives the path again. The terminator is the last unit and the
/// only null unit.
pub proof fn lemma_wide_path_round_trip(path: Seq<u16>)
    requires
        !path.contains(0u16),
    ensures
        encoded_wide_path(path) == Ok::<Seq<u16>, Violation>(wide_units(path)),
        wide_units(path).drop_last() == path,
        wide_units(path).last() == 0u16,
{
}

/// Encoding a text without null character as a C string and decoding a
/// pointer to that string gives the text again. The terminator is the last
/// byte and the only null byte.
pub proof fn lemma_text_round_trip(text: Seq<char>)
    requires
        !text.contains('\0'),
    ensures
        encoded_text(text) == Ok::<Seq<u8>, Violation>(c_string(text)),
        decoded(Some(c_string(text))) == Ok::<Option<Seq<char>>, Violation>(Some(text)),
        first_nul(c_string(text), c_string(text).len() - 1),
{
    let bytes = encode_utf8(text);
    let buffer = c_string(text);
    lemma_nul_in_text(text);
    assert(buffer[bytes.len() as int] == 0u8);
    assert(first_nul(buffer, bytes.len() as int));
    lemma_first_nul_unique(buffer, bytes.len() as int, choose|at: int| first_nul(buffer, at));
    assert(c_content(buffer) == bytes);
    vstd::utf8::encode_utf8_valid_utf8(text);
    vstd::utf8::encode_utf8_decode_utf8(text);
}

/// Text that was decoded from a buffer can be encoded, and encodes to the
/// content of that buffer and one terminator.
pub proof fn lemma_decoded_text_encodes_back(buffer: Seq<u8>, text: Seq<char>)
    requires
        decoded(Some(buffer)) == Ok::<Option<Seq<char>>, Violation>(Some(text)),
    ensures
        !text.contains('\0'),
        encoded_text(text) == Ok::<Seq<u8>, Violation>(c_content(buffer).push(0u8)),
{
    let at = choose|i: int| 0 <= i < buffer.len() && buffer[i] == 0u8;
    lemma_first_nul_exists(buffer, at);
    let content = c_content(buffer);
    vstd::utf8::decode_utf8_encode_utf8(content);
    assert forall|i: int| 0 <= i < content.len() implies content[i] != 0u8 by {
        assert(content[i] == buffer[i]);
    }
    lemma_nul_in_text(text);
}

/// Decoding reads the content before the first terminator and nothing else:
/// UTF-8 there gives the text it encodes, anything else is refused, and what
/// lies behind the terminator makes no difference.
pub proof fn lemma_decoding_stops_at_terminator(content: Seq<u8>, behind: Seq<u8>)
    requires
        !content.contains(0u8),
    ensures
        c_content(content.push(0u8) + behind) == content,
        decoded(Some(content.push(0u8) + behind)) == decoded(Some(content.push(0u8))),
        decoded(Some(content.push(0u8) + behind)) == if valid_utf8(content) {
            Ok::<Option<Seq<char>>, Violation>(Some(decode_utf8(content)))
        } else {
            Err::<Option<Seq<char>>, Violation>(Violation::InvalidUtf8)
        },
{
    let short = content.push(0u8);
    let long = short + behind;
    let end = content.len() as int;
    assert(short[end] == 0u8);
    assert(long[end] == 0u8);
    assert forall|j: int| 0 <= j < end implies short[j] != 0u8 && long[j] != 0u8 by {
        assert(content[j] != 0u8);
    }
    assert(first_nul(short, end));
    assert(first_nul(long, end));
    lemma_first_nul_unique(short, end, choose|at: int| first_nul(short, at));
    lemma_first_nul_unique(long, end, choose|at: int| first_nul(long, at));
    assert(c_content(short) == content);
    assert(c_content(long) == content);
}

/// A path with a null byte in any place is refused for a narrow target.
pub proof fn lemma_nul_byte_refused(path: Seq<u8>, at: int)
    requires
        0 <= at < path.len(),
        path[at] == 0u8,
    ensures
        encoded_path(path) == Err::<Seq<i8>, Violation>(Violation::NulByte),
{
}

/// A path with a null unit in any place is refused for a wide target.
pub proof fn lemma_nul_unit_refused(path: Seq<u16>, at: int)
    requires
        0 <= at < path.len(),
        path[at] == 0u16,
    ensures
        encoded_wide_path(path) == Err::<Seq<u16>, Violation>(Violation::NulByte),
{
}

/// A text with the null character in any place is refused.
pub proof fn lemma_nul_char_refused(text: Seq<char>, at: int)
    requires
        0 <= at < text.len(),
        text[at] == '\0',
    ensures
        encoded_text(text) == Err::<Seq<u8>, Violation>(Violation::NulByte),
{
    lemma_nul_in_text(text);
}

} // verus!
