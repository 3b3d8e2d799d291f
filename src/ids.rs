//! Fixed-width random identifiers with a lowercase hex text form.
use vstd::prelude::*;

use crate::random::random_bytes;

verus! {

/// The hex digit for a value below sixteen (lowercase letters).
pub open spec fn hex_digit(n: u8) -> char {
    if n < 10 {
        (n + 48) as char
    } else {
        (n + 87) as char
    }
}

/// Whether `c` is a hex digit in either case.
pub open spec fn is_hex_char(c: char) -> bool {
    ('0' <= c && c <= '9') || ('a' <= c && c <= 'f') || ('A' <= c && c <= 'F')
}

/// The value of a hex digit in either case.
pub open spec fn hex_value(c: char) -> int {
    if '0' <= c && c <= '9' {
        c as int - 48
    } else if 'a' <= c && c <= 'f' {
        c as int - 87
    } else {
        c as int - 55
    }
}

/// Lowercase hex text of a byte string: two digits per byte, high nibble first.
pub open spec fn hex_encode(b: Seq<u8>) -> Seq<char> {
    Seq::new(
        2 * b.len(),
        |i: int|
            if i % 2 == 0 {
                hex_digit(b[i / 2] / 16)
            } else {
                hex_digit(b[i / 2] % 16)
            },
    )
}

/// Whether `s` is the hex text of exactly `n` bytes.
pub open spec fn is_hex_of_len(s: Seq<char>, n: nat) -> bool {
    &&& s.len() == 2 * n
    &&& forall|i: int| 0 <= i < s.len() ==> #[trigger] is_hex_char(s[i])
}

/// Whether every character of `s` is ASCII (one byte in UTF-8).
pub open spec fn is_ascii_text(s: Seq<char>) -> bool {
    forall|i: int| 0 <= i < s.len() ==> (#[trigger] s[i] as u32) < 128
}

/// The bytes that hex text stands for: each pair of digits gives one byte.
pub open spec fn hex_decode(s: Seq<char>) -> Seq<u8> {
    Seq::new(s.len() / 2, |i: int| (hex_value(s[2 * i]) * 16 + hex_value(s[2 * i + 1])) as u8)
}

/// Why identifier text was not accepted.
#[derive(Debug, Clone, Copy, PartialEq, Eq, Structural)]
pub enum IdParseError {
    /// A character that is no hex digit, and its byte offset.
    InvalidHexCharacter { c: char, index: usize },
    /// The text has an odd number of digits.
    OddLength,
    /// The text has an even number of digits, but not two per byte of the identifier.
    InvalidStringLength,
}

#[verifier::external_type_specification]
pub struct ExFromHexError(hex::FromHexError);

/// Relies on hex::encode: lowercase digits, two per byte, high nibble first.
#[verifier::external_body]
fn encode_hex<const N: usize>(b: &[u8; N]) -> (r: String)
    ensures
        r@ == hex_encode(b@),
{
    hex::encode(b)
}

/// Relies on hex::decode_to_slice into a buffer of `N` bytes: it accepts
/// exactly the text of `2 * N` hex digits of either case, checks an odd length
/// first and the length next, and writes the value of each pair of digits.
/// Text with a character outside ASCII has a byte that is no hex digit.
#[verifier::external_body]
fn decode_hex<const N: usize>(s: &str) -> (r: Result<[u8; N], hex::FromHexError>)
    ensures
        r is Ok <==> is_hex_of_len(s@, N as nat),
        r is Ok ==> r->Ok_0@ == hex_decode(s@),
        is_ascii_text(s@) && s@.len() % 2 == 1 ==> r matches Err(hex::FromHexError::OddLength),
        is_ascii_text(s@) && s@.len() % 2 == 0 && s@.len() != 2 * N ==> r matches Err(hex::FromHexError::InvalidStringLength),
{
    let mut buf = [0u8; N];
    hex::decode_to_slice(s, &mut buf).map(|_| buf)
}

/// Maps the decoder's error to the library's own.
fn parse_error(e: hex::FromHexError) -> (r: IdParseError)
    ensures
        e == hex::FromHexError::OddLength ==> r == IdParseError::OddLength,
        e == hex::FromHexError::InvalidStringLength ==> r == IdParseError::InvalidStringLength,
{
    match e {
        hex::FromHexError::InvalidHexCharacter { c, index } => IdParseError::InvalidHexCharacter {
            c,
            index,
        },
        hex::FromHexError::OddLength => IdParseError::OddLength,
        hex::FromHexError::InvalidStringLength => IdParseError::InvalidStringLength,
    }
}

/// Compares two byte arrays element by element.
fn bytes_equal<const N: usize>(a: &[u8; N], b: &[u8; N]) -> (r: bool)
    ensures
        r == (a@ == b@),
{
    let mut i: usize = 0;
    while i < N
        invariant
            a@.len() == N,
            b@.len() == N,
            i <= N,
            forall|j: int| 0 <= j < i ==> a@[j] == b@[j],
        decreases N - i,
    {
        if a[i] != b[i] {
            return false;
        }
        i = i + 1;
    }
    assert(a@ =~= b@);
    true
}

/// The identifier of a span: eight random bytes.
#[derive(Debug, Clone, Copy, Eq, Hash)]
pub struct SpanId([u8; 8]);

impl View for SpanId {
    type V = Seq<u8>;

    closed spec fn view(&self) -> Seq<u8> {
        self.0@
    }
}

impl PartialEq for SpanId {
    fn eq(&self, o: &SpanId) -> (r: bool) {
        bytes_equal(&self.0, &o.0)
    }
}

impl vstd::std_specs::cmp::PartialEqSpecImpl for SpanId {
    open spec fn obeys_eq_spec() -> bool {
        true
    }

    open spec fn eq_spec(&self, o: &SpanId) -> bool {
        self@ == o@
    }
}

impl SpanId {
    /// A fresh identifier of eight random bytes.
    pub fn generate() -> (r: Self)
        ensures
            r@.len() == 8,
    {
        SpanId(random_bytes())
    }

    pub fn from_bytes(bytes: [u8; 8]) -> (r: Self)
        ensures
            r@ == bytes@,
            r@.len() == 8,
    {
        SpanId(bytes)
    }

    pub fn to_bytes(&self) -> (r: [u8; 8])
        ensures
            r@ == self@,
    {
        self.0
    }

    /// The lowercase hex text of the identifier.
    pub fn to_hex(&self) -> (r: String)
        ensures
            r@ == hex_encode(self@),
    {
        encode_hex(&self.0)
    }

    /// Reads the identifier back from sixteen hex digits of either case.
    pub fn parse(s: &str) -> (r: Result<Self, IdParseError>)
        ensures
            r is Ok <==> is_hex_of_len(s@, 8),
            r is Ok ==> r->Ok_0@ == hex_decode(s@),
            is_ascii_text(s@) && s@.len() % 2 == 1 ==> r matches Err(IdParseError::OddLength),
            is_ascii_text(s@) && s@.len() % 2 == 0 && s@.len() != 16 ==> r matches Err(IdParseError::InvalidStringLength),
    {
        match decode_hex::<8>(s) {
            Ok(b) => Ok(SpanId(b)),
            Err(e) => Err(parse_error(e)),
        }
    }
}

/// The identifier of a trace: sixteen random bytes.
#[derive(Debug, Clone, Copy, Eq, Hash)]
pub struct TraceId([u8; 16]);

impl View for TraceId {
    type V = Seq<u8>;

    closed spec fn view(&self) -> Seq<u8> {
        self.0@
    }
}

impl PartialEq for TraceId {
    fn eq(&self, o: &TraceId) -> (r: bool) {
        bytes_equal(&self.0, &o.0)
    }
}

impl vstd::std_specs::cmp::PartialEqSpecImpl for TraceId {
    open spec fn obeys_eq_spec() -> bool {
        true
    }

    open spec fn eq_spec(&self, o: &TraceId) -> bool {
        self@ == o@
    }
}

impl TraceId {
    /// A fresh identifier of sixteen random bytes.
    pub fn generate() -> (r: Self)
        ensures
            r@.len() == 16,
    {
        TraceId(random_bytes())
    }

    pub fn from_bytes(bytes: [u8; 16]) -> (r: Self)
        ensures
            r@ == bytes@,
            r@.len() == 16,
    {
        TraceId(bytes)
    }

    pub fn to_bytes(&self) -> (r: [u8; 16])
        ensures
            r@ == self@,
    {
        self.0
    }

    /// The lowercase hex text of the identifier.
    pub fn to_hex(&self) -> (r: String)
        ensures
            r@ == hex_encode(self@),
    {
        encode_hex(&self.0)
    }

    /// Reads the identifier back from thirty-two hex digits of either case.
    pub fn parse(s: &str) -> (r: Result<Self, IdParseError>)
        ensures
            r is Ok <==> is_hex_of_len(s@, 16),
            r is Ok ==> r->Ok_0@ == hex_decode(s@),
            is_ascii_text(s@) && s@.len() % 2 == 1 ==> r matches Err(IdParseError::OddLength),
            is_ascii_text(s@) && s@.len() % 2 == 0 && s@.len() != 32 ==> r matches Err(IdParseError::InvalidStringLength),
    {
        match decode_hex::<16>(s) {
            Ok(b) => Ok(TraceId(b)),
            Err(e) => Err(parse_error(e)),
        }
    }
}

/// Encoding a byte string as hex text gives text of two valid digits per
/// byte, and decoding that text gives the byte string back.
pub proof fn lemma_hex_round_trip(b: Seq<u8>)
    ensures
        is_hex_of_len(hex_encode(b), b.len()),
        hex_decode(hex_encode(b)) == b,
{
    let s = hex_encode(b);
    assert forall|i: int| 0 <= i < s.len() implies #[trigger] is_hex_char(s[i]) by {
        let x = b[i / 2];
        assert(x / 16 < 16 && x % 16 < 16);
    }
    assert forall|i: int| 0 <= i < b.len() implies #[trigger] hex_decode(s)[i] == b[i] by {
        let x = b[i];
        assert((2 * i) / 2 == i && (2 * i + 1) / 2 == i);
        assert((2 * i) % 2 == 0 && (2 * i + 1) % 2 == 1);
        assert(hex_value(hex_digit(x / 16)) == x / 16);
        assert(hex_value(hex_digit(x % 16)) == x % 16);
        assert((x / 16) * 16 + x % 16 == x);
    }
    assert(hex_decode(s) =~= b);
}

/// A span identifier holds eight bytes.
pub proof fn lemma_span_id_len(id: SpanId)
    ensures
        id@.len() == 8,
{
}

/// A trace identifier holds sixteen bytes.
pub proof fn lemma_trace_id_len(id: TraceId)
    ensures
        id@.len() == 16,
{
}

/// Round trip of span identifiers through their hex text.
pub proof fn lemma_span_id_round_trip(id: SpanId)
    ensures
        is_hex_of_len(hex_encode(id@), 8),
        hex_decode(hex_encode(id@)) == id@,
{
    lemma_hex_round_trip(id@);
}

/// Round trip of trace identifiers through their hex text.
pub proof fn lemma_trace_id_round_trip(id: TraceId)
    ensures
        is_hex_of_len(hex_encode(id@), 16),
        hex_decode(hex_encode(id@)) == id@,
{
    lemma_hex_round_trip(id@);
}

} // verus!
