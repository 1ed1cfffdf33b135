//! Marshalling between tagged caller values, the storage engine's native
//! values, and the JSON-shaped cells handed back for result rows.
//!
//! Reals travel as the 64-bit IEEE-754 pattern of the number, so that this
//! module never computes with floating point.
use vstd::prelude::*;
use vstd::utf8::*;

verus! {

/// A statement parameter with an explicit type tag.
#[derive(Debug, Clone)]
pub enum SqlParam {
    Null,
    Bool(bool),
    Int(i64),
    /// The bit pattern of a 64-bit float.
    Real(u64),
    Text(String),
    Blob(Vec<u8>),
}

/// A value as the storage engine binds it.
#[derive(Debug, Clone)]
pub enum NativeValue {
    Null,
    Integer(i64),
    /// The bit pattern of a 64-bit float.
    Real(u64),
    Text(String),
    Blob(Vec<u8>),
}

/// A value as the storage engine reads it back from a result column.
/// Text comes back as raw bytes, which need not be valid UTF-8.
#[derive(Debug, Clone)]
pub enum ColumnValue {
    Null,
    Integer(i64),
    /// The bit pattern of a 64-bit float.
    Real(u64),
    Text(Vec<u8>),
    Blob(Vec<u8>),
}

/// A decoded result cell, in the shapes that JSON can carry.
#[derive(Debug, Clone)]
pub enum CellValue {
    Null,
    Integer(i64),
    /// The bit pattern of a finite 64-bit float.
    Real(u64),
    Text(String),
}

/// True when the bit pattern is neither an infinity nor a NaN: its
/// exponent field is not all ones.
pub open spec fn finite_bits(bits: u64) -> bool {
    (bits >> 52u64) & 0x7ffu64 != 0x7ffu64
}

/// What the encoder binds for a parameter.
pub open spec fn encodes(p: SqlParam, v: NativeValue) -> bool {
    match p {
        SqlParam::Null => v is Null,
        SqlParam::Bool(b) => v == NativeValue::Integer(if b { 1 } else { 0 }),
        SqlParam::Int(i) => v == NativeValue::Integer(i),
        SqlParam::Real(bits) => v == NativeValue::Real(bits),
        SqlParam::Text(s) => v is Text && v->Text_0@ == s@,
        SqlParam::Blob(b) => v is Blob && v->Blob_0@ == b@,
    }
}

/// How the engine hands back a value that was stored from `v`: text as its
/// UTF-8 bytes, everything else as it was.
pub open spec fn stored_as(v: NativeValue, c: ColumnValue) -> bool {
    match v {
        NativeValue::Null => c is Null,
        NativeValue::Integer(i) => c == ColumnValue::Integer(i),
        NativeValue::Real(bits) => c == ColumnValue::Real(bits),
        NativeValue::Text(s) => c is Text && c->Text_0@ == utf8_bytes(s@),
        NativeValue::Blob(b) => c is Blob && c->Blob_0@ == b@,
    }
}

/// The UTF-8 encoding of a character sequence.
pub open spec fn utf8_bytes(s: Seq<char>) -> Seq<u8> {
    encode_utf8(s)
}

/// The standard base64 alphabet (RFC 4648, section 4).
pub open spec fn base64_alphabet() -> Seq<char> {
    "ABCDEFGHIJKLMNOPQRSTUVWXYZabcdefghijklmnopqrstuvwxyz0123456789+/"@
}

/// The character for a 6-bit value.
pub open spec fn base64_digit(v: int) -> char {
    base64_alphabet()[v]
}

/// Standard base64 with padding: each group of three bytes becomes four
/// characters; a last group of one or two bytes is padded with `=`.
pub open spec fn base64_of(b: Seq<u8>) -> Seq<char>
    decreases b.len(),
{
    if b.len() == 0 {
        Seq::empty()
    } else if b.len() == 1 {
        seq![base64_digit((b[0] as int) / 4), base64_digit(((b[0] as int) % 4) * 16), '=', '=']
    } else if b.len() == 2 {
        seq![
            base64_digit((b[0] as int) / 4),
            base64_digit(((b[0] as int) % 4) * 16 + (b[1] as int) / 16),
            base64_digit(((b[1] as int) % 16) * 4),
            '=',
        ]
    } else {
        seq![
            base64_digit((b[0] as int) / 4),
            base64_digit(((b[0] as int) % 4) * 16 + (b[1] as int) / 16),
            base64_digit(((b[1] as int) % 16) * 4 + (b[2] as int) / 64),
            base64_digit((b[2] as int) % 64),
        ] + base64_of(b.subrange(3, b.len() as int))
    }
}

/// Lossy UTF-8 decoding of bytes that are not valid UTF-8: each invalid
/// sequence becomes U+FFFD.
pub uninterp spec fn lossy_utf8_of(b: Seq<u8>) -> Seq<char>;

/// Text decoding that never fails: valid UTF-8 decodes exactly.
pub open spec fn utf8_lossy(b: Seq<u8>) -> Seq<char> {
    if valid_utf8(b) {
        decode_utf8(b)
    } else {
        lossy_utf8_of(b)
    }
}

/// What a result column decodes to.
pub open spec fn decodes(c: ColumnValue, cell: CellValue) -> bool {
    match c {
        ColumnValue::Null => cell is Null,
        ColumnValue::Integer(i) => cell == CellValue::Integer(i),
        ColumnValue::Real(bits) => if finite_bits(bits) {
            cell == CellValue::Real(bits)
        } else {
            cell is Null
        },
        ColumnValue::Text(b) => cell is Text && cell->Text_0@ == utf8_lossy(b@),
        ColumnValue::Blob(b) => cell is Text && cell->Text_0@ == base64_of(b@),
    }
}

impl SqlParam {
    /// The native value that this parameter binds as; booleans bind as 0 or 1.
    pub fn to_sql_value(&self) -> (r: NativeValue)
        ensures
            encodes(*self, r),
    {
        match self {
            SqlParam::Null => NativeValue::Null,
            SqlParam::Bool(b) => NativeValue::Integer(if *b { 1 } else { 0 }),
            SqlParam::Int(i) => NativeValue::Integer(*i),
            SqlParam::Real(bits) => NativeValue::Real(*bits),
            SqlParam::Text(s) => NativeValue::Text(s.clone()),
            SqlParam::Blob(b) => NativeValue::Blob(b.clone()),
        }
    }
}

/// Encodes every parameter of a statement, in order.
pub fn sql_params_to_values(params: &[SqlParam]) -> (r: Vec<NativeValue>)
    ensures
        r@.len() == params@.len(),
        forall|i: int| 0 <= i < params@.len() ==> encodes(#[trigger] params@[i], r@[i]),
{
    let mut out: Vec<NativeValue> = Vec::new();
    let mut i: usize = 0;
    while i < params.len()
        invariant
            i <= params@.len(),
            out@.len() == i,
            forall|j: int| 0 <= j < i ==> encodes(#[trigger] params@[j], out@[j]),
        decreases params@.len() - i,
    {
        out.push(params[i].to_sql_value());
        i = i + 1;
    }
    out
}

/// Relies on base64's `STANDARD` engine: `encode` gives the padded
/// standard-alphabet encoding of RFC 4648 that `base64_of` states.
#[verifier::external_body]
fn encode_base64(b: &Vec<u8>) -> (r: String)
    ensures
        r@ == base64_of(b@),
{
    base64::Engine::encode(&base64::engine::general_purpose::STANDARD, b)
}

/// Relies on `String::from_utf8_lossy`: valid UTF-8 comes back as it is,
/// invalid sequences are replaced.
#[verifier::external_body]
fn decode_utf8_lossy(b: &Vec<u8>) -> (r: String)
    ensures
        r@ == (if valid_utf8(b@) {
            decode_utf8(b@)
        } else {
            lossy_utf8_of(b@)
        }),
{
    String::from_utf8_lossy(b).into_owned()
}

/// Decodes one result column. Never fails: a non-finite real becomes null,
/// invalid text is repaired, a blob becomes its base64 text.
pub fn decode_column(c: &ColumnValue) -> (r: CellValue)
    ensures
        decodes(*c, r),
{
    match c {
        ColumnValue::Null => CellValue::Null,
        ColumnValue::Integer(i) => CellValue::Integer(*i),
        ColumnValue::Real(bits) => {
            if (*bits >> 52u64) & 0x7ffu64 != 0x7ffu64 {
                CellValue::Real(*bits)
            } else {
                CellValue::Null
            }
        },
        ColumnValue::Text(b) => CellValue::Text(decode_utf8_lossy(b)),
        ColumnValue::Blob(b) => CellValue::Text(encode_base64(b)),
    }
}

/// Decodes a whole row, column by column.
pub fn decode_row(raw: &Vec<ColumnValue>) -> (r: Vec<CellValue>)
    ensures
        r@.len() == raw@.len(),
        forall|i: int| 0 <= i < raw@.len() ==> decodes(#[trigger] raw@[i], r@[i]),
{
    let mut out: Vec<CellValue> = Vec::new();
    let mut i: usize = 0;
    while i < raw.len()
        invariant
            i <= raw@.len(),
            out@.len() == i,
            forall|j: int| 0 <= j < i ==> decodes(#[trigger] raw@[j], out@[j]),
        decreases raw@.len() - i,
    {
        out.push(decode_column(&raw[i]));
        i = i + 1;
    }
    out
}

/// What a parameter reads back as after it was stored and decoded.
pub open spec fn round_trips(p: SqlParam, cell: CellValue) -> bool {
    match p {
        SqlParam::Null => cell is Null,
        SqlParam::Bool(b) => cell == CellValue::Integer(if b { 1 } else { 0 }),
        SqlParam::Int(i) => cell == CellValue::Integer(i),
        SqlParam::Real(bits) => cell == CellValue::Real(bits),
        SqlParam::Text(s) => cell is Text && cell->Text_0@ == s@,
        SqlParam::Blob(b) => cell is Text && cell->Text_0@ == base64_of(b@),
    }
}

/// Storing a parameter and decoding the column gives the parameter back:
/// null, integers, finite reals and text unchanged, a blob as its base64
/// text, and a boolean as the integer 0 or 1.
pub proof fn lemma_round_trip(p: SqlParam, v: NativeValue, c: ColumnValue, cell: CellValue)
    requires
        encodes(p, v),
        stored_as(v, c),
        decodes(c, cell),
        p is Real ==> finite_bits(p->Real_0),
    ensures
        round_trips(p, cell),
{
    if p is Text {
        encode_utf8_valid_utf8(p->Text_0@);
        encode_utf8_decode_utf8(p->Text_0@);
    }
}

} // verus!
