//! Field descriptors and typed datums.
//!
//! A datum is one scalar of a record, tagged with the type that its field
//! declares. A floating-point datum is carried as it stands in the input: as
//! the bits of an IEEE-754 value where it came from bytes, as its decimal
//! text where it came from a token. The binary32 value of a datum, its
//! image, is computed by the caller and handed to the functions that need
//! it.

use crate::io::error::ParseNumberError;
use crate::io::text::{
    chars_of, decimal_string, decimal_string_wide, decimal_text, is_float_literal, is_float_text,
    parse_signed, parse_unsigned, signed_literal, signed_string, signed_text, unsigned_literal,
};
use crate::types::{Float, Rgb};
use vstd::prelude::*;

verus! {

/// The eight types that a field can declare.
#[derive(Debug, Clone, Copy, PartialEq, Eq, Structural)]
pub enum PointFieldType {
    U8,
    U16,
    U32,
    I8,
    I16,
    I32,
    F32,
    F64,
}

impl PointFieldType {
    /// The type that a columnar header names by a letter and a size.
    pub open spec fn of_pcd(kind: char, size: u8) -> Option<PointFieldType> {
        if kind == 'U' && size == 1 {
            Some(PointFieldType::U8)
        } else if kind == 'U' && size == 2 {
            Some(PointFieldType::U16)
        } else if kind == 'U' && size == 4 {
            Some(PointFieldType::U32)
        } else if kind == 'I' && size == 1 {
            Some(PointFieldType::I8)
        } else if kind == 'I' && size == 2 {
            Some(PointFieldType::I16)
        } else if kind == 'I' && size == 4 {
            Some(PointFieldType::I32)
        } else if kind == 'F' && size == 4 {
            Some(PointFieldType::F32)
        } else if kind == 'F' && size == 8 {
            Some(PointFieldType::F64)
        } else {
            None
        }
    }

    /// The type that a vertex-list header names by a word.
    pub open spec fn of_ply(name: Seq<char>) -> Option<PointFieldType> {
        if name == "char"@ {
            Some(PointFieldType::I8)
        } else if name == "uchar"@ {
            Some(PointFieldType::U8)
        } else if name == "short"@ {
            Some(PointFieldType::I16)
        } else if name == "ushort"@ {
            Some(PointFieldType::U16)
        } else if name == "int"@ {
            Some(PointFieldType::I32)
        } else if name == "uint"@ {
            Some(PointFieldType::U32)
        } else if name == "float"@ {
            Some(PointFieldType::F32)
        } else if name == "double"@ {
            Some(PointFieldType::F64)
        } else {
            None
        }
    }

    /// How many bytes a value of the type takes.
    pub open spec fn width(self) -> nat {
        match self {
            PointFieldType::U8 => 1,
            PointFieldType::U16 => 2,
            PointFieldType::U32 => 4,
            PointFieldType::I8 => 1,
            PointFieldType::I16 => 2,
            PointFieldType::I32 => 4,
            PointFieldType::F32 => 4,
            PointFieldType::F64 => 8,
        }
    }

    /// The name of the type.
    pub open spec fn name(self) -> Seq<char> {
        match self {
            PointFieldType::U8 => "U8"@,
            PointFieldType::U16 => "U16"@,
            PointFieldType::U32 => "U32"@,
            PointFieldType::I8 => "I8"@,
            PointFieldType::I16 => "I16"@,
            PointFieldType::I32 => "I32"@,
            PointFieldType::F32 => "F32"@,
            PointFieldType::F64 => "F64"@,
        }
    }

    /// What is reported of a letter and a size that name no type.
    pub open spec fn invalid_pair(kind: char, size: u8) -> Seq<char> {
        "Invalid pair of type and size: "@ + seq![kind] + " (type) "@ + decimal_text(size as nat)
            + " (size)"@
    }

    /// What is reported of a word that names no type.
    pub open spec fn unknown_type(name: Seq<char>) -> Seq<char> {
        "Unknown point field type: "@ + name
    }

    /// The type that a columnar header names by a letter and a size.
    pub fn from_pcd_type_and_size(kind: char, size: u8) -> (r: Result<Self, String>)
        ensures
            r matches Ok(t) ==> Self::of_pcd(kind, size) == Some(t),
            r matches Err(msg) ==> Self::of_pcd(kind, size) is None && msg@ == Self::invalid_pair(
                kind,
                size,
            ),
    {
        if kind == 'U' && size == 1 {
            Ok(PointFieldType::U8)
        } else if kind == 'U' && size == 2 {
            Ok(PointFieldType::U16)
        } else if kind == 'U' && size == 4 {
            Ok(PointFieldType::U32)
        } else if kind == 'I' && size == 1 {
            Ok(PointFieldType::I8)
        } else if kind == 'I' && size == 2 {
            Ok(PointFieldType::I16)
        } else if kind == 'I' && size == 4 {
            Ok(PointFieldType::I32)
        } else if kind == 'F' && size == 4 {
            Ok(PointFieldType::F32)
        } else if kind == 'F' && size == 8 {
            Ok(PointFieldType::F64)
        } else {
            let text = char_string(kind);
            let number = decimal_string(size as usize);
            Err(
                String::from_str("Invalid pair of type and size: ").concat(text.as_str()).concat(
                    " (type) ",
                ).concat(number.as_str()).concat(" (size)"),
            )
        }
    }

    /// The same as `from_pcd_type_and_size`.
    pub fn from_type_and_size(kind: char, size: u8) -> (r: Result<Self, String>)
        ensures
            r matches Ok(t) ==> Self::of_pcd(kind, size) == Some(t),
            r matches Err(msg) ==> Self::of_pcd(kind, size) is None && msg@ == Self::invalid_pair(
                kind,
                size,
            ),
    {
        Self::from_pcd_type_and_size(kind, size)
    }

    /// The type that a vertex-list header names by a word.
    pub fn from_ply_type(name: &str) -> (r: Result<Self, String>)
        ensures
            r matches Ok(t) ==> Self::of_ply(name@) == Some(t),
            r matches Err(msg) ==> Self::of_ply(name@) is None && msg@ == Self::unknown_type(
                name@,
            ),
    {
        if same_text(name, "char") {
            Ok(PointFieldType::I8)
        } else if same_text(name, "uchar") {
            Ok(PointFieldType::U8)
        } else if same_text(name, "short") {
            Ok(PointFieldType::I16)
        } else if same_text(name, "ushort") {
            Ok(PointFieldType::U16)
        } else if same_text(name, "int") {
            Ok(PointFieldType::I32)
        } else if same_text(name, "uint") {
            Ok(PointFieldType::U32)
        } else if same_text(name, "float") {
            Ok(PointFieldType::F32)
        } else if same_text(name, "double") {
            Ok(PointFieldType::F64)
        } else {
            Err(String::from_str("Unknown point field type: ").concat(name))
        }
    }

    /// How many bytes a value of the type takes.
    pub fn bytes(self) -> (r: usize)
        ensures
            r == self.width(),
    {
        match self {
            PointFieldType::U8 => 1,
            PointFieldType::U16 => 2,
            PointFieldType::U32 => 4,
            PointFieldType::I8 => 1,
            PointFieldType::I16 => 2,
            PointFieldType::I32 => 4,
            PointFieldType::F32 => 4,
            PointFieldType::F64 => 8,
        }
    }

    /// The name of the type, as error messages give it.
    pub fn label(self) -> (r: &'static str)
        ensures
            r@ == self.name(),
    {
        match self {
            PointFieldType::U8 => "U8",
            PointFieldType::U16 => "U16",
            PointFieldType::U32 => "U32",
            PointFieldType::I8 => "I8",
            PointFieldType::I16 => "I16",
            PointFieldType::I32 => "I32",
            PointFieldType::F32 => "F32",
            PointFieldType::F64 => "F64",
        }
    }
}

/// `String::from` on a character: the text of that one character.
#[verifier::external_body]
fn char_string(c: char) -> (r: String)
    ensures
        r@ == seq![c],
{
    String::from(c)
}

/// One column of a record: its name, its type, and how many values of the
/// type it holds.
#[derive(Debug, Clone)]
pub struct PointField {
    pub name: String,
    pub datatype: PointFieldType,
    pub count: usize,
}

/// A `PointField` with its name as a character sequence.
pub struct PointFieldView {
    pub name: Seq<char>,
    pub datatype: PointFieldType,
    pub count: nat,
}

impl View for PointField {
    type V = PointFieldView;

    open spec fn view(&self) -> PointFieldView {
        PointFieldView { name: self.name@, datatype: self.datatype, count: self.count as nat }
    }
}

impl DeepView for PointField {
    type V = PointFieldView;

    open spec fn deep_view(&self) -> PointFieldView {
        self.view()
    }
}

impl PointFieldView {
    /// How many bytes the field takes in a binary record.
    pub open spec fn width(self) -> nat {
        self.count * self.datatype.width()
    }
}

impl PointField {
    /// How many bytes the field takes in a binary record, where that number
    /// can be held.
    pub fn bytes(&self) -> (r: Option<usize>)
        ensures
            r is Some <==> self@.width() <= usize::MAX,
            r matches Some(n) ==> n == self@.width(),
    {
        self.count.checked_mul(self.datatype.bytes())
    }
}

/// How many bytes one binary record of the fields takes.
pub open spec fn record_width(fields: Seq<PointFieldView>) -> nat
    decreases fields.len(),
{
    if fields.len() == 0 {
        0
    } else {
        record_width(fields.drop_last()) + fields.last().width()
    }
}

/// How many bytes the datums of one binary record take: one value of each
/// field's type.
pub open spec fn datums_width(fields: Seq<PointFieldView>) -> nat
    decreases fields.len(),
{
    if fields.len() == 0 {
        0
    } else {
        datums_width(fields.drop_last()) + fields.last().datatype.width()
    }
}

/// One value of each field's type takes no more than the record, where no
/// field has a count of zero.
pub proof fn lemma_datums_fit(fields: Seq<PointFieldView>)
    requires
        forall|i: int| 0 <= i < fields.len() ==> (#[trigger] fields[i]).count >= 1,
    ensures
        datums_width(fields) <= record_width(fields),
    decreases fields.len(),
{
    if fields.len() > 0 {
        lemma_datums_fit(fields.drop_last());
        let f = fields.last();
        assert(f.count * f.datatype.width() >= f.datatype.width()) by (nonlinear_arith)
            requires
                f.count >= 1,
        ;
    }
}

/// The size of one binary record, where that number can be held.
pub fn record_bytes(fields: &Vec<PointField>) -> (r: Option<usize>)
    ensures
        r is Some <==> record_width(fields.deep_view()) <= usize::MAX,
        r matches Some(n) ==> n == record_width(fields.deep_view()),
{
    let mut total: usize = 0;
    let mut i: usize = 0;
    let ghost all = fields.deep_view();
    while i < fields.len()
        invariant
            i <= fields@.len(),
            all == fields.deep_view(),
            total == record_width(all.take(i as int)),
        decreases fields@.len() - i,
    {
        proof {
            assert(all.take(i + 1).drop_last() =~= all.take(i as int));
            assert(all.take(i + 1).last() == fields@[i as int]@);
            lemma_record_width_grows(all, i + 1);
        }
        match fields[i].bytes() {
            Some(n) => match total.checked_add(n) {
                Some(sum) => {
                    total = sum;
                },
                None => {
                    return None;
                },
            },
            None => {
                return None;
            },
        }
        i += 1;
    }
    proof {
        assert(all.take(i as int) =~= all);
    }
    Some(total)
}

proof fn lemma_record_width_grows(fields: Seq<PointFieldView>, k: int)
    requires
        0 <= k <= fields.len(),
    ensures
        record_width(fields.take(k)) <= record_width(fields),
    decreases fields.len() - k,
{
    if k < fields.len() {
        assert(fields.take(k + 1).drop_last() =~= fields.take(k));
        lemma_record_width_grows(fields, k + 1);
    } else {
        assert(fields.take(k) =~= fields);
    }
}

/// Whether two texts hold the same characters.
pub fn same_text(a: &str, b: &str) -> (r: bool)
    ensures
        r == (a@ == b@),
{
    let x = chars_of(a);
    let y = chars_of(b);
    if x.len() != y.len() {
        return false;
    }
    let mut i: usize = 0;
    while i < x.len()
        invariant
            i <= x@.len(),
            x@.len() == y@.len(),
            x@ == a@,
            y@ == b@,
            forall|j: int| 0 <= j < i ==> x@[j] == y@[j],
        decreases x@.len() - i,
    {
        if x[i] != y[i] {
            return false;
        }
        i += 1;
    }
    proof {
        assert(x@ =~= y@);
    }
    true
}

/// Two bytes as a number, the low byte first.
pub open spec fn le16(b: Seq<u8>) -> int {
    b[0] + 0x100 * b[1]
}

/// Four bytes as a number, the low byte first.
pub open spec fn le32(b: Seq<u8>) -> int {
    b[0] + 0x100 * b[1] + 0x1_0000 * b[2] + 0x100_0000 * b[3]
}

/// Eight bytes as a number, the low byte first.
pub open spec fn le64(b: Seq<u8>) -> int {
    le32(b) + 0x1_0000_0000 * le32(b.skip(4))
}

/// Two bytes as a number, the high byte first.
pub open spec fn be16(b: Seq<u8>) -> int {
    0x100 * b[0] + b[1]
}

/// Four bytes as a number, the high byte first.
pub open spec fn be32(b: Seq<u8>) -> int {
    0x100_0000 * b[0] + 0x1_0000 * b[1] + 0x100 * b[2] + b[3]
}

/// Eight bytes as a number, the high byte first.
pub open spec fn be64(b: Seq<u8>) -> int {
    0x1_0000_0000 * be32(b) + be32(b.skip(4))
}

/// The signed number that the two's complement pattern `v` of `bits` bits
/// stands for.
pub open spec fn twos(v: int, bits: nat) -> int {
    if v >= vstd::arithmetic::power2::pow2((bits - 1) as nat) {
        v - vstd::arithmetic::power2::pow2(bits)
    } else {
        v
    }
}

/// `bytes::Buf::get_u8` on a byte slice: the first byte, which leaves the
/// slice.
#[verifier::external_body]
fn buf_get_u8(buf: &mut &[u8]) -> (r: u8)
    requires
        old(buf)@.len() >= 1,
    ensures
        r == old(buf)@[0],
        final(buf)@ == old(buf)@.skip(1),
{
    bytes::Buf::get_u8(buf)
}

/// `bytes::Buf::get_i8` on a byte slice: the first byte as a signed number,
/// which leaves the slice.
#[verifier::external_body]
fn buf_get_i8(buf: &mut &[u8]) -> (r: i8)
    requires
        old(buf)@.len() >= 1,
    ensures
        r == twos(old(buf)@[0] as int, 8),
        final(buf)@ == old(buf)@.skip(1),
{
    bytes::Buf::get_i8(buf)
}

/// `bytes::Buf::get_u16_le` on a byte slice: the first two bytes as a
/// number, low byte first; they leave the slice.
#[verifier::external_body]
fn buf_get_u16_le(buf: &mut &[u8]) -> (r: u16)
    requires
        old(buf)@.len() >= 2,
    ensures
        r == le16(old(buf)@),
        final(buf)@ == old(buf)@.skip(2),
{
    bytes::Buf::get_u16_le(buf)
}

/// `bytes::Buf::get_u16` on a byte slice: the first two bytes as a number,
/// high byte first; they leave the slice.
#[verifier::external_body]
fn buf_get_u16(buf: &mut &[u8]) -> (r: u16)
    requires
        old(buf)@.len() >= 2,
    ensures
        r == be16(old(buf)@),
        final(buf)@ == old(buf)@.skip(2),
{
    bytes::Buf::get_u16(buf)
}

/// `bytes::Buf::get_i16_le` on a byte slice: the first two bytes as a
/// signed number, low byte first; they leave the slice.
#[verifier::external_body]
fn buf_get_i16_le(buf: &mut &[u8]) -> (r: i16)
    requires
        old(buf)@.len() >= 2,
    ensures
        r == twos(le16(old(buf)@), 16),
        final(buf)@ == old(buf)@.skip(2),
{
    bytes::Buf::get_i16_le(buf)
}

/// `bytes::Buf::get_i16` on a byte slice: the first two bytes as a signed
/// number, high byte first; they leave the slice.
#[verifier::external_body]
fn buf_get_i16(buf: &mut &[u8]) -> (r: i16)
    requires
        old(buf)@.len() >= 2,
    ensures
        r == twos(be16(old(buf)@), 16),
        final(buf)@ == old(buf)@.skip(2),
{
    bytes::Buf::get_i16(buf)
}

/// `bytes::Buf::get_u32_le` on a byte slice: the first four bytes as a
/// number, low byte first; they leave the slice.
#[verifier::external_body]
fn buf_get_u32_le(buf: &mut &[u8]) -> (r: u32)
    requires
        old(buf)@.len() >= 4,
    ensures
        r == le32(old(buf)@),
        final(buf)@ == old(buf)@.skip(4),
{
    bytes::Buf::get_u32_le(buf)
}

/// `bytes::Buf::get_u32` on a byte slice: the first four bytes as a number,
/// high byte first; they leave the slice.
#[verifier::external_body]
fn buf_get_u32(buf: &mut &[u8]) -> (r: u32)
    requires
        old(buf)@.len() >= 4,
    ensures
        r == be32(old(buf)@),
        final(buf)@ == old(buf)@.skip(4),
{
    bytes::Buf::get_u32(buf)
}

/// `bytes::Buf::get_i32_le` on a byte slice: the first four bytes as a
/// signed number, low byte first; they leave the slice.
#[verifier::external_body]
fn buf_get_i32_le(buf: &mut &[u8]) -> (r: i32)
    requires
        old(buf)@.len() >= 4,
    ensures
        r == twos(le32(old(buf)@), 32),
        final(buf)@ == old(buf)@.skip(4),
{
    bytes::Buf::get_i32_le(buf)
}

/// `bytes::Buf::get_i32` on a byte slice: the first four bytes as a signed
/// number, high byte first; they leave the slice.
#[verifier::external_body]
fn buf_get_i32(buf: &mut &[u8]) -> (r: i32)
    requires
        old(buf)@.len() >= 4,
    ensures
        r == twos(be32(old(buf)@), 32),
        final(buf)@ == old(buf)@.skip(4),
{
    bytes::Buf::get_i32(buf)
}

/// `bytes::Buf::get_u64_le` on a byte slice: the first eight bytes as a
/// number, low byte first; they leave the slice.
#[verifier::external_body]
fn buf_get_u64_le(buf: &mut &[u8]) -> (r: u64)
    requires
        old(buf)@.len() >= 8,
    ensures
        r == le64(old(buf)@),
        final(buf)@ == old(buf)@.skip(8),
{
    bytes::Buf::get_u64_le(buf)
}

/// `bytes::Buf::get_u64` on a byte slice: the first eight bytes as a
/// number, high byte first; they leave the slice.
#[verifier::external_body]
fn buf_get_u64(buf: &mut &[u8]) -> (r: u64)
    requires
        old(buf)@.len() >= 8,
    ensures
        r == be64(old(buf)@),
        final(buf)@ == old(buf)@.skip(8),
{
    bytes::Buf::get_u64(buf)
}

/// One scalar of a record, tagged with the type of its field.
#[derive(Debug, Clone)]
pub enum PointFieldDatum {
    U8(u8),
    U16(u16),
    U32(u32),
    I8(i8),
    I16(i16),
    I32(i32),
    /// A binary32 value, as its bits.
    F32(u32),
    /// A binary64 value, as its bits.
    F64(u64),
    /// A value of a binary32 field, as the floating-point literal that
    /// writes it.
    F32Text(String),
    /// A value of a binary64 field, as the floating-point literal that
    /// writes it.
    F64Text(String),
}

/// A `PointFieldDatum` with its text as a character sequence.
pub enum DatumView {
    U8(u8),
    U16(u16),
    U32(u32),
    I8(i8),
    I16(i16),
    I32(i32),
    F32(u32),
    F64(u64),
    F32Text(Seq<char>),
    F64Text(Seq<char>),
}

impl View for PointFieldDatum {
    type V = DatumView;

    open spec fn view(&self) -> DatumView {
        match *self {
            PointFieldDatum::U8(v) => DatumView::U8(v),
            PointFieldDatum::U16(v) => DatumView::U16(v),
            PointFieldDatum::U32(v) => DatumView::U32(v),
            PointFieldDatum::I8(v) => DatumView::I8(v),
            PointFieldDatum::I16(v) => DatumView::I16(v),
            PointFieldDatum::I32(v) => DatumView::I32(v),
            PointFieldDatum::F32(v) => DatumView::F32(v),
            PointFieldDatum::F64(v) => DatumView::F64(v),
            PointFieldDatum::F32Text(s) => DatumView::F32Text(s@),
            PointFieldDatum::F64Text(s) => DatumView::F64Text(s@),
        }
    }
}

impl DeepView for PointFieldDatum {
    type V = DatumView;

    open spec fn deep_view(&self) -> DatumView {
        self.view()
    }
}

impl DatumView {
    /// The type of the field that the datum came from.
    pub open spec fn datatype(self) -> PointFieldType {
        match self {
            DatumView::U8(_) => PointFieldType::U8,
            DatumView::U16(_) => PointFieldType::U16,
            DatumView::U32(_) => PointFieldType::U32,
            DatumView::I8(_) => PointFieldType::I8,
            DatumView::I16(_) => PointFieldType::I16,
            DatumView::I32(_) => PointFieldType::I32,
            DatumView::F32(_) => PointFieldType::F32,
            DatumView::F64(_) => PointFieldType::F64,
            DatumView::F32Text(_) => PointFieldType::F32,
            DatumView::F64Text(_) => PointFieldType::F64,
        }
    }

    /// What a token gives as a datum of a type: an integer that the token
    /// writes and the type holds, or the token itself where it is a
    /// floating-point literal.
    pub open spec fn parsed(s: Seq<char>, datatype: PointFieldType) -> Result<
        DatumView,
        ParseNumberError,
    > {
        match datatype {
            PointFieldType::U8 => match unsigned_literal(s, 0xff) {
                Some(v) => Ok(DatumView::U8(v as u8)),
                None => Err(ParseNumberError::ParseIntError),
            },
            PointFieldType::U16 => match unsigned_literal(s, 0xffff) {
                Some(v) => Ok(DatumView::U16(v as u16)),
                None => Err(ParseNumberError::ParseIntError),
            },
            PointFieldType::U32 => match unsigned_literal(s, 0xffff_ffff) {
                Some(v) => Ok(DatumView::U32(v as u32)),
                None => Err(ParseNumberError::ParseIntError),
            },
            PointFieldType::I8 => match signed_literal(s, -0x80, 0x7f) {
                Some(v) => Ok(DatumView::I8(v as i8)),
                None => Err(ParseNumberError::ParseIntError),
            },
            PointFieldType::I16 => match signed_literal(s, -0x8000, 0x7fff) {
                Some(v) => Ok(DatumView::I16(v as i16)),
                None => Err(ParseNumberError::ParseIntError),
            },
            PointFieldType::I32 => match signed_literal(s, -0x8000_0000, 0x7fff_ffff) {
                Some(v) => Ok(DatumView::I32(v as i32)),
                None => Err(ParseNumberError::ParseIntError),
            },
            PointFieldType::F32 => if is_float_literal(s) {
                Ok(DatumView::F32Text(s))
            } else {
                Err(ParseNumberError::ParseFloatError)
            },
            PointFieldType::F64 => if is_float_literal(s) {
                Ok(DatumView::F64Text(s))
            } else {
                Err(ParseNumberError::ParseFloatError)
            },
        }
    }

    /// The datum of a type that stands at the front of `bytes`, low byte
    /// first.
    pub open spec fn of_bytes_le(bytes: Seq<u8>, datatype: PointFieldType) -> DatumView {
        match datatype {
            PointFieldType::U8 => DatumView::U8(bytes[0]),
            PointFieldType::U16 => DatumView::U16(le16(bytes) as u16),
            PointFieldType::U32 => DatumView::U32(le32(bytes) as u32),
            PointFieldType::I8 => DatumView::I8(twos(bytes[0] as int, 8) as i8),
            PointFieldType::I16 => DatumView::I16(twos(le16(bytes), 16) as i16),
            PointFieldType::I32 => DatumView::I32(twos(le32(bytes), 32) as i32),
            PointFieldType::F32 => DatumView::F32(le32(bytes) as u32),
            PointFieldType::F64 => DatumView::F64(le64(bytes) as u64),
        }
    }

    /// The datum of a type that stands at the front of `bytes`, high byte
    /// first.
    pub open spec fn of_bytes_be(bytes: Seq<u8>, datatype: PointFieldType) -> DatumView {
        match datatype {
            PointFieldType::U8 => DatumView::U8(bytes[0]),
            PointFieldType::U16 => DatumView::U16(be16(bytes) as u16),
            PointFieldType::U32 => DatumView::U32(be32(bytes) as u32),
            PointFieldType::I8 => DatumView::I8(twos(bytes[0] as int, 8) as i8),
            PointFieldType::I16 => DatumView::I16(twos(be16(bytes), 16) as i16),
            PointFieldType::I32 => DatumView::I32(twos(be32(bytes), 32) as i32),
            PointFieldType::F32 => DatumView::F32(be32(bytes) as u32),
            PointFieldType::F64 => DatumView::F64(be64(bytes) as u64),
        }
    }

    /// The datum as a binary32 value: its own bits where it holds them, else
    /// the image that the caller computed.
    pub open spec fn float(self, image: Float) -> Float {
        match self {
            DatumView::F32(bits) => bits,
            _ => image,
        }
    }

    /// The color that a binary32 value packs: the three low bytes of its
    /// bits, lowest first.
    pub open spec fn packed_color(bits: Float) -> Rgb {
        Rgb {
            r: (bits % 0x100) as u8,
            g: ((bits / 0x100) % 0x100) as u8,
            b: ((bits / 0x1_0000) % 0x100) as u8,
        }
    }

    /// The datum as a color. Only a value of a binary32 field is one.
    pub open spec fn color(self, image: Float) -> Option<Rgb> {
        match self {
            DatumView::F32(bits) => Some(Self::packed_color(bits)),
            DatumView::F32Text(_) => Some(Self::packed_color(image)),
            _ => None,
        }
    }

    /// The datum as a byte. Only an unsigned 8-bit value is one.
    pub open spec fn byte(self) -> Option<u8> {
        match self {
            DatumView::U8(v) => Some(v),
            _ => None,
        }
    }

    /// The value of the datum as a message writes it: an integer in decimal
    /// notation, a literal as it stands, and the bits of a value as the
    /// number that they are, behind the word `bits`.
    pub open spec fn value_text(self) -> Seq<char> {
        match self {
            DatumView::U8(v) => decimal_text(v as nat),
            DatumView::U16(v) => decimal_text(v as nat),
            DatumView::U32(v) => decimal_text(v as nat),
            DatumView::I8(v) => signed_text(v as int),
            DatumView::I16(v) => signed_text(v as int),
            DatumView::I32(v) => signed_text(v as int),
            DatumView::F32(bits) => "bits "@ + decimal_text(bits as nat),
            DatumView::F64(bits) => "bits "@ + decimal_text(bits as nat),
            DatumView::F32Text(s) => s,
            DatumView::F64Text(s) => s,
        }
    }

    /// The datum as a message writes it: the name of its type, and its
    /// value in brackets.
    pub open spec fn written(self) -> Seq<char> {
        self.datatype().name() + "("@ + self.value_text() + ")"@
    }

    /// What is reported of a datum that is no byte.
    pub open spec fn not_a_byte(self) -> Seq<char> {
        self.written() + " cannot be parsed as u8"@
    }

    /// What is reported of a datum that is no color.
    pub open spec fn not_a_color(self) -> Seq<char> {
        self.written() + " cannot be parsed as RGB"@
    }
}

impl PointFieldDatum {
    /// The type of the field that the datum came from.
    pub fn datatype(&self) -> (r: PointFieldType)
        ensures
            r == self@.datatype(),
    {
        match self {
            PointFieldDatum::U8(_) => PointFieldType::U8,
            PointFieldDatum::U16(_) => PointFieldType::U16,
            PointFieldDatum::U32(_) => PointFieldType::U32,
            PointFieldDatum::I8(_) => PointFieldType::I8,
            PointFieldDatum::I16(_) => PointFieldType::I16,
            PointFieldDatum::I32(_) => PointFieldType::I32,
            PointFieldDatum::F32(_) => PointFieldType::F32,
            PointFieldDatum::F64(_) => PointFieldType::F64,
            PointFieldDatum::F32Text(_) => PointFieldType::F32,
            PointFieldDatum::F64Text(_) => PointFieldType::F64,
        }
    }

    /// The datum as a message writes it: the name of its type, and its
    /// value in brackets.
    pub fn written(&self) -> (r: String)
        ensures
            r@ == self@.written(),
    {
        let value = match self {
            PointFieldDatum::U8(v) => decimal_string_wide(*v as u128),
            PointFieldDatum::U16(v) => decimal_string_wide(*v as u128),
            PointFieldDatum::U32(v) => decimal_string_wide(*v as u128),
            PointFieldDatum::I8(v) => signed_string(*v as i64),
            PointFieldDatum::I16(v) => signed_string(*v as i64),
            PointFieldDatum::I32(v) => signed_string(*v as i64),
            PointFieldDatum::F32(bits) => String::from_str("bits ").concat(
                decimal_string_wide(*bits as u128).as_str(),
            ),
            PointFieldDatum::F64(bits) => String::from_str("bits ").concat(
                decimal_string_wide(*bits as u128).as_str(),
            ),
            PointFieldDatum::F32Text(s) => s.clone(),
            PointFieldDatum::F64Text(s) => s.clone(),
        };
        String::from_str(self.datatype().label()).concat("(").concat(value.as_str()).concat(")")
    }

    /// Reads a token as a datum of a type.
    pub fn parse(s: &str, datatype: PointFieldType) -> (r: Result<Self, ParseNumberError>)
        ensures
            r matches Ok(d) ==> DatumView::parsed(s@, datatype) == Ok::<
                DatumView,
                ParseNumberError,
            >(d@),
            r matches Err(e) ==> DatumView::parsed(s@, datatype) == Err::<
                DatumView,
                ParseNumberError,
            >(e),
    {
        match datatype {
            PointFieldType::U8 => match parse_unsigned(s, 0xff) {
                Some(v) => Ok(PointFieldDatum::U8(v as u8)),
                None => Err(ParseNumberError::ParseIntError),
            },
            PointFieldType::U16 => match parse_unsigned(s, 0xffff) {
                Some(v) => Ok(PointFieldDatum::U16(v as u16)),
                None => Err(ParseNumberError::ParseIntError),
            },
            PointFieldType::U32 => match parse_unsigned(s, 0xffff_ffff) {
                Some(v) => Ok(PointFieldDatum::U32(v as u32)),
                None => Err(ParseNumberError::ParseIntError),
            },
            PointFieldType::I8 => match parse_signed(s, -0x80, 0x7f) {
                Some(v) => Ok(PointFieldDatum::I8(v as i8)),
                None => Err(ParseNumberError::ParseIntError),
            },
            PointFieldType::I16 => match parse_signed(s, -0x8000, 0x7fff) {
                Some(v) => Ok(PointFieldDatum::I16(v as i16)),
                None => Err(ParseNumberError::ParseIntError),
            },
            PointFieldType::I32 => match parse_signed(s, -0x8000_0000, 0x7fff_ffff) {
                Some(v) => Ok(PointFieldDatum::I32(v as i32)),
                None => Err(ParseNumberError::ParseIntError),
            },
            PointFieldType::F32 => if is_float_text(s) {
                Ok(PointFieldDatum::F32Text(s.to_owned()))
            } else {
                Err(ParseNumberError::ParseFloatError)
            },
            PointFieldType::F64 => if is_float_text(s) {
                Ok(PointFieldDatum::F64Text(s.to_owned()))
            } else {
                Err(ParseNumberError::ParseFloatError)
            },
        }
    }

    /// Takes a datum of a type off the front of the bytes, low byte first.
    pub fn from_bytes_le(bytes: &mut &[u8], datatype: PointFieldType) -> (r: Self)
        requires
            old(bytes)@.len() >= datatype.width(),
        ensures
            r@ == DatumView::of_bytes_le(old(bytes)@, datatype),
            final(bytes)@ == old(bytes)@.skip(datatype.width() as int),
    {
        match datatype {
            PointFieldType::U8 => PointFieldDatum::U8(buf_get_u8(bytes)),
            PointFieldType::U16 => PointFieldDatum::U16(buf_get_u16_le(bytes)),
            PointFieldType::U32 => PointFieldDatum::U32(buf_get_u32_le(bytes)),
            PointFieldType::I8 => PointFieldDatum::I8(buf_get_i8(bytes)),
            PointFieldType::I16 => PointFieldDatum::I16(buf_get_i16_le(bytes)),
            PointFieldType::I32 => PointFieldDatum::I32(buf_get_i32_le(bytes)),
            PointFieldType::F32 => PointFieldDatum::F32(buf_get_u32_le(bytes)),
            PointFieldType::F64 => PointFieldDatum::F64(buf_get_u64_le(bytes)),
        }
    }

    /// Takes a datum of a type off the front of the bytes, high byte first.
    pub fn from_bytes_be(bytes: &mut &[u8], datatype: PointFieldType) -> (r: Self)
        requires
            old(bytes)@.len() >= datatype.width(),
        ensures
            r@ == DatumView::of_bytes_be(old(bytes)@, datatype),
            final(bytes)@ == old(bytes)@.skip(datatype.width() as int),
    {
        match datatype {
            PointFieldType::U8 => PointFieldDatum::U8(buf_get_u8(bytes)),
            PointFieldType::U16 => PointFieldDatum::U16(buf_get_u16(bytes)),
            PointFieldType::U32 => PointFieldDatum::U32(buf_get_u32(bytes)),
            PointFieldType::I8 => PointFieldDatum::I8(buf_get_i8(bytes)),
            PointFieldType::I16 => PointFieldDatum::I16(buf_get_i16(bytes)),
            PointFieldType::I32 => PointFieldDatum::I32(buf_get_i32(bytes)),
            PointFieldType::F32 => PointFieldDatum::F32(buf_get_u32(bytes)),
            PointFieldType::F64 => PointFieldDatum::F64(buf_get_u64(bytes)),
        }
    }

    /// The same as `from_bytes_le`.
    pub fn from_bytes(bytes: &mut &[u8], datatype: PointFieldType) -> (r: Self)
        requires
            old(bytes)@.len() >= datatype.width(),
        ensures
            r@ == DatumView::of_bytes_le(old(bytes)@, datatype),
            final(bytes)@ == old(bytes)@.skip(datatype.width() as int),
    {
        Self::from_bytes_le(bytes, datatype)
    }

    /// The datum as a binary32 value: its own bits where it holds them, else
    /// `image`, the value that the caller has computed for it.
    pub fn to_float(&self, image: Float) -> (r: Float)
        ensures
            r == self@.float(image),
    {
        match self {
            PointFieldDatum::F32(bits) => *bits,
            _ => image,
        }
    }

    /// The datum as a byte.
    pub fn as_u8(&self) -> (r: Result<u8, String>)
        ensures
            r matches Ok(v) ==> self@.byte() == Some(v),
            r matches Err(msg) ==> self@.byte() is None && msg@ == self@.not_a_byte(),
    {
        match self {
            PointFieldDatum::U8(v) => Ok(*v),
            _ => Err(self.written().concat(" cannot be parsed as u8")),
        }
    }

    /// The datum as a color: the three low bytes of a binary32 value. For a
    /// datum that holds text, `image` is that value.
    pub fn to_color(&self, image: Float) -> (r: Result<Rgb, String>)
        ensures
            r matches Ok(c) ==> self@.color(image) == Some(c),
            r matches Err(msg) ==> self@.color(image) is None && msg@ == self@.not_a_color(),
    {
        match self {
            PointFieldDatum::F32(bits) => Ok(unpack_color(*bits)),
            PointFieldDatum::F32Text(_) => Ok(unpack_color(image)),
            _ => Err(self.written().concat(" cannot be parsed as RGB")),
        }
    }
}

/// The three low bytes of a binary32 value, lowest first.
pub fn unpack_color(bits: Float) -> (r: Rgb)
    ensures
        r == DatumView::packed_color(bits),
{
    Rgb::new(
        (bits % 0x100) as u8,
        ((bits / 0x100) % 0x100) as u8,
        ((bits / 0x1_0000) % 0x100) as u8,
    )
}

} // verus!
