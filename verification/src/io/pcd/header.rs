//! The header of a columnar file: one directive a line, up to `DATA`.

use crate::io::error::{
    invalid, missing_value, unknown_token, value_missing, IOErrorView, PointRainIOError,
};
use crate::io::field::{same_text, PointField, PointFieldType, PointFieldView};
use crate::io::text::{
    decimal_string, decimal_text, is_comment, is_float_literal, is_float_text, lemma_line_end,
    line_end, line_text, next_line, parse_unsigned, parse_usize, read_line, split_tokens,
    starts_comment, tokens, unsigned_literal,
};
use vstd::prelude::*;

verus! {

/// How the records of a columnar file are written.
#[derive(Debug, Clone, Copy, PartialEq, Eq, Structural)]
pub enum PcdDataFormat {
    Ascii,
    Binary,
    BinaryCompressed,
}

impl Default for PcdDataFormat {
    fn default() -> (r: Self)
        ensures
            r == PcdDataFormat::Ascii,
    {
        PcdDataFormat::Ascii
    }
}

impl PcdDataFormat {
    /// The format that a word names.
    pub open spec fn of(from: Seq<char>) -> Option<PcdDataFormat> {
        if from == "ascii"@ {
            Some(PcdDataFormat::Ascii)
        } else if from == "binary"@ {
            Some(PcdDataFormat::Binary)
        } else if from == "binary_compressed"@ {
            Some(PcdDataFormat::BinaryCompressed)
        } else {
            None
        }
    }

    /// What is reported of a word that names no format.
    pub open spec fn unknown(from: Seq<char>) -> Seq<char> {
        "Unknown data format: "@ + from
    }

    /// The format that a word names.
    pub fn try_from(from: &str) -> (r: Result<Self, String>)
        ensures
            r matches Ok(f) ==> Self::of(from@) == Some(f),
            r matches Err(msg) ==> Self::of(from@) is None && msg@ == Self::unknown(from@),
    {
        if same_text(from, "ascii") {
            Ok(PcdDataFormat::Ascii)
        } else if same_text(from, "binary") {
            Ok(PcdDataFormat::Binary)
        } else if same_text(from, "binary_compressed") {
            Ok(PcdDataFormat::BinaryCompressed)
        } else {
            Err(String::from_str("Unknown data format: ").concat(from))
        }
    }
}

/// What the header of a columnar file declares.
#[derive(Debug)]
pub struct PcdHeader {
    pub format: PcdDataFormat,
    pub fields: Vec<PointField>,
    pub width: usize,
    pub height: usize,
    /// The values of `VIEWPOINT`, each a floating-point literal: a
    /// translation, then a quaternion. Empty where the header has none.
    pub viewpoint: Vec<String>,
}

/// A `PcdHeader` with its texts as character sequences.
pub struct PcdHeaderView {
    pub format: PcdDataFormat,
    pub fields: Seq<PointFieldView>,
    pub width: nat,
    pub height: nat,
    pub viewpoint: Seq<Seq<char>>,
}

impl View for PcdHeader {
    type V = PcdHeaderView;

    open spec fn view(&self) -> PcdHeaderView {
        PcdHeaderView {
            format: self.format,
            fields: self.fields.deep_view(),
            width: self.width as nat,
            height: self.height as nat,
            viewpoint: self.viewpoint.deep_view(),
        }
    }
}

impl DeepView for PcdHeader {
    type V = PcdHeaderView;

    open spec fn deep_view(&self) -> PcdHeaderView {
        self.view()
    }
}

impl PcdHeaderView {
    /// What a header holds before its first directive.
    pub open spec fn empty() -> PcdHeaderView {
        PcdHeaderView {
            format: PcdDataFormat::Ascii,
            fields: Seq::empty(),
            width: 0,
            height: 0,
            viewpoint: Seq::empty(),
        }
    }

    /// How many points the header declares.
    pub open spec fn points(self) -> nat {
        self.width * self.height
    }

    /// Whether no field has a count of zero.
    pub open spec fn counted(self) -> bool {
        forall|i: int| 0 <= i < self.fields.len() ==> (#[trigger] self.fields[i]).count >= 1
    }

    /// What holds of every header that was read: no field has a count of
    /// zero, and neither dimension is zero.
    pub open spec fn wf(self) -> bool {
        self.counted() && self.width >= 1 && self.height >= 1
    }
}

impl Default for PcdHeader {
    fn default() -> (r: Self)
        ensures
            r@ == PcdHeaderView::empty(),
    {
        let r = PcdHeader {
            format: PcdDataFormat::Ascii,
            fields: Vec::new(),
            width: 0,
            height: 0,
            viewpoint: Vec::new(),
        };
        assert(r.fields.deep_view() =~= Seq::empty());
        assert(r.viewpoint.deep_view() =~= Seq::empty());
        r
    }
}

/// A header in the making: what was declared so far, and the sizes that
/// `SIZE` gave.
pub struct PcdHeaderState {
    pub header: PcdHeaderView,
    pub sizes: Seq<u8>,
}

/// What is reported of `SIZE` before `FIELDS`.
pub open spec fn size_before_fields() -> Seq<char> {
    "[SIZE] SIZE of FIELDS specified before FIELDS in header!"@
}

/// What is reported of `SIZE` with another number of values than fields.
pub open spec fn size_count_differs() -> Seq<char> {
    "[SIZE] The number of elements in <SIZE> differs than the number of elements in <FIELDS>!"@
}

/// What is reported of `TYPE` before `SIZE`.
pub open spec fn type_before_size() -> Seq<char> {
    "[TYPE] TYPE of FIELDS specified before SIZE in header!"@
}

/// What is reported of `TYPE` with another number of values than fields.
pub open spec fn type_count_differs() -> Seq<char> {
    "[TYPE] The number of elements in <TYPE> differs than the number of elements in <FIELDS>!"@
}

/// What is reported of an empty value of `TYPE`.
pub open spec fn type_empty() -> Seq<char> {
    "[TYPE] Empty element in <TYPE>!"@
}

/// What is reported of `COUNT` before `FIELDS`.
pub open spec fn count_before_fields() -> Seq<char> {
    "[COUNT] COUNT of FIELDS specified before FIELDS in header!"@
}

/// What is reported of `COUNT` with another number of values than fields.
pub open spec fn count_count_differs() -> Seq<char> {
    "[COUNT] The number of elements in <COUNT> differs than the number of elements in <FIELDS>!"@
}

/// What is reported of a count of zero.
pub open spec fn count_zero() -> Seq<char> {
    "[COUNT] Invalid COUNT value specified."@
}

/// What is reported of `VIEWPOINT` with fewer than seven values.
pub open spec fn viewpoint_short() -> Seq<char> {
    "[VIEWPOINT] Not enough number of elements in <VIEWPOINT>! Need 7 values (tx ty tz qw qx qy qz)."@
}

/// What is reported of `POINTS` where it is not the product of the
/// dimensions.
pub open spec fn points_differ(height: nat, width: nat, size: nat) -> Seq<char> {
    "[POINTS] HEIGHT ("@ + decimal_text(height) + ") x WIDTH ("@ + decimal_text(width)
        + ") != number of points ("@ + decimal_text(size) + ")"@
}

/// What is reported of a header without a width.
pub open spec fn width_missing() -> Seq<char> {
    "WIDTH is not given!"@
}

/// The fields that `FIELDS` declares: one of each name, each a single
/// binary32 value until `SIZE`, `TYPE` and `COUNT` say otherwise.
pub open spec fn named_fields(names: Seq<Seq<char>>) -> Seq<PointFieldView> {
    Seq::new(
        names.len(),
        |i: int| PointFieldView { name: names[i], datatype: PointFieldType::F32, count: 1 },
    )
}

/// The sizes that the tokens write, where each writes a byte.
pub open spec fn sizes_of(toks: Seq<Seq<char>>) -> Option<Seq<u8>> {
    if forall|i: int| 0 <= i < toks.len() ==> unsigned_literal(#[trigger] toks[i], 0xff) is Some {
        Some(Seq::new(toks.len(), |i: int| unsigned_literal(toks[i], 0xff).unwrap() as u8))
    } else {
        None
    }
}

/// The type that a token of `TYPE` and a size name: the token's first
/// character is the letter.
pub open spec fn type_of(tok: Seq<char>, size: u8) -> Result<PointFieldType, Seq<char>> {
    if tok.len() == 0 {
        Err(type_empty())
    } else {
        match PointFieldType::of_pcd(tok[0], size) {
            Some(t) => Ok(t),
            None => Err(PointFieldType::invalid_pair(tok[0], size)),
        }
    }
}

/// The fields with the types of the first `k` set from the tokens and the
/// sizes, or what is reported of the first pair that names no type.
pub open spec fn typed_fields(
    fields: Seq<PointFieldView>,
    toks: Seq<Seq<char>>,
    sizes: Seq<u8>,
    k: nat,
) -> Result<Seq<PointFieldView>, Seq<char>>
    decreases k,
{
    if k == 0 {
        Ok(fields)
    } else {
        match typed_fields(fields, toks, sizes, (k - 1) as nat) {
            Err(msg) => Err(msg),
            Ok(done) => match type_of(toks[k - 1], sizes[k - 1]) {
                Err(msg) => Err(msg),
                Ok(t) => Ok(done.update(k - 1, PointFieldView { datatype: t, ..done[k - 1] })),
            },
        }
    }
}

/// The count that a token of `COUNT` writes.
pub open spec fn count_of(tok: Seq<char>) -> Result<nat, IOErrorView> {
    match unsigned_literal(tok, usize::MAX as nat) {
        None => Err(IOErrorView::ParseIntError),
        Some(n) => if n == 0 {
            Err(IOErrorView::Error(count_zero()))
        } else {
            Ok(n)
        },
    }
}

/// The fields with the counts of the first `k` set from the tokens, or the
/// error of the first token that writes no count.
pub open spec fn counted_fields(
    fields: Seq<PointFieldView>,
    toks: Seq<Seq<char>>,
    k: nat,
) -> Result<Seq<PointFieldView>, IOErrorView>
    decreases k,
{
    if k == 0 {
        Ok(fields)
    } else {
        match counted_fields(fields, toks, (k - 1) as nat) {
            Err(e) => Err(e),
            Ok(done) => match count_of(toks[k - 1]) {
                Err(e) => Err(e),
                Ok(n) => Ok(done.update(k - 1, PointFieldView { count: n, ..done[k - 1] })),
            },
        }
    }
}

/// Whether each token is a floating-point literal.
pub open spec fn all_float_literals(toks: Seq<Seq<char>>) -> bool {
    forall|i: int| 0 <= i < toks.len() ==> is_float_literal(#[trigger] toks[i])
}

/// The smaller of two numbers.
pub open spec fn min(a: int, b: int) -> int {
    if a <= b {
        a
    } else {
        b
    }
}

/// What a directive other than `DATA` makes of the header. `toks` are the
/// tokens of its line, the first of them its keyword.
pub open spec fn directive(st: PcdHeaderState, toks: Seq<Seq<char>>) -> Result<
    PcdHeaderState,
    IOErrorView,
> {
    let word = toks[0];
    let args = toks.skip(1);
    let h = st.header;
    if word == "VERSION"@ {
        Ok(st)
    } else if word == "FIELDS"@ || word == "COLUMNS"@ {
        Ok(PcdHeaderState { header: PcdHeaderView { fields: named_fields(args), ..h }, ..st })
    } else if word == "SIZE"@ {
        if h.fields.len() == 0 {
            Err(IOErrorView::Error(size_before_fields()))
        } else if args.len() != h.fields.len() {
            Err(IOErrorView::Error(size_count_differs()))
        } else {
            match sizes_of(args) {
                None => Err(IOErrorView::ParseIntError),
                Some(sizes) => Ok(PcdHeaderState { sizes, ..st }),
            }
        }
    } else if word == "TYPE"@ {
        if st.sizes.len() == 0 {
            Err(IOErrorView::Error(type_before_size()))
        } else if args.len() != h.fields.len() {
            Err(IOErrorView::Error(type_count_differs()))
        } else {
            match typed_fields(
                h.fields,
                args,
                st.sizes,
                min(h.fields.len() as int, st.sizes.len() as int) as nat,
            ) {
                Err(msg) => Err(IOErrorView::Error(msg)),
                Ok(fields) => Ok(PcdHeaderState { header: PcdHeaderView { fields, ..h }, ..st }),
            }
        }
    } else if word == "COUNT"@ {
        if h.fields.len() == 0 {
            Err(IOErrorView::Error(count_before_fields()))
        } else if args.len() != h.fields.len() {
            Err(IOErrorView::Error(count_count_differs()))
        } else {
            match counted_fields(h.fields, args, h.fields.len()) {
                Err(e) => Err(e),
                Ok(fields) => Ok(PcdHeaderState { header: PcdHeaderView { fields, ..h }, ..st }),
            }
        }
    } else if word == "WIDTH"@ {
        if args.len() == 0 {
            Err(IOErrorView::Error(value_missing(word)))
        } else {
            match unsigned_literal(args[0], usize::MAX as nat) {
                None => Err(IOErrorView::ParseIntError),
                Some(n) => Ok(PcdHeaderState { header: PcdHeaderView { width: n, ..h }, ..st }),
            }
        }
    } else if word == "HEIGHT"@ {
        if args.len() == 0 {
            Err(IOErrorView::Error(value_missing(word)))
        } else {
            match unsigned_literal(args[0], usize::MAX as nat) {
                None => Err(IOErrorView::ParseIntError),
                Some(n) => Ok(PcdHeaderState { header: PcdHeaderView { height: n, ..h }, ..st }),
            }
        }
    } else if word == "VIEWPOINT"@ {
        if args.len() < 7 {
            Err(IOErrorView::Error(viewpoint_short()))
        } else if !all_float_literals(args) {
            Err(IOErrorView::ParseFloatError)
        } else {
            Ok(PcdHeaderState { header: PcdHeaderView { viewpoint: args, ..h }, ..st })
        }
    } else if word == "POINTS"@ {
        if args.len() == 0 {
            Err(IOErrorView::Error(value_missing(word)))
        } else {
            match unsigned_literal(args[0], usize::MAX as nat) {
                None => Err(IOErrorView::ParseIntError),
                Some(n) => {
                    let sized = if h.width == 0 && h.height == 0 {
                        PcdHeaderView { width: n, height: 1, ..h }
                    } else {
                        h
                    };
                    if n != sized.points() {
                        Err(IOErrorView::Error(points_differ(sized.height, sized.width, n)))
                    } else {
                        Ok(PcdHeaderState { header: sized, ..st })
                    }
                },
            }
        }
    } else {
        Err(IOErrorView::Error(unknown_token(word)))
    }
}

/// What `DATA` makes of the header.
pub open spec fn data_directive(h: PcdHeaderView, toks: Seq<Seq<char>>) -> Result<
    PcdHeaderView,
    IOErrorView,
> {
    if toks.len() < 2 {
        Err(IOErrorView::Error(value_missing(toks[0])))
    } else {
        match PcdDataFormat::of(toks[1]) {
            None => Err(IOErrorView::Error(PcdDataFormat::unknown(toks[1]))),
            Some(format) => Ok(PcdHeaderView { format, ..h }),
        }
    }
}

/// The header when its last line is read: a width must have been given,
/// and a height that was not is 1.
pub open spec fn finished(h: PcdHeaderView) -> Result<PcdHeaderView, IOErrorView> {
    if h.width == 0 {
        Err(IOErrorView::Error(width_missing()))
    } else if h.height == 0 {
        Ok(PcdHeaderView { height: 1, ..h })
    } else {
        Ok(h)
    }
}

/// The header that the lines from `pos` on make of `st`, and where the
/// records start. Comment lines are passed over; `DATA` or the end of the
/// data ends the header.
pub open spec fn header_from(data: Seq<u8>, pos: int, st: PcdHeaderState) -> Result<
    (PcdHeaderView, int),
    IOErrorView,
>
    decreases data.len() - pos,
    when 0 <= pos
    via header_from_decreases
{
    if pos >= data.len() {
        match finished(st.header) {
            Err(e) => Err(e),
            Ok(h) => Ok((h, data.len() as int)),
        }
    } else {
        let end = line_end(data, pos);
        match line_text(data, pos) {
            None => Err(IOErrorView::FileIOError),
            Some(line) => if is_comment(line) {
                header_from(data, end, st)
            } else {
                let toks = tokens(line);
                if toks[0] == "DATA"@ {
                    match data_directive(st.header, toks) {
                        Err(e) => Err(e),
                        Ok(h) => match finished(h) {
                            Err(e) => Err(e),
                            Ok(h) => Ok((h, end)),
                        },
                    }
                } else {
                    match directive(st, toks) {
                        Err(e) => Err(e),
                        Ok(next) => header_from(data, end, next),
                    }
                }
            },
        }
    }
}

#[via_fn]
proof fn header_from_decreases(data: Seq<u8>, pos: int, st: PcdHeaderState) {
    if pos < data.len() {
        lemma_line_end(data, pos);
    }
}

/// The header of a columnar file, and where its records start.
pub open spec fn pcd_header(data: Seq<u8>) -> Result<(PcdHeaderView, int), IOErrorView> {
    header_from(data, 0, PcdHeaderState { header: PcdHeaderView::empty(), sizes: Seq::empty() })
}

/// The tokens behind the first, as texts of their own.
fn arguments(toks: &Vec<String>) -> (r: Vec<String>)
    requires
        toks@.len() >= 1,
    ensures
        r.deep_view() == toks.deep_view().skip(1),
{
    let mut out: Vec<String> = Vec::new();
    let mut i: usize = 1;
    while i < toks.len()
        invariant
            1 <= i <= toks@.len(),
            out.deep_view() == toks.deep_view().skip(1).take(i - 1),
        decreases toks@.len() - i,
    {
        let ghost before = out.deep_view();
        out.push(toks[i].clone());
        proof {
            assert(out.deep_view() =~= before.push(toks@[i as int]@));
            assert(toks.deep_view().skip(1).take(i as int) =~= before.push(toks@[i as int]@));
        }
        i += 1;
    }
    proof {
        assert(toks.deep_view().skip(1).take(i - 1) =~= toks.deep_view().skip(1));
    }
    out
}

/// The fields that the names behind `FIELDS` declare.
fn fields_named(toks: &Vec<String>) -> (r: Vec<PointField>)
    requires
        toks@.len() >= 1,
    ensures
        r.deep_view() == named_fields(toks.deep_view().skip(1)),
{
    let mut out: Vec<PointField> = Vec::new();
    let mut i: usize = 1;
    let ghost names = toks.deep_view().skip(1);
    while i < toks.len()
        invariant
            1 <= i <= toks@.len(),
            names == toks.deep_view().skip(1),
            out.deep_view() == named_fields(names).take(i - 1),
        decreases toks@.len() - i,
    {
        let ghost before = out.deep_view();
        let field = PointField { name: toks[i].clone(), datatype: PointFieldType::F32, count: 1 };
        out.push(field);
        proof {
            assert(out.deep_view() =~= before.push(field@));
            assert(names[i - 1] == toks@[i as int]@);
            assert(named_fields(names).take(i as int) =~= before.push(field@));
        }
        i += 1;
    }
    proof {
        assert(named_fields(names).take(i - 1) =~= named_fields(names));
    }
    out
}

/// The sizes that the tokens behind `SIZE` write.
fn sizes_read(toks: &Vec<String>) -> (r: Option<Vec<u8>>)
    requires
        toks@.len() >= 1,
    ensures
        r is Some == sizes_of(toks.deep_view().skip(1)) is Some,
        r matches Some(v) ==> sizes_of(toks.deep_view().skip(1)) == Some(v@),
{
    let mut out: Vec<u8> = Vec::new();
    let mut i: usize = 1;
    let ghost args = toks.deep_view().skip(1);
    while i < toks.len()
        invariant
            1 <= i <= toks@.len(),
            args == toks.deep_view().skip(1),
            out@.len() == i - 1,
            forall|j: int|
                0 <= j < i - 1 ==> unsigned_literal(#[trigger] args[j], 0xff) == Some(
                    out@[j] as nat,
                ),
        decreases toks@.len() - i,
    {
        proof {
            assert(args[i - 1] == toks@[i as int]@);
        }
        match parse_unsigned(toks[i].as_str(), 0xff) {
            Some(v) => {
                out.push(v as u8);
            },
            None => {
                return None;
            },
        }
        i += 1;
    }
    proof {
        assert(out@ =~= sizes_of(args).unwrap());
    }
    Some(out)
}

/// Once a pair names no type, the fields stay without their types.
proof fn lemma_typed_fields_err(
    fields: Seq<PointFieldView>,
    toks: Seq<Seq<char>>,
    sizes: Seq<u8>,
    j: nat,
    k: nat,
)
    requires
        j <= k,
        typed_fields(fields, toks, sizes, j) is Err,
    ensures
        typed_fields(fields, toks, sizes, k) == typed_fields(fields, toks, sizes, j),
    decreases k,
{
    if j < k {
        lemma_typed_fields_err(fields, toks, sizes, j, (k - 1) as nat);
    }
}

/// Setting types changes neither the number of fields nor a count.
pub proof fn lemma_typed_fields_keep(
    fields: Seq<PointFieldView>,
    toks: Seq<Seq<char>>,
    sizes: Seq<u8>,
    k: nat,
)
    requires
        k <= fields.len(),
    ensures
        typed_fields(fields, toks, sizes, k) matches Ok(done) ==> done.len() == fields.len()
            && forall|i: int|
            0 <= i < done.len() ==> (#[trigger] done[i]).count == fields[i].count && done[i].name
                == fields[i].name,
    decreases k,
{
    if k > 0 {
        lemma_typed_fields_keep(fields, toks, sizes, (k - 1) as nat);
    }
}

/// Sets the types of the fields from the tokens behind `TYPE`.
fn types_set(fields: &mut Vec<PointField>, toks: &Vec<String>, sizes: &Vec<u8>) -> (r: Result<
    (),
    String,
>)
    requires
        toks@.len() == old(fields)@.len() + 1,
    ensures
        r is Ok ==> typed_fields(
            old(fields).deep_view(),
            toks.deep_view().skip(1),
            sizes@,
            min(old(fields)@.len() as int, sizes@.len() as int) as nat,
        ) == Ok::<Seq<PointFieldView>, Seq<char>>(final(fields).deep_view()),
        r matches Err(msg) ==> typed_fields(
            old(fields).deep_view(),
            toks.deep_view().skip(1),
            sizes@,
            min(old(fields)@.len() as int, sizes@.len() as int) as nat,
        ) == Err::<Seq<PointFieldView>, Seq<char>>(msg@),
{
    let n = if fields.len() <= sizes.len() {
        fields.len()
    } else {
        sizes.len()
    };
    let ghost first = fields.deep_view();
    let ghost args = toks.deep_view().skip(1);
    let mut i: usize = 0;
    while i < n
        invariant
            i <= n,
            n == min(first.len() as int, sizes@.len() as int),
            first == old(fields).deep_view(),
            fields@.len() == first.len(),
            toks@.len() == first.len() + 1,
            args == toks.deep_view().skip(1),
            typed_fields(first, args, sizes@, i as nat) == Ok::<Seq<PointFieldView>, Seq<char>>(
                fields.deep_view(),
            ),
        decreases n - i,
    {
        let tok = toks[i + 1].as_str();
        proof {
            assert(args[i as int] == toks@[i + 1]@);
        }
        if tok.unicode_len() == 0 {
            proof {
                lemma_typed_fields_err(first, args, sizes@, (i + 1) as nat, n as nat);
            }
            return Err(String::from_str("[TYPE] Empty element in <TYPE>!"));
        }
        let kind = tok.get_char(0);
        match PointFieldType::from_pcd_type_and_size(kind, sizes[i]) {
            Err(msg) => {
                proof {
                    lemma_typed_fields_err(first, args, sizes@, (i + 1) as nat, n as nat);
                }
                return Err(msg);
            },
            Ok(t) => {
                let ghost before = fields.deep_view();
                let name = fields[i].name.clone();
                let count = fields[i].count;
                let field = PointField { name, datatype: t, count };
                fields.set(i, field);
                proof {
                    assert(fields.deep_view() =~= before.update(
                        i as int,
                        PointFieldView { datatype: t, ..before[i as int] },
                    ));
                }
            },
        }
        i += 1;
    }
    Ok(())
}

/// Once a token writes no count, the fields stay without their counts.
proof fn lemma_counted_fields_err(
    fields: Seq<PointFieldView>,
    toks: Seq<Seq<char>>,
    j: nat,
    k: nat,
)
    requires
        j <= k,
        counted_fields(fields, toks, j) is Err,
    ensures
        counted_fields(fields, toks, k) == counted_fields(fields, toks, j),
    decreases k,
{
    if j < k {
        lemma_counted_fields_err(fields, toks, j, (k - 1) as nat);
    }
}

/// Counts that were set are not zero.
pub proof fn lemma_counted_fields_keep(fields: Seq<PointFieldView>, toks: Seq<Seq<char>>, k: nat)
    requires
        k <= fields.len(),
    ensures
        counted_fields(fields, toks, k) matches Ok(done) ==> done.len() == fields.len()
            && forall|i: int|
            0 <= i < done.len() ==> (#[trigger] done[i]).count >= 1 || (i >= k && done[i].count
                == fields[i].count),
    decreases k,
{
    if k > 0 {
        lemma_counted_fields_keep(fields, toks, (k - 1) as nat);
    }
}

/// Sets the counts of the fields from the tokens behind `COUNT`.
fn counts_set(fields: &mut Vec<PointField>, toks: &Vec<String>) -> (r: Result<
    (),
    PointRainIOError,
>)
    requires
        toks@.len() == old(fields)@.len() + 1,
    ensures
        r is Ok ==> counted_fields(
            old(fields).deep_view(),
            toks.deep_view().skip(1),
            old(fields)@.len() as nat,
        ) == Ok::<Seq<PointFieldView>, IOErrorView>(final(fields).deep_view()),
        r matches Err(e) ==> counted_fields(
            old(fields).deep_view(),
            toks.deep_view().skip(1),
            old(fields)@.len() as nat,
        ) == Err::<Seq<PointFieldView>, IOErrorView>(e@),
{
    let n = fields.len();
    let ghost first = fields.deep_view();
    let ghost args = toks.deep_view().skip(1);
    let mut i: usize = 0;
    while i < n
        invariant
            i <= n,
            n == first.len(),
            first == old(fields).deep_view(),
            fields@.len() == first.len(),
            toks@.len() == first.len() + 1,
            args == toks.deep_view().skip(1),
            counted_fields(first, args, i as nat) == Ok::<Seq<PointFieldView>, IOErrorView>(
                fields.deep_view(),
            ),
        decreases n - i,
    {
        proof {
            assert(args[i as int] == toks@[i + 1]@);
        }
        match parse_usize(toks[i + 1].as_str()) {
            None => {
                proof {
                    lemma_counted_fields_err(first, args, (i + 1) as nat, n as nat);
                }
                return Err(PointRainIOError::ParseIntError);
            },
            Some(count) => {
                if count == 0 {
                    proof {
                        lemma_counted_fields_err(first, args, (i + 1) as nat, n as nat);
                    }
                    return Err(invalid(String::from_str("[COUNT] Invalid COUNT value specified.")));
                }
                let ghost before = fields.deep_view();
                let name = fields[i].name.clone();
                let datatype = fields[i].datatype;
                let field = PointField { name, datatype, count };
                fields.set(i, field);
                proof {
                    assert(fields.deep_view() =~= before.update(
                        i as int,
                        PointFieldView { count: count as nat, ..before[i as int] },
                    ));
                }
            },
        }
        i += 1;
    }
    Ok(())
}

/// Whether each token behind the first is a floating-point literal.
fn floats_checked(toks: &Vec<String>) -> (r: bool)
    requires
        toks@.len() >= 1,
    ensures
        r == all_float_literals(toks.deep_view().skip(1)),
{
    let ghost args = toks.deep_view().skip(1);
    let mut i: usize = 1;
    while i < toks.len()
        invariant
            1 <= i <= toks@.len(),
            args == toks.deep_view().skip(1),
            forall|j: int| 0 <= j < i - 1 ==> is_float_literal(#[trigger] args[j]),
        decreases toks@.len() - i,
    {
        proof {
            assert(args[i - 1] == toks@[i as int]@);
        }
        if !is_float_text(toks[i].as_str()) {
            return false;
        }
        i += 1;
    }
    true
}

/// What is reported of `POINTS` where it is not the product of the
/// dimensions.
fn points_mismatch(height: usize, width: usize, size: usize) -> (r: PointRainIOError)
    ensures
        r@ == IOErrorView::Error(points_differ(height as nat, width as nat, size as nat)),
{
    let h = decimal_string(height);
    let w = decimal_string(width);
    let n = decimal_string(size);
    invalid(
        String::from_str("[POINTS] HEIGHT (").concat(h.as_str()).concat(") x WIDTH (").concat(
            w.as_str(),
        ).concat(") != number of points (").concat(n.as_str()).concat(")"),
    )
}

/// The state of a header in the making.
pub open spec fn state_of(header: &PcdHeader, sizes: &Vec<u8>) -> PcdHeaderState {
    PcdHeaderState { header: header@, sizes: sizes@ }
}

/// Takes one directive other than `DATA` into the header.
fn apply_directive(header: &mut PcdHeader, sizes: &mut Vec<u8>, toks: &Vec<String>) -> (r: Result<
    (),
    PointRainIOError,
>)
    requires
        toks@.len() >= 1,
        old(header)@.counted(),
    ensures
        r is Ok ==> directive(state_of(old(header), old(sizes)), toks.deep_view()) == Ok::<
            PcdHeaderState,
            IOErrorView,
        >(state_of(final(header), final(sizes))) && final(header)@.counted(),
        r matches Err(e) ==> directive(state_of(old(header), old(sizes)), toks.deep_view())
            == Err::<PcdHeaderState, IOErrorView>(e@),
{
    let word = toks[0].as_str();
    let ghost args = toks.deep_view().skip(1);
    let ghost h = header@;
    if same_text(word, "VERSION") {
        Ok(())
    } else if same_text(word, "FIELDS") || same_text(word, "COLUMNS") {
        header.fields = fields_named(toks);
        Ok(())
    } else if same_text(word, "SIZE") {
        if header.fields.len() == 0 {
            Err(
                invalid(
                    String::from_str("[SIZE] SIZE of FIELDS specified before FIELDS in header!"),
                ),
            )
        } else if toks.len() - 1 != header.fields.len() {
            Err(
                invalid(
                    String::from_str(
                        "[SIZE] The number of elements in <SIZE> differs than the number of elements in <FIELDS>!",
                    ),
                ),
            )
        } else {
            match sizes_read(toks) {
                None => Err(PointRainIOError::ParseIntError),
                Some(v) => {
                    *sizes = v;
                    Ok(())
                },
            }
        }
    } else if same_text(word, "TYPE") {
        if sizes.len() == 0 {
            Err(invalid(String::from_str("[TYPE] TYPE of FIELDS specified before SIZE in header!")))
        } else if toks.len() - 1 != header.fields.len() {
            Err(
                invalid(
                    String::from_str(
                        "[TYPE] The number of elements in <TYPE> differs than the number of elements in <FIELDS>!",
                    ),
                ),
            )
        } else {
            proof {
                lemma_typed_fields_keep(
                    h.fields,
                    args,
                    sizes@,
                    min(h.fields.len() as int, sizes@.len() as int) as nat,
                );
            }
            match types_set(&mut header.fields, toks, sizes) {
                Err(msg) => Err(invalid(msg)),
                Ok(()) => Ok(()),
            }
        }
    } else if same_text(word, "COUNT") {
        if header.fields.len() == 0 {
            Err(
                invalid(
                    String::from_str("[COUNT] COUNT of FIELDS specified before FIELDS in header!"),
                ),
            )
        } else if toks.len() - 1 != header.fields.len() {
            Err(
                invalid(
                    String::from_str(
                        "[COUNT] The number of elements in <COUNT> differs than the number of elements in <FIELDS>!",
                    ),
                ),
            )
        } else {
            proof {
                lemma_counted_fields_keep(h.fields, args, h.fields.len());
            }
            counts_set(&mut header.fields, toks)
        }
    } else if same_text(word, "WIDTH") {
        if toks.len() < 2 {
            Err(missing_value(word))
        } else {
            proof {
                assert(args[0] == toks@[1]@);
            }
            match parse_usize(toks[1].as_str()) {
                None => Err(PointRainIOError::ParseIntError),
                Some(n) => {
                    header.width = n;
                    Ok(())
                },
            }
        }
    } else if same_text(word, "HEIGHT") {
        if toks.len() < 2 {
            Err(missing_value(word))
        } else {
            proof {
                assert(args[0] == toks@[1]@);
            }
            match parse_usize(toks[1].as_str()) {
                None => Err(PointRainIOError::ParseIntError),
                Some(n) => {
                    header.height = n;
                    Ok(())
                },
            }
        }
    } else if same_text(word, "VIEWPOINT") {
        if toks.len() < 8 {
            Err(
                invalid(
                    String::from_str(
                        "[VIEWPOINT] Not enough number of elements in <VIEWPOINT>! Need 7 values (tx ty tz qw qx qy qz).",
                    ),
                ),
            )
        } else if !floats_checked(toks) {
            Err(PointRainIOError::ParseFloatError)
        } else {
            header.viewpoint = arguments(toks);
            Ok(())
        }
    } else if same_text(word, "POINTS") {
        if toks.len() < 2 {
            Err(missing_value(word))
        } else {
            proof {
                assert(args[0] == toks@[1]@);
            }
            match parse_usize(toks[1].as_str()) {
                None => Err(PointRainIOError::ParseIntError),
                Some(n) => {
                    let (width, height) = if header.width == 0 && header.height == 0 {
                        (n, 1)
                    } else {
                        (header.width, header.height)
                    };
                    let same = match width.checked_mul(height) {
                        Some(product) => product == n,
                        None => false,
                    };
                    if !same {
                        Err(points_mismatch(height, width, n))
                    } else {
                        header.width = width;
                        header.height = height;
                        Ok(())
                    }
                },
            }
        }
    } else {
        Err(invalid(String::from_str("Unknown token: ").concat(word)))
    }
}

/// Closes the header behind its last line.
fn finish(header: PcdHeader) -> (r: Result<PcdHeader, PointRainIOError>)
    requires
        header@.counted(),
    ensures
        r matches Ok(h) ==> finished(header@) == Ok::<PcdHeaderView, IOErrorView>(h@) && h@.wf(),
        r matches Err(e) ==> finished(header@) == Err::<PcdHeaderView, IOErrorView>(e@),
{
    let mut header = header;
    if header.width == 0 {
        Err(invalid(String::from_str("WIDTH is not given!")))
    } else {
        if header.height == 0 {
            header.height = 1;
        }
        Ok(header)
    }
}

/// Reads the header of a columnar file. With the header comes the place
/// where the records start: just behind the line of `DATA`, or the end of
/// the data where no such line is there.
pub fn pcd_read_header(data: &[u8]) -> (r: Result<(PcdHeader, usize), PointRainIOError>)
    ensures
        r matches Ok(found) ==> pcd_header(data@) == Ok::<(PcdHeaderView, int), IOErrorView>(
            (found.0@, found.1 as int),
        ) && found.0@.wf() && found.1 <= data@.len(),
        r matches Err(e) ==> pcd_header(data@) == Err::<(PcdHeaderView, int), IOErrorView>(e@),
{
    let mut header = PcdHeader::default();
    let mut sizes: Vec<u8> = Vec::new();
    let mut pos: usize = 0;
    while pos < data.len()
        invariant
            pos <= data@.len(),
            header@.counted(),
            header_from(data@, pos as int, state_of(&header, &sizes)) == pcd_header(data@),
        decreases data@.len() - pos,
    {
        let end = next_line(data, pos);
        let line = match read_line(data, pos, end) {
            None => {
                return Err(PointRainIOError::FileIOError);
            },
            Some(line) => line,
        };
        if !starts_comment(line) {
            let toks = split_tokens(line);
            let word = toks[0].as_str();
            if same_text(word, "DATA") {
                if toks.len() < 2 {
                    return Err(missing_value(word));
                }
                match PcdDataFormat::try_from(toks[1].as_str()) {
                    Err(msg) => {
                        return Err(invalid(msg));
                    },
                    Ok(format) => {
                        header.format = format;
                        return match finish(header) {
                            Err(e) => Err(e),
                            Ok(h) => Ok((h, end)),
                        };
                    },
                }
            }
            match apply_directive(&mut header, &mut sizes, &toks) {
                Err(e) => {
                    return Err(e);
                },
                Ok(()) => {},
            }
        }
        pos = end;
    }
    match finish(header) {
        Err(e) => Err(e),
        Ok(h) => Ok((h, pos)),
    }
}


} // verus!
