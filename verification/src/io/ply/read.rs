//! The header and the vertices of a vertex-list file.

use crate::io::error::{
    invalid, missing_value, unknown_token, value_missing, IOErrorView, PointRainIOError,
};
use crate::io::field::{
    lemma_datums_fit, record_bytes, record_width, same_text, DatumView, PointField,
    PointFieldDatum, PointFieldType, PointFieldView,
};
use crate::io::mapper::{first_missing, PointMapper, Records, RecordsView};
use crate::io::ply::point::{mapper_of, names_of, PointReadable};
use crate::io::row::{
    after, ascii_row, ascii_rows, binary_row, checked, lemma_after_empty, lemma_after_push,
    read_ascii_row, read_ascii_rows, read_binary_row,
};
use crate::io::text::{
    lemma_line_end, line_end, line_text, next_line, parse_usize, read_line, split_tokens, tokens,
    unsigned_literal,
};
use crate::pc::base::PointCloudBase;
use vstd::prelude::*;

verus! {

/// How the vertices of a vertex-list file are written.
#[derive(Debug, Clone, Copy, PartialEq, Eq, Structural)]
pub enum PlyDataFormat {
    Ascii,
    BinaryLE,
    BinaryBE,
}

impl Default for PlyDataFormat {
    fn default() -> (r: Self)
        ensures
            r == PlyDataFormat::Ascii,
    {
        PlyDataFormat::Ascii
    }
}

impl PlyDataFormat {
    /// The format that a word names.
    pub open spec fn of(from: Seq<char>) -> Option<PlyDataFormat> {
        if from == "ascii"@ {
            Some(PlyDataFormat::Ascii)
        } else if from == "binary_little_endian"@ {
            Some(PlyDataFormat::BinaryLE)
        } else if from == "binary_big_endian"@ {
            Some(PlyDataFormat::BinaryBE)
        } else {
            None
        }
    }

    /// What is reported of a word that names no format.
    pub open spec fn unknown(from: Seq<char>) -> Seq<char> {
        "Unknown data format: "@ + from
    }

    /// The format that a word names.
    pub fn try_from(from: &str) -> (r: Result<Self, String>)
        ensures
            r matches Ok(f) ==> Self::of(from@) == Some(f),
            r matches Err(msg) ==> Self::of(from@) is None && msg@ == Self::unknown(from@),
    {
        if same_text(from, "ascii") {
            Ok(PlyDataFormat::Ascii)
        } else if same_text(from, "binary_little_endian") {
            Ok(PlyDataFormat::BinaryLE)
        } else if same_text(from, "binary_big_endian") {
            Ok(PlyDataFormat::BinaryBE)
        } else {
            Err(String::from_str("Unknown data format: ").concat(from))
        }
    }
}

/// What the header of a vertex-list file declares of its vertices.
#[derive(Debug, Clone)]
pub struct PlyHeader {
    pub format: PlyDataFormat,
    /// How many vertices the file holds.
    pub vertices_size: usize,
    /// The properties of a vertex, in their order.
    pub vertices: Vec<PointField>,
}

/// A `PlyHeader` with its texts as character sequences.
pub struct PlyHeaderView {
    pub format: PlyDataFormat,
    pub vertices_size: nat,
    pub vertices: Seq<PointFieldView>,
}

impl View for PlyHeader {
    type V = PlyHeaderView;

    open spec fn view(&self) -> PlyHeaderView {
        PlyHeaderView {
            format: self.format,
            vertices_size: self.vertices_size as nat,
            vertices: self.vertices.deep_view(),
        }
    }
}

impl PlyHeaderView {
    /// What a header holds before its first line.
    pub open spec fn empty() -> PlyHeaderView {
        PlyHeaderView { format: PlyDataFormat::Ascii, vertices_size: 0, vertices: Seq::empty() }
    }

    /// Whether no property has a count of zero.
    pub open spec fn counted(self) -> bool {
        forall|i: int| 0 <= i < self.vertices.len() ==> (#[trigger] self.vertices[i]).count >= 1
    }
}

impl Default for PlyHeader {
    fn default() -> (r: Self)
        ensures
            r@ == PlyHeaderView::empty(),
    {
        let r = PlyHeader { format: PlyDataFormat::Ascii, vertices_size: 0, vertices: Vec::new() };
        assert(r.vertices.deep_view() =~= Seq::empty());
        r
    }
}

/// A header in the making: what was declared so far, and the element whose
/// properties are being declared.
pub struct PlyHeaderState {
    pub header: PlyHeaderView,
    pub element: Option<Seq<char>>,
}

/// What a line other than `end_header` makes of the header. `toks` are its
/// tokens, the first of them its keyword. Properties count only while the
/// element is `vertex`.
pub open spec fn directive(st: PlyHeaderState, toks: Seq<Seq<char>>) -> Result<
    PlyHeaderState,
    IOErrorView,
> {
    let word = toks[0];
    let h = st.header;
    if word == "ply"@ || word == "comment"@ {
        Ok(st)
    } else if word == "format"@ {
        if toks.len() < 2 {
            Err(IOErrorView::Error(value_missing(word)))
        } else {
            match PlyDataFormat::of(toks[1]) {
                None => Err(IOErrorView::Error(PlyDataFormat::unknown(toks[1]))),
                Some(format) => Ok(PlyHeaderState { header: PlyHeaderView { format, ..h }, ..st }),
            }
        }
    } else if word == "element"@ {
        if toks.len() < 2 {
            Err(IOErrorView::Error(value_missing(word)))
        } else if toks[1] == "vertex"@ {
            if toks.len() < 3 {
                Err(IOErrorView::Error(value_missing(word)))
            } else {
                match unsigned_literal(toks[2], usize::MAX as nat) {
                    None => Err(IOErrorView::ParseIntError),
                    Some(n) => Ok(
                        PlyHeaderState {
                            header: PlyHeaderView { vertices_size: n, ..h },
                            element: Some(toks[1]),
                        },
                    ),
                }
            }
        } else {
            Ok(PlyHeaderState { element: Some(toks[1]), ..st })
        }
    } else if word == "property"@ {
        if st.element == Some("vertex"@) {
            if toks.len() < 3 {
                Err(IOErrorView::Error(value_missing(word)))
            } else {
                match PointFieldType::of_ply(toks[1]) {
                    None => Err(IOErrorView::Error(PointFieldType::unknown_type(toks[1]))),
                    Some(datatype) => Ok(
                        PlyHeaderState {
                            header: PlyHeaderView {
                                vertices: h.vertices.push(
                                    PointFieldView { name: toks[2], datatype, count: 1 },
                                ),
                                ..h
                            },
                            ..st
                        },
                    ),
                }
            }
        } else {
            Ok(st)
        }
    } else {
        Err(IOErrorView::Error(unknown_token(word)))
    }
}

/// The header that the lines from `pos` on make of `st`, and where the
/// vertices start. `end_header` or the end of the data ends the header.
pub open spec fn header_from(data: Seq<u8>, pos: int, st: PlyHeaderState) -> Result<
    (PlyHeaderView, int),
    IOErrorView,
>
    decreases data.len() - pos,
    when 0 <= pos
    via header_from_decreases
{
    if pos >= data.len() {
        Ok((st.header, data.len() as int))
    } else {
        let end = line_end(data, pos);
        match line_text(data, pos) {
            None => Err(IOErrorView::FileIOError),
            Some(line) => {
                let toks = tokens(line);
                if toks[0] == "end_header"@ {
                    Ok((st.header, end))
                } else {
                    match directive(st, toks) {
                        Err(e) => Err(e),
                        Ok(next) => header_from(data, end, next),
                    }
                }
            },
        }
    }
}

#[via_fn]
proof fn header_from_decreases(data: Seq<u8>, pos: int, st: PlyHeaderState) {
    if pos < data.len() {
        lemma_line_end(data, pos);
    }
}

/// The header of a vertex-list file, and where its vertices start.
pub open spec fn ply_header(data: Seq<u8>) -> Result<(PlyHeaderView, int), IOErrorView> {
    header_from(data, 0, PlyHeaderState { header: PlyHeaderView::empty(), element: None })
}

/// The first `n` rows of a binary body. A body that ends before the last
/// of them cannot be read; the first row that is no record ends the reading
/// with its error.
pub open spec fn counted_rows(
    fields: Seq<PointFieldView>,
    mapper: PointMapper,
    body: Seq<u8>,
    low_first: bool,
    n: nat,
) -> Result<Seq<Seq<DatumView>>, IOErrorView>
    decreases n,
{
    if n == 0 {
        Ok(Seq::empty())
    } else if body.len() < record_width(fields) {
        Err(IOErrorView::FileIOError)
    } else {
        let row = binary_row(fields, body, low_first, fields.len());
        match checked(mapper, row) {
            Err(e) => Err(e),
            Ok(_) => after(
                seq![row],
                counted_rows(
                    fields,
                    mapper,
                    body.skip(record_width(fields) as int),
                    low_first,
                    (n - 1) as nat,
                ),
            ),
        }
    }
}

/// The rows of a body, as the format of the header has them: as many as
/// the header declares vertices, or in text as many as there are lines, if
/// those are fewer.
pub open spec fn ply_rows(h: PlyHeaderView, mapper: PointMapper, body: Seq<u8>) -> Result<
    Seq<Seq<DatumView>>,
    IOErrorView,
> {
    match h.format {
        PlyDataFormat::Ascii => ascii_rows(h.vertices, mapper, body, 0, Some(h.vertices_size)),
        PlyDataFormat::BinaryLE => counted_rows(h.vertices, mapper, body, true, h.vertices_size),
        PlyDataFormat::BinaryBE => counted_rows(h.vertices, mapper, body, false, h.vertices_size),
    }
}

/// The records of a body for a point record `P`. First the mapper is
/// resolved, and a missing property reported; then the rows are read.
pub open spec fn ply_data<P: PointReadable>(h: PlyHeaderView, body: Seq<u8>) -> Result<
    RecordsView,
    IOErrorView,
> {
    match first_missing(h.vertices, names_of(P::layout())) {
        Some(name) => Err(IOErrorView::MissingFieldError(name)),
        None => {
            let mapper = mapper_of(h.vertices, P::layout());
            match ply_rows(h, mapper, body) {
                Err(e) => Err(e),
                Ok(rows) => Ok(RecordsView { mapper, rows }),
            }
        },
    }
}

/// The records of a vertex-list file for a point record `P`: its header,
/// then its body.
pub open spec fn ply_file<P: PointReadable>(data: Seq<u8>) -> Result<
    (PlyHeaderView, RecordsView),
    IOErrorView,
> {
    match ply_header(data) {
        Err(e) => Err(e),
        Ok((h, start)) => match ply_data::<P>(h, data.skip(start)) {
            Err(e) => Err(e),
            Ok(records) => Ok((h, records)),
        },
    }
}

/// The state of a header in the making.
pub open spec fn state_of(header: &PlyHeader, element: &Option<String>) -> PlyHeaderState {
    PlyHeaderState {
        header: header@,
        element: match *element {
            Some(name) => Some(name@),
            None => None,
        },
    }
}

/// Takes one line other than `end_header` into the header.
fn apply_directive(header: &mut PlyHeader, element: &mut Option<String>, toks: &Vec<String>) -> (r:
    Result<(), PointRainIOError>)
    requires
        toks@.len() >= 1,
        old(header)@.counted(),
    ensures
        r is Ok ==> directive(state_of(old(header), old(element)), toks.deep_view()) == Ok::<
            PlyHeaderState,
            IOErrorView,
        >(state_of(final(header), final(element))) && final(header)@.counted(),
        r matches Err(e) ==> directive(state_of(old(header), old(element)), toks.deep_view())
            == Err::<PlyHeaderState, IOErrorView>(e@),
{
    let word = toks[0].as_str();
    if same_text(word, "ply") || same_text(word, "comment") {
        Ok(())
    } else if same_text(word, "format") {
        if toks.len() < 2 {
            Err(missing_value(word))
        } else {
            match PlyDataFormat::try_from(toks[1].as_str()) {
                Err(msg) => Err(invalid(msg)),
                Ok(format) => {
                    header.format = format;
                    Ok(())
                },
            }
        }
    } else if same_text(word, "element") {
        if toks.len() < 2 {
            Err(missing_value(word))
        } else if same_text(toks[1].as_str(), "vertex") {
            if toks.len() < 3 {
                Err(missing_value(word))
            } else {
                match parse_usize(toks[2].as_str()) {
                    None => Err(PointRainIOError::ParseIntError),
                    Some(n) => {
                        header.vertices_size = n;
                        *element = Some(toks[1].clone());
                        Ok(())
                    },
                }
            }
        } else {
            *element = Some(toks[1].clone());
            Ok(())
        }
    } else if same_text(word, "property") {
        let of_vertex = match element {
            Some(name) => same_text(name.as_str(), "vertex"),
            None => false,
        };
        if of_vertex {
            if toks.len() < 3 {
                Err(missing_value(word))
            } else {
                match PointFieldType::from_ply_type(toks[1].as_str()) {
                    Err(msg) => Err(invalid(msg)),
                    Ok(datatype) => {
                        let ghost before = header.vertices.deep_view();
                        let field = PointField { name: toks[2].clone(), datatype, count: 1 };
                        header.vertices.push(field);
                        proof {
                            assert(header.vertices.deep_view() =~= before.push(field@));
                        }
                        Ok(())
                    },
                }
            }
        } else {
            Ok(())
        }
    } else {
        Err(invalid(String::from_str("Unknown token: ").concat(word)))
    }
}

/// Reads the header of a vertex-list file. With the header comes the place
/// where the vertices start: just behind the line of `end_header`, or the
/// end of the data where no such line is there.
pub fn ply_read_header(data: &[u8]) -> (r: Result<(PlyHeader, usize), PointRainIOError>)
    ensures
        r matches Ok(found) ==> ply_header(data@) == Ok::<(PlyHeaderView, int), IOErrorView>(
            (found.0@, found.1 as int),
        ) && found.0@.counted() && found.1 <= data@.len(),
        r matches Err(e) ==> ply_header(data@) == Err::<(PlyHeaderView, int), IOErrorView>(e@),
{
    let mut header = PlyHeader::default();
    let mut element: Option<String> = None;
    let mut pos: usize = 0;
    while pos < data.len()
        invariant
            pos <= data@.len(),
            header@.counted(),
            header_from(data@, pos as int, state_of(&header, &element)) == ply_header(data@),
        decreases data@.len() - pos,
    {
        let end = next_line(data, pos);
        let line = match read_line(data, pos, end) {
            None => {
                return Err(PointRainIOError::FileIOError);
            },
            Some(line) => line,
        };
        let toks = split_tokens(line);
        if same_text(toks[0].as_str(), "end_header") {
            return Ok((header, end));
        }
        match apply_directive(&mut header, &mut element, &toks) {
            Err(e) => {
                return Err(e);
            },
            Ok(()) => {},
        }
        pos = end;
    }
    Ok((header, pos))
}

/// Reads one line of an ascii body as a row.
pub fn ply_read_ascii_datum(header: &PlyHeader, line: &str) -> (r: Result<
    Vec<PointFieldDatum>,
    PointRainIOError,
>)
    ensures
        r matches Ok(row) ==> ascii_row(header@.vertices, line@) == Ok::<
            Seq<DatumView>,
            IOErrorView,
        >(row.deep_view()) && row@.len() == header.vertices@.len(),
        r matches Err(e) ==> ascii_row(header@.vertices, line@) == Err::<
            Seq<DatumView>,
            IOErrorView,
        >(e@),
{
    read_ascii_row(&header.vertices, line)
}

/// Takes one row off the front of a binary body: one value of each
/// property's type, in the byte order of the format.
pub fn ply_read_binary_datum(header: &PlyHeader, chunk: &mut &[u8]) -> (r: Vec<PointFieldDatum>)
    requires
        header.format != PlyDataFormat::Ascii,
        old(chunk)@.len() >= crate::io::field::datums_width(header@.vertices),
    ensures
        r.deep_view() == binary_row(
            header@.vertices,
            old(chunk)@,
            header.format == PlyDataFormat::BinaryLE,
            header.vertices@.len() as nat,
        ),
        r@.len() == header.vertices@.len(),
        final(chunk)@ == old(chunk)@.skip(crate::io::field::datums_width(header@.vertices) as int),
{
    let low_first = match header.format {
        PlyDataFormat::BinaryLE => true,
        _ => false,
    };
    read_binary_row(&header.vertices, chunk, low_first)
}

/// Reads the first rows of a binary body, as many as the header declares.
fn read_counted_rows(header: &PlyHeader, mapper: &PointMapper, body: &[u8]) -> (r: Result<
    Vec<Vec<PointFieldDatum>>,
    PointRainIOError,
>)
    requires
        header.format != PlyDataFormat::Ascii,
        header@.counted(),
        mapper.within(header.vertices@.len() as nat),
    ensures
        r matches Ok(rows) ==> counted_rows(
            header@.vertices,
            *mapper,
            body@,
            header.format == PlyDataFormat::BinaryLE,
            header@.vertices_size,
        ) == Ok::<Seq<Seq<DatumView>>, IOErrorView>(rows.deep_view()) && forall|i: int|
            0 <= i < rows@.len() ==> mapper.accepts(#[trigger] rows.deep_view()[i]),
        r matches Err(e) ==> counted_rows(
            header@.vertices,
            *mapper,
            body@,
            header.format == PlyDataFormat::BinaryLE,
            header@.vertices_size,
        ) == Err::<Seq<Seq<DatumView>>, IOErrorView>(e@),
{
    let ghost fv = header@.vertices;
    let ghost low = header.format == PlyDataFormat::BinaryLE;
    let n = header.vertices_size;
    let ghost goal = counted_rows(fv, *mapper, body@, low, n as nat);
    let mut rows: Vec<Vec<PointFieldDatum>> = Vec::new();
    proof {
        lemma_datums_fit(fv);
        assert(rows.deep_view() =~= Seq::<Seq<DatumView>>::empty());
        lemma_after_empty(goal);
    }
    let width = record_bytes(&header.vertices);
    let mut rest: &[u8] = body;
    let mut i: usize = 0;
    while i < n
        invariant
            i <= n,
            n == header.vertices_size,
            fv == header@.vertices,
            low == (header.format == PlyDataFormat::BinaryLE),
            header.format != PlyDataFormat::Ascii,
            width is Some <==> record_width(fv) <= usize::MAX,
            width matches Some(w) ==> w == record_width(fv),
            crate::io::field::datums_width(fv) <= record_width(fv),
            mapper.within(header.vertices@.len() as nat),
            goal == counted_rows(fv, *mapper, body@, low, n as nat),
            goal == after(rows.deep_view(), counted_rows(fv, *mapper, rest@, low, (n - i) as nat)),
            forall|j: int| 0 <= j < rows@.len() ==> mapper.accepts(#[trigger] rows.deep_view()[j]),
        decreases n - i,
    {
        let have = rest.len();
        let w = match width {
            Some(w) => w,
            None => {
                return Err(PointRainIOError::FileIOError);
            },
        };
        if have < w {
            return Err(PointRainIOError::FileIOError);
        }
        let mut cursor: &[u8] = rest;
        let row = ply_read_binary_datum(header, &mut cursor);
        match mapper.check(&row) {
            Err(e) => {
                return Err(e);
            },
            Ok(()) => {},
        }
        let ghost before = rows.deep_view();
        let ghost tail = counted_rows(fv, *mapper, rest@.skip(w as int), low, (n - i - 1) as nat);
        rows.push(row);
        proof {
            assert(rows.deep_view() =~= before.push(row.deep_view()));
            lemma_after_push(before, row.deep_view(), tail);
        }
        let ghost whole = rest@;
        rest = vstd::slice::slice_subrange(rest, w, rest.len());
        proof {
            assert(rest@ =~= whole.skip(w as int));
        }
        i += 1;
    }
    proof {
        assert(rows.deep_view() + Seq::<Seq<DatumView>>::empty() =~= rows.deep_view());
    }
    Ok(rows)
}

/// Reads the vertices of a vertex-list file for the point record of a
/// container. A property that the record needs and the header lacks is
/// reported before any row is read.
pub fn ply_read_data<PC>(header: &PlyHeader, body: &[u8]) -> (r: Result<
    Records,
    PointRainIOError,
>) where PC: PointCloudBase, PC::Point: PointReadable
    requires
        header@.counted(),
    ensures
        r matches Ok(records) ==> ply_data::<PC::Point>(header@, body@) == Ok::<
            RecordsView,
            IOErrorView,
        >(records@) && records@.wf(),
        r matches Err(e) ==> ply_data::<PC::Point>(header@, body@) == Err::<
            RecordsView,
            IOErrorView,
        >(e@),
{
    let mapper = match <PC::Point as PointReadable>::read_data_func(&header.vertices) {
        Err(e) => {
            return Err(e);
        },
        Ok(m) => m,
    };
    let rows = match header.format {
        PlyDataFormat::Ascii => read_ascii_rows(
            &header.vertices,
            &mapper,
            body,
            Some(header.vertices_size),
        ),
        _ => read_counted_rows(header, &mapper, body),
    };
    match rows {
        Err(e) => Err(e),
        Ok(rows) => Ok(Records { mapper, rows }),
    }
}

/// Reads a vertex-list file for the point record of a container: its
/// header, and the rows of its vertices. `point_cloud` makes the container
/// of them.
pub fn ply_read<PC>(data: &[u8]) -> (r: Result<(PlyHeader, Records), PointRainIOError>) where
    PC: PointCloudBase,
    PC::Point: PointReadable,

    ensures
        r matches Ok(found) ==> ply_file::<PC::Point>(data@) == Ok::<
            (PlyHeaderView, RecordsView),
            IOErrorView,
        >((found.0@, found.1@)) && found.1@.wf(),
        r matches Err(e) ==> ply_file::<PC::Point>(data@) == Err::<
            (PlyHeaderView, RecordsView),
            IOErrorView,
        >(e@),
{
    let (header, start) = match ply_read_header(data) {
        Err(e) => {
            return Err(e);
        },
        Ok(found) => found,
    };
    let body = vstd::slice::slice_subrange(data, start, data.len());
    proof {
        assert(body@ =~= data@.skip(start as int));
    }
    match ply_read_data::<PC>(&header, body) {
        Err(e) => Err(e),
        Ok(records) => Ok((header, records)),
    }
}

} // verus!
