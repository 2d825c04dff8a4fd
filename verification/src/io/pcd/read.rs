//! The records of a columnar file.

use crate::io::error::{IOErrorView, PointRainIOError};
use crate::io::field::{
    lemma_datums_fit, record_bytes, record_width, DatumView, PointFieldDatum, PointFieldView,
};
use crate::io::mapper::{first_missing, PointMapper, Records, RecordsView};
use crate::io::pcd::header::{
    pcd_header, pcd_read_header, PcdDataFormat, PcdHeader, PcdHeaderView,
};
use crate::io::pcd::point::{mapper_of, names_of, PointReadable};
use crate::io::row::{
    after, alike_rows, ascii_plain, ascii_row, ascii_rows, binary_row, binary_row_at, checked,
    lemma_after_empty, lemma_after_push, lemma_alike_accepted, lemma_ascii_checked,
    read_ascii_row, read_ascii_rows, read_binary_row,
};
use crate::io::text::{decimal_string, decimal_string_wide, decimal_text};
use crate::pc::base::PointCloudBase;
use vstd::prelude::*;

verus! {

/// What is reported of bytes behind the last whole record.
pub open spec fn extra_data() -> Seq<char> {
    "extra data remains"@
}

/// What is reported of a compressed body.
pub open spec fn compressed() -> Seq<char> {
    "binary compressed format is not supported"@
}

/// What is reported of a body with another number of rows than the header
/// declares.
pub open spec fn count_differs(points: nat, width: nat, height: nat) -> Seq<char> {
    "The number of points ("@ + decimal_text(points)
        + ") does not match the number of points specified in the header ("@ + decimal_text(width)
        + " x "@ + decimal_text(height) + " = "@ + decimal_text(width * height) + ")"@
}

/// The rows of a binary body: one row for each whole record, and an error
/// for bytes that are left behind the last whole record. The first row that
/// is no record ends the reading with its error. Where a record takes no
/// bytes, there are no rows.
pub open spec fn binary_rows(
    fields: Seq<PointFieldView>,
    mapper: PointMapper,
    body: Seq<u8>,
) -> Result<Seq<Seq<DatumView>>, IOErrorView>
    decreases body.len(),
{
    let width = record_width(fields);
    if width == 0 || body.len() == 0 {
        Ok(Seq::empty())
    } else if body.len() < width {
        Err(IOErrorView::Error(extra_data()))
    } else {
        let row = binary_row(fields, body, true, fields.len());
        match checked(mapper, row) {
            Err(e) => Err(e),
            Ok(_) => after(seq![row], binary_rows(fields, mapper, body.skip(width as int))),
        }
    }
}

/// The rows of a body, as the format of the header has them.
pub open spec fn pcd_rows(h: PcdHeaderView, mapper: PointMapper, body: Seq<u8>) -> Result<
    Seq<Seq<DatumView>>,
    IOErrorView,
> {
    match h.format {
        PcdDataFormat::Ascii => ascii_rows(h.fields, mapper, body, 0, None),
        PcdDataFormat::Binary => binary_rows(h.fields, mapper, body),
        PcdDataFormat::BinaryCompressed => Err(IOErrorView::UnsupportedError(compressed())),
    }
}

/// The records of a body for a point record `P`. First the mapper is
/// resolved, and a missing field reported; then the rows are read; at last
/// their number must be the product of the dimensions that the header
/// declares.
pub open spec fn pcd_data<P: PointReadable>(h: PcdHeaderView, body: Seq<u8>) -> Result<
    RecordsView,
    IOErrorView,
> {
    match first_missing(h.fields, names_of(P::layout())) {
        Some(name) => Err(IOErrorView::MissingFieldError(name)),
        None => {
            let mapper = mapper_of(h.fields, P::layout());
            match pcd_rows(h, mapper, body) {
                Err(e) => Err(e),
                Ok(rows) => if rows.len() != h.points() {
                    Err(IOErrorView::Error(count_differs(rows.len(), h.width, h.height)))
                } else {
                    Ok(RecordsView { mapper, rows })
                },
            }
        },
    }
}

/// The records of a columnar file for a point record `P`: its header, then
/// its body.
pub open spec fn pcd_file<P: PointReadable>(data: Seq<u8>) -> Result<
    (PcdHeaderView, RecordsView),
    IOErrorView,
> {
    match pcd_header(data) {
        Err(e) => Err(e),
        Ok((h, start)) => match pcd_data::<P>(h, data.skip(start)) {
            Err(e) => Err(e),
            Ok(records) => Ok((h, records)),
        },
    }
}

/// A body whose rows can all be read is accepted exactly where the number
/// of its rows is the product of the dimensions that the header declares,
/// and then gives that many records; else an error of the format is
/// reported.
pub proof fn lemma_point_count<P: PointReadable>(h: PcdHeaderView, body: Seq<u8>)
    requires
        first_missing(h.fields, names_of(P::layout())) is None,
        pcd_rows(h, mapper_of(h.fields, P::layout()), body) is Ok,
    ensures
        pcd_rows(h, mapper_of(h.fields, P::layout()), body)->Ok_0.len() == h.points()
            ==> pcd_data::<P>(h, body) is Ok && pcd_data::<P>(h, body)->Ok_0.rows.len()
            == h.points(),
        pcd_rows(h, mapper_of(h.fields, P::layout()), body)->Ok_0.len() != h.points()
            ==> pcd_data::<P>(h, body) is Err && pcd_data::<P>(h, body)->Err_0 is Error,
{
}

/// A file as text and a file as bytes that declare the same fields and
/// hold the same values, row by row, give the same records.
pub proof fn lemma_ascii_binary<P: PointReadable>(
    text: PcdHeaderView,
    text_body: Seq<u8>,
    text_images: Seq<Seq<crate::types::Float>>,
    bytes: PcdHeaderView,
    bytes_body: Seq<u8>,
    bytes_images: Seq<Seq<crate::types::Float>>,
)
    requires
        text.format == PcdDataFormat::Ascii,
        bytes.format == PcdDataFormat::Binary,
        text.fields == bytes.fields,
        pcd_data::<P>(text, text_body) is Ok,
        pcd_data::<P>(bytes, bytes_body) is Ok,
        pcd_data::<P>(text, text_body)->Ok_0.wf(),
        pcd_data::<P>(text, text_body)->Ok_0.rows.len() == pcd_data::<P>(
            bytes,
            bytes_body,
        )->Ok_0.rows.len(),
        forall|i: int|
            0 <= i < pcd_data::<P>(text, text_body)->Ok_0.rows.len() ==> crate::io::mapper::same_values(
                #[trigger] pcd_data::<P>(text, text_body)->Ok_0.rows[i],
                text_images[i],
                pcd_data::<P>(bytes, bytes_body)->Ok_0.rows[i],
                bytes_images[i],
            ),
    ensures
        pcd_data::<P>(text, text_body)->Ok_0.points::<P>(text_images) == pcd_data::<P>(
            bytes,
            bytes_body,
        )->Ok_0.points::<P>(bytes_images),
{
    let a = pcd_data::<P>(text, text_body)->Ok_0;
    let b = pcd_data::<P>(bytes, bytes_body)->Ok_0;
    crate::io::mapper::lemma_same_values_same_points::<P>(a, text_images, b, bytes_images);
}

/// A binary body of `n` whole records gives their rows exactly where a
/// mapper accepts each of them.
pub proof fn lemma_binary_checked(
    fields: Seq<PointFieldView>,
    mapper: PointMapper,
    body: Seq<u8>,
    n: nat,
)
    requires
        record_width(fields) >= 1,
        body.len() == n * record_width(fields),
    ensures
        binary_rows(fields, mapper, body) is Ok <==> forall|i: int|
            0 <= i < n ==> mapper.accepts(#[trigger] binary_row_at(fields, body, i)),
        binary_rows(fields, mapper, body) is Ok ==> binary_rows(fields, mapper, body) == Ok::<
            Seq<Seq<DatumView>>,
            IOErrorView,
        >(Seq::new(n, |i: int| binary_row_at(fields, body, i))),
    decreases n,
{
    let w = record_width(fields);
    let all = Seq::new(n, |i: int| binary_row_at(fields, body, i));
    if n == 0 {
        assert(body.len() == 0) by (nonlinear_arith)
            requires
                body.len() == n * w,
                n == 0,
        ;
        assert(all =~= Seq::<Seq<DatumView>>::empty());
    } else {
        assert(body.len() == (n - 1) * w + w && body.len() >= w) by (nonlinear_arith)
            requires
                body.len() == n * w,
                n >= 1,
                w >= 1,
        ;
        let tail = body.skip(w as int);
        let rest = Seq::new((n - 1) as nat, |i: int| binary_row_at(fields, tail, i));
        lemma_binary_checked(fields, mapper, tail, (n - 1) as nat);
        assert(body.skip(0int * w) =~= body);
        assert(binary_row_at(fields, body, 0) == binary_row(fields, body, true, fields.len()));
        assert forall|i: int| 0 <= i < n - 1 implies #[trigger] binary_row_at(fields, tail, i)
            == binary_row_at(fields, body, i + 1) by {
            assert((i + 1) * w == i * w + w && i * w >= 0 && i * w + w <= body.len())
                by (nonlinear_arith)
                requires
                    0 <= i < n - 1,
                    body.len() == n * w,
                    w >= 1,
            ;
            assert(tail.skip(i * w) =~= body.skip((i + 1) * w));
        }
        assert(all =~= seq![binary_row_at(fields, body, 0)] + rest);
        if binary_rows(fields, mapper, body) is Ok {
            assert forall|i: int| 0 <= i < n implies mapper.accepts(
                #[trigger] binary_row_at(fields, body, i),
            ) by {
                if i > 0 {
                    assert(binary_row_at(fields, tail, i - 1) == binary_row_at(fields, body, i));
                }
            }
        }
        if forall|i: int| 0 <= i < n ==> mapper.accepts(#[trigger] binary_row_at(fields, body, i)) {
            assert(mapper.accepts(binary_row_at(fields, body, 0)));
            assert forall|i: int| 0 <= i < n - 1 implies mapper.accepts(
                #[trigger] binary_row_at(fields, tail, i),
            ) by {
                assert(mapper.accepts(binary_row_at(fields, body, i + 1)));
            }
        }
    }
}

/// A file as text and a file as bytes of the same header are read
/// together or not at all, where the body of bytes holds, record by record,
/// what the lines of text write: as many whole records as there are lines,
/// each datum alike that of its token. Then the two give the same mapper
/// and as many rows; with `lemma_ascii_binary` they give the same records
/// where the values of the floating-point datums are the same.
pub proof fn lemma_ascii_binary_decode<P: PointReadable>(
    text: PcdHeaderView,
    text_body: Seq<u8>,
    bytes: PcdHeaderView,
    bytes_body: Seq<u8>,
)
    requires
        text.format == PcdDataFormat::Ascii,
        bytes.format == PcdDataFormat::Binary,
        text.fields == bytes.fields,
        text.width == bytes.width,
        text.height == bytes.height,
        text.counted(),
        ascii_plain(text.fields, text_body, 0) is Ok,
        bytes_body.len() == ascii_plain(text.fields, text_body, 0)->Ok_0.len() * record_width(
            text.fields,
        ),
        forall|i: int|
            0 <= i < ascii_plain(text.fields, text_body, 0)->Ok_0.len() ==> alike_rows(
                #[trigger] ascii_plain(text.fields, text_body, 0)->Ok_0[i],
                binary_row_at(text.fields, bytes_body, i),
            ),
    ensures
        pcd_data::<P>(text, text_body) is Ok <==> pcd_data::<P>(bytes, bytes_body) is Ok,
        pcd_data::<P>(text, text_body) is Ok ==> pcd_data::<P>(text, text_body)->Ok_0.mapper
            == pcd_data::<P>(bytes, bytes_body)->Ok_0.mapper && pcd_data::<P>(
            text,
            text_body,
        )->Ok_0.rows == ascii_plain(text.fields, text_body, 0)->Ok_0 && pcd_data::<P>(
            bytes,
            bytes_body,
        )->Ok_0.rows == Seq::new(
            ascii_plain(text.fields, text_body, 0)->Ok_0.len(),
            |i: int| binary_row_at(text.fields, bytes_body, i),
        ),
{
    let fields = text.fields;
    let rows = ascii_plain(fields, text_body, 0)->Ok_0;
    if first_missing(fields, names_of(P::layout())) is None {
        let mapper = mapper_of(fields, P::layout());
        if fields.len() == 0 {
            assert(names_of(P::layout())[0] == "x"@);
            assert(!crate::io::mapper::has_field(fields, "x"@));
        }
        lemma_record_width_positive(fields);
        lemma_ascii_checked(fields, mapper, text_body, 0);
        lemma_binary_checked(fields, mapper, bytes_body, rows.len());
        assert forall|i: int| 0 <= i < rows.len() implies mapper.accepts(#[trigger] rows[i])
            == mapper.accepts(binary_row_at(fields, bytes_body, i)) by {
            lemma_alike_accepted(mapper, rows[i], binary_row_at(fields, bytes_body, i));
        }
        if forall|i: int| 0 <= i < rows.len() ==> mapper.accepts(#[trigger] rows[i]) {
            assert forall|i: int| 0 <= i < rows.len() implies mapper.accepts(
                #[trigger] binary_row_at(fields, bytes_body, i),
            ) by {
                assert(mapper.accepts(rows[i]));
            }
        }
        if forall|i: int|
            0 <= i < rows.len() ==> mapper.accepts(#[trigger] binary_row_at(fields, bytes_body, i)) {
            assert forall|i: int| 0 <= i < rows.len() implies mapper.accepts(#[trigger] rows[i]) by {
                assert(mapper.accepts(binary_row_at(fields, bytes_body, i)));
            }
        }
    }
}

/// Reads one line of an ascii body as a row.
pub fn pcd_read_ascii_datum(header: &PcdHeader, line: &str) -> (r: Result<
    Vec<PointFieldDatum>,
    PointRainIOError,
>)
    ensures
        r matches Ok(row) ==> ascii_row(header@.fields, line@) == Ok::<
            Seq<DatumView>,
            IOErrorView,
        >(row.deep_view()) && row@.len() == header.fields@.len(),
        r matches Err(e) ==> ascii_row(header@.fields, line@) == Err::<
            Seq<DatumView>,
            IOErrorView,
        >(e@),
{
    read_ascii_row(&header.fields, line)
}

/// Takes one row off the front of a binary body: one value of each field's
/// type, low byte first.
pub fn pcd_read_binary_datum(header: &PcdHeader, chunk: &mut &[u8]) -> (r: Vec<PointFieldDatum>)
    requires
        old(chunk)@.len() >= crate::io::field::datums_width(header@.fields),
    ensures
        r.deep_view() == binary_row(
            header@.fields,
            old(chunk)@,
            true,
            header.fields@.len() as nat,
        ),
        r@.len() == header.fields@.len(),
        final(chunk)@ == old(chunk)@.skip(crate::io::field::datums_width(header@.fields) as int),
{
    read_binary_row(&header.fields, chunk, true)
}

/// A record of fields that each have a count takes a byte at least for
/// each field.
proof fn lemma_record_width_positive(fields: Seq<PointFieldView>)
    requires
        forall|i: int| 0 <= i < fields.len() ==> (#[trigger] fields[i]).count >= 1,
    ensures
        record_width(fields) >= fields.len(),
    decreases fields.len(),
{
    if fields.len() > 0 {
        lemma_record_width_positive(fields.drop_last());
        let f = fields.last();
        assert(f.count * f.datatype.width() >= 1) by (nonlinear_arith)
            requires
                f.count >= 1,
                f.datatype.width() >= 1,
        ;
    }
}

/// Reads the rows of a binary body.
fn read_binary_rows(header: &PcdHeader, mapper: &PointMapper, body: &[u8]) -> (r: Result<
    Vec<Vec<PointFieldDatum>>,
    PointRainIOError,
>)
    requires
        header@.counted(),
        mapper.within(header.fields@.len() as nat),
    ensures
        r matches Ok(rows) ==> binary_rows(header@.fields, *mapper, body@) == Ok::<
            Seq<Seq<DatumView>>,
            IOErrorView,
        >(rows.deep_view()) && forall|i: int|
            0 <= i < rows@.len() ==> mapper.accepts(#[trigger] rows.deep_view()[i]),
        r matches Err(e) ==> binary_rows(header@.fields, *mapper, body@) == Err::<
            Seq<Seq<DatumView>>,
            IOErrorView,
        >(e@),
{
    let ghost fv = header@.fields;
    let ghost goal = binary_rows(fv, *mapper, body@);
    let mut rows: Vec<Vec<PointFieldDatum>> = Vec::new();
    proof {
        lemma_record_width_positive(fv);
        lemma_datums_fit(fv);
        assert(rows.deep_view() =~= Seq::<Seq<DatumView>>::empty());
        lemma_after_empty(goal);
    }
    let width = match record_bytes(&header.fields) {
        Some(w) => w,
        None => {
            if body.len() == 0 {
                return Ok(rows);
            } else {
                return Err(
                    PointRainIOError::Error { msg: String::from_str("extra data remains") },
                );
            }
        },
    };
    let mut rest: &[u8] = body;
    while rest.len() >= width
        invariant
            fv == header@.fields,
            width == record_width(fv),
            width >= 1,
            crate::io::field::datums_width(fv) <= width,
            mapper.within(header.fields@.len() as nat),
            goal == binary_rows(fv, *mapper, body@),
            goal == after(rows.deep_view(), binary_rows(fv, *mapper, rest@)),
            forall|i: int| 0 <= i < rows@.len() ==> mapper.accepts(#[trigger] rows.deep_view()[i]),
        decreases rest@.len(),
    {
        let mut cursor: &[u8] = rest;
        let row = read_binary_row(&header.fields, &mut cursor, true);
        match mapper.check(&row) {
            Err(e) => {
                return Err(e);
            },
            Ok(()) => {},
        }
        let ghost before = rows.deep_view();
        let ghost tail = binary_rows(fv, *mapper, rest@.skip(width as int));
        rows.push(row);
        proof {
            assert(rows.deep_view() =~= before.push(row.deep_view()));
            lemma_after_push(before, row.deep_view(), tail);
        }
        let ghost whole = rest@;
        rest = vstd::slice::slice_subrange(rest, width, rest.len());
        proof {
            assert(rest@ =~= whole.skip(width as int));
        }
    }
    if rest.len() == 0 {
        proof {
            assert(rows.deep_view() + Seq::<Seq<DatumView>>::empty() =~= rows.deep_view());
        }
        Ok(rows)
    } else {
        Err(PointRainIOError::Error { msg: String::from_str("extra data remains") })
    }
}

/// What is reported of a body with another number of rows than the header
/// declares.
fn count_mismatch(points: usize, width: usize, height: usize) -> (r: PointRainIOError)
    ensures
        r@ == IOErrorView::Error(count_differs(points as nat, width as nat, height as nat)),
{
    let n = decimal_string(points);
    let w = decimal_string(width);
    let h = decimal_string(height);
    assert(width * height <= u128::MAX) by (nonlinear_arith)
        requires
            width <= 0xffff_ffff_ffff_ffff,
            height <= 0xffff_ffff_ffff_ffff,
    ;
    let product = decimal_string_wide(width as u128 * height as u128);
    PointRainIOError::Error {
        msg: String::from_str("The number of points (").concat(n.as_str()).concat(
            ") does not match the number of points specified in the header (",
        ).concat(w.as_str()).concat(" x ").concat(h.as_str()).concat(" = ").concat(
            product.as_str(),
        ).concat(")"),
    }
}

/// Reads the records of the body of a columnar file for the point record of
/// a container. A field that the record needs and the header lacks is
/// reported before any row is read.
pub fn pcd_read_data<PC>(header: &PcdHeader, body: &[u8]) -> (r: Result<
    Records,
    PointRainIOError,
>) where PC: PointCloudBase, PC::Point: PointReadable
    requires
        header@.counted(),
    ensures
        r matches Ok(records) ==> pcd_data::<PC::Point>(header@, body@) == Ok::<
            RecordsView,
            IOErrorView,
        >(records@) && records@.wf() && records@.rows.len() == header@.points(),
        r matches Err(e) ==> pcd_data::<PC::Point>(header@, body@) == Err::<
            RecordsView,
            IOErrorView,
        >(e@),
{
    let mapper = match <PC::Point as PointReadable>::read_data_func(&header.fields) {
        Err(e) => {
            return Err(e);
        },
        Ok(m) => m,
    };
    let rows = match header.format {
        PcdDataFormat::Ascii => read_ascii_rows(&header.fields, &mapper, body, None),
        PcdDataFormat::Binary => read_binary_rows(header, &mapper, body),
        PcdDataFormat::BinaryCompressed => Err(
            PointRainIOError::UnsupportedError("binary compressed format is not supported"),
        ),
    };
    let rows = match rows {
        Err(e) => {
            return Err(e);
        },
        Ok(rows) => rows,
    };
    let same = match header.width.checked_mul(header.height) {
        Some(points) => rows.len() == points,
        None => false,
    };
    if !same {
        return Err(count_mismatch(rows.len(), header.width, header.height));
    }
    Ok(Records { mapper, rows })
}

/// Reads a columnar file for the point record of a container: its header,
/// and the rows of its body. `point_cloud` makes the container of them.
pub fn pcd_read<PC>(data: &[u8]) -> (r: Result<(PcdHeader, Records), PointRainIOError>) where
    PC: PointCloudBase,
    PC::Point: PointReadable,

    ensures
        r matches Ok(found) ==> pcd_file::<PC::Point>(data@) == Ok::<
            (PcdHeaderView, RecordsView),
            IOErrorView,
        >((found.0@, found.1@)) && found.1@.wf() && found.0@.wf() && found.1@.rows.len()
            == found.0@.points(),
        r matches Err(e) ==> pcd_file::<PC::Point>(data@) == Err::<
            (PcdHeaderView, RecordsView),
            IOErrorView,
        >(e@),
{
    let (header, start) = match pcd_read_header(data) {
        Err(e) => {
            return Err(e);
        },
        Ok(found) => found,
    };
    let body = vstd::slice::slice_subrange(data, start, data.len());
    proof {
        assert(body@ =~= data@.skip(start as int));
    }
    match pcd_read_data::<PC>(&header, body) {
        Err(e) => Err(e),
        Ok(records) => Ok((header, records)),
    }
}

} // verus!
