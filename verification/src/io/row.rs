//! One record of a file as a row of datums, and the rows of a body.

use crate::io::error::{IOErrorView, PointRainIOError};
use crate::io::field::{
    datums_width, DatumView, PointField, PointFieldDatum, PointFieldType, PointFieldView,
};
use crate::io::mapper::PointMapper;
use crate::io::text::{
    decimal_string, decimal_text, lemma_line_end, line_end, line_text, next_line, read_line,
    split_tokens, tokens,
};
use vstd::prelude::*;

verus! {

/// What is reported of a line with another number of tokens than fields.
pub open spec fn tokens_differ(expected: nat, got: nat) -> Seq<char> {
    "Invalid number of tokens: expected "@ + decimal_text(expected) + ", got "@ + decimal_text(got)
}

/// The datums that the first `k` tokens give, each read by the type of its
/// field, or the error of the first token that gives none.
pub open spec fn parsed_row(fields: Seq<PointFieldView>, toks: Seq<Seq<char>>, k: nat) -> Result<
    Seq<DatumView>,
    IOErrorView,
>
    decreases k,
{
    if k == 0 {
        Ok(Seq::empty())
    } else {
        match parsed_row(fields, toks, (k - 1) as nat) {
            Err(e) => Err(e),
            Ok(done) => match DatumView::parsed(toks[k - 1], fields[k - 1].datatype) {
                Err(e) => Err(IOErrorView::of_number(e)),
                Ok(d) => Ok(done.push(d)),
            },
        }
    }
}

/// The row that a line of text gives: as many tokens as there are fields,
/// each read by the type of its field.
pub open spec fn ascii_row(fields: Seq<PointFieldView>, line: Seq<char>) -> Result<
    Seq<DatumView>,
    IOErrorView,
> {
    let toks = tokens(line);
    if toks.len() != fields.len() {
        Err(IOErrorView::Error(tokens_differ(fields.len(), toks.len())))
    } else {
        parsed_row(fields, toks, fields.len())
    }
}

/// A datum of a type at the front of `bytes`, in either byte order.
pub open spec fn datum_of(bytes: Seq<u8>, datatype: PointFieldType, low_first: bool) -> DatumView {
    if low_first {
        DatumView::of_bytes_le(bytes, datatype)
    } else {
        DatumView::of_bytes_be(bytes, datatype)
    }
}

/// The first `k` datums of the row that stands at the front of `bytes`: one
/// value of each field's type, one behind the other.
pub open spec fn binary_row(
    fields: Seq<PointFieldView>,
    bytes: Seq<u8>,
    low_first: bool,
    k: nat,
) -> Seq<DatumView>
    decreases k,
{
    if k == 0 {
        Seq::empty()
    } else {
        binary_row(fields, bytes, low_first, (k - 1) as nat).push(
            datum_of(
                bytes.skip(datums_width(fields.take(k - 1)) as int),
                fields[k - 1].datatype,
                low_first,
            ),
        )
    }
}

proof fn lemma_parsed_row_err(fields: Seq<PointFieldView>, toks: Seq<Seq<char>>, j: nat, k: nat)
    requires
        j <= k,
        parsed_row(fields, toks, j) is Err,
    ensures
        parsed_row(fields, toks, k) == parsed_row(fields, toks, j),
    decreases k,
{
    if j < k {
        lemma_parsed_row_err(fields, toks, j, (k - 1) as nat);
    }
}

/// The datums of a prefix of the fields take no more bytes than those of
/// all fields.
pub proof fn lemma_datums_width_grows(fields: Seq<PointFieldView>, k: int)
    requires
        0 <= k <= fields.len(),
    ensures
        datums_width(fields.take(k)) <= datums_width(fields),
    decreases fields.len() - k,
{
    if k < fields.len() {
        assert(fields.take(k + 1).drop_last() =~= fields.take(k));
        lemma_datums_width_grows(fields, k + 1);
    } else {
        assert(fields.take(k) =~= fields);
    }
}

/// What is reported of a line with another number of tokens than fields.
fn tokens_mismatch(expected: usize, got: usize) -> (r: PointRainIOError)
    ensures
        r@ == IOErrorView::Error(tokens_differ(expected as nat, got as nat)),
{
    let a = decimal_string(expected);
    let b = decimal_string(got);
    PointRainIOError::Error {
        msg: String::from_str("Invalid number of tokens: expected ").concat(a.as_str()).concat(
            ", got ",
        ).concat(b.as_str()),
    }
}

/// Reads a line of text as a row.
pub fn read_ascii_row(fields: &Vec<PointField>, line: &str) -> (r: Result<
    Vec<PointFieldDatum>,
    PointRainIOError,
>)
    ensures
        r matches Ok(row) ==> ascii_row(fields.deep_view(), line@) == Ok::<
            Seq<DatumView>,
            IOErrorView,
        >(row.deep_view()) && row@.len() == fields@.len(),
        r matches Err(e) ==> ascii_row(fields.deep_view(), line@) == Err::<
            Seq<DatumView>,
            IOErrorView,
        >(e@),
{
    let toks = split_tokens(line);
    if toks.len() != fields.len() {
        return Err(tokens_mismatch(fields.len(), toks.len()));
    }
    let n = fields.len();
    let ghost fv = fields.deep_view();
    let ghost tv = toks.deep_view();
    let mut row: Vec<PointFieldDatum> = Vec::new();
    let mut i: usize = 0;
    proof {
        assert(row.deep_view() =~= Seq::<DatumView>::empty());
    }
    while i < n
        invariant
            i <= n,
            n == fields@.len(),
            n == toks@.len(),
            fv == fields.deep_view(),
            tv == toks.deep_view(),
            tv == tokens(line@),
            row@.len() == i,
            parsed_row(fv, tv, i as nat) == Ok::<Seq<DatumView>, IOErrorView>(row.deep_view()),
        decreases n - i,
    {
        let ghost before = row.deep_view();
        proof {
            assert(tv[i as int] == toks@[i as int]@);
            assert(fv[i as int] == fields@[i as int]@);
        }
        match PointFieldDatum::parse(toks[i].as_str(), fields[i].datatype) {
            Err(e) => {
                proof {
                    lemma_parsed_row_err(fv, tv, (i + 1) as nat, n as nat);
                }
                return Err(PointRainIOError::of_number(e));
            },
            Ok(d) => {
                row.push(d);
                proof {
                    assert(row.deep_view() =~= before.push(d@));
                }
            },
        }
        i += 1;
    }
    Ok(row)
}

/// Takes a row off the front of the bytes: one value of each field's type.
pub fn read_binary_row(fields: &Vec<PointField>, chunk: &mut &[u8], low_first: bool) -> (r: Vec<
    PointFieldDatum,
>)
    requires
        old(chunk)@.len() >= datums_width(fields.deep_view()),
    ensures
        r.deep_view() == binary_row(
            fields.deep_view(),
            old(chunk)@,
            low_first,
            fields@.len() as nat,
        ),
        r@.len() == fields@.len(),
        final(chunk)@ == old(chunk)@.skip(datums_width(fields.deep_view()) as int),
{
    let n = fields.len();
    let ghost fv = fields.deep_view();
    let ghost bytes = chunk@;
    let mut row: Vec<PointFieldDatum> = Vec::new();
    let mut i: usize = 0;
    proof {
        assert(fv.take(0) =~= Seq::<PointFieldView>::empty());
        assert(bytes.skip(0) =~= bytes);
    }
    while i < n
        invariant
            i <= n,
            n == fields@.len(),
            fv == fields.deep_view(),
            bytes.len() >= datums_width(fv),
            row@.len() == i,
            row.deep_view() == binary_row(fv, bytes, low_first, i as nat),
            chunk@ == bytes.skip(datums_width(fv.take(i as int)) as int),
        decreases n - i,
    {
        let ghost before = row.deep_view();
        let ghost at = datums_width(fv.take(i as int));
        let datatype = fields[i].datatype;
        proof {
            assert(fv[i as int] == fields@[i as int]@);
            assert(fv.take(i + 1).drop_last() =~= fv.take(i as int));
            assert(fv.take(i + 1).last() == fv[i as int]);
            lemma_datums_width_grows(fv, i + 1);
        }
        let d = if low_first {
            PointFieldDatum::from_bytes_le(chunk, datatype)
        } else {
            PointFieldDatum::from_bytes_be(chunk, datatype)
        };
        row.push(d);
        proof {
            assert(row.deep_view() =~= before.push(d@));
            assert(bytes.skip(at as int).skip(datatype.width() as int) =~= bytes.skip(
                (at + datatype.width()) as int,
            ));
        }
        i += 1;
    }
    proof {
        assert(fv.take(n as int) =~= fv);
    }
    row
}

/// `rest` with the rows `done` in front of it.
pub open spec fn after(
    done: Seq<Seq<DatumView>>,
    rest: Result<Seq<Seq<DatumView>>, IOErrorView>,
) -> Result<Seq<Seq<DatumView>>, IOErrorView> {
    match rest {
        Err(e) => Err(e),
        Ok(rows) => Ok(done + rows),
    }
}

/// What is made of a row once it is read: it must give a record.
pub open spec fn checked(mapper: PointMapper, row: Seq<DatumView>) -> Result<(), IOErrorView> {
    if mapper.accepts(row) {
        Ok(())
    } else {
        Err(IOErrorView::Error(mapper.refusal(row)))
    }
}

/// The rows that the lines from `pos` on write, one row a line, each only
/// read and not yet held to a mapper.
pub open spec fn ascii_plain(fields: Seq<PointFieldView>, data: Seq<u8>, pos: int) -> Result<
    Seq<Seq<DatumView>>,
    IOErrorView,
>
    decreases data.len() - pos,
    when 0 <= pos
    via ascii_plain_decreases
{
    if pos >= data.len() {
        Ok(Seq::empty())
    } else {
        match line_text(data, pos) {
            None => Err(IOErrorView::FileIOError),
            Some(line) => match ascii_row(fields, line) {
                Err(e) => Err(e),
                Ok(row) => after(seq![row], ascii_plain(fields, data, line_end(data, pos))),
            },
        }
    }
}

#[via_fn]
proof fn ascii_plain_decreases(fields: Seq<PointFieldView>, data: Seq<u8>, pos: int) {
    if pos < data.len() {
        lemma_line_end(data, pos);
    }
}

/// The row of the number `i` in a binary body: the datums that stand `i`
/// records behind its start.
pub open spec fn binary_row_at(fields: Seq<PointFieldView>, body: Seq<u8>, i: int) -> Seq<DatumView> {
    binary_row(
        fields,
        body.skip(i * crate::io::field::record_width(fields)),
        true,
        fields.len(),
    )
}

/// Whether two datums are of one type, and equal where they are integers.
/// Of a floating-point type the one may be a literal and the other bits.
pub open spec fn alike(a: DatumView, b: DatumView) -> bool {
    &&& a.datatype() == b.datatype()
    &&& match a {
        DatumView::F32(_) | DatumView::F64(_) | DatumView::F32Text(_) | DatumView::F64Text(_) => true,
        _ => a == b,
    }
}

/// Whether two rows are alike, datum by datum.
pub open spec fn alike_rows(a: Seq<DatumView>, b: Seq<DatumView>) -> bool {
    a.len() == b.len() && forall|j: int| 0 <= j < a.len() ==> alike(#[trigger] a[j], b[j])
}

/// Rows that are alike give a record together or not at all: what a mapper
/// accepts goes by the types of the datums.
pub proof fn lemma_alike_accepted(mapper: PointMapper, a: Seq<DatumView>, b: Seq<DatumView>)
    requires
        alike_rows(a, b),
    ensures
        mapper.accepts(a) == mapper.accepts(b),
{
    if mapper.within(a.len()) {
        match mapper.color {
            None => {},
            Some(crate::io::mapper::ColorBinding::Packed(i)) => {
                assert(alike(a[i as int], b[i as int]));
            },
            Some(crate::io::mapper::ColorBinding::Channels(r, g, bl)) => {
                assert(alike(a[r as int], b[r as int]));
                assert(alike(a[g as int], b[g as int]));
                assert(alike(a[bl as int], b[bl as int]));
            },
        }
    }
}

/// Lines that can all be read give their rows exactly where a mapper
/// accepts each of them.
pub proof fn lemma_ascii_checked(
    fields: Seq<PointFieldView>,
    mapper: PointMapper,
    data: Seq<u8>,
    pos: int,
)
    requires
        0 <= pos,
        ascii_plain(fields, data, pos) is Ok,
    ensures
        ascii_rows(fields, mapper, data, pos, None) is Ok <==> forall|i: int|
            0 <= i < ascii_plain(fields, data, pos)->Ok_0.len() ==> mapper.accepts(
                #[trigger] ascii_plain(fields, data, pos)->Ok_0[i],
            ),
        ascii_rows(fields, mapper, data, pos, None) is Ok ==> ascii_rows(
            fields,
            mapper,
            data,
            pos,
            None,
        ) == ascii_plain(fields, data, pos),
    decreases data.len() - pos,
{
    let all = ascii_plain(fields, data, pos)->Ok_0;
    if pos < data.len() {
        lemma_line_end(data, pos);
        let end = line_end(data, pos);
        let row = ascii_row(fields, line_text(data, pos)->Some_0)->Ok_0;
        let rest = ascii_plain(fields, data, end)->Ok_0;
        lemma_ascii_checked(fields, mapper, data, end);
        assert(all =~= seq![row] + rest);
        assert(all[0] == row);
        assert forall|i: int| 0 <= i < rest.len() implies rest[i] == all[i + 1] by {}
        if ascii_rows(fields, mapper, data, pos, None) is Ok {
            assert forall|i: int| 0 <= i < all.len() implies mapper.accepts(#[trigger] all[i]) by {
                if i > 0 {
                    assert(all[i] == rest[i - 1]);
                }
            }
        }
        if forall|i: int| 0 <= i < all.len() ==> mapper.accepts(#[trigger] all[i]) {
            assert(mapper.accepts(all[0]));
            assert forall|i: int| 0 <= i < rest.len() implies mapper.accepts(#[trigger] rest[i]) by {
                assert(mapper.accepts(all[i + 1]));
            }
        }
    }
}

/// The rows that the lines from `pos` on give, one row a line, up to
/// `limit` rows where there is a limit. The first line that is not UTF-8,
/// gives no row or gives a row that is no record ends the reading with its
/// error.
pub open spec fn ascii_rows(
    fields: Seq<PointFieldView>,
    mapper: PointMapper,
    data: Seq<u8>,
    pos: int,
    limit: Option<nat>,
) -> Result<Seq<Seq<DatumView>>, IOErrorView>
    decreases data.len() - pos,
    when 0 <= pos
    via ascii_rows_decreases
{
    if pos >= data.len() || limit == Some(0nat) {
        Ok(Seq::empty())
    } else {
        match line_text(data, pos) {
            None => Err(IOErrorView::FileIOError),
            Some(line) => match ascii_row(fields, line) {
                Err(e) => Err(e),
                Ok(row) => match checked(mapper, row) {
                    Err(e) => Err(e),
                    Ok(_) => after(
                        seq![row],
                        ascii_rows(
                            fields,
                            mapper,
                            data,
                            line_end(data, pos),
                            match limit {
                                Some(n) => Some((n - 1) as nat),
                                None => None,
                            },
                        ),
                    ),
                },
            },
        }
    }
}

#[via_fn]
proof fn ascii_rows_decreases(
    fields: Seq<PointFieldView>,
    mapper: PointMapper,
    data: Seq<u8>,
    pos: int,
    limit: Option<nat>,
) {
    if pos < data.len() {
        lemma_line_end(data, pos);
    }
}

/// Reads the lines of a body as rows, up to `limit` rows where there is a
/// limit.
pub fn read_ascii_rows(
    fields: &Vec<PointField>,
    mapper: &PointMapper,
    data: &[u8],
    limit: Option<usize>,
) -> (r: Result<Vec<Vec<PointFieldDatum>>, PointRainIOError>)
    requires
        mapper.within(fields@.len() as nat),
    ensures
        r matches Ok(rows) ==> ascii_rows(
            fields.deep_view(),
            *mapper,
            data@,
            0,
            limit_view(limit),
        ) == Ok::<Seq<Seq<DatumView>>, IOErrorView>(rows.deep_view()) && forall|i: int|
            0 <= i < rows@.len() ==> mapper.accepts(#[trigger] rows.deep_view()[i]),
        r matches Err(e) ==> ascii_rows(fields.deep_view(), *mapper, data@, 0, limit_view(limit))
            == Err::<Seq<Seq<DatumView>>, IOErrorView>(e@),
{
    let ghost fv = fields.deep_view();
    let ghost goal = ascii_rows(fv, *mapper, data@, 0, limit_view(limit));
    let mut rows: Vec<Vec<PointFieldDatum>> = Vec::new();
    let mut pos: usize = 0;
    let mut left = limit;
    proof {
        assert(rows.deep_view() =~= Seq::<Seq<DatumView>>::empty());
        lemma_after_empty(goal);
    }
    while pos < data.len() && !is_zero(left)
        invariant
            pos <= data@.len(),
            fv == fields.deep_view(),
            mapper.within(fields@.len() as nat),
            goal == ascii_rows(fv, *mapper, data@, 0, limit_view(limit)),
            goal == after(
                rows.deep_view(),
                ascii_rows(fv, *mapper, data@, pos as int, limit_view(left)),
            ),
            forall|i: int| 0 <= i < rows@.len() ==> mapper.accepts(#[trigger] rows.deep_view()[i]),
        decreases data@.len() - pos,
    {
        let end = next_line(data, pos);
        let line = match read_line(data, pos, end) {
            None => {
                return Err(PointRainIOError::FileIOError);
            },
            Some(line) => line,
        };
        let row = match read_ascii_row(fields, line) {
            Err(e) => {
                return Err(e);
            },
            Ok(row) => row,
        };
        match mapper.check(&row) {
            Err(e) => {
                return Err(e);
            },
            Ok(()) => {},
        }
        let ghost before = rows.deep_view();
        let ghost next = match limit_view(left) {
            Some(n) => Some((n - 1) as nat),
            None => None,
        };
        let ghost rest = ascii_rows(fv, *mapper, data@, end as int, next);
        rows.push(row);
        left =
        match left {
            Some(n) => Some(n - 1),
            None => None,
        };
        proof {
            assert(rows.deep_view() =~= before.push(row.deep_view()));
            lemma_after_push(before, row.deep_view(), rest);
        }
        pos = end;
    }
    proof {
        assert(rows.deep_view() + Seq::<Seq<DatumView>>::empty() =~= rows.deep_view());
    }
    Ok(rows)
}

/// The limit of a reading as a number of the model.
pub open spec fn limit_view(limit: Option<usize>) -> Option<nat> {
    match limit {
        Some(n) => Some(n as nat),
        None => None,
    }
}

fn is_zero(limit: Option<usize>) -> (r: bool)
    ensures
        r == (limit_view(limit) == Some(0nat)),
{
    match limit {
        Some(n) => n == 0,
        None => false,
    }
}

/// Nothing in front of the rows leaves the rows.
pub proof fn lemma_after_empty(rest: Result<Seq<Seq<DatumView>>, IOErrorView>)
    ensures
        after(Seq::empty(), rest) == rest,
{
    match rest {
        Ok(rows) => {
            assert(Seq::<Seq<DatumView>>::empty() + rows =~= rows);
        },
        Err(_) => {},
    }
}

/// A row in front of the rows is a row more behind those before them.
pub proof fn lemma_after_push(
    done: Seq<Seq<DatumView>>,
    row: Seq<DatumView>,
    rest: Result<Seq<Seq<DatumView>>, IOErrorView>,
)
    ensures
        after(done, after(seq![row], rest)) == after(done.push(row), rest),
{
    match rest {
        Ok(rows) => {
            assert(done + (seq![row] + rows) =~= done.push(row) + rows);
        },
        Err(_) => {},
    }
}

} // verus!
