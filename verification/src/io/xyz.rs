//! The plain-text format: one position a line, as three numbers. Comment
//! lines and empty lines count for nothing.

use crate::io::error::{IOErrorView, PointRainIOError};
use crate::io::field::{DatumView, PointFieldDatum};
use crate::io::mapper::{PointMapper, Records, RecordsView};
use crate::io::row::{after, lemma_after_empty, lemma_after_push};
use crate::io::text::{
    is_blank, is_blank_line, is_comment, is_float_literal, is_float_text, lemma_line_end,
    line_end, line_text, next_line, read_line, split_tokens, starts_comment, tokens,
};
use vstd::prelude::*;

verus! {

/// What is reported of a line that is not three tokens.
pub open spec fn tokens_invalid() -> Seq<char> {
    "Invalid number of tokens in line"@
}

/// The mapper of the format: the three tokens of a line are the three
/// coordinates.
pub open spec fn xyz_mapper() -> PointMapper {
    PointMapper { x: 0, y: 1, z: 2, intensity: None, color: None, normal: None }
}

/// The row that a line gives: exactly three tokens, each a floating-point
/// literal.
pub open spec fn xyz_row(line: Seq<char>) -> Result<Seq<DatumView>, IOErrorView> {
    let toks = tokens(line);
    if toks.len() != 3 {
        Err(IOErrorView::Error(tokens_invalid()))
    } else if !is_float_literal(toks[0]) || !is_float_literal(toks[1]) || !is_float_literal(
        toks[2],
    ) {
        Err(IOErrorView::ParseFloatError)
    } else {
        Ok(
            seq![
                DatumView::F32Text(toks[0]),
                DatumView::F32Text(toks[1]),
                DatumView::F32Text(toks[2]),
            ],
        )
    }
}

/// The rows that the lines from `pos` on give, in their order. Comment
/// lines and empty lines are passed over; the first line that is not UTF-8
/// or gives no row ends the reading with its error.
pub open spec fn xyz_rows(data: Seq<u8>, pos: int) -> Result<Seq<Seq<DatumView>>, IOErrorView>
    decreases data.len() - pos,
    when 0 <= pos
    via xyz_rows_decreases
{
    if pos >= data.len() {
        Ok(Seq::empty())
    } else {
        match line_text(data, pos) {
            None => Err(IOErrorView::FileIOError),
            Some(line) => if is_comment(line) || is_blank(line) {
                xyz_rows(data, line_end(data, pos))
            } else {
                match xyz_row(line) {
                    Err(e) => Err(e),
                    Ok(row) => after(seq![row], xyz_rows(data, line_end(data, pos))),
                }
            },
        }
    }
}

#[via_fn]
proof fn xyz_rows_decreases(data: Seq<u8>, pos: int) {
    if pos < data.len() {
        lemma_line_end(data, pos);
    }
}

/// The records of a plain-text file.
pub open spec fn xyz_file(data: Seq<u8>) -> Result<RecordsView, IOErrorView> {
    match xyz_rows(data, 0) {
        Err(e) => Err(e),
        Ok(rows) => Ok(RecordsView { mapper: xyz_mapper(), rows }),
    }
}

/// Every row of a plain-text file is three literals, and so gives a
/// record.
pub proof fn lemma_xyz_rows(data: Seq<u8>, pos: int)
    requires
        0 <= pos,
    ensures
        xyz_rows(data, pos) matches Ok(rows) ==> forall|i: int|
            0 <= i < rows.len() ==> (#[trigger] rows[i]).len() == 3 && xyz_mapper().accepts(
                rows[i],
            ),
    decreases data.len() - pos,
{
    if pos < data.len() {
        lemma_line_end(data, pos);
        lemma_xyz_rows(data, line_end(data, pos));
    }
}

/// Where the line of the number `k` starts; the end of the data, where
/// there are fewer lines.
pub open spec fn line_start(data: Seq<u8>, k: nat) -> int
    decreases k,
{
    if k == 0 {
        0
    } else {
        line_end(data, line_start(data, (k - 1) as nat))
    }
}

/// A file is read only where each of its lines can be: every line of a
/// file that is read is UTF-8, and is a comment, is empty or is three
/// literals. So a file with a line of another number of tokens is never
/// read; its error is that of the first line that cannot be read.
pub proof fn lemma_xyz_every_line(data: Seq<u8>, k: nat)
    requires
        xyz_rows(data, 0) is Ok,
    ensures
        0 <= line_start(data, k) <= data.len(),
        xyz_rows(data, line_start(data, k)) is Ok,
        line_start(data, k) < data.len() ==> line_text(data, line_start(data, k)) is Some,
        line_start(data, k) < data.len() ==> ({
            let line = line_text(data, line_start(data, k))->Some_0;
            is_comment(line) || is_blank(line) || (tokens(line).len() == 3 && xyz_row(line) is Ok)
        }),
    decreases k,
{
    if k > 0 {
        lemma_xyz_every_line(data, (k - 1) as nat);
        let before = line_start(data, (k - 1) as nat);
        if before < data.len() {
            lemma_line_end(data, before);
        }
    }
}

/// Reads one line as a row.
fn xyz_read_row(line: &str) -> (r: Result<Vec<PointFieldDatum>, PointRainIOError>)
    ensures
        r matches Ok(row) ==> xyz_row(line@) == Ok::<Seq<DatumView>, IOErrorView>(row.deep_view()),
        r matches Err(e) ==> xyz_row(line@) == Err::<Seq<DatumView>, IOErrorView>(e@),
{
    let toks = split_tokens(line);
    if toks.len() != 3 {
        return Err(
            PointRainIOError::Error { msg: String::from_str("Invalid number of tokens in line") },
        );
    }
    if !is_float_text(toks[0].as_str()) || !is_float_text(toks[1].as_str()) || !is_float_text(
        toks[2].as_str(),
    ) {
        return Err(PointRainIOError::ParseFloatError);
    }
    let mut row: Vec<PointFieldDatum> = Vec::new();
    row.push(PointFieldDatum::F32Text(toks[0].clone()));
    row.push(PointFieldDatum::F32Text(toks[1].clone()));
    row.push(PointFieldDatum::F32Text(toks[2].clone()));
    proof {
        assert(row.deep_view() =~= seq![
            DatumView::F32Text(toks@[0]@),
            DatumView::F32Text(toks@[1]@),
            DatumView::F32Text(toks@[2]@),
        ]);
    }
    Ok(row)
}

/// Reads a plain-text file: the rows of its lines, each three literals. A
/// line that is a comment or empty gives no row and no error.
/// `point_cloud` makes the container of bare positions of them.
pub fn xyz_read(data: &[u8]) -> (r: Result<Records, PointRainIOError>)
    ensures
        r matches Ok(records) ==> xyz_file(data@) == Ok::<RecordsView, IOErrorView>(records@)
            && records@.wf(),
        r matches Err(e) ==> xyz_file(data@) == Err::<RecordsView, IOErrorView>(e@),
{
    let ghost goal = xyz_rows(data@, 0);
    let mut rows: Vec<Vec<PointFieldDatum>> = Vec::new();
    let mut pos: usize = 0;
    proof {
        assert(rows.deep_view() =~= Seq::<Seq<DatumView>>::empty());
        lemma_after_empty(goal);
    }
    while pos < data.len()
        invariant
            pos <= data@.len(),
            goal == xyz_rows(data@, 0),
            goal == after(rows.deep_view(), xyz_rows(data@, pos as int)),
        decreases data@.len() - pos,
    {
        let end = next_line(data, pos);
        let line = match read_line(data, pos, end) {
            None => {
                return Err(PointRainIOError::FileIOError);
            },
            Some(line) => line,
        };
        if !starts_comment(line) && !is_blank_line(line) {
            let row = match xyz_read_row(line) {
                Err(e) => {
                    return Err(e);
                },
                Ok(row) => row,
            };
            let ghost before = rows.deep_view();
            let ghost rest = xyz_rows(data@, end as int);
            rows.push(row);
            proof {
                assert(rows.deep_view() =~= before.push(row.deep_view()));
                lemma_after_push(before, row.deep_view(), rest);
            }
        }
        pos = end;
    }
    proof {
        assert(rows.deep_view() + Seq::<Seq<DatumView>>::empty() =~= rows.deep_view());
        lemma_xyz_rows(data@, 0);
    }
    let mapper = PointMapper { x: 0, y: 1, z: 2, intensity: None, color: None, normal: None };
    Ok(Records { mapper, rows })
}

} // verus!
