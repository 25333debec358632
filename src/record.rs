//! Packed records: one fixed-width address slot and one comment slot per row.

use vstd::prelude::*;
use vstd::utf8::encode_utf8;
use crate::normalize::{canonical_address, canonical_comment, normalize_address, normalize_comment};
use crate::pack::{fit, pad_or_truncate};

verus! {

/// Bytes of the address slot.
pub const ADDRESS_WIDTH: usize = 64;

/// Bytes of the comment slot.
pub const COMMENT_WIDTH: usize = 96;

/// Bytes of a whole record.
pub const RECORD_WIDTH: usize = ADDRESS_WIDTH + COMMENT_WIDTH;

/// The record for a raw address field and a raw comment field.
pub open spec fn packed_record(address: Seq<char>, comment: Seq<char>) -> Seq<u8> {
    fit(encode_utf8(canonical_address(address)), ADDRESS_WIDTH as nat) + fit(
        encode_utf8(canonical_comment(comment)),
        COMMENT_WIDTH as nat,
    )
}

/// Whether a row holds both the address column and the comment column.
pub open spec fn row_is_long_enough(row: Seq<Seq<char>>, addr_index: int, comment_index: int) -> bool {
    addr_index < row.len() && comment_index < row.len()
}

/// The record of a row, or `None` for a row too short to hold both columns.
pub open spec fn record_of(row: Seq<Seq<char>>, addr_index: int, comment_index: int) -> Option<
    Seq<u8>,
> {
    if row_is_long_enough(row, addr_index, comment_index) {
        Some(packed_record(row[addr_index], row[comment_index]))
    } else {
        None
    }
}

/// The records of the readable rows, in row order; unreadable rows
/// (`None`) and short rows give none.
pub open spec fn table_of(rows: Seq<Option<Seq<Seq<char>>>>, addr_index: int, comment_index: int) -> Seq<
    Seq<u8>,
>
    decreases rows.len(),
{
    if rows.len() == 0 {
        Seq::empty()
    } else {
        let earlier = table_of(rows.drop_last(), addr_index, comment_index);
        match rows.last() {
            Some(row) => match record_of(row, addr_index, comment_index) {
                Some(rec) => earlier.push(rec),
                None => earlier,
            },
            None => earlier,
        }
    }
}

/// What became of one parsed row.
pub enum RowOutcome {
    /// The row gave this record.
    Packed(Vec<u8>),
    /// The row was read but lacks the address or the comment column.
    ShortRow,
    /// The row could not be read.
    Unreadable,
}

impl RowOutcome {
    /// `None` for an unreadable row, `Some(None)` for a short row, and
    /// `Some(Some(record))` for a packed one.
    pub open spec fn spec_outcome(&self) -> Option<Option<Seq<u8>>> {
        match self {
            RowOutcome::Packed(rec) => Some(Some(rec@)),
            RowOutcome::ShortRow => Some(None),
            RowOutcome::Unreadable => None,
        }
    }
}

/// What becomes of a row (`None`: unreadable) in the sense of `spec_outcome`.
pub open spec fn outcome_of(row: Option<Seq<Seq<char>>>, addr_index: int, comment_index: int) -> Option<
    Option<Seq<u8>>,
> {
    match row {
        Some(r) => Some(record_of(r, addr_index, comment_index)),
        None => None,
    }
}

/// The records among row outcomes, in order.
pub open spec fn kept(outcomes: Seq<Option<Option<Seq<u8>>>>) -> Seq<Seq<u8>>
    decreases outcomes.len(),
{
    if outcomes.len() == 0 {
        Seq::empty()
    } else {
        let earlier = kept(outcomes.drop_last());
        match outcomes.last() {
            Some(Some(rec)) => earlier.push(rec),
            _ => earlier,
        }
    }
}

/// Keeping the records among the outcomes of the rows gives the rows' table.
pub proof fn lemma_kept_outcomes_are_table(
    rows: Seq<Option<Seq<Seq<char>>>>,
    addr_index: int,
    comment_index: int,
)
    ensures
        kept(rows.map_values(|row| outcome_of(row, addr_index, comment_index))) == table_of(
            rows,
            addr_index,
            comment_index,
        ),
    decreases rows.len(),
{
    let f = |row| outcome_of(row, addr_index, comment_index);
    if rows.len() > 0 {
        lemma_kept_outcomes_are_table(rows.drop_last(), addr_index, comment_index);
        assert(rows.map_values(f).drop_last() =~= rows.drop_last().map_values(f));
    }
}

/// The outcome of every row, in row order.
pub fn row_outcomes(rows: &Vec<Option<Vec<String>>>, addr_index: usize, comment_index: usize) -> (r:
    Vec<RowOutcome>)
    ensures
        r.len() == rows.len(),
        forall|i: int|
            0 <= i < r.len() ==> #[trigger] r[i].spec_outcome() == outcome_of(
                rows.deep_view()[i],
                addr_index as int,
                comment_index as int,
            ),
{
    let mut out: Vec<RowOutcome> = Vec::new();
    let mut i: usize = 0;
    while i < rows.len()
        invariant
            i <= rows.len(),
            out.len() == i,
            forall|k: int|
                0 <= k < i ==> #[trigger] out[k].spec_outcome() == outcome_of(
                    rows.deep_view()[k],
                    addr_index as int,
                    comment_index as int,
                ),
        decreases rows.len() - i,
    {
        let o = match &rows[i] {
            Some(row) => match extract_record(row, addr_index, comment_index) {
                Some(rec) => {
                    assert(rec.deep_view() =~= rec@);
                    RowOutcome::Packed(rec)
                },
                None => RowOutcome::ShortRow,
            },
            None => RowOutcome::Unreadable,
        };
        out.push(o);
        i = i + 1;
    }
    out
}

/// The records among the outcomes, in order.
pub fn kept_records(outcomes: &Vec<RowOutcome>) -> (r: Vec<Vec<u8>>)
    ensures
        r.deep_view() == kept(outcomes@.map_values(|o: RowOutcome| o.spec_outcome())),
{
    let ghost views = outcomes@.map_values(|o: RowOutcome| o.spec_outcome());
    let mut out: Vec<Vec<u8>> = Vec::new();
    let mut i: usize = 0;
    while i < outcomes.len()
        invariant
            i <= outcomes.len(),
            views == outcomes@.map_values(|o: RowOutcome| o.spec_outcome()),
            out.deep_view() == kept(views.subrange(0, i as int)),
        decreases outcomes.len() - i,
    {
        assert(views.subrange(0, i as int + 1).drop_last() =~= views.subrange(0, i as int));
        match &outcomes[i] {
            RowOutcome::Packed(rec) => {
                let ghost before = out.deep_view();
                let copy = rec.clone();
                assert(copy@ =~= rec@);
                assert(copy.deep_view() =~= rec@);
                out.push(copy);
                assert(out.deep_view() =~= before.push(rec@));
            },
            _ => {},
        }
        i = i + 1;
    }
    assert(views.subrange(0, outcomes.len() as int) =~= views);
    out
}

/// The packed record of one row, or `None` when the row lacks either column.
pub fn extract_record(row: &Vec<String>, addr_index: usize, comment_index: usize) -> (r: Option<
    Vec<u8>,
>)
    ensures
        r.deep_view() == record_of(row.deep_view(), addr_index as int, comment_index as int),
        r is None <==> (row.len() <= addr_index || row.len() <= comment_index),
        r matches Some(v) ==> v@.len() == RECORD_WIDTH,
{
    if row.len() <= addr_index || row.len() <= comment_index {
        return None;
    }
    let address = normalize_address(row[addr_index].as_str());
    let comment = normalize_comment(row[comment_index].as_str());
    let mut rec = pad_or_truncate(address.as_str(), ADDRESS_WIDTH);
    let mut tail = pad_or_truncate(comment.as_str(), COMMENT_WIDTH);
    rec.append(&mut tail);
    assert(row.deep_view()[addr_index as int] == row[addr_index as int]@);
    assert(row.deep_view()[comment_index as int] == row[comment_index as int]@);
    assert(rec.deep_view() =~= rec@);
    Some(rec)
}

/// The records of all readable rows, in row order.
pub fn collect_records(rows: &Vec<Option<Vec<String>>>, addr_index: usize, comment_index: usize) -> (r:
    Vec<Vec<u8>>)
    ensures
        r.deep_view() == table_of(rows.deep_view(), addr_index as int, comment_index as int),
        forall|k: int| 0 <= k < r.len() ==> #[trigger] r[k]@.len() == RECORD_WIDTH,
{
    let mut out: Vec<Vec<u8>> = Vec::new();
    let mut i: usize = 0;
    while i < rows.len()
        invariant
            i <= rows.len(),
            out.deep_view() == table_of(
                rows.deep_view().subrange(0, i as int),
                addr_index as int,
                comment_index as int,
            ),
            forall|k: int| 0 <= k < out.len() ==> #[trigger] out[k]@.len() == RECORD_WIDTH,
        decreases rows.len() - i,
    {
        let ghost seen = rows.deep_view().subrange(0, i as int + 1);
        assert(seen.drop_last() =~= rows.deep_view().subrange(0, i as int));
        assert(seen.last() == rows[i as int].deep_view());
        match &rows[i] {
            Some(row) => {
                match extract_record(row, addr_index, comment_index) {
                    Some(rec) => {
                        let ghost before = out.deep_view();
                        let ghost rv = rec.deep_view();
                        out.push(rec);
                        assert(out.deep_view() =~= before.push(rv));
                    },
                    None => {},
                }
            },
            None => {},
        }
        i = i + 1;
    }
    assert(rows.deep_view().subrange(0, rows.len() as int) =~= rows.deep_view());
    out
}

} // verus!
