//! The rows of a result table, and the records that are read from them.
//!
//! A row is read by position: its first three cells are name, phonetic and
//! code. A bank's row has a fourth cell, whose button carries the token in
//! its `value` attribute. A row whose text is the sentinel stands for "no
//! data" and is dropped. A row that lacks a cell or the token is skipped and
//! reported, and the rows after it are still read.

use crate::bank::{Bank, BankView, Branch, BranchView};
use vstd::prelude::*;
use vstd::string::StringExecFns;

verus! {

/// The text of the row that an empty result consists of.
pub const SENTINEL: &'static str = "該当するデータはありません";

/// The number of cells that every record is read from.
pub const RECORD_CELLS: usize = 3;

/// The number of cells of a bank's row: those of the record, and the one
/// that holds the button.
pub const BANK_CELLS: usize = 4;

/// One row of a table, as far as a record is read from it.
#[derive(Debug, PartialEq, Eq)]
pub struct Row {
    /// The text of the whole row.
    pub text: String,
    /// The text of each cell, first to last.
    pub cells: Vec<String>,
    /// The `value` attribute of the first button in the fourth cell, where
    /// the table is a list of banks and the row has them.
    pub token: Option<String>,
}

/// What a row holds, as text.
pub struct RowView {
    pub text: Seq<char>,
    pub cells: Seq<Seq<char>>,
    pub token: Option<Seq<char>>,
}

impl View for Row {
    type V = RowView;

    open spec fn view(&self) -> RowView {
        RowView {
            text: self.text@,
            cells: self.cells.deep_view(),
            token: self.token.deep_view(),
        }
    }
}

impl DeepView for Row {
    type V = RowView;

    open spec fn deep_view(&self) -> RowView {
        self@
    }
}

/// Why no record was read from a row. `row` counts the rows of the table
/// from 0, the sentinel rows among them.
#[derive(Debug, Clone, Copy, PartialEq, Eq)]
pub enum ParseError {
    /// The row ends before the cell with index `cell`.
    MissingCell { row: usize, cell: usize },
    /// The fourth cell holds no button, or its first button has no value.
    MissingToken { row: usize },
}

/// What a table was parsed into: the records of the rows that could be read,
/// and one error for each row that could not, both in the order of the rows.
#[derive(Debug)]
pub struct Parsed<T> {
    pub records: Vec<T>,
    pub failures: Vec<ParseError>,
}

/// A row whose text is exactly the sentinel.
pub open spec fn is_sentinel(row: RowView) -> bool {
    row.text == SENTINEL@
}

/// The branch that is read from the row with index `at`.
pub open spec fn read_branch(row: RowView, at: usize) -> Result<BranchView, ParseError> {
    if row.cells.len() < RECORD_CELLS {
        Err(ParseError::MissingCell { row: at, cell: row.cells.len() as usize })
    } else {
        Ok(BranchView { name: row.cells[0], phonetic: row.cells[1], code: row.cells[2] })
    }
}

/// The bank that is read from the row with index `at`: it has no branches
/// yet.
pub open spec fn read_bank(row: RowView, at: usize) -> Result<BankView, ParseError> {
    if row.cells.len() < BANK_CELLS {
        Err(ParseError::MissingCell { row: at, cell: row.cells.len() as usize })
    } else {
        match row.token {
            Some(token) => Ok(
                BankView {
                    name: row.cells[0],
                    phonetic: row.cells[1],
                    code: row.cells[2],
                    search_param: token,
                    branches: Seq::empty(),
                },
            ),
            None => Err(ParseError::MissingToken { row: at }),
        }
    }
}

/// The records of a table, in the order of its rows: one for each row that
/// is no sentinel and that `read` can read.
pub open spec fn records<T>(
    rows: Seq<RowView>,
    read: spec_fn(RowView, usize) -> Result<T, ParseError>,
) -> Seq<T>
    decreases rows.len(),
{
    if rows.len() == 0 {
        Seq::empty()
    } else {
        let before = records(rows.drop_last(), read);
        if is_sentinel(rows.last()) {
            before
        } else {
            match read(rows.last(), (rows.len() - 1) as usize) {
                Ok(record) => before.push(record),
                Err(_) => before,
            }
        }
    }
}

/// The errors of a table, in the order of its rows: one for each row that is
/// no sentinel and that `read` cannot read.
pub open spec fn failures<T>(
    rows: Seq<RowView>,
    read: spec_fn(RowView, usize) -> Result<T, ParseError>,
) -> Seq<ParseError>
    decreases rows.len(),
{
    if rows.len() == 0 {
        Seq::empty()
    } else {
        let before = failures(rows.drop_last(), read);
        if is_sentinel(rows.last()) {
            before
        } else {
            match read(rows.last(), (rows.len() - 1) as usize) {
                Ok(_) => before,
                Err(error) => before.push(error),
            }
        }
    }
}

/// The branches of a table.
pub open spec fn branch_records(rows: Seq<RowView>) -> Seq<BranchView> {
    records(rows, |row: RowView, at: usize| read_branch(row, at))
}

/// The errors of a table of branches.
pub open spec fn branch_failures(rows: Seq<RowView>) -> Seq<ParseError> {
    failures(rows, |row: RowView, at: usize| read_branch(row, at))
}

/// The banks of a table.
pub open spec fn bank_records(rows: Seq<RowView>) -> Seq<BankView> {
    records(rows, |row: RowView, at: usize| read_bank(row, at))
}

/// The errors of a table of banks.
pub open spec fn bank_failures(rows: Seq<RowView>) -> Seq<ParseError> {
    failures(rows, |row: RowView, at: usize| read_bank(row, at))
}

/// The number of sentinel rows of a table.
pub open spec fn sentinel_count(rows: Seq<RowView>) -> nat
    decreases rows.len(),
{
    if rows.len() == 0 {
        0
    } else if is_sentinel(rows.last()) {
        sentinel_count(rows.drop_last()) + 1
    } else {
        sentinel_count(rows.drop_last())
    }
}

/// Every row that is no sentinel is accounted for, as a record or as an
/// error: the two together are as many as the rows without the sentinel rows.
pub proof fn rows_are_accounted_for<T>(
    rows: Seq<RowView>,
    read: spec_fn(RowView, usize) -> Result<T, ParseError>,
)
    ensures
        sentinel_count(rows) <= rows.len(),
        records(rows, read).len() + failures(rows, read).len() == rows.len() - sentinel_count(rows),
    decreases rows.len(),
{
    if rows.len() > 0 {
        rows_are_accounted_for(rows.drop_last(), read);
    }
}

/// Where every row that is no sentinel can be read, the records are as many
/// as the rows without the sentinel rows, and there is no error.
pub proof fn readable_rows_all_give_records<T>(
    rows: Seq<RowView>,
    read: spec_fn(RowView, usize) -> Result<T, ParseError>,
)
    requires
        forall|i: int|
            0 <= i < rows.len() && !is_sentinel(#[trigger] rows[i]) ==> read(rows[i], i as usize)
                is Ok,
    ensures
        records(rows, read).len() == rows.len() - sentinel_count(rows),
        failures(rows, read) == Seq::<ParseError>::empty(),
    decreases rows.len(),
{
    if rows.len() > 0 {
        let front = rows.drop_last();
        assert forall|i: int| 0 <= i < front.len() && !is_sentinel(#[trigger] front[i]) implies read(
            front[i],
            i as usize,
        ) is Ok by {
            assert(front[i] == rows[i]);
        }
        readable_rows_all_give_records(front, read);
        assert(rows[rows.len() - 1] == rows.last());
    }
}

/// A table of sentinel rows alone gives no record and no error.
pub proof fn sentinels_alone_give_nothing<T>(
    rows: Seq<RowView>,
    read: spec_fn(RowView, usize) -> Result<T, ParseError>,
)
    requires
        forall|i: int| 0 <= i < rows.len() ==> is_sentinel(#[trigger] rows[i]),
    ensures
        records(rows, read) == Seq::<T>::empty(),
        failures(rows, read) == Seq::<ParseError>::empty(),
    decreases rows.len(),
{
    if rows.len() > 0 {
        assert(is_sentinel(rows[rows.len() - 1]));
        assert forall|i: int| 0 <= i < rows.drop_last().len() implies is_sentinel(
            #[trigger] rows.drop_last()[i],
        ) by {
            assert(is_sentinel(rows[i]));
        }
        sentinels_alone_give_nothing(rows.drop_last(), read);
    }
}

/// Whether a row is kept: `false` for the sentinel row.
pub fn filter_blank(row: &Row) -> (keep: bool)
    ensures
        keep == !is_sentinel(row@),
{
    let sentinel = String::from_str(SENTINEL);
    !(row.text == sentinel)
}

/// Reads a branch from the row with index `at`.
pub fn branch_from_row(row: &Row, at: usize) -> (outcome: Result<Branch, ParseError>)
    ensures
        match outcome {
            Ok(branch) => read_branch(row@, at) == Ok::<BranchView, ParseError>(branch@),
            Err(error) => read_branch(row@, at) == Err::<BranchView, ParseError>(error),
        },
{
    if row.cells.len() < RECORD_CELLS {
        Err(ParseError::MissingCell { row: at, cell: row.cells.len() })
    } else {
        Ok(Branch::new(row.cells[0].clone(), row.cells[1].clone(), row.cells[2].clone()))
    }
}

/// Reads a bank from the row with index `at`.
pub fn bank_from_row(row: &Row, at: usize) -> (outcome: Result<Bank, ParseError>)
    ensures
        match outcome {
            Ok(bank) => read_bank(row@, at) == Ok::<BankView, ParseError>(bank@),
            Err(error) => read_bank(row@, at) == Err::<BankView, ParseError>(error),
        },
{
    if row.cells.len() < BANK_CELLS {
        Err(ParseError::MissingCell { row: at, cell: row.cells.len() })
    } else {
        match &row.token {
            Some(token) => Ok(
                Bank::new(
                    row.cells[0].clone(),
                    row.cells[1].clone(),
                    row.cells[2].clone(),
                    token.clone(),
                ),
            ),
            None => Err(ParseError::MissingToken { row: at }),
        }
    }
}

/// Reads the branches of a table: the sentinel rows are dropped, and a row
/// that cannot be read is reported and skipped.
pub fn branches_from_rows(rows: &Vec<Row>) -> (parsed: Parsed<Branch>)
    ensures
        parsed.records.deep_view() == branch_records(rows.deep_view()),
        parsed.failures@ == branch_failures(rows.deep_view()),
        parsed.records.len() + parsed.failures.len() == rows.len() - sentinel_count(
            rows.deep_view(),
        ),
{
    let mut found: Vec<Branch> = Vec::new();
    let mut failed: Vec<ParseError> = Vec::new();
    let mut i: usize = 0;
    assert(found.deep_view() =~= Seq::<BranchView>::empty());
    while i < rows.len()
        invariant
            i <= rows.len(),
            found.deep_view() == branch_records(rows.deep_view().take(i as int)),
            failed@ == branch_failures(rows.deep_view().take(i as int)),
        decreases rows.len() - i,
    {
        let ghost before = found.deep_view();
        proof {
            let upto = rows.deep_view().take(i + 1);
            assert(upto.drop_last() =~= rows.deep_view().take(i as int));
            assert(upto.last() == rows[i as int]@);
        }
        if filter_blank(&rows[i]) {
            match branch_from_row(&rows[i], i) {
                Ok(branch) => {
                    found.push(branch);
                    assert(found.deep_view() =~= before.push(branch@));
                },
                Err(error) => {
                    failed.push(error);
                },
            }
        }
        i += 1;
    }
    proof {
        assert(rows.deep_view().take(i as int) =~= rows.deep_view());
        rows_are_accounted_for(
            rows.deep_view(),
            |row: RowView, at: usize| read_branch(row, at),
        );
    }
    Parsed { records: found, failures: failed }
}

/// Reads the banks of a table: the sentinel rows are dropped, and a row that
/// cannot be read is reported and skipped.
pub fn banks_from_rows(rows: &Vec<Row>) -> (parsed: Parsed<Bank>)
    ensures
        parsed.records.deep_view() == bank_records(rows.deep_view()),
        parsed.failures@ == bank_failures(rows.deep_view()),
        parsed.records.len() + parsed.failures.len() == rows.len() - sentinel_count(
            rows.deep_view(),
        ),
{
    let mut found: Vec<Bank> = Vec::new();
    let mut failed: Vec<ParseError> = Vec::new();
    let mut i: usize = 0;
    assert(found.deep_view() =~= Seq::<BankView>::empty());
    while i < rows.len()
        invariant
            i <= rows.len(),
            found.deep_view() == bank_records(rows.deep_view().take(i as int)),
            failed@ == bank_failures(rows.deep_view().take(i as int)),
        decreases rows.len() - i,
    {
        let ghost before = found.deep_view();
        proof {
            let upto = rows.deep_view().take(i + 1);
            assert(upto.drop_last() =~= rows.deep_view().take(i as int));
            assert(upto.last() == rows[i as int]@);
        }
        if filter_blank(&rows[i]) {
            match bank_from_row(&rows[i], i) {
                Ok(bank) => {
                    found.push(bank);
                    assert(found.deep_view() =~= before.push(bank@));
                },
                Err(error) => {
                    failed.push(error);
                },
            }
        }
        i += 1;
    }
    proof {
        assert(rows.deep_view().take(i as int) =~= rows.deep_view());
        rows_are_accounted_for(
            rows.deep_view(),
            |row: RowView, at: usize| read_bank(row, at),
        );
    }
    Parsed { records: found, failures: failed }
}

} // verus!
