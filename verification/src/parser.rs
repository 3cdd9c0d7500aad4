//! From the text of a page to the records of its table.
//!
//! The rows of a list of branches are the `tr` elements that have a `tbody`
//! among their ancestors. Those of a list of banks have an element of class
//! `j0` among their ancestors as well, which may be that `tbody` or stand
//! above or below it. The cells of a row are its children. All of this
//! follows the markup of the service, and has to be looked at again when that
//! markup changes.
//!
//! A page of more than `MAX_PAGE_BYTES` bytes is not parsed: the functions
//! here say so in place of a result.

use crate::bank::{Bank, Branch};
use crate::dom::{
    attr_of, children_of, find_nested, find_nested_under_class, fits, is_parsed, named_below,
    nested, nested_under_class, node_attr, node_children, node_find_named, node_text, nodes,
    parse_document, parsed, text_of, NodeView, MAX_PAGE_BYTES,
};
use crate::table::{
    bank_failures, bank_records, banks_from_rows, branch_failures, branch_records,
    branches_from_rows, sentinel_count, Parsed, Row, RowView,
};
use select::document::Document;
use vstd::prelude::*;
use vstd::utf8::encode_utf8;

verus! {

/// The class of the element that holds the list of banks.
pub const LIST_CLASS: &'static str = "j0";

/// The name of the element that holds the rows of a table.
pub const TABLE_BODY: &'static str = "tbody";

/// The name of a row of a table.
pub const TABLE_ROW: &'static str = "tr";

/// The name of the element that carries a bank's token.
pub const BUTTON: &'static str = "button";

/// The attribute that holds the token.
pub const VALUE: &'static str = "value";

/// The index of the cell that holds the button.
pub const TOKEN_CELL: usize = 3;

/// The token in a cell: the `value` attribute of the first button in it.
pub open spec fn token_in(tree: Seq<NodeView>, cell: usize) -> Option<Seq<char>> {
    let buttons = named_below(tree, cell, BUTTON@);
    if buttons.len() == 0 {
        None
    } else {
        attr_of(tree, buttons[0], VALUE@)
    }
}

/// The text of each of the given cells.
pub open spec fn texts_in(tree: Seq<NodeView>, cells: Seq<usize>) -> Seq<Seq<char>> {
    cells.map_values(|cell: usize| text_of(tree, cell))
}

/// The row that the node `row` of a document is read as. The token is looked
/// for only where `with_token` says so.
pub open spec fn row_in(tree: Seq<NodeView>, row: usize, with_token: bool) -> RowView {
    let cells = children_of(tree, row);
    RowView {
        text: text_of(tree, row),
        cells: texts_in(tree, cells),
        token: if with_token && cells.len() > TOKEN_CELL {
            token_in(tree, cells[TOKEN_CELL as int])
        } else {
            None
        },
    }
}

/// The rows that the given nodes of a tree are read as.
pub open spec fn rows_in(tree: Seq<NodeView>, rows: Seq<usize>, with_token: bool) -> Seq<RowView> {
    rows.map_values(|row: usize| row_in(tree, row, with_token))
}

/// The rows of the list of banks in a page.
pub open spec fn bank_rows(html: Seq<char>) -> Seq<RowView> {
    let tree = parsed(html);
    rows_in(tree, nested_under_class(tree, LIST_CLASS@, TABLE_BODY@, TABLE_ROW@), true)
}

/// The rows of the list of branches in a page.
pub open spec fn branch_rows(html: Seq<char>) -> Seq<RowView> {
    let tree = parsed(html);
    rows_in(tree, nested(tree, TABLE_BODY@, TABLE_ROW@), false)
}

fn read_token(doc: &Document, cell: usize) -> (token: Option<String>)
    requires
        is_parsed(nodes(*doc)),
        cell < nodes(*doc).len(),
    ensures
        token.deep_view() == token_in(nodes(*doc), cell),
{
    let buttons = node_find_named(doc, cell, BUTTON);
    if buttons.len() == 0 {
        None
    } else {
        node_attr(doc, buttons[0], VALUE)
    }
}

fn read_texts(doc: &Document, cells: &Vec<usize>) -> (texts: Vec<String>)
    requires
        is_parsed(nodes(*doc)),
        forall|k: int| 0 <= k < cells.len() ==> (#[trigger] cells[k]) < nodes(*doc).len(),
    ensures
        texts.deep_view() == texts_in(nodes(*doc), cells@),
{
    let mut texts: Vec<String> = Vec::new();
    let mut i: usize = 0;
    while i < cells.len()
        invariant
            i <= cells.len(),
            is_parsed(nodes(*doc)),
            forall|k: int| 0 <= k < cells.len() ==> (#[trigger] cells[k]) < nodes(*doc).len(),
            texts.len() == i,
            forall|k: int| 0 <= k < i ==> (#[trigger] texts[k])@ == text_of(nodes(*doc), cells[k]),
        decreases cells.len() - i,
    {
        texts.push(node_text(doc, cells[i]));
        i += 1;
    }
    assert(texts.deep_view() =~= texts_in(nodes(*doc), cells@));
    texts
}

fn read_row(doc: &Document, row: usize, with_token: bool) -> (read: Row)
    requires
        is_parsed(nodes(*doc)),
        row < nodes(*doc).len(),
    ensures
        read@ == row_in(nodes(*doc), row, with_token),
{
    let cells = node_children(doc, row);
    let token = if with_token && cells.len() > TOKEN_CELL {
        read_token(doc, cells[TOKEN_CELL])
    } else {
        None
    };
    Row { text: node_text(doc, row), cells: read_texts(doc, &cells), token }
}

fn read_rows(doc: &Document, rows: &Vec<usize>, with_token: bool) -> (read: Vec<Row>)
    requires
        is_parsed(nodes(*doc)),
        forall|k: int| 0 <= k < rows.len() ==> (#[trigger] rows[k]) < nodes(*doc).len(),
    ensures
        read.deep_view() == rows_in(nodes(*doc), rows@, with_token),
{
    let mut read: Vec<Row> = Vec::new();
    let mut i: usize = 0;
    while i < rows.len()
        invariant
            i <= rows.len(),
            is_parsed(nodes(*doc)),
            forall|k: int| 0 <= k < rows.len() ==> (#[trigger] rows[k]) < nodes(*doc).len(),
            read.len() == i,
            forall|k: int| 0 <= k < i ==> (#[trigger] read[k])@ == row_in(nodes(*doc), rows[k], with_token),
        decreases rows.len() - i,
    {
        read.push(read_row(doc, rows[i], with_token));
        i += 1;
    }
    assert(read.deep_view() =~= rows_in(nodes(*doc), rows@, with_token));
    read
}

/// A page was too long to be parsed: it has `bytes` bytes, more than
/// `MAX_PAGE_BYTES`.
#[derive(Debug, Clone, Copy, PartialEq, Eq)]
pub struct PageTooLong {
    pub bytes: usize,
}

/// The error that a page gets: none where it fits.
pub open spec fn too_long(html: Seq<char>) -> Option<PageTooLong> {
    if fits(html) {
        None
    } else {
        Some(PageTooLong { bytes: encode_utf8(html).len() as usize })
    }
}

/// Parses a page that fits, and refuses one that does not.
fn open_page(html: &str) -> (page: Result<Document, PageTooLong>)
    ensures
        match page {
            Ok(doc) => fits(html@) && nodes(doc) == parsed(html@),
            Err(error) => too_long(html@) == Some(error),
        },
{
    let bytes = html.as_bytes().len();
    if bytes <= MAX_PAGE_BYTES {
        Ok(parse_document(html))
    } else {
        Err(PageTooLong { bytes })
    }
}

/// The rows of the list of banks in a page, as `banks_from_rows` takes them.
pub fn rows_of_banks(html: &str) -> (rows: Result<Vec<Row>, PageTooLong>)
    ensures
        match rows {
            Ok(rows) => fits(html@) && rows.deep_view() == bank_rows(html@),
            Err(error) => too_long(html@) == Some(error),
        },
{
    match open_page(html) {
        Ok(doc) => {
            let found = find_nested_under_class(&doc, LIST_CLASS, TABLE_BODY, TABLE_ROW);
            Ok(read_rows(&doc, &found, true))
        },
        Err(error) => Err(error),
    }
}

/// The rows of the list of branches in a page, as `branches_from_rows` takes
/// them.
pub fn rows_of_branches(html: &str) -> (rows: Result<Vec<Row>, PageTooLong>)
    ensures
        match rows {
            Ok(rows) => fits(html@) && rows.deep_view() == branch_rows(html@),
            Err(error) => too_long(html@) == Some(error),
        },
{
    match open_page(html) {
        Ok(doc) => {
            let found = find_nested(&doc, TABLE_BODY, TABLE_ROW);
            Ok(read_rows(&doc, &found, false))
        },
        Err(error) => Err(error),
    }
}

/// Parses the page that answers a query for banks.
pub fn parse_banks(html: String) -> (page: Result<Parsed<Bank>, PageTooLong>)
    ensures
        match page {
            Ok(page) => {
                &&& fits(html@)
                &&& page.records.deep_view() == bank_records(bank_rows(html@))
                &&& page.failures@ == bank_failures(bank_rows(html@))
                &&& page.records.len() + page.failures.len() == bank_rows(html@).len()
                    - sentinel_count(bank_rows(html@))
            },
            Err(error) => too_long(html@) == Some(error),
        },
{
    match rows_of_banks(html.as_str()) {
        Ok(rows) => Ok(banks_from_rows(&rows)),
        Err(error) => Err(error),
    }
}

/// Parses the page that answers a query for the branches of a bank.
pub fn parse_branches(html: String) -> (page: Result<Parsed<Branch>, PageTooLong>)
    ensures
        match page {
            Ok(page) => {
                &&& fits(html@)
                &&& page.records.deep_view() == branch_records(branch_rows(html@))
                &&& page.failures@ == branch_failures(branch_rows(html@))
                &&& page.records.len() + page.failures.len() == branch_rows(html@).len()
                    - sentinel_count(branch_rows(html@))
            },
            Err(error) => too_long(html@) == Some(error),
        },
{
    match rows_of_branches(html.as_str()) {
        Ok(rows) => Ok(branches_from_rows(&rows)),
        Err(error) => Err(error),
    }
}

} // verus!
