use zengin_catalog::bank::{Bank, BankCode, Branch};
use zengin_catalog::dom::MAX_PAGE_BYTES;
use zengin_catalog::parser::{
    parse_banks, parse_branches, rows_of_banks, rows_of_branches, PageTooLong,
};
use zengin_catalog::table::{
    bank_from_row, banks_from_rows, branch_from_row, branches_from_rows, filter_blank, ParseError,
    Row, SENTINEL,
};

fn row(cells: &[&str], token: Option<&str>) -> Row {
    Row {
        text: cells.concat(),
        cells: cells.iter().map(|c| c.to_string()).collect(),
        token: token.map(|t| t.to_owned()),
    }
}

fn bank(name: &str, phonetic: &str, code: &str, token: &str) -> Bank {
    Bank::new(name.to_owned(), phonetic.to_owned(), code.to_owned(), token.to_owned())
}

fn branch(name: &str, phonetic: &str, code: &str) -> Branch {
    Branch::new(name.to_owned(), phonetic.to_owned(), code.to_owned())
}

const BANK_PAGE: &str = "<html><body><div class=\"j0\"><table><tbody>\
<tr><td>ねこ銀行</td><td>ﾈｺ</td><td>0222</td><td><form><button value=\"t1\">支店</button></form></td></tr>\
<tr><td>該当するデータはありません</td></tr>\
</tbody></table></div></body></html>";

#[test]
fn sentinel_is_the_exact_text() {
    assert_eq!(SENTINEL, "該当するデータはありません");
    assert_eq!(SENTINEL.as_bytes().len(), 39);
}

#[test]
fn filter_blank_drops_the_sentinel_only() {
    assert!(!filter_blank(&row(&["該当するデータはありません"], None)));
    assert!(filter_blank(&row(&["該当するデータはありません "], None)));
    assert!(filter_blank(&row(&["該当するデータはありません", "x"], None)));
    assert!(filter_blank(&row(&[], None)));
    assert!(filter_blank(&row(&["ねこ銀行", "ﾈｺ", "0222"], None)));
}

#[test]
fn stub_rows_give_exactly_one_bank() {
    let page = parse_banks(BANK_PAGE.to_owned()).unwrap();
    assert_eq!(page.records, vec![bank("ねこ銀行", "ﾈｺ", "0222", "t1")]);
    assert_eq!(page.records[0].code, BankCode("0222".to_owned()));
    assert!(page.failures.is_empty());
}

#[test]
fn rows_of_banks_reads_text_cells_and_token() {
    let rows = rows_of_banks(BANK_PAGE).unwrap();
    assert_eq!(rows.len(), 2);
    assert_eq!(rows[0].text, "ねこ銀行ﾈｺ0222支店");
    assert_eq!(rows[0].cells, vec!["ねこ銀行", "ﾈｺ", "0222", "支店"]);
    assert_eq!(rows[0].token, Some("t1".to_owned()));
    assert_eq!(rows[1].text, "該当するデータはありません");
    assert_eq!(rows[1].cells, vec!["該当するデータはありません"]);
    assert_eq!(rows[1].token, None);
}

#[test]
fn banks_are_looked_for_under_the_class_only() {
    let html = "<table><tbody><tr><td>a</td><td>b</td><td>0001</td><td><button value=\"t\"></button></td></tr></tbody></table>\
<div class=\"x j0 y\"><table><tbody><tr><td>c</td><td>d</td><td>0002</td><td><button value=\"u\"></button></td></tr></tbody></table></div>";
    let page = parse_banks(html.to_owned()).unwrap();
    assert_eq!(page.records, vec![bank("c", "d", "0002", "u")]);
    assert!(page.failures.is_empty());
    let all = parse_branches(html.to_owned()).unwrap();
    assert_eq!(all.records, vec![branch("a", "b", "0001"), branch("c", "d", "0002")]);
}

#[test]
fn sentinel_only_page_gives_nothing() {
    let html = "<div class=\"j0\"><table><tbody><tr><td>該当するデータはありません</td></tr></tbody></table></div>";
    let banks = parse_banks(html.to_owned()).unwrap();
    assert!(banks.records.is_empty());
    assert!(banks.failures.is_empty());
    let branches = parse_branches(html.to_owned()).unwrap();
    assert!(branches.records.is_empty());
    assert!(branches.failures.is_empty());
}

#[test]
fn page_without_table_gives_nothing() {
    for html in ["", "<p>hello</p>", "<table><tr></tr>"] {
        let banks = parse_banks(html.to_owned()).unwrap();
        assert!(banks.records.is_empty());
        assert!(banks.failures.is_empty());
    }
    assert!(parse_branches("".to_owned()).unwrap().records.is_empty());
    assert!(rows_of_branches("<p>hello</p>").unwrap().is_empty());
}

#[test]
fn branch_page_is_read_by_position() {
    let html = "<table><tbody>\
<tr><td>みけ支店</td><td>ﾐｹ</td><td>0123</td></tr>\
<tr><td>とら支店</td><td>ﾄﾗ</td><td>0789</td><td>more</td></tr>\
</tbody></table>";
    let page = parse_branches(html.to_owned()).unwrap();
    assert_eq!(page.records, vec![branch("みけ支店", "ﾐｹ", "0123"), branch("とら支店", "ﾄﾗ", "0789")]);
    assert!(page.failures.is_empty());
    let rows = rows_of_branches(html).unwrap();
    assert_eq!(rows.len(), 2);
    assert_eq!(rows[1].cells.len(), 4);
    assert_eq!(rows[1].token, None);
}

#[test]
fn cell_text_joins_nested_text() {
    let html = "<table><tbody><tr><td><b>み</b>け<i>支店</i></td><td>ﾐｹ</td><td><span>01</span>23</td></tr></tbody></table>";
    let page = parse_branches(html.to_owned()).unwrap();
    assert_eq!(page.records, vec![branch("みけ支店", "ﾐｹ", "0123")]);
}

#[test]
fn malformed_row_is_skipped_and_reported() {
    let html = "<div class=\"j0\"><table><tbody>\
<tr><td>a</td><td>b</td><td>0001</td><td><button value=\"t1\"></button></td></tr>\
<tr><td>c</td><td>d</td></tr>\
<tr><td>該当するデータはありません</td></tr>\
<tr><td>e</td><td>f</td><td>0003</td><td>no button</td></tr>\
<tr><td>g</td><td>h</td><td>0004</td><td><button>no value</button></td></tr>\
<tr><td>i</td><td>j</td><td>0005</td><td><button value=\"t5\"></button><button value=\"t6\"></button></td></tr>\
</tbody></table></div>";
    let page = parse_banks(html.to_owned()).unwrap();
    assert_eq!(page.records, vec![bank("a", "b", "0001", "t1"), bank("i", "j", "0005", "t5")]);
    assert_eq!(
        page.failures,
        vec![
            ParseError::MissingCell { row: 1, cell: 2 },
            ParseError::MissingToken { row: 3 },
            ParseError::MissingToken { row: 4 },
        ]
    );
    // six rows, one of them the sentinel: five are accounted for
    assert_eq!(page.records.len() + page.failures.len(), 6 - 1);

    let branches = parse_branches(html.to_owned()).unwrap();
    assert_eq!(branches.records.len(), 4);
    assert_eq!(branches.failures, vec![ParseError::MissingCell { row: 1, cell: 2 }]);
}

#[test]
fn rows_are_counted_without_the_sentinels() {
    let rows = vec![
        row(&["a", "b", "0001", ""], Some("t1")),
        row(&[SENTINEL], None),
        row(&["c"], None),
        row(&[SENTINEL], None),
        row(&["d", "e", "0002", ""], Some("t2")),
    ];
    let banks = banks_from_rows(&rows);
    assert_eq!(banks.records, vec![bank("a", "b", "0001", "t1"), bank("d", "e", "0002", "t2")]);
    assert_eq!(banks.failures, vec![ParseError::MissingCell { row: 2, cell: 1 }]);
    assert_eq!(banks.records.len() + banks.failures.len(), 5 - 2);
    let branches = branches_from_rows(&rows);
    assert_eq!(branches.records, vec![branch("a", "b", "0001"), branch("d", "e", "0002")]);
    assert_eq!(branches.failures, vec![ParseError::MissingCell { row: 2, cell: 1 }]);
}

#[test]
fn rows_of_sentinels_alone_give_nothing() {
    let rows = vec![row(&[SENTINEL], None), row(&[SENTINEL], None)];
    let banks = banks_from_rows(&rows);
    assert!(banks.records.is_empty() && banks.failures.is_empty());
    let branches = branches_from_rows(&rows);
    assert!(branches.records.is_empty() && branches.failures.is_empty());
    let none = banks_from_rows(&Vec::new());
    assert!(none.records.is_empty() && none.failures.is_empty());
}

#[test]
fn bank_from_row_reads_or_says_what_is_missing() {
    assert_eq!(bank_from_row(&row(&["a", "b", "0001", "x"], Some("t")), 7), Ok(bank("a", "b", "0001", "t")));
    assert_eq!(
        bank_from_row(&row(&["a", "b", "0001", "x", "y"], Some("t")), 7),
        Ok(bank("a", "b", "0001", "t"))
    );
    assert_eq!(bank_from_row(&row(&[], None), 0), Err(ParseError::MissingCell { row: 0, cell: 0 }));
    assert_eq!(
        bank_from_row(&row(&["a", "b", "0001"], Some("t")), 3),
        Err(ParseError::MissingCell { row: 3, cell: 3 })
    );
    assert_eq!(
        bank_from_row(&row(&["a", "b", "0001", "x"], None), 4),
        Err(ParseError::MissingToken { row: 4 })
    );
}

#[test]
fn branch_from_row_reads_or_says_what_is_missing() {
    assert_eq!(branch_from_row(&row(&["a", "b", "001"], None), 0), Ok(branch("a", "b", "001")));
    assert_eq!(branch_from_row(&row(&["a", "b", "001", "x"], Some("t")), 0), Ok(branch("a", "b", "001")));
    assert_eq!(
        branch_from_row(&row(&["a", "b"], None), 5),
        Err(ParseError::MissingCell { row: 5, cell: 2 })
    );
    assert_eq!(
        branch_from_row(&row(&[], None), 1),
        Err(ParseError::MissingCell { row: 1, cell: 0 })
    );
}

#[test]
fn page_limit_is_a_quarter_of_what_a_string_of_the_parser_holds() {
    assert_eq!(MAX_PAGE_BYTES, 536_870_912);
    assert_eq!(MAX_PAGE_BYTES as u64 * 4, 1u64 << 31);
}

#[test]
fn page_that_is_too_long_is_refused() {
    let html = " ".repeat(MAX_PAGE_BYTES + 1);
    let refused = PageTooLong { bytes: MAX_PAGE_BYTES + 1 };
    assert_eq!(rows_of_banks(&html), Err(refused));
    assert_eq!(rows_of_branches(&html), Err(refused));
    assert_eq!(parse_branches(html.clone()).err(), Some(refused));
    assert_eq!(parse_banks(html).err(), Some(refused));
}

#[test]
fn page_length_is_counted_in_bytes() {
    // each of these characters takes three bytes
    let html = "あ".repeat(MAX_PAGE_BYTES / 3 + 1);
    assert_eq!(html.chars().count(), MAX_PAGE_BYTES / 3 + 1);
    assert_eq!(parse_banks(html).err(), Some(PageTooLong { bytes: MAX_PAGE_BYTES + 1 }));
}

#[test]
fn nul_bytes_are_parsed_as_replacement_characters() {
    let html = "<table><tbody><tr><td>a\0b</td><td>\0</td><td>0001</td></tr></tbody></table>";
    let page = parse_branches(html.to_owned()).unwrap();
    assert_eq!(page.records.len(), 1);
    assert_eq!(page.records[0].code, "0001");
    assert!(page.failures.is_empty());
}
