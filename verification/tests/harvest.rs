use zengin_catalog::bank::{Bank, BankCode, Branch};
use zengin_catalog::catalog::to_hashmap;
use zengin_catalog::fanout::{gather, Shard};
use zengin_catalog::keys::{all_search_keys, SEARCH_KEYS, SEARCH_KEY_COUNT};
use zengin_catalog::parser::{parse_banks, parse_branches};
use zengin_catalog::request::{banks_form, branches_form};
use zengin_catalog::stored::StoredBank;

fn bank(name: &str, phonetic: &str, code: &str, token: &str) -> Bank {
    Bank::new(name.to_owned(), phonetic.to_owned(), code.to_owned(), token.to_owned())
}

fn branch(name: &str, phonetic: &str, code: &str) -> Branch {
    Branch::new(name.to_owned(), phonetic.to_owned(), code.to_owned())
}

#[test]
fn search_keys_are_the_alphabet() {
    let keys = all_search_keys();
    assert_eq!(keys.len(), 44);
    assert_eq!(SEARCH_KEY_COUNT, 44);
    assert_eq!(keys[0], 'あ');
    assert_eq!(keys[1], 'い');
    assert_eq!(keys[43], 'わ');
    assert_eq!(keys.iter().collect::<String>(), SEARCH_KEYS);
    assert_eq!(
        SEARCH_KEYS,
        "あいうえおかきくけこさしすせそたちつてとなにぬねのはひふへほまみむめもやゆよらりるれろわ"
    );
    assert_eq!(all_search_keys(), keys);
}

#[test]
fn banks_form_binds_the_key_to_one_field() {
    assert_eq!(banks_form('あ'), vec![("gm".to_owned(), "あ".to_owned())]);
    assert_eq!(banks_form('x'), vec![("gm".to_owned(), "x".to_owned())]);
}

#[test]
fn branches_form_sends_key_and_token() {
    let b = bank("ねこ銀行", "ﾈｺ", "0222", "0x222");
    assert_eq!(
        branches_form(&b, 'う'),
        vec![("sm".to_owned(), "う".to_owned()), ("pz".to_owned(), "0x222".to_owned())]
    );
}

#[test]
fn failed_shard_is_dropped_and_named() {
    let shard_a = Shard { key: 'あ', records: Some(vec![bank("いぬ銀行", "ｲﾇ", "0111", "t")]) };
    let shard_b: Shard<Bank> = Shard { key: 'い', records: None };
    let harvest = gather(vec![shard_a, shard_b]);
    assert_eq!(harvest.records, vec![bank("いぬ銀行", "ｲﾇ", "0111", "t")]);
    assert_eq!(harvest.failed_keys, vec!['い']);
    let catalog = to_hashmap(&harvest.records);
    assert_eq!(catalog.len(), 1);
    assert_eq!(*catalog.banks(), vec![bank("いぬ銀行", "ｲﾇ", "0111", "t")]);
    assert_eq!(catalog.get(&BankCode("0111".to_owned())).unwrap().name, "いぬ銀行");
}

#[test]
fn gather_keeps_the_order_of_the_shards() {
    let shards = vec![
        Shard { key: 'あ', records: Some(vec![1, 2]) },
        Shard { key: 'い', records: None },
        Shard { key: 'う', records: Some(vec![]) },
        Shard { key: 'え', records: Some(vec![3]) },
        Shard { key: 'お', records: None },
    ];
    let harvest = gather(shards);
    assert_eq!(harvest.records, vec![1, 2, 3]);
    assert_eq!(harvest.failed_keys, vec!['い', 'お']);
    let nothing = gather(Vec::<Shard<u8>>::new());
    assert!(nothing.records.is_empty());
    assert!(nothing.failed_keys.is_empty());
}

#[test]
fn sentinel_only_branch_page_attaches_an_empty_list() {
    let html = "<table><tbody><tr><td>該当するデータはありません</td></tr></tbody></table>";
    let mut bank_2740 = bank("てすと銀行", "ﾃｽﾄ", "2740", "pz2740");
    bank_2740.append_branch(branch("ふるい支店", "ﾌﾙｲ", "001"));
    let keys = vec!['う'];
    let mut shards = Vec::new();
    for key in keys {
        assert_eq!(branches_form(&bank_2740, key)[1].1, "pz2740");
        shards.push(Shard { key, records: Some(parse_branches(html.to_owned()).unwrap().records) });
    }
    let harvest = gather(shards);
    assert!(harvest.failed_keys.is_empty());
    bank_2740.attach_branches(harvest.records);
    assert_eq!(bank_2740.branches, Vec::<Branch>::new());
    assert_eq!(bank_2740.code, BankCode("2740".to_owned()));

    let mut catalog = to_hashmap(&vec![bank("てすと銀行", "ﾃｽﾄ", "2740", "pz2740")]);
    assert!(catalog.attach_branches(&BankCode("2740".to_owned()), Vec::new()));
    assert_eq!(catalog.get(&BankCode("2740".to_owned())).unwrap().branches, Vec::<Branch>::new());
}

#[test]
fn pages_of_two_shards_merge_into_one_catalog() {
    let page_a = "<div class=\"j0\"><table><tbody>\
<tr><td>a</td><td>a</td><td>0001</td><td><button value=\"t1\"></button></td></tr>\
<tr><td>b</td><td>b</td><td>0002</td><td><button value=\"t2\"></button></td></tr>\
</tbody></table></div>";
    let page_b = "<div class=\"j0\"><table><tbody>\
<tr><td>b2</td><td>b2</td><td>0002</td><td><button value=\"t3\"></button></td></tr>\
</tbody></table></div>";
    let shards = vec![
        Shard { key: 'あ', records: Some(parse_banks(page_a.to_owned()).unwrap().records) },
        Shard { key: 'い', records: Some(parse_banks(page_b.to_owned()).unwrap().records) },
    ];
    let catalog = to_hashmap(&gather(shards).records);
    assert_eq!(catalog.len(), 2);
    assert_eq!(*catalog.banks(), vec![bank("a", "a", "0001", "t1"), bank("b2", "b2", "0002", "t3")]);
}

#[test]
fn stored_bank_keeps_all_but_the_token() {
    let mut b = bank("ねこ銀行", "ﾈｺ", "0222", "0x222");
    b.append_branch(branch("みけ支店", "ﾐｹ", "0123"));
    let stored = b.to_stored();
    assert_eq!(
        stored,
        StoredBank {
            name: "ねこ銀行".to_owned(),
            phonetic: "ﾈｺ".to_owned(),
            code: "0222".to_owned(),
            branches: vec![branch("みけ支店", "ﾐｹ", "0123")],
        }
    );
    let mut other = bank("ねこ銀行", "ﾈｺ", "0222", "another token");
    other.append_branch(branch("みけ支店", "ﾐｹ", "0123"));
    assert_eq!(other.to_stored(), stored);
}

#[test]
fn stored_catalog_lists_each_bank_once() {
    let catalog = to_hashmap(&vec![
        bank("a", "a", "0001", "t1"),
        bank("b", "b", "0002", "t2"),
        bank("c", "c", "0001", "t3"),
    ]);
    let stored = catalog.to_stored();
    assert_eq!(stored.len(), 2);
    assert_eq!(stored[0].name, "c");
    assert_eq!(stored[0].code, "0001");
    assert_eq!(stored[1].name, "b");
    assert_eq!(stored[1].code, "0002");
}
