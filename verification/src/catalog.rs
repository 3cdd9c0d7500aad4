//! The catalog: banks keyed by their code, one entry for each code.
//!
//! The catalog keeps its entries in a list, in the order in which their codes
//! first came in. A bank whose code the catalog already holds takes the place
//! of the earlier entry, whole: the later one wins, and nothing of the earlier
//! one is kept.

use crate::bank::{Bank, BankCode, BankView, Branch};
use vstd::prelude::*;

verus! {

/// Whether one of the entries has the given code.
pub open spec fn has_code(entries: Seq<BankView>, code: Seq<char>) -> bool {
    exists|i: int| 0 <= i < entries.len() && (#[trigger] entries[i]).code == code
}

/// The place of an entry with the given code, where there is one.
pub open spec fn place_of(entries: Seq<BankView>, code: Seq<char>) -> int {
    choose|i: int| 0 <= i < entries.len() && (#[trigger] entries[i]).code == code
}

/// No two entries have the same code.
pub open spec fn distinct_codes(entries: Seq<BankView>) -> bool {
    forall|i: int, j: int|
        0 <= i < j < entries.len() ==> (#[trigger] entries[i]).code != (#[trigger] entries[j]).code
}

/// The entries after one bank has come in: it takes the place of the entry
/// with its code, or comes last where no entry has its code.
pub open spec fn put(entries: Seq<BankView>, bank: BankView) -> Seq<BankView> {
    if has_code(entries, bank.code) {
        entries.update(place_of(entries, bank.code), bank)
    } else {
        entries.push(bank)
    }
}

/// The entries of the catalog that a list of banks merges into: each bank in
/// turn comes in.
pub open spec fn merged(banks: Seq<BankView>) -> Seq<BankView>
    decreases banks.len(),
{
    if banks.len() == 0 {
        Seq::empty()
    } else {
        put(merged(banks.drop_last()), banks.last())
    }
}

/// The mapping that a list of banks stands for: each code is mapped to the
/// last bank of the list that has it.
pub open spec fn keyed(banks: Seq<BankView>) -> Map<Seq<char>, BankView>
    decreases banks.len(),
{
    if banks.len() == 0 {
        Map::empty()
    } else {
        keyed(banks.drop_last()).insert(banks.last().code, banks.last())
    }
}

/// The codes that occur in a list of banks.
pub open spec fn codes(banks: Seq<BankView>) -> Set<Seq<char>> {
    banks.map_values(|bank: BankView| bank.code).to_set()
}

/// Banks with the same code are the same bank.
pub open spec fn agreeing(banks: Seq<BankView>) -> bool {
    forall|i: int, j: int|
        0 <= i < banks.len() && 0 <= j < banks.len() && (#[trigger] banks[i]).code == (
        #[trigger] banks[j]).code ==> banks[i] == banks[j]
}

/// Banks keyed by their code.
pub struct Catalog {
    entries: Vec<Bank>,
}

impl View for Catalog {
    type V = Map<Seq<char>, BankView>;

    /// The mapping from each code to the bank that the catalog holds for it.
    open spec fn view(&self) -> Map<Seq<char>, BankView> {
        keyed(self.listing())
    }
}

impl Catalog {
    /// The banks of the catalog, in the order in which their codes first
    /// came in.
    pub closed spec fn listing(&self) -> Seq<BankView> {
        self.entries.deep_view()
    }

    #[verifier::type_invariant]
    spec fn codes_are_distinct(self) -> bool {
        distinct_codes(self.entries.deep_view())
    }

    /// A catalog without banks.
    pub fn new() -> (catalog: Self)
        ensures
            catalog.listing() == Seq::<BankView>::empty(),
            catalog@ == Map::<Seq<char>, BankView>::empty(),
    {
        let catalog = Catalog { entries: Vec::new() };
        assert(catalog.entries.deep_view() =~= Seq::<BankView>::empty());
        catalog
    }

    /// The number of banks, which is the number of codes.
    pub fn len(&self) -> (count: usize)
        ensures
            count == self.listing().len(),
            self@.dom().finite(),
            count == self@.dom().len(),
    {
        proof {
            use_type_invariant(self);
            lemma_keyed_distinct(self.listing());
        }
        self.entries.len()
    }

    /// Where in the entries the bank with the given code stands.
    fn find(entries: &Vec<Bank>, code: &BankCode) -> (found: Option<usize>)
        ensures
            match found {
                Some(at) => at < entries.len() && entries[at as int].code@ == code@,
                None => !has_code(entries.deep_view(), code@),
            },
    {
        let mut i: usize = 0;
        while i < entries.len()
            invariant
                i <= entries.len(),
                forall|k: int| 0 <= k < i ==> entries[k].code@ != code@,
            decreases entries.len() - i,
        {
            if entries[i].code.same(code) {
                return Some(i);
            }
            i += 1;
        }
        assert(!has_code(entries.deep_view(), code@)) by {
            if has_code(entries.deep_view(), code@) {
                let k = choose|k: int|
                    0 <= k < entries.deep_view().len() && (#[trigger] entries.deep_view()[k]).code
                        == code@;
                assert(entries[k].code@ == code@);
            }
        }
        None
    }

    /// The bank that the catalog holds for a code, if it holds one.
    pub fn get(&self, code: &BankCode) -> (found: Option<&Bank>)
        ensures
            match found {
                Some(bank) => self@.contains_key(code@) && bank@ == self@[code@],
                None => !self@.contains_key(code@),
            },
    {
        proof {
            use_type_invariant(self);
            lemma_keyed_distinct(self.listing());
            lemma_keyed_keys(self.listing());
        }
        match Self::find(&self.entries, code) {
            Some(at) => {
                assert(self.listing()[at as int] == self.entries[at as int]@);
                Some(&self.entries[at])
            },
            None => None,
        }
    }

    /// Puts a bank under its code. A bank that the catalog held for that code
    /// is replaced, whole.
    pub fn insert(&mut self, bank: Bank)
        ensures
            final(self).listing() == put(old(self).listing(), bank@),
            final(self)@ == old(self)@.insert(bank.code@, bank@),
    {
        proof {
            use_type_invariant(&*self);
            lemma_put(self.listing(), bank@);
        }
        let mut entries: Vec<Bank> = Vec::new();
        std::mem::swap(&mut entries, &mut self.entries);
        let ghost before = entries.deep_view();
        let ghost coming = bank@;
        match Self::find(&entries, &bank.code) {
            Some(at) => {
                proof {
                    assert(before[at as int].code == coming.code);
                    let chosen = place_of(before, coming.code);
                    assert(chosen == at) by {
                        if chosen != at {
                            if chosen < at {
                                assert(before[chosen].code != before[at as int].code);
                            } else {
                                assert(before[at as int].code != before[chosen].code);
                            }
                        }
                    }
                }
                entries.set(at, bank);
                assert(entries.deep_view() =~= before.update(at as int, coming));
            },
            None => {
                entries.push(bank);
                assert(entries.deep_view() =~= before.push(coming));
            },
        }
        self.entries = entries;
    }

    /// Replaces the branches of the bank with the given code by the given
    /// list, whole. Says whether the catalog holds such a bank; where it does
    /// not, the catalog stays as it is.
    pub fn attach_branches(&mut self, code: &BankCode, branches: Vec<Branch>) -> (attached: bool)
        ensures
            attached == old(self)@.contains_key(code@),
            attached ==> final(self)@ == old(self)@.insert(
                code@,
                BankView { branches: branches.deep_view(), ..old(self)@[code@] },
            ),
            attached ==> final(self).listing() == put(
                old(self).listing(),
                BankView { branches: branches.deep_view(), ..old(self)@[code@] },
            ),
            !attached ==> final(self).listing() == old(self).listing(),
            final(self).listing().len() == old(self).listing().len(),
    {
        proof {
            lemma_keyed_keys(self.listing());
        }
        let renewed = match self.get(code) {
            Some(bank) => Some(
                Bank {
                    name: bank.name.clone(),
                    phonetic: bank.phonetic.clone(),
                    code: bank.code.clone(),
                    search_param: bank.search_param.clone(),
                    branches,
                },
            ),
            None => None,
        };
        match renewed {
            Some(bank) => {
                assert(has_code(self.listing(), bank@.code));
                self.insert(bank);
                true
            },
            None => false,
        }
    }

    /// The banks of the catalog, in the order of `listing`.
    pub fn banks(&self) -> (banks: &Vec<Bank>)
        ensures
            banks.deep_view() == self.listing(),
            distinct_codes(banks.deep_view()),
    {
        proof {
            use_type_invariant(self);
        }
        &self.entries
    }
}

impl Bank {
    /// The catalog that holds this bank and no other.
    pub fn to_hashmap(&self) -> (catalog: Catalog)
        ensures
            catalog.listing() == seq![self@],
            catalog@ == Map::<Seq<char>, BankView>::empty().insert(self.code@, self@),
    {
        let mut catalog = Catalog::new();
        catalog.insert(self.clone());
        assert(!has_code(Seq::<BankView>::empty(), self.code@));
        assert(Seq::<BankView>::empty().push(self@) =~= seq![self@]);
        catalog
    }
}

/// Merges a list of banks into a catalog: each bank in turn is put under its
/// code, so of two banks with one code the later one stays.
pub fn to_hashmap(banks: &Vec<Bank>) -> (catalog: Catalog)
    ensures
        catalog.listing() == merged(banks.deep_view()),
        catalog@ == keyed(banks.deep_view()),
        catalog@.dom() == codes(banks.deep_view()),
{
    let mut catalog = Catalog::new();
    let mut i: usize = 0;
    while i < banks.len()
        invariant
            i <= banks.len(),
            catalog.listing() == merged(banks.deep_view().take(i as int)),
        decreases banks.len() - i,
    {
        proof {
            let upto = banks.deep_view().take(i + 1);
            assert(upto.drop_last() =~= banks.deep_view().take(i as int));
            assert(upto.last() == banks[i as int]@);
        }
        catalog.insert(banks[i].clone());
        i += 1;
    }
    proof {
        assert(banks.deep_view().take(i as int) =~= banks.deep_view());
        lemma_merged(banks.deep_view());
        lemma_keyed_keys(banks.deep_view());
    }
    catalog
}

/// No duplicate survives a merge: the catalog that a list of banks merges
/// into has exactly the codes of the list as its keys, one entry for each,
/// so it has as many entries as the list has distinct codes.
pub proof fn merge_keeps_one_entry_per_code(banks: Seq<BankView>)
    ensures
        distinct_codes(merged(banks)),
        keyed(merged(banks)).dom() == codes(banks),
        codes(banks).finite(),
        merged(banks).len() == codes(banks).len(),
{
    lemma_merged(banks);
    lemma_keyed_keys(banks);
    lemma_keyed_distinct(merged(banks));
}

/// Merging is idempotent: the entries of a merged catalog merge into the
/// same entries again, and so into the same mapping.
pub proof fn merge_is_idempotent(banks: Seq<BankView>)
    ensures
        merged(merged(banks)) == merged(banks),
        keyed(merged(merged(banks))) == keyed(merged(banks)),
{
    lemma_merged(banks);
    lemma_merged_distinct(merged(banks));
}

/// The catalog does not depend on the order in which the shards came in:
/// two lists that hold the same banks, none of which disagrees with another
/// on what a code stands for, merge into the same mapping.
pub proof fn merge_ignores_order(first: Seq<BankView>, second: Seq<BankView>)
    requires
        agreeing(first),
        forall|i: int| 0 <= i < first.len() ==> second.contains(#[trigger] first[i]),
        forall|j: int| 0 <= j < second.len() ==> first.contains(#[trigger] second[j]),
    ensures
        keyed(first) == keyed(second),
{
    lemma_keyed_keys(first);
    lemma_keyed_keys(second);
    let first_codes = first.map_values(|bank: BankView| bank.code);
    let second_codes = second.map_values(|bank: BankView| bank.code);
    assert forall|code: Seq<char>| keyed(first).contains_key(code) <==> keyed(
        second,
    ).contains_key(code) by {
        if keyed(first).contains_key(code) {
            let i = choose|i: int| 0 <= i < first_codes.len() && first_codes[i] == code;
            let j = choose|j: int| 0 <= j < second.len() && second[j] == first[i];
            assert(second_codes[j] == code);
        }
        if keyed(second).contains_key(code) {
            let j = choose|j: int| 0 <= j < second_codes.len() && second_codes[j] == code;
            let i = choose|i: int| 0 <= i < first.len() && first[i] == second[j];
            assert(first_codes[i] == code);
        }
    }
    assert forall|code: Seq<char>| keyed(first).contains_key(code) implies keyed(first)[code]
        == keyed(second)[code] by {
        let i = choose|i: int| 0 <= i < first.len() && first[i] == keyed(first)[code];
        let j = choose|j: int| 0 <= j < second.len() && second[j] == keyed(second)[code];
        let k = choose|k: int| 0 <= k < first.len() && first[k] == second[j];
        assert(first[i].code == first[k].code);
    }
    assert(keyed(first) =~= keyed(second));
}

/// The mapping of a list has the codes of the list as its keys, and maps each
/// key to a bank of the list with that code.
pub proof fn lemma_keyed_keys(banks: Seq<BankView>)
    ensures
        keyed(banks).dom() =~= codes(banks),
        keyed(banks).dom().finite(),
        forall|code: Seq<char>| #[trigger]
            keyed(banks).contains_key(code) ==> keyed(banks)[code].code == code && banks.contains(
                keyed(banks)[code],
            ),
    decreases banks.len(),
{
    let codes_of = banks.map_values(|bank: BankView| bank.code);
    if banks.len() == 0 {
        assert(codes_of.to_set() =~= Set::<Seq<char>>::empty());
    } else {
        let front = banks.drop_last();
        let last = banks.last();
        lemma_keyed_keys(front);
        let front_codes = front.map_values(|bank: BankView| bank.code);
        assert forall|code: Seq<char>| codes_of.to_set().contains(code) <==> (
        front_codes.to_set().contains(code) || code == last.code) by {
            if codes_of.to_set().contains(code) {
                let i = choose|i: int| 0 <= i < codes_of.len() && codes_of[i] == code;
                if i < front.len() {
                    assert(front_codes[i] == code);
                }
            }
            if front_codes.to_set().contains(code) {
                let i = choose|i: int| 0 <= i < front_codes.len() && front_codes[i] == code;
                assert(codes_of[i] == code);
            }
            if code == last.code {
                assert(codes_of[banks.len() - 1] == code);
            }
        }
        assert forall|code: Seq<char>| #[trigger]
            keyed(banks).contains_key(code) implies keyed(banks)[code].code == code
            && banks.contains(keyed(banks)[code]) by {
            if code == last.code {
                assert(banks[banks.len() - 1] == last);
            } else {
                assert(keyed(front).contains_key(code));
                let i = choose|i: int| 0 <= i < front.len() && front[i] == keyed(front)[code];
                assert(banks[i] == front[i]);
            }
        }
    }
}

/// Where no two banks of a list share a code, the mapping of the list maps
/// the code of each bank to that bank, and has as many keys as the list has
/// banks.
pub proof fn lemma_keyed_distinct(banks: Seq<BankView>)
    requires
        distinct_codes(banks),
    ensures
        forall|i: int|
            0 <= i < banks.len() ==> keyed(banks).contains_key((#[trigger] banks[i]).code) && keyed(
                banks,
            )[banks[i].code] == banks[i],
        keyed(banks).dom().finite(),
        keyed(banks).dom().len() == banks.len(),
    decreases banks.len(),
{
    lemma_keyed_keys(banks);
    if banks.len() > 0 {
        let front = banks.drop_last();
        let last = banks.last();
        assert(distinct_codes(front)) by {
            assert forall|i: int, j: int| 0 <= i < j < front.len() implies (#[trigger] front[i]).code
                != (#[trigger] front[j]).code by {
                assert(banks[i].code != banks[j].code);
            }
        }
        lemma_keyed_distinct(front);
        lemma_keyed_keys(front);
        assert(!keyed(front).contains_key(last.code)) by {
            if keyed(front).contains_key(last.code) {
                let i = choose|i: int| 0 <= i < front.len() && (#[trigger] front[i]).code
                    == last.code;
                assert(banks[i].code != banks[banks.len() - 1].code);
            }
        }
        assert forall|i: int| 0 <= i < banks.len() implies keyed(banks).contains_key(
            (#[trigger] banks[i]).code,
        ) && keyed(banks)[banks[i].code] == banks[i] by {
            if i < front.len() {
                assert(front[i] == banks[i]);
                assert(banks[i].code != banks[banks.len() - 1].code);
            }
        }
    }
}

/// Putting a bank into entries with distinct codes leaves the codes distinct,
/// and maps the bank's code to the bank, whatever it was mapped to before.
pub proof fn lemma_put(entries: Seq<BankView>, bank: BankView)
    requires
        distinct_codes(entries),
    ensures
        distinct_codes(put(entries, bank)),
        keyed(put(entries, bank)) =~= keyed(entries).insert(bank.code, bank),
{
    let after = put(entries, bank);
    if has_code(entries, bank.code) {
        let at = place_of(entries, bank.code);
        assert forall|i: int, j: int| 0 <= i < j < after.len() implies (#[trigger] after[i]).code
            != (#[trigger] after[j]).code by {
            assert(entries[i].code != entries[j].code);
        }
        lemma_keyed_distinct(entries);
        lemma_keyed_distinct(after);
        lemma_keyed_keys(entries);
        lemma_keyed_keys(after);
        let wanted = keyed(entries).insert(bank.code, bank);
        assert forall|code: Seq<char>| keyed(after).contains_key(code) <==> wanted.contains_key(
            code,
        ) by {
            if keyed(after).contains_key(code) {
                let i = choose|i: int| 0 <= i < after.len() && (#[trigger] after[i]).code == code;
                assert(entries[i].code == code);
            }
            if wanted.contains_key(code) && code != bank.code {
                let i = choose|i: int| 0 <= i < entries.len() && (#[trigger] entries[i]).code
                    == code;
                assert(after[i].code == code);
            }
            if code == bank.code {
                assert(after[at].code == code);
            }
        }
        assert forall|code: Seq<char>| keyed(after).contains_key(code) implies keyed(after)[code]
            == wanted[code] by {
            let i = choose|i: int| 0 <= i < after.len() && (#[trigger] after[i]).code == code;
            assert(keyed(after)[after[i].code] == after[i]);
            if i != at {
                assert(entries[i].code == code);
                assert(keyed(entries)[entries[i].code] == entries[i]);
                assert(entries[i].code != entries[at].code);
            }
        }
    } else {
        assert forall|i: int, j: int| 0 <= i < j < after.len() implies (#[trigger] after[i]).code
            != (#[trigger] after[j]).code by {
            if j < entries.len() {
                assert(entries[i].code != entries[j].code);
            } else {
                assert(entries[i].code != bank.code);
            }
        }
        assert(after.drop_last() =~= entries);
    }
}

/// The entries that a list merges into have distinct codes and stand for the
/// same mapping as the list.
pub proof fn lemma_merged(banks: Seq<BankView>)
    ensures
        distinct_codes(merged(banks)),
        keyed(merged(banks)) == keyed(banks),
    decreases banks.len(),
{
    if banks.len() > 0 {
        lemma_merged(banks.drop_last());
        lemma_put(merged(banks.drop_last()), banks.last());
    }
}

/// A list whose banks have distinct codes merges into itself.
pub proof fn lemma_merged_distinct(banks: Seq<BankView>)
    requires
        distinct_codes(banks),
    ensures
        merged(banks) == banks,
    decreases banks.len(),
{
    if banks.len() > 0 {
        let front = banks.drop_last();
        let last = banks.last();
        assert(distinct_codes(front)) by {
            assert forall|i: int, j: int| 0 <= i < j < front.len() implies (#[trigger] front[i]).code
                != (#[trigger] front[j]).code by {
                assert(banks[i].code != banks[j].code);
            }
        }
        lemma_merged_distinct(front);
        assert(!has_code(front, last.code)) by {
            if has_code(front, last.code) {
                let i = choose|i: int| 0 <= i < front.len() && (#[trigger] front[i]).code
                    == last.code;
                assert(banks[i].code != banks[banks.len() - 1].code);
            }
        }
        assert(front.push(last) =~= banks);
    }
}

} // verus!
