//! What is stored of the catalog.
//!
//! A bank in memory carries the token that a query for its branches needs. A
//! stored bank does not: the token is left behind when a bank is stored, and
//! nothing brings it back. The conversion goes one way only.

use crate::bank::{clone_branches, Bank, BankView, Branch, BranchView};
use crate::catalog::Catalog;
use vstd::prelude::*;

verus! {

/// A bank as it is stored: name, phonetic, code and branches.
#[derive(Debug, PartialEq, Eq)]
pub struct StoredBank {
    pub name: String,
    pub phonetic: String,
    pub code: String,
    pub branches: Vec<Branch>,
}

/// What a stored bank holds, as text.
pub struct StoredBankView {
    pub name: Seq<char>,
    pub phonetic: Seq<char>,
    pub code: Seq<char>,
    pub branches: Seq<BranchView>,
}

impl View for StoredBank {
    type V = StoredBankView;

    open spec fn view(&self) -> StoredBankView {
        StoredBankView {
            name: self.name@,
            phonetic: self.phonetic@,
            code: self.code@,
            branches: self.branches.deep_view(),
        }
    }
}

impl DeepView for StoredBank {
    type V = StoredBankView;

    open spec fn deep_view(&self) -> StoredBankView {
        self@
    }
}

/// What is stored of a bank: all but the token.
pub open spec fn stored_of(bank: BankView) -> StoredBankView {
    StoredBankView {
        name: bank.name,
        phonetic: bank.phonetic,
        code: bank.code,
        branches: bank.branches,
    }
}

/// Two banks that differ in nothing but the token are stored as the same.
pub proof fn token_is_not_stored(bank: BankView, token: Seq<char>)
    ensures
        stored_of(BankView { search_param: token, ..bank }) == stored_of(bank),
{
}

impl Bank {
    /// The bank as it is stored.
    pub fn to_stored(&self) -> (stored: StoredBank)
        ensures
            stored@ == stored_of(self@),
    {
        StoredBank {
            name: self.name.clone(),
            phonetic: self.phonetic.clone(),
            code: self.code.0.clone(),
            branches: clone_branches(&self.branches),
        }
    }
}

/// No two stored banks have the same code.
pub open spec fn distinct_stored_codes(stored: Seq<StoredBankView>) -> bool {
    forall|i: int, j: int|
        0 <= i < j < stored.len() ==> (#[trigger] stored[i]).code != (#[trigger] stored[j]).code
}

impl Catalog {
    /// The banks of the catalog as they are stored, in the order of
    /// `listing`. Each is stored under its code, and no two have the same.
    pub fn to_stored(&self) -> (stored: Vec<StoredBank>)
        ensures
            stored.deep_view() == self.listing().map_values(|bank: BankView| stored_of(bank)),
            distinct_stored_codes(stored.deep_view()),
    {
        let banks = self.banks();
        let mut stored: Vec<StoredBank> = Vec::new();
        let mut i: usize = 0;
        while i < banks.len()
            invariant
                i <= banks.len(),
                stored.len() == i,
                forall|k: int| 0 <= k < i ==> (#[trigger] stored[k])@ == stored_of(banks[k]@),
            decreases banks.len() - i,
        {
            stored.push(banks[i].to_stored());
            i += 1;
        }
        assert(stored.deep_view() =~= banks.deep_view().map_values(
            |bank: BankView| stored_of(bank),
        ));
        assert forall|i: int, j: int| 0 <= i < j < stored.deep_view().len() implies (
        #[trigger] stored.deep_view()[i]).code != (#[trigger] stored.deep_view()[j]).code by {
            assert(banks.deep_view()[i].code != banks.deep_view()[j].code);
        }
        stored
    }
}

} // verus!
