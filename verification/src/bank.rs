//! The records of the catalog: a bank, its code, and its branches.

use vstd::prelude::*;
use vstd::string::StringExecFns;

verus! {

/// The extension of the file that holds one bank.
pub const FILE_EXTENSION: &'static str = ".json";

/// A branch office of a bank. It has no identity beyond the bank that owns
/// it: two banks may each have a branch with the same code.
#[derive(Debug, PartialEq, Eq)]
pub struct Branch {
    pub name: String,
    pub phonetic: String,
    pub code: String,
}

/// What a branch holds, as text.
pub struct BranchView {
    pub name: Seq<char>,
    pub phonetic: Seq<char>,
    pub code: Seq<char>,
}

impl View for Branch {
    type V = BranchView;

    open spec fn view(&self) -> BranchView {
        BranchView { name: self.name@, phonetic: self.phonetic@, code: self.code@ }
    }
}

impl DeepView for Branch {
    type V = BranchView;

    open spec fn deep_view(&self) -> BranchView {
        self@
    }
}

impl Clone for Branch {
    fn clone(&self) -> (copy: Self)
        ensures
            copy@ == self@,
    {
        Branch {
            name: self.name.clone(),
            phonetic: self.phonetic.clone(),
            code: self.code.clone(),
        }
    }
}

impl Branch {
    /// A branch of the given name, phonetic and code.
    pub fn new(name: String, phonetic: String, code: String) -> (branch: Self)
        ensures
            branch@ == (BranchView { name: name@, phonetic: phonetic@, code: code@ }),
    {
        Self { name, phonetic, code }
    }
}

/// The code of a bank: the key under which the catalog holds it.
#[derive(Debug, PartialEq, Eq, Hash)]
pub struct BankCode(pub String);

impl View for BankCode {
    type V = Seq<char>;

    open spec fn view(&self) -> Seq<char> {
        self.0@
    }
}

impl DeepView for BankCode {
    type V = Seq<char>;

    open spec fn deep_view(&self) -> Seq<char> {
        self@
    }
}

impl Clone for BankCode {
    fn clone(&self) -> (copy: Self)
        ensures
            copy@ == self@,
    {
        BankCode(self.0.clone())
    }
}

impl BankCode {
    /// Whether two codes are the same text.
    pub fn same(&self, other: &BankCode) -> (same: bool)
        ensures
            same == (self@ == other@),
    {
        self.0 == other.0
    }
}

/// A bank as it is held in memory. `search_param` is the token that the
/// service handed out with the bank and that a query for its branches sends
/// back; it means nothing else, and is not part of what is stored.
#[derive(Debug, PartialEq, Eq)]
pub struct Bank {
    pub name: String,
    pub phonetic: String,
    pub code: BankCode,
    pub search_param: String,
    pub branches: Vec<Branch>,
}

/// What a bank holds, as text.
pub struct BankView {
    pub name: Seq<char>,
    pub phonetic: Seq<char>,
    pub code: Seq<char>,
    pub search_param: Seq<char>,
    pub branches: Seq<BranchView>,
}

impl View for Bank {
    type V = BankView;

    open spec fn view(&self) -> BankView {
        BankView {
            name: self.name@,
            phonetic: self.phonetic@,
            code: self.code@,
            search_param: self.search_param@,
            branches: self.branches.deep_view(),
        }
    }
}

impl DeepView for Bank {
    type V = BankView;

    open spec fn deep_view(&self) -> BankView {
        self@
    }
}

/// A copy of a list of branches.
pub(crate) fn clone_branches(branches: &Vec<Branch>) -> (copy: Vec<Branch>)
    ensures
        copy.deep_view() == branches.deep_view(),
{
    let mut copy: Vec<Branch> = Vec::new();
    let mut i: usize = 0;
    while i < branches.len()
        invariant
            i <= branches.len(),
            copy.len() == i,
            forall|k: int| 0 <= k < i ==> copy[k]@ == branches[k]@,
        decreases branches.len() - i,
    {
        copy.push(branches[i].clone());
        i += 1;
    }
    assert(copy.deep_view() =~= branches.deep_view());
    copy
}

impl Clone for Bank {
    fn clone(&self) -> (copy: Self)
        ensures
            copy@ == self@,
    {
        Bank {
            name: self.name.clone(),
            phonetic: self.phonetic.clone(),
            code: self.code.clone(),
            search_param: self.search_param.clone(),
            branches: clone_branches(&self.branches),
        }
    }
}

impl Bank {
    /// A bank without branches: they are fetched once the bank is known.
    pub fn new(name: String, phonetic: String, code: String, search_param: String) -> (bank: Self)
        ensures
            bank@ == (BankView {
                name: name@,
                phonetic: phonetic@,
                code: code@,
                search_param: search_param@,
                branches: Seq::empty(),
            }),
    {
        let bank = Self { name, phonetic, code: BankCode(code), search_param, branches: Vec::new() };
        assert(bank.branches.deep_view() =~= Seq::<BranchView>::empty());
        bank
    }

    /// The name of the file that holds this bank: its code, then the
    /// extension.
    pub fn filepath(&self) -> (path: String)
        ensures
            path@ == self.code@ + FILE_EXTENSION@,
    {
        let mut path = self.code.0.clone();
        path.append(FILE_EXTENSION);
        path
    }

    /// Adds one branch behind those that the bank has.
    pub fn append_branch(&mut self, branch: Branch)
        ensures
            final(self)@ == (BankView {
                branches: old(self)@.branches.push(branch@),
                ..old(self)@
            }),
    {
        self.branches.push(branch);
        assert(self.branches.deep_view() =~= old(self).branches.deep_view().push(branch@));
    }

    /// Replaces the bank's branches by the given list, whole: nothing of the
    /// earlier list is kept. An empty list leaves the bank with an empty list.
    pub fn attach_branches(&mut self, branches: Vec<Branch>)
        ensures
            final(self)@ == (BankView { branches: branches.deep_view(), ..old(self)@ }),
    {
        self.branches = branches;
    }
}

} // verus!
