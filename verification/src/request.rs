//! The forms of the two requests that the service answers.
//!
//! Both are sent as form fields of a POST request. Sending them is not the
//! library's part: it says what is sent.

use crate::bank::Bank;
use vstd::prelude::*;
use vstd::string::StringExecFns;

verus! {

/// The field that holds the search key in a query for banks.
pub const BANK_KEY_FIELD: &'static str = "gm";

/// The field that holds the search key in a query for branches.
pub const BRANCH_KEY_FIELD: &'static str = "sm";

/// The field that holds the bank's token in a query for branches.
pub const TOKEN_FIELD: &'static str = "pz";

/// `char::to_string` of the standard library: the string of that one
/// character.
#[verifier::external_body]
fn key_text(key: char) -> (text: String)
    ensures
        text@ == seq![key],
{
    key.to_string()
}

/// The form that asks for the banks under one search key: the key, in one
/// field.
pub fn banks_form(key: char) -> (form: Vec<(String, String)>)
    ensures
        form.deep_view() == seq![(BANK_KEY_FIELD@, seq![key])],
{
    let mut form: Vec<(String, String)> = Vec::new();
    form.push((String::from_str(BANK_KEY_FIELD), key_text(key)));
    assert(form.deep_view() =~= seq![(BANK_KEY_FIELD@, seq![key])]);
    form
}

/// The form that asks for the branches of a bank under one search key: the
/// key, and the token that came with the bank, sent back as it came.
pub fn branches_form(bank: &Bank, key: char) -> (form: Vec<(String, String)>)
    ensures
        form.deep_view() == seq![
            (BRANCH_KEY_FIELD@, seq![key]),
            (TOKEN_FIELD@, bank.search_param@),
        ],
{
    let mut form: Vec<(String, String)> = Vec::new();
    form.push((String::from_str(BRANCH_KEY_FIELD), key_text(key)));
    form.push((String::from_str(TOKEN_FIELD), bank.search_param.clone()));
    assert(form.deep_view() =~= seq![
        (BRANCH_KEY_FIELD@, seq![key]),
        (TOKEN_FIELD@, bank.search_param@),
    ]);
    form
}

} // verus!
