//! The search keys: the fixed alphabet by which the catalog of the service is
//! cut into shards.

use vstd::prelude::*;

verus! {

/// The alphabet, row by row of the syllabary.
pub const SEARCH_KEYS: &'static str =
    "あいうえおかきくけこさしすせそたちつてとなにぬねのはひふへほまみむめもやゆよらりるれろわ";

/// The number of search keys.
pub const SEARCH_KEY_COUNT: usize = 44;

/// All search keys, in the order of the alphabet. Each call gives the same
/// keys again, so a sequence of requests can be started anew at any time; a
/// caller that wants fewer shards hands on a part of them.
pub fn all_search_keys() -> (keys: Vec<char>)
    ensures
        keys@ == SEARCH_KEYS@,
        keys.len() == SEARCH_KEY_COUNT,
        keys@.no_duplicates(),
{
    let mut keys: Vec<char> = Vec::new();
    for key in it: SEARCH_KEYS.chars()
        invariant
            it.seq() == SEARCH_KEYS@,
            keys@ == it.seq().take(it.index() as int),
    {
        keys.push(key);
        assert(keys@ =~= it.seq().take(it.index() + 1));
    }
    proof {
        assert(keys@ =~= SEARCH_KEYS@);
        reveal_strlit(
            "あいうえおかきくけこさしすせそたちつてとなにぬねのはひふへほまみむめもやゆよらりるれろわ",
        );
    }
    keys
}

} // verus!
