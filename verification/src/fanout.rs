//! Gathering what the shards of one fan-out brought.
//!
//! A fan-out sends one request for each search key and waits for all of
//! them. A shard whose request failed brings nothing; the others bring the
//! records of their page. Gathering keeps the records of the shards that
//! came through, in the order in which the shards are handed in, and names
//! the keys of those that did not, so that a caller can see what is missing
//! and ask again.

use vstd::prelude::*;

verus! {

/// What one shard brought: the records of its page, or nothing where the
/// request for `key` failed.
#[derive(Debug)]
pub struct Shard<T> {
    pub key: char,
    pub records: Option<Vec<T>>,
}

/// What a fan-out brought as a whole.
#[derive(Debug)]
pub struct Harvest<T> {
    /// The records of the shards that came through, shard after shard.
    pub records: Vec<T>,
    /// The keys of the shards that failed.
    pub failed_keys: Vec<char>,
}

/// The records of the shards that came through, shard after shard.
pub open spec fn surviving<T>(shards: Seq<Shard<T>>) -> Seq<T>
    decreases shards.len(),
{
    if shards.len() == 0 {
        Seq::empty()
    } else {
        match shards.last().records {
            Some(records) => surviving(shards.drop_last()) + records@,
            None => surviving(shards.drop_last()),
        }
    }
}

/// The keys of the shards that failed, in the order of the shards.
pub open spec fn failed_keys<T>(shards: Seq<Shard<T>>) -> Seq<char>
    decreases shards.len(),
{
    if shards.len() == 0 {
        Seq::empty()
    } else {
        match shards.last().records {
            Some(_) => failed_keys(shards.drop_last()),
            None => failed_keys(shards.drop_last()).push(shards.last().key),
        }
    }
}

/// Each shard either came through or has its key among the failed ones: as
/// many keys are named as shards brought nothing.
pub proof fn failed_keys_are_the_empty_handed<T>(shards: Seq<Shard<T>>)
    ensures
        failed_keys(shards).len() == shards.filter(|shard: Shard<T>| shard.records is None).len(),
        failed_keys(shards).len() <= shards.len(),
    decreases shards.len(),
{
    reveal(Seq::filter);
    if shards.len() > 0 {
        failed_keys_are_the_empty_handed(shards.drop_last());
    }
}

/// Gathers the shards of a fan-out. A failed shard does not fail the batch:
/// its key is noted, and the records of the others are kept.
pub fn gather<T>(shards: Vec<Shard<T>>) -> (harvest: Harvest<T>)
    ensures
        harvest.records@ == surviving(shards@),
        harvest.failed_keys@ == failed_keys(shards@),
        harvest.failed_keys.len() <= shards.len(),
{
    let mut records: Vec<T> = Vec::new();
    let mut failed: Vec<char> = Vec::new();
    let ghost all = shards@;
    for shard in it: shards
        invariant
            it.seq() == all,
            records@ == surviving(all.take(it.index() as int)),
            failed@ == failed_keys(all.take(it.index() as int)),
    {
        proof {
            let upto = all.take(it.index() + 1);
            assert(upto.drop_last() =~= all.take(it.index() as int));
            assert(upto.last() == shard);
        }
        match shard.records {
            Some(mut found) => {
                records.append(&mut found);
            },
            None => {
                failed.push(shard.key);
            },
        }
    }
    proof {
        assert(all.take(all.len() as int) =~= all);
        failed_keys_are_the_empty_handed(all);
    }
    Harvest { records, failed_keys: failed }
}

} // verus!
