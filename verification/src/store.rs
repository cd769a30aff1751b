//! Keyed collections: records in the order in which they were added, found
//! by the text of their key.
use vstd::prelude::*;
use crate::types::{
    views, ChallengeView, EvaluationView, IntentView, SolverView, StakeView, UserView,
};

verus! {

/// A record that is found by a key.
pub trait Keyed {
    /// The record's key.
    spec fn key(self) -> Seq<char>;
}

impl Keyed for IntentView {
    open spec fn key(self) -> Seq<char> {
        self.intent_id
    }
}

impl Keyed for EvaluationView {
    open spec fn key(self) -> Seq<char> {
        self.evaluation_id
    }
}

impl Keyed for ChallengeView {
    open spec fn key(self) -> Seq<char> {
        self.challenge_id
    }
}

impl Keyed for SolverView {
    open spec fn key(self) -> Seq<char> {
        self.solver_id
    }
}

impl Keyed for StakeView {
    open spec fn key(self) -> Seq<char> {
        self.account
    }
}

impl Keyed for UserView {
    open spec fn key(self) -> Seq<char> {
        self.account_id
    }
}

/// Whether a record with this key is in the collection.
pub open spec fn has_key<T: Keyed>(records: Seq<T>, key: Seq<char>) -> bool {
    exists|i: int| 0 <= i < records.len() && (#[trigger] records[i]).key() == key
}

/// A position at which the key is found.
pub open spec fn position<T: Keyed>(records: Seq<T>, key: Seq<char>) -> int {
    choose|i: int| 0 <= i < records.len() && (#[trigger] records[i]).key() == key
}

/// The record with this key, if there is one.
pub open spec fn lookup<T: Keyed>(records: Seq<T>, key: Seq<char>) -> Option<T> {
    if has_key(records, key) {
        Some(records[position(records, key)])
    } else {
        None
    }
}

/// No two records share a key.
pub open spec fn distinct_keys<T: Keyed>(records: Seq<T>) -> bool {
    forall|i: int, j: int|
        0 <= i < j < records.len() ==> (#[trigger] records[i]).key() != (
        #[trigger] records[j]).key()
}

/// Where keys are distinct, a record is what its key finds.
pub proof fn lemma_lookup_at<T: Keyed>(records: Seq<T>, i: int)
    requires
        distinct_keys(records),
        0 <= i < records.len(),
    ensures
        has_key(records, records[i].key()),
        position(records, records[i].key()) == i,
        lookup(records, records[i].key()) == Some(records[i]),
{
}

/// The collection with the record under `key` replaced by `record`.
pub open spec fn replace<T: Keyed>(records: Seq<T>, key: Seq<char>, record: T) -> Seq<T> {
    Seq::new(
        records.len(),
        |i: int|
            if records[i].key() == key {
                record
            } else {
                records[i]
            },
    )
}

/// Where keys are distinct, replacing by key changes one position.
pub proof fn lemma_replace_at<T: Keyed>(records: Seq<T>, i: int, record: T)
    requires
        distinct_keys(records),
        0 <= i < records.len(),
    ensures
        replace(records, records[i].key(), record) == records.update(i, record),
{
}

/// When one record of a list was changed in place and kept its key, the
/// views of the list are those of before with that key's record replaced.
pub proof fn lemma_changed_in_place<T: View>(before: Seq<T>, after: Seq<T>, i: int) where
    T::V: Keyed,

    requires
        0 <= i < before.len(),
        after.len() == before.len(),
        forall|j: int| 0 <= j < before.len() && j != i ==> after[j] == before[j],
        distinct_keys(views(before)),
        after[i]@.key() == before[i]@.key(),
    ensures
        views(after) == replace(views(before), before[i]@.key(), after[i]@),
        lookup(views(before), before[i]@.key()) == Some(before[i]@),
{
    lemma_lookup_at(views(before), i);
}

} // verus!
