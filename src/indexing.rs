use vstd::prelude::*;

use crate::store::{built_rows, DictionaryEntry, IndexStore, RecordView};

verus! {

/// What the indexer does with one dictionary.
#[derive(Debug, Clone, Copy, PartialEq, Eq, Structural)]
pub enum IndexAction {
    /// The store exists and is kept as it is.
    Keep,
    /// No store exists: build one.
    Build,
    /// The store exists and a rebuild was asked for: drop it, then build.
    Rebuild,
}

pub open spec fn plan_spec(store_exists: bool, reindex: bool) -> IndexAction {
    if !store_exists {
        IndexAction::Build
    } else if reindex {
        IndexAction::Rebuild
    } else {
        IndexAction::Keep
    }
}

/// The rows of a dictionary's store after an indexing pass.
pub open spec fn indexed(
    existing: Option<Seq<RecordView>>,
    es: Seq<DictionaryEntry>,
    reindex: bool,
) -> Seq<RecordView> {
    match existing {
        Some(rows) => if reindex {
            built_rows(es)
        } else {
            rows
        },
        None => built_rows(es),
    }
}

/// Decides what to do with one dictionary.
pub fn plan_index(store_exists: bool, reindex: bool) -> (r: IndexAction)
    ensures
        r == plan_spec(store_exists, reindex),
{
    if !store_exists {
        IndexAction::Build
    } else if reindex {
        IndexAction::Rebuild
    } else {
        IndexAction::Keep
    }
}

/// One indexing pass over one dictionary: an existing store is kept unless
/// a rebuild is asked for; otherwise the store is built afresh from `entries`.
pub fn index_pass(existing: Option<IndexStore>, entries: &Vec<DictionaryEntry>, reindex: bool) -> (r:
    IndexStore)
    requires
        entries@.len() < i64::MAX,
        existing matches Some(s) ==> s.wf(),
    ensures
        r.wf(),
        r@ == indexed(
            match existing {
                Some(s) => Some(s@),
                None => None,
            },
            entries@,
            reindex,
        ),
{
    match existing {
        Some(s) => {
            match plan_index(true, reindex) {
                IndexAction::Keep => s,
                _ => IndexStore::build(entries),
            }
        },
        None => IndexStore::build(entries),
    }
}

/// Whether the number of entries read matches the number of rows committed.
pub fn counts_agree(parsed: usize, committed: i64) -> (r: bool)
    ensures
        r == (parsed as int == committed as int),
{
    committed >= 0 && parsed as u64 == committed as u64
}

/// Indexing again without a rebuild leaves a built store's rows, and so their
/// ids, exactly as they were.
pub proof fn lemma_keep_is_idempotent(rows: Seq<RecordView>, es: Seq<DictionaryEntry>)
    ensures
        indexed(Some(rows), es, false) == rows,
        indexed(Some(indexed(Some(rows), es, false)), es, false) == rows,
{
}

/// A rebuild commits exactly one row per entry read, with ids 1, 2, ... in
/// the order read.
pub proof fn lemma_rebuild_counts_entries(existing: Option<Seq<RecordView>>, es: Seq<DictionaryEntry>)
    ensures
        indexed(existing, es, true).len() == es.len(),
        forall|i: int|
            0 <= i < es.len() ==> #[trigger] indexed(existing, es, true)[i] == (
                i + 1,
                es[i].text@,
                es[i].definition@,
            ),
{
}

} // verus!
