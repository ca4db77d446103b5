use vstd::prelude::*;

use crate::query::{query, resolve, Dictionary};

verus! {

/// A submitted query: the headword and its language.
#[derive(Debug, Clone)]
pub struct QueryForm {
    pub word: String,
    pub lang: String,
}

/// The plain-text answer to a submitted query.
pub fn handle_query(ds: &Vec<Dictionary>, form: QueryForm) -> (r: String)
    ensures
        r@ == resolve(ds@, form.word@, Some(form.lang@)),
{
    query(ds, form.word, Some(form.lang))
}

} // verus!
