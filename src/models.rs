//! The model listing: of each record the daemon returns, only the name is kept.
use vstd::prelude::*;
use crate::error::{FailKind, OperationError, LIST_PREFIX};

verus! {

/// A model record as the daemon reports it.
pub struct ModelRecord {
    pub name: String,
    pub modified_at: String,
    pub size: u64,
}

/// `names` holds the name of each record, in the daemon's order, and nothing else.
pub open spec fn names_of(names: Seq<String>, records: Seq<ModelRecord>) -> bool {
    &&& names.len() == records.len()
    &&& forall|j: int| 0 <= j < records.len() ==> #[trigger] names[j]@ == records[j].name@
}

/// Keeps the name of each record and discards the other metadata.
pub fn model_names(records: &Vec<ModelRecord>) -> (names: Vec<String>)
    ensures
        names_of(names@, records@),
{
    let mut names: Vec<String> = Vec::new();
    let mut i: usize = 0;
    while i < records.len()
        invariant
            i <= records@.len(),
            names_of(names@, records@.take(i as int)),
        decreases records@.len() - i,
    {
        names.push(records[i].name.clone());
        i = i + 1;
        assert(names@[i - 1]@ == records@.take(i as int)[i - 1].name@);
    }
    assert(records@.take(i as int) =~= records@);
    names
}

/// The outcome of a listing call: the names on success; on a failed
/// daemon call, a connection error whose detail says that listing failed.
pub fn list_outcome(answer: Result<Vec<ModelRecord>, String>) -> (r: Result<Vec<String>, OperationError>)
    ensures
        answer is Ok <==> r is Ok,
        answer is Ok ==> names_of(r->Ok_0@, answer->Ok_0@),
        answer is Err ==> r->Err_0.kind == FailKind::Connection
            && r->Err_0.detail@ == LIST_PREFIX@ + answer->Err_0@,
{
    match answer {
        Ok(records) => Ok(model_names(&records)),
        Err(e) => {
            let s = String::from_str(LIST_PREFIX);
            Err(OperationError::new(FailKind::Connection, s.concat(e.as_str())))
        },
    }
}

} // verus!
