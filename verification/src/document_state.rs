//! Which cookie and Web Storage requests of the renderer the browser applies:
//! only those of the document the tab owns, in batches that never mix documents.
use crate::navigation_transaction::NavigationTransaction;
use crate::text::{decimal, push_decimal, push_str, string_of};
use vstd::prelude::*;

verus! {

/// What becomes of a batch of storage writes.
#[derive(Debug)]
pub enum StorageBatch {
    /// Nothing to do: empty, or for a document that is no longer shown.
    Ignore,
    /// Apply the writes through the document's storage subscription.
    Apply,
    /// The batch is malformed.
    Reject(String),
}

pub open spec fn all_for(documents: Seq<u64>, document: u64) -> bool {
    forall|i: int| 0 <= i < documents.len() ==> documents[i] == document
}

/// Decides on a batch whose writes name `documents`, with the tab's
/// navigation and the document its storage subscription belongs to.
pub fn storage_batch(navigation: &NavigationTransaction, subscription: Option<u64>, documents: &Vec<u64>) -> (r: StorageBatch)
    ensures
        documents.len() == 0 || navigation.document != Some(documents@[0]) ==> r is Ignore,
        documents.len() > 0 && navigation.document == Some(documents@[0]) ==> match subscription {
            None => r matches StorageBatch::Reject(e) && e@ == "active document has no Web Storage subscription"@,
            Some(d) => if d != documents@[0] {
                r is Ignore
            } else if !all_for(documents@, d) {
                r matches StorageBatch::Reject(e) && e@ == "storage batch crosses document identity"@
            } else {
                r is Apply
            },
        },
{
    if documents.len() == 0 {
        return StorageBatch::Ignore;
    }
    let first = documents[0];
    if !navigation.owns_document(first) {
        return StorageBatch::Ignore;
    }
    let document = match subscription {
        None => {
            let mut v: Vec<char> = Vec::new();
            push_str(&mut v, "active document has no Web Storage subscription");
            assert(v@ =~= "active document has no Web Storage subscription"@);
            return StorageBatch::Reject(string_of(v.as_slice()));
        },
        Some(d) => d,
    };
    if document != first {
        return StorageBatch::Ignore;
    }
    let mut i: usize = 0;
    while i < documents.len()
        invariant
            i <= documents.len(),
            documents.len() > 0,
            documents@[0] == document,
            navigation.document == Some(document),
            subscription == Some(document),
            forall|j: int| 0 <= j < i ==> documents@[j] == document,
        decreases documents.len() - i,
    {
        if documents[i] != document {
            let mut v: Vec<char> = Vec::new();
            push_str(&mut v, "storage batch crosses document identity");
            assert(v@ =~= "storage batch crosses document identity"@);
            return StorageBatch::Reject(string_of(v.as_slice()));
        }
        i = i + 1;
    }
    StorageBatch::Apply
}

/// "N ordered writes committed or acknowledged".
pub fn storage_commit_incident(writes: usize) -> (s: String)
    ensures
        s@ == decimal(writes as nat) + " ordered writes committed or acknowledged"@,
{
    let mut v: Vec<char> = Vec::new();
    push_decimal(&mut v, writes as u64);
    push_str(&mut v, " ordered writes committed or acknowledged");
    string_of(v.as_slice())
}

/// "authoritative state queued; pending=P, submitted=S, coalesced=C".
pub fn cookie_sync_incident(pending: u64, submitted: u64, coalesced: u64) -> (s: String)
    ensures
        s@ == "authoritative state queued; pending="@ + decimal(pending as nat) + ", submitted="@
            + decimal(submitted as nat) + ", coalesced="@ + decimal(coalesced as nat),
{
    let mut v: Vec<char> = Vec::new();
    push_str(&mut v, "authoritative state queued; pending=");
    assert(v@ =~= "authoritative state queued; pending="@);
    push_decimal(&mut v, pending);
    push_str(&mut v, ", submitted=");
    push_decimal(&mut v, submitted);
    push_str(&mut v, ", coalesced=");
    push_decimal(&mut v, coalesced);
    string_of(v.as_slice())
}

} // verus!
