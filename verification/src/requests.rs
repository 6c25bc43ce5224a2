//! Requests sent to the front end that await an answer: each is kept under
//! its id with whatever hands the answer on, until the answer comes.

use vstd::prelude::*;

use crate::kv::KvStore;
use crate::text::owned;

verus! {

/// Requests awaiting an answer, by id.
pub struct PendingRequests<T> {
    by_id: KvStore<T>,
}

impl<T> View for PendingRequests<T> {
    type V = Map<Seq<char>, T>;

    closed spec fn view(&self) -> Map<Seq<char>, T> {
        self.by_id@
    }
}

/// The message when an answer comes for no pending request:
/// `No responder found for id <id>`.
pub open spec fn no_responder_text(id: Seq<char>) -> Seq<char> {
    "No responder found for id "@ + id
}

impl<T> PendingRequests<T> {
    /// Nothing pending.
    pub fn new() -> (r: PendingRequests<T>)
        ensures
            r@ == Map::<Seq<char>, T>::empty(),
    {
        PendingRequests { by_id: KvStore::new() }
    }

    /// Keeps `responder` for the request `id` (replacing any kept under it).
    pub fn register(&mut self, id: String, responder: T)
        ensures
            final(self)@ == old(self)@.insert(id@, responder),
    {
        self.by_id.set(id, responder);
    }

    /// The responder of the request that an answer is for, which is no
    /// longer pending; an error when no request with that id is pending.
    pub fn answer(&mut self, id: &str) -> (r: Result<T, String>)
        ensures
            final(self)@ == old(self)@.remove(id@),
            match r {
                Ok(t) => old(self)@.contains_key(id@) && t == old(self)@[id@],
                Err(m) => !old(self)@.contains_key(id@) && m@ == no_responder_text(id@),
            },
    {
        match self.by_id.take(id) {
            Some(t) => Ok(t),
            None => {
                let mut m = owned("No responder found for id ");
                m.append(id);
                Err(m)
            },
        }
    }

    /// The number of pending requests.
    pub fn len(&self) -> (n: usize)
        ensures
            n == self@.len(),
    {
        self.by_id.len()
    }
}

/// An answer goes to the request registered under its id, and a request is
/// answered at most once: after `register(id, t)`, `answer(id)` gives `t`,
/// and a second `answer(id)` finds nothing pending.
pub proof fn law_answered_once<T>(pending: Map<Seq<char>, T>, id: Seq<char>, t: T)
    ensures
        pending.insert(id, t).contains_key(id),
        pending.insert(id, t)[id] == t,
        !pending.insert(id, t).remove(id).contains_key(id),
{
}

} // verus!
