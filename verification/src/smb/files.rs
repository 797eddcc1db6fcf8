//! The open-file table.

use std::collections::HashMap;
use vstd::prelude::*;
use crate::error::{Error, ErrorView};
use crate::text;

verus! {

broadcast use vstd::std_specs::hash::group_hash_axioms;

/// The open-file table.
///
/// Maps the opaque ids callers hold onto the client library's handles, all of
/// which stay on the thread that owns the session.
pub struct OpenFiles<H> {
    handles: HashMap<u64, H>,
    next_id: u64,
}

impl<H> View for OpenFiles<H> {
    type V = Map<u64, H>;

    /// The handle behind each id.
    closed spec fn view(&self) -> Map<u64, H> {
        self.handles@
    }
}

impl<H> OpenFiles<H> {
    /// The last id that was handed out; zero before the first.
    pub closed spec fn last_id(&self) -> u64 {
        self.next_id
    }

    /// No id is in use that was not handed out.
    #[verifier::type_invariant]
    closed spec fn inv(self) -> bool {
        &&& self.handles@.dom().finite()
        &&& forall|id: u64| #[trigger] self.handles@.contains_key(id) ==> 1 <= id <= self.next_id
    }

}

impl<H: Copy> OpenFiles<H> {
    pub fn new() -> (r: Self)
        ensures
            r@ == Map::<u64, H>::empty(),
            r.last_id() == 0,
    {
        OpenFiles { handles: HashMap::new(), next_id: 0 }
    }

    /// Whether there is an id left to hand out.
    pub fn has_room(&self) -> (r: bool)
        ensures
            r == (self.last_id() < u64::MAX),
    {
        self.next_id < u64::MAX
    }

    /// Take a handle in, under an id that was never used before.
    pub fn insert(&mut self, handle: H) -> (id: u64)
        requires
            old(self).last_id() < u64::MAX,
        ensures
            id == old(self).last_id() + 1,
            final(self).last_id() == id,
            !old(self)@.contains_key(id),
            final(self)@ == old(self)@.insert(id, handle),
    {
        proof {
            use_type_invariant(&*self);
        }
        let mut handles: HashMap<u64, H> = HashMap::new();
        std::mem::swap(&mut self.handles, &mut handles);
        self.next_id = self.next_id + 1;
        let id: u64 = self.next_id;
        let _ = handles.insert(id, handle);
        self.handles = handles;
        id
    }

    pub fn get(&self, id: u64) -> (r: Option<H>)
        ensures
            r == if self@.contains_key(id) {
                Some(self@[id])
            } else {
                None
            },
    {
        match self.handles.get(&id) {
            Some(h) => Some(*h),
            None => None,
        }
    }

    /// Take a handle out. Its id is never handed out again.
    pub fn take(&mut self, id: u64) -> (r: Option<H>)
        ensures
            final(self)@ == old(self)@.remove(id),
            final(self).last_id() == old(self).last_id(),
            r == if old(self)@.contains_key(id) {
                Some(old(self)@[id])
            } else {
                None
            },
    {
        proof {
            use_type_invariant(&*self);
        }
        let mut handles: HashMap<u64, H> = HashMap::new();
        std::mem::swap(&mut self.handles, &mut handles);
        let r = handles.remove(&id);
        assert(handles@ =~= old(self)@.remove(id));
        self.handles = handles;
        r
    }

    /// Take everything out that is still open, each handle once.
    ///
    /// Closing what this returns tells the server to release its own state
    /// immediately rather than at session teardown.
    pub fn close_all(&mut self) -> (r: Vec<(u64, H)>)
        ensures
            final(self)@ == Map::<u64, H>::empty(),
            final(self).last_id() == old(self).last_id(),
            r@.len() == old(self)@.len(),
            forall|i: int, j: int| 0 <= i < j < r@.len() ==> (#[trigger] r@[i]).0 != (#[trigger] r@[j]).0,
            forall|i: int|
                0 <= i < r@.len() ==> old(self)@.contains_key((#[trigger] r@[i]).0) && r@[i].1
                    == old(self)@[r@[i].0],
            forall|id: u64|
                old(self)@.contains_key(id) ==> exists|i: int|
                    0 <= i < r@.len() && (#[trigger] r@[i]).0 == id,
    {
        proof {
            use_type_invariant(&*self);
        }
        let mut out: Vec<(u64, H)> = Vec::new();
        let mut handles: HashMap<u64, H> = HashMap::new();
        std::mem::swap(&mut self.handles, &mut handles);
        let ghost all = handles@;
        for id in it: handles.keys()
            invariant
                handles@ == all,
                it.seq().unref().to_set() == all.dom(),
                it.seq().no_duplicates(),
                it.seq().len() == all.dom().len(),
                out@.len() == it.index(),
                forall|i: int, j: int|
                    0 <= i < j < out@.len() ==> (#[trigger] out@[i]).0 != (#[trigger] out@[j]).0,
                forall|k: int|
                    0 <= k < out@.len() ==> (#[trigger] out@[k]).0 == *it.seq()[k] && out@[k].1
                        == all[out@[k].0] && all.contains_key(out@[k].0),
        {
            proof {
                assert(it.seq().unref()[it.index()] == *id);
                assert(it.seq().unref().to_set().contains(*id));
            }
            if let Some(h) = handles.get(id) {
                out.push((*id, *h));
            }
        }
        proof {
            let ids = out@.map_values(|e: (u64, H)| e.0);
            assert(ids.no_duplicates());
            ids.unique_seq_to_set();
            vstd::set_lib::lemma_subset_equality(ids.to_set(), all.dom());
            assert forall|id: u64| old(self)@.contains_key(id) implies exists|i: int|
                0 <= i < out@.len() && (#[trigger] out@[i]).0 == id by {
                assert(ids.to_set().contains(id));
                let i = ids.index_of(id);
                assert(out@[i].0 == id);
            }
        }
        out
    }
}

/// The error for an id behind which nothing is open.
pub open spec fn not_open(operation: Seq<char>) -> ErrorView {
    ErrorView::Backend {
        message: "operation on "@ + operation + " used a file handle that is not open"@,
    }
}

/// Look up a handle, mapping a stale id to a clear error rather than a crash.
pub fn handle_of<H: Copy>(files: &OpenFiles<H>, id: u64, path: &str) -> (r: Result<H, Error>)
    ensures
        if files@.contains_key(id) {
            r == Ok::<H, Error>(files@[id])
        } else {
            r matches Err(e) && e@ == not_open(path@)
        },
{
    match files.get(id) {
        Some(h) => Ok(h),
        None => {
            let mut message = text::joined("operation on ", path);
            message.append(" used a file handle that is not open");
            Err(Error::Backend { message })
        },
    }
}

/// Taking a handle out leaves every other one where it was, and a second time
/// finds nothing.
pub proof fn taking_disturbs_no_other<H>(files: Map<u64, H>, id: u64, other: u64)
    requires
        other != id,
    ensures
        !files.remove(id).contains_key(id),
        files.remove(id).contains_key(other) == files.contains_key(other),
        files.contains_key(other) ==> files.remove(id)[other] == files[other],
{
}

/// A table gives back what was put in, under an id of its own, until it is taken
/// out; a stale id is an error that says what it was used for.
pub proof fn a_table_gives_back_what_was_put_in<H: Copy>(
    files: &mut OpenFiles<H>,
    handle: H,
    id: u64,
    other: &mut OpenFiles<H>,
    at: u64,
    taken: Option<H>,
    operation: &str,
    found: Result<H, Error>,
)
    requires
        old(files).last_id() < u64::MAX,
        call_ensures(OpenFiles::<H>::insert, (files, handle), id),
        call_ensures(OpenFiles::<H>::take, (other, at), taken),
        call_ensures(handle_of::<H>, (old(other), at, operation), found),
    ensures
        id == old(files).last_id() + 1,
        final(files)@.contains_key(id) && final(files)@[id] == handle,
        forall|k: u64| k != id ==> final(files)@.contains_key(k) == old(files)@.contains_key(k),
        taken is Some <==> old(other)@.contains_key(at),
        taken is Some ==> taken->0 == old(other)@[at],
        !final(other)@.contains_key(at),
        found is Ok <==> taken is Some,
        found is Ok ==> found->Ok_0 == taken->0,
        found matches Err(e) ==> e@ == (ErrorView::Backend {
            message: "operation on "@ + operation@ + " used a file handle that is not open"@,
        }),
{
}

} // verus!
