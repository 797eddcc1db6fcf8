//! What a backend can actually do.

use vstd::prelude::*;

verus! {

/// What a backend can actually do.
///
/// Protocols are not interchangeable, and pretending otherwise pushes the
/// discovery to runtime: a caller finds out that positioned writes are
/// impossible only when an upload fails halfway. Declaring capabilities up
/// front lets a caller choose a different strategy instead.
///
/// A capability being `false` does not mean the operation is impossible: it
/// means it is not cheap or not native. Backends must not claim a capability
/// they cannot honour.
#[derive(Clone, Copy, PartialEq, Eq, Debug, Structural)]
pub struct Capabilities {
    /// Positioned reads are native and cheap. `false` means the backend can
    /// only read sequentially, and positioned reads are emulated at a cost.
    pub random_read: bool,
    /// Positioned writes are native. `false` for protocols where writing at an
    /// offset means rewriting the file.
    pub random_write: bool,
    /// Renaming is atomic on the server.
    pub atomic_rename: bool,
    /// A file's length can be set.
    pub set_len: bool,
    /// Flushing asks the server to make writes durable rather than merely
    /// pushing them out of a local buffer.
    pub durable_flush: bool,
    /// The backend reports modification times.
    pub modification_times: bool,
}

impl Capabilities {
    /// Everything supported, for backends where that is true: a local
    /// filesystem, and SMB.
    #[verifier::allow_in_spec]
    pub fn full() -> (r: Capabilities)
        returns
            (Capabilities {
                random_read: true,
                random_write: true,
                atomic_rename: true,
                set_len: true,
                durable_flush: true,
                modification_times: true,
            }),
    {
        Capabilities {
            random_read: true,
            random_write: true,
            atomic_rename: true,
            set_len: true,
            durable_flush: true,
            modification_times: true,
        }
    }

    /// A conservative baseline for a backend that has not declared anything.
    #[verifier::allow_in_spec]
    pub fn minimal() -> (r: Capabilities)
        returns
            (Capabilities {
                random_read: true,
                random_write: true,
                atomic_rename: false,
                set_len: true,
                durable_flush: false,
                modification_times: false,
            }),
    {
        Capabilities {
            random_read: true,
            random_write: true,
            atomic_rename: false,
            set_len: true,
            durable_flush: false,
            modification_times: false,
        }
    }

    /// Whether everything `self` claims, `other` claims too.
    pub open spec fn within(self, other: Capabilities) -> bool {
        &&& self.random_read ==> other.random_read
        &&& self.random_write ==> other.random_write
        &&& self.atomic_rename ==> other.atomic_rename
        &&& self.set_len ==> other.set_len
        &&& self.durable_flush ==> other.durable_flush
        &&& self.modification_times ==> other.modification_times
    }
}

impl Default for Capabilities {
    fn default() -> (r: Self)
        ensures
            r == Capabilities::minimal(),
    {
        Capabilities::minimal()
    }
}

/// A backend that declares nothing under-promises: the baseline claims nothing
/// that full support would not, and leaves out atomic renames, durable flushes
/// and modification times.
pub proof fn the_baseline_under_promises()
    ensures
        Capabilities::minimal().within(Capabilities::full()),
        !Capabilities::minimal().atomic_rename,
        !Capabilities::minimal().durable_flush,
        !Capabilities::minimal().modification_times,
{
}

/// Full support claims everything that any backend can claim, and a backend that
/// declares nothing gets the baseline: it can read and write anywhere and set a
/// length, and claims no more.
pub proof fn full_support_claims_everything(any: Capabilities, declared: Capabilities)
    requires
        call_ensures(<Capabilities as Default>::default, (), declared),
    ensures
        any.within(Capabilities::full()),
        Capabilities::full().random_read && Capabilities::full().random_write
            && Capabilities::full().atomic_rename && Capabilities::full().set_len
            && Capabilities::full().durable_flush && Capabilities::full().modification_times,
        declared.random_read && declared.random_write && declared.set_len,
        !declared.atomic_rename && !declared.durable_flush && !declared.modification_times,
{
}

} // verus!
