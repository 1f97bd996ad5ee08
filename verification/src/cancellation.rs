//! A permanent cancellation request, shared between threads through one atomic flag.
use std::sync::atomic::{AtomicBool, Ordering};
use std::sync::Arc;
use vstd::prelude::*;

verus! {

/// A permanent cancellation request for one matcher.
///
/// Cloned handles control the same matcher. The handle can outlive its matcher.
/// Cancellation does not wait for the worker. Join the worker before accessing the matcher.
///
/// Another thread may raise the flag at any time, so a contract cannot say which value the flag
/// holds. It says instead which operations were made on it: [`Self::reads`],
/// [`Self::has_request`] and [`Self::starts_with`].
#[derive(Debug)]
pub struct CancellationHandle(Arc<AtomicBool>);

impl CancellationHandle {
    /// A relaxed load of the shared flag can return `requested`.
    pub closed spec fn reads(self, requested: bool) -> bool {
        call_ensures(AtomicBool::load, (&*self.0, Ordering::Relaxed), requested)
    }

    /// `true` was stored into the shared flag.
    pub closed spec fn has_request(self) -> bool {
        call_ensures(AtomicBool::store, (&*self.0, true, Ordering::Relaxed), ())
    }

    /// The shared flag was created for this handle and first held `requested`.
    pub closed spec fn starts_with(self, requested: bool) -> bool {
        call_ensures(AtomicBool::new, (requested,), *self.0)
    }

    /// A handle on a flag of its own that first holds `requested`.
    fn with_request(requested: bool) -> (handle: Self)
        ensures
            handle.starts_with(requested),
    {
        CancellationHandle(Arc::new(AtomicBool::new(requested)))
    }

    /// Requests cancellation, for good: nothing ever stores `false`. The contract says that the
    /// request was stored; that loads from then on return it is up to the atomic and not stated.
    pub fn cancel(&self)
        ensures
            self.has_request(),
    {
        self.0.store(true, Ordering::Relaxed);
    }

    /// Whether a request is visible to this thread now.
    pub fn is_cancelled(&self) -> (requested: bool)
        ensures
            self.reads(requested),
    {
        self.0.load(Ordering::Relaxed)
    }

    /// Fails when a request is visible to this thread now.
    pub(crate) fn check(&self) -> (checked: Result<(), Cancelled>)
        ensures
            self.reads(checked is Err),
    {
        if self.is_cancelled() {
            Err(Cancelled)
        } else {
            Ok(())
        }
    }

    /// Samples the request once. Returns a handle on a flag of its own that starts from the
    /// sample, and the sample.
    pub(crate) fn snapshot(&self) -> (copy: (Self, bool))
        ensures
            self.reads(copy.1),
            copy.0.starts_with(copy.1),
    {
        let requested = self.is_cancelled();
        (Self::with_request(requested), requested)
    }
}

impl Clone for CancellationHandle {
    /// Another handle on the same flag.
    fn clone(&self) -> (handle: Self)
        ensures
            handle == *self,
    {
        CancellationHandle(self.0.clone())
    }
}

impl Default for CancellationHandle {
    /// A handle on a flag of its own, without a request.
    fn default() -> (handle: Self)
        ensures
            handle.starts_with(false),
    {
        Self::with_request(false)
    }
}

/// The matcher observed a permanent cancellation request.
#[derive(Clone, Copy, Debug, PartialEq, Eq, Structural)]
pub struct Cancelled;

impl Cancelled {
    /// The message of this error.
    pub open spec fn message() -> Seq<char> {
        "operation cancelled"@
    }

    /// The message as a string.
    pub fn to_string(&self) -> (message: String)
        ensures
            message@ == Self::message(),
    {
        "operation cancelled".to_owned()
    }
}

} // verus!
