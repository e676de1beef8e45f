//! Cancel flags of running transfers: registered under a transfer id while
//! the transfer runs, raised when the user cancels it.

use std::sync::Arc;
use std::sync::atomic::AtomicBool;
use vstd::prelude::*;
use crate::registry::Registry;

verus! {

/// A fresh cancel flag, not raised. That it is not raised is left unstated:
/// the contents of an atomic have no specification in Verus.
pub fn new_cancel_flag() -> (f: Arc<AtomicBool>) {
    Arc::new(AtomicBool::new(false))
}

/// Calls `Arc::clone`; the contract claims that the clone points at the
/// same flag.
#[verifier::external_body]
pub(crate) fn share_flag(f: &Arc<AtomicBool>) -> (r: Arc<AtomicBool>)
    ensures
        r == *f,
{
    f.clone()
}

/// Raises a transfer's cancel flag (sequentially consistent store).
pub fn raise_transfer_flag(f: &AtomicBool) {
    f.store(true, std::sync::atomic::Ordering::SeqCst);
}

/// Keeps a transfer's cancel flag registered while the transfer runs.
pub struct CancelGuard {
    transfer_id: String,
}

impl CancelGuard {
    /// The transfer id that this guard keeps registered.
    pub closed spec fn transfer_id(&self) -> Seq<char> {
        self.transfer_id@
    }

    /// Registers a fresh cancel flag under `transfer_id` (replacing any flag
    /// registered there) and returns the guard and the flag.
    pub fn register(registry: &mut Registry<Arc<AtomicBool>>, transfer_id: String) -> (r: (
        CancelGuard,
        Arc<AtomicBool>,
    ))
        ensures
            r.0.transfer_id() == transfer_id@,
            final(registry)@ =~= old(registry)@.insert(transfer_id@, r.1),
    {
        let flag = new_cancel_flag();
        let key = transfer_id.clone();
        let _ = registry.insert(key, share_flag(&flag));
        (CancelGuard { transfer_id }, flag)
    }

    /// The transfer id, as text.
    pub fn id(&self) -> (r: &str)
        ensures
            r@ == self.transfer_id(),
    {
        self.transfer_id.as_str()
    }

    /// Ends the guard: whatever flag is registered under its transfer id is
    /// unregistered.
    pub fn release(self, registry: &mut Registry<Arc<AtomicBool>>)
        ensures
            final(registry)@ =~= old(registry)@.remove(self.transfer_id()),
    {
        let _ = registry.remove(self.transfer_id.as_str());
    }
}

/// Raises the cancel flag registered under `transfer_id`, if any; returns
/// whether one was registered.
pub fn cancel_transfer(registry: &Registry<Arc<AtomicBool>>, transfer_id: &str) -> (signalled:
    bool)
    ensures
        signalled == registry@.contains_key(transfer_id@),
{
    match registry.get(transfer_id) {
        Some(flag) => {
            raise_transfer_flag(flag);
            true
        },
        None => false,
    }
}

/// While a guard is held, cancelling its transfer finds exactly the flag
/// that registering handed out; once it is released, no flag is registered
/// under its id and cancelling it finds nothing.
pub proof fn lemma_register_then_release(
    before: Map<Seq<char>, Arc<AtomicBool>>,
    id: Seq<char>,
    flag: Arc<AtomicBool>,
)
    ensures
        before.insert(id, flag).contains_key(id),
        before.insert(id, flag)[id] == flag,
        !before.insert(id, flag).remove(id).contains_key(id),
        forall|k: Seq<char>|
            k != id ==> (#[trigger] before.insert(id, flag).remove(id).contains_key(k)
                == before.contains_key(k)),
{
}

} // verus!
