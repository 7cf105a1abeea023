//! The registry of the running application's event handler: the address of
//! the handler while it is registered, nothing otherwise.  The caller keeps
//! the slot behind a lock; the address is only stored and handed back.
use vstd::prelude::*;

verus! {

/// The slot after `handle` is registered.
pub open spec fn after_register(slot: Option<usize>, handle: usize) -> Option<usize> {
    Some(handle)
}

/// The slot after the handler is unregistered.
pub open spec fn after_unregister(slot: Option<usize>) -> Option<usize> {
    None
}

/// Registers the handler at address `handle`, in place of any other.
pub fn register(slot: &mut Option<usize>, handle: usize)
    ensures
        *final(slot) == after_register(*old(slot), handle),
{
    *slot = Some(handle);
}

/// Unregisters the handler.
pub fn unregister(slot: &mut Option<usize>)
    ensures
        *final(slot) == after_unregister(*old(slot)),
{
    *slot = None;
}

/// The address of the registered handler, if one is.
pub fn get_raw(slot: &Option<usize>) -> (r: Option<usize>)
    ensures
        r == *slot,
{
    *slot
}

/// A read after a registration gives the registered address, whatever was
/// registered before; a read after unregistering gives nothing.
pub proof fn law_read_after_write(slot: Option<usize>, handle: usize, other: usize)
    ensures
        after_register(slot, handle) == Some(handle),
        after_register(after_register(slot, other), handle) == Some(handle),
        after_unregister(after_register(slot, handle)) is None,
        after_unregister(slot) is None,
{
}

} // verus!
