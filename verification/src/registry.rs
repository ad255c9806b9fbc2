//! The driver registry: a read-only name-to-address directory.
//!
//! A capability implementation ("driver") is published under a string name
//! and found again by that name at call time. Absence of a name is not an
//! error: callers must treat it as "capability unavailable" and degrade
//! gracefully. Within one execution the registry is immutable; bindings
//! are re-resolved on every call because they may change between
//! executions.

use vstd::prelude::*;

verus! {

/// A resolved driver address: the 32-byte account of the target module.
#[derive(Debug, Clone, Copy, PartialEq, Eq)]
pub struct AccountId {
    pub bytes: [u8; 32],
}

impl AccountId {
    pub fn new(bytes: [u8; 32]) -> (r: AccountId)
        ensures
            r.bytes == bytes,
    {
        AccountId { bytes }
    }
}

/// Cheap conversion between two carriers of the same value.
pub trait ConvertTo<To> {
    fn convert_to(&self) -> To;
}

impl ConvertTo<[u8; 32]> for AccountId {
    /// The raw 32 address bytes, as a delegate-call target expects them.
    fn convert_to(&self) -> (r: [u8; 32])
        ensures
            r == self.bytes,
    {
        self.bytes
    }
}

/// The name-to-address directory. The binding added last for a name wins,
/// mirroring a registry where re-registering a name replaces the driver.
pub struct DriverRegistry {
    pub entries: Vec<(String, AccountId)>,
}

/// The address bound to `name`, or `None` if no entry carries that name.
pub open spec fn spec_resolve(entries: Seq<(String, AccountId)>, name: Seq<char>) -> Option<
    AccountId,
>
    decreases entries.len(),
{
    if entries.len() == 0 {
        None
    } else if entries.last().0@ == name {
        Some(entries.last().1)
    } else {
        spec_resolve(entries.drop_last(), name)
    }
}

impl DriverRegistry {
    /// An empty directory: every lookup misses.
    pub fn new() -> (r: DriverRegistry)
        ensures
            r.entries@ =~= Seq::<(String, AccountId)>::empty(),
    {
        DriverRegistry { entries: Vec::new() }
    }

    /// Publish `address` under `name`; a later binding shadows an earlier
    /// one with the same name.
    pub fn register(&mut self, name: String, address: AccountId)
        ensures
            final(self).entries@ == old(self).entries@.push((name, address)),
    {
        self.entries.push((name, address));
    }

    /// Read-only lookup; `None` means the capability is unavailable, not
    /// that anything failed.
    pub fn resolve(&self, name: &String) -> (r: Option<AccountId>)
        ensures
            r == spec_resolve(self.entries@, name@),
    {
        let mut i: usize = self.entries.len();
        assert(self.entries@.take(i as int) =~= self.entries@);
        while i > 0
            invariant
                i <= self.entries@.len(),
            spec_resolve(self.entries@, name@) == spec_resolve(
                self.entries@.take(i as int),
                name@,
            ),
            decreases i,
        {
            i = i - 1;
            let e = &self.entries[i];
            assert(self.entries@.take(i + 1).last() == self.entries@[i as int]);
            assert(self.entries@.take(i + 1).drop_last() =~= self.entries@.take(i as int));
            if e.0 == *name {
                return Some(e.1);
            }
        }
        None
    }
}

} // verus!
