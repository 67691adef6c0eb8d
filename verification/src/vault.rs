//! Holdings of a fungible resource: vaults that live in a component's state
//! and buckets that carry amounts between calls.
use vstd::prelude::*;
use crate::decimal::{fits, Decimal};

verus! {

broadcast use crate::decimal::group_decimal;

/// Identifies a resource (a currency or a badge) on the ledger.
pub type ResourceId = u64;

/// Identifies a component (an account, a borrower or a deployed blueprint) on the ledger.
pub type ComponentId = u64;

/// An amount of one resource held in transit.
#[derive(Clone, Copy, PartialEq, Eq, Structural, Debug)]
pub struct Bucket {
    pub resource: ResourceId,
    pub amount: Decimal,
}

/// An amount of one resource held by a component.
#[derive(Clone, Copy, PartialEq, Eq, Structural, Debug)]
pub struct Vault {
    pub resource: ResourceId,
    pub amount: Decimal,
}

impl Bucket {
    /// A bucket holding nothing of a resource.
    pub fn empty(resource: ResourceId) -> (b: Bucket)
        ensures
            b.resource == resource,
            b.amount.attos() == 0,
    {
        Bucket { resource, amount: Decimal::zero() }
    }

    /// Whether the bucket holds nothing.
    pub fn is_empty(&self) -> (r: bool)
        ensures
            r == (self.amount.attos() == 0),
    {
        self.amount.is_zero()
    }

    /// Takes `amount` out of the bucket into a new one.
    pub fn take(&mut self, amount: Decimal) -> (taken: Bucket)
        requires
            0 <= amount.attos() <= old(self).amount.attos(),
        ensures
            taken == (Bucket { resource: old(self).resource, amount }),
            final(self).resource == old(self).resource,
            final(self).amount.attos() == old(self).amount.attos() - amount.attos(),
    {
        let rest = self.amount.checked_sub(amount).unwrap();
        self.amount = rest;
        Bucket { resource: self.resource, amount }
    }
}

impl Vault {
    /// Whether the vault holds a non-negative amount.
    pub open spec fn wf(&self) -> bool {
        self.amount.attos() >= 0
    }

    /// An empty vault for a resource.
    pub fn new(resource: ResourceId) -> (v: Vault)
        ensures
            v.resource == resource,
            v.amount.attos() == 0,
            v.wf(),
    {
        Vault { resource, amount: Decimal::zero() }
    }

    /// The amount held.
    pub fn amount(&self) -> (a: Decimal)
        ensures
            a == self.amount,
    {
        self.amount
    }

    /// Puts a bucket of the vault's resource into the vault.
    pub fn put(&mut self, bucket: Bucket)
        requires
            bucket.resource == old(self).resource,
            bucket.amount.attos() >= 0,
            fits(old(self).amount.attos() + bucket.amount.attos()),
        ensures
            final(self).resource == old(self).resource,
            final(self).amount.attos() == old(self).amount.attos() + bucket.amount.attos(),
    {
        self.amount = self.amount.checked_add(bucket.amount).unwrap();
    }

    /// Takes `amount` out of the vault into a bucket.
    pub fn take(&mut self, amount: Decimal) -> (taken: Bucket)
        requires
            0 <= amount.attos() <= old(self).amount.attos(),
        ensures
            taken == (Bucket { resource: old(self).resource, amount }),
            final(self).resource == old(self).resource,
            final(self).amount.attos() == old(self).amount.attos() - amount.attos(),
    {
        let rest = self.amount.checked_sub(amount).unwrap();
        self.amount = rest;
        Bucket { resource: self.resource, amount }
    }
}

} // verus!
