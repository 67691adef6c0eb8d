//! A liquidity pool that meets requests from its own vault and, when that is
//! short, from bridge components on other chains, asked one after another.
//!
//! A request is a short exchange: `request_liquidity` either meets it at once
//! or names the first bridge to ask; the caller asks that bridge and hands its
//! answer to `receive_bridge_funds`, which either meets the request or names
//! the next bridge. When every bridge came back empty the request fails.
use vstd::prelude::*;
use crate::decimal::{fits, Decimal};
use crate::vault::{Bucket, ComponentId, ResourceId, Vault};

verus! {

broadcast use crate::decimal::group_decimal;

/// What a liquidity request asks for next.
#[derive(PartialEq, Eq, Structural, Debug)]
pub enum LiquidityStep {
    /// The request is met with this bucket.
    Provided(Bucket),
    /// Ask the bridge at this position of the bridge list, the component
    /// given, for this amount.
    AskBridge(usize, ComponentId, Decimal),
    /// No chain has enough liquidity: the request fails.
    Exhausted,
}

/// The first bridge to ask for `amount` from position `index` on, if there is one.
pub open spec fn ask_from(bridges: Seq<(Seq<char>, ComponentId)>, index: int, amount: Decimal) -> LiquidityStep {
    if 0 <= index < bridges.len() {
        LiquidityStep::AskBridge(index as usize, bridges[index].1, amount)
    } else {
        LiquidityStep::Exhausted
    }
}

/// A local vault and the bridge component of each other chain, by chain name,
/// in the order they were first added.
pub struct CrossChainLiquidityPool {
    pub local_pool: Vault,
    pub bridge_components: Vec<(String, ComponentId)>,
}

impl CrossChainLiquidityPool {
    /// Amount in the local vault, in attos.
    pub open spec fn balance(&self) -> int {
        self.local_pool.amount.attos()
    }

    /// Resource held by the local vault.
    pub open spec fn resource(&self) -> ResourceId {
        self.local_pool.resource
    }

    /// The bridges: chain name and bridge component, in the order they are asked.
    pub open spec fn bridges(&self) -> Seq<(Seq<char>, ComponentId)> {
        self.bridge_components@.map_values(|e: (String, ComponentId)| (e.0@, e.1))
    }

    /// The local vault holds a non-negative amount and no chain name occurs twice.
    pub open spec fn wf(&self) -> bool {
        &&& self.balance() >= 0
        &&& forall|i: int, j: int|
            0 <= i < j < self.bridges().len() ==> #[trigger] self.bridges()[i].0 != #[trigger] self.bridges()[j].0
    }

    /// An empty pool of `xrd_token` with no bridges.
    pub fn new(xrd_token: ResourceId) -> (p: CrossChainLiquidityPool)
        ensures
            p.wf(),
            p.balance() == 0,
            p.resource() == xrd_token,
            p.bridges() == Seq::<(Seq<char>, ComponentId)>::empty(),
    {
        let p = CrossChainLiquidityPool { local_pool: Vault::new(xrd_token), bridge_components: Vec::new() };
        assert(p.bridges() =~= Seq::<(Seq<char>, ComponentId)>::empty());
        p
    }

    /// Sets the bridge component of `chain_name`: a known chain keeps its place
    /// in the order and gets the new component; a new chain is asked last.
    pub fn add_bridge(&mut self, chain_name: String, bridge_component: ComponentId)
        requires
            old(self).wf(),
        ensures
            final(self).wf(),
            final(self).balance() == old(self).balance(),
            final(self).resource() == old(self).resource(),
            (exists|i: int| 0 <= i < old(self).bridges().len() && old(self).bridges()[i].0 == chain_name@)
                ==> (exists|i: int|
                    0 <= i < old(self).bridges().len() && old(self).bridges()[i].0 == chain_name@
                        && final(self).bridges() == old(self).bridges().update(i, (chain_name@, bridge_component))),
            !(exists|i: int| 0 <= i < old(self).bridges().len() && old(self).bridges()[i].0 == chain_name@)
                ==> final(self).bridges() == old(self).bridges().push((chain_name@, bridge_component)),
    {
        let n = self.bridge_components.len();
        let mut i: usize = 0;
        while i < n
            invariant
                n == self.bridge_components@.len(),
                self.local_pool == old(self).local_pool,
                self.bridge_components@ == old(self).bridge_components@,
                old(self).wf(),
                self.bridges().len() == n,
                0 <= i <= n,
                forall|j: int| 0 <= j < i ==> self.bridges()[j].0 != chain_name@,
            decreases n - i,
        {
            if self.bridge_components[i].0 == chain_name {
                let ghost before = self.bridges();
                self.bridge_components.set(i, (chain_name, bridge_component));
                assert(self.bridges() =~= before.update(i as int, (chain_name@, bridge_component)));
                assert(before[i as int].0 == chain_name@);
                assert(forall|k: int| 0 <= k < n ==> #[trigger] self.bridges()[k].0 == before[k].0);
                return;
            }
            i = i + 1;
        }
        let ghost before = self.bridges();
        self.bridge_components.push((chain_name, bridge_component));
        assert(self.bridges() =~= before.push((chain_name@, bridge_component)));
        assert(forall|k: int| 0 <= k < n ==> #[trigger] self.bridges()[k].0 == before[k].0);
    }

    /// Starts a request for `amount`: met from the local vault when it holds
    /// enough, otherwise the first bridge is to be asked (or, with no bridges,
    /// the request fails) and nothing changes.
    pub fn request_liquidity(&mut self, amount: Decimal) -> (step: LiquidityStep)
        requires
            old(self).wf(),
            amount.attos() >= 0,
        ensures
            final(self).wf(),
            final(self).resource() == old(self).resource(),
            final(self).bridges() == old(self).bridges(),
            old(self).balance() >= amount.attos() ==> {
                &&& final(self).balance() == old(self).balance() - amount.attos()
                &&& step == LiquidityStep::Provided(Bucket { resource: old(self).resource(), amount })
            },
            old(self).balance() < amount.attos() ==> {
                &&& final(self).balance() == old(self).balance()
                &&& step == ask_from(old(self).bridges(), 0, amount)
            },
    {
        if amount.le(&self.local_pool.amount()) {
            let b = self.local_pool.take(amount);
            return LiquidityStep::Provided(b);
        }
        if self.bridge_components.len() > 0 {
            LiquidityStep::AskBridge(0, self.bridge_components[0].1, amount)
        } else {
            LiquidityStep::Exhausted
        }
    }

    /// Goes on with a request for `amount` once the bridge at `index` answered
    /// with `funds`: funds that are not empty go into the local vault and the
    /// request is met from it; empty funds mean the next bridge is to be asked,
    /// or, after the last one, that the request fails.
    pub fn receive_bridge_funds(&mut self, amount: Decimal, index: usize, funds: Bucket) -> (step: LiquidityStep)
        requires
            old(self).wf(),
            amount.attos() >= 0,
            index < old(self).bridges().len(),
            funds.amount.attos() >= 0,
            funds.amount.attos() != 0 ==> {
                &&& funds.resource == old(self).resource()
                &&& fits(old(self).balance() + funds.amount.attos())
                &&& old(self).balance() + funds.amount.attos() >= amount.attos()
            },
        ensures
            final(self).wf(),
            final(self).resource() == old(self).resource(),
            final(self).bridges() == old(self).bridges(),
            funds.amount.attos() == 0 ==> {
                &&& final(self).balance() == old(self).balance()
                &&& step == ask_from(old(self).bridges(), index + 1, amount)
            },
            funds.amount.attos() != 0 ==> {
                &&& final(self).balance() == old(self).balance() + funds.amount.attos() - amount.attos()
                &&& step == LiquidityStep::Provided(Bucket { resource: old(self).resource(), amount })
            },
    {
        if !funds.is_empty() {
            self.local_pool.put(funds);
            let b = self.local_pool.take(amount);
            return LiquidityStep::Provided(b);
        }
        let n = self.bridge_components.len();
        if index < n - 1 {
            let next = index + 1;
            LiquidityStep::AskBridge(next, self.bridge_components[next].1, amount)
        } else {
            LiquidityStep::Exhausted
        }
    }
}

} // verus!
