//! The registry of exchange contracts.
//!
//! Which contract an order is signed for depends on the chain and on
//! whether the market is a negative-risk market. The addresses are not
//! known to this library: whoever owns them registers them here.

use crate::error::Error;
use vstd::prelude::*;

verus! {

/// The contracts of one exchange deployment, as address text.
#[derive(Debug, Clone)]
pub struct ContractConfig {
    pub exchange: String,
    pub collateral: String,
    pub conditional_tokens: String,
}

/// One line of the registry.
#[derive(Debug, Clone)]
pub struct ContractEntry {
    pub chain_id: u64,
    pub neg_risk: bool,
    pub config: ContractConfig,
}

/// The entry for a chain and a market kind among `entries`: the one
/// registered last, if any.
pub open spec fn registered(entries: Seq<ContractEntry>, chain_id: u64, neg_risk: bool) -> Option<
    ContractConfig,
>
    decreases entries.len(),
{
    if entries.len() == 0 {
        None
    } else if entries.last().chain_id == chain_id && entries.last().neg_risk == neg_risk {
        Some(entries.last().config)
    } else {
        registered(entries.drop_last(), chain_id, neg_risk)
    }
}

/// A table from chain id and market kind to contracts.
#[derive(Debug)]
pub struct ContractRegistry {
    pub entries: Vec<ContractEntry>,
}

impl ContractRegistry {
    /// The contracts for a chain and a market kind, by this registry.
    pub open spec fn lookup(&self, chain_id: u64, neg_risk: bool) -> Option<ContractConfig> {
        registered(self.entries@, chain_id, neg_risk)
    }

    /// A registry without entries.
    pub fn new() -> (registry: Self)
        ensures
            registry.entries@.len() == 0,
    {
        ContractRegistry { entries: Vec::new() }
    }

    /// Adds an entry, which then stands for its chain and market kind in
    /// place of any earlier one.
    pub fn register(&mut self, chain_id: u64, neg_risk: bool, config: ContractConfig)
        ensures
            final(self).entries@ == old(self).entries@.push(
                ContractEntry { chain_id, neg_risk, config },
            ),
            final(self).lookup(chain_id, neg_risk) == Some(config),
            forall|c: u64, n: bool|
                (c != chain_id || n != neg_risk) ==> #[trigger] final(self).lookup(c, n) == old(
                    self,
                ).lookup(c, n),
    {
        let ghost before = self.entries@;
        self.entries.push(ContractEntry { chain_id, neg_risk, config });
        proof {
            assert(self.entries@.drop_last() == before);
        }
    }

    /// The contracts for a chain and a market kind; `Config` where none are
    /// registered.
    pub fn get_contract_config(&self, chain_id: u64, neg_risk: bool) -> (r: Result<
        &ContractConfig,
        Error,
    >)
        ensures
            match self.lookup(chain_id, neg_risk) {
                Some(config) => r matches Ok(found) && *found == config,
                None => r matches Err(Error::Config(_)),
            },
    {
        let mut i = self.entries.len();
        proof {
            assert(self.entries@.take(i as int) == self.entries@);
        }
        while i > 0
            invariant
                i <= self.entries.len(),
                self.lookup(chain_id, neg_risk) == registered(
                    self.entries@.take(i as int),
                    chain_id,
                    neg_risk,
                ),
            decreases i,
        {
            i -= 1;
            let entry = &self.entries[i];
            proof {
                let upto = self.entries@.take(i + 1);
                assert(upto.last() == *entry);
                assert(upto.drop_last() == self.entries@.take(i as int));
            }
            if entry.chain_id == chain_id && entry.neg_risk == neg_risk {
                return Ok(&entry.config);
            }
        }
        Err(Error::Config("no contracts are registered for this chain".to_owned()))
    }
}

} // verus!
