//! Plans: what an operation asks of the ledger and what it writes to the
//! registry once the ledger has answered.

use crate::pool_id::pool_id;
use crate::registry::{registry_wf, LPPairs};
use crate::types::{AssetId, AssetIdHash, Error, Event, LedgerCall, Pair};
use vstd::prelude::*;

verus! {

/// The registry write and the report of an operation that goes through.
#[derive(Clone, Copy, Debug, PartialEq, Eq)]
pub struct Commit {
    /// The id of the pool that is written.
    pub lp_id: AssetId,
    /// The pool's record after the operation.
    pub pair: Pair,
    /// What the operation reports.
    pub event: Event,
}

/// How the ledger answered the calls of a plan, run in order inside one
/// atomic scope.
#[derive(Clone, Copy, Debug, PartialEq, Eq)]
pub enum Outcome {
    /// Every call went through.
    Applied,
    /// The call at this position was refused and none after it was tried.
    Refused(usize),
}

/// The mathematical content of a [`Staged`] plan.
pub struct Plan {
    /// The ledger calls, in the order in which they are to run.
    pub calls: Seq<LedgerCall>,
    /// How many of the leading calls draw on the caller's own balance.
    pub funding: nat,
    /// What follows once every call has gone through.
    pub verdict: Result<Commit, Error>,
    /// The registry that the plan was made on.
    pub base: Map<AssetId, Pair>,
    /// The hash by which the registry's pool ids are derived.
    pub hash: AssetIdHash,
}

impl Plan {
    /// The plan was made on a well-formed registry and writes, if anything, a
    /// well-formed record under its own pool id.
    pub open spec fn wf(self) -> bool {
        &&& self.funding <= self.calls.len()
        &&& registry_wf(self.hash, self.base)
        &&& self.verdict matches Ok(commit) ==> commit.pair.wf() && commit.lp_id == pool_id(
            self.hash,
            commit.pair.x_id,
            commit.pair.y_id,
        )
    }

    /// What the operation returns for a given answer of the ledger. A refused
    /// call that draws on the caller means that the caller is short of
    /// tokens; any other refused call is a fault of the ledger.
    pub open spec fn result(self, outcome: Outcome) -> Result<Event, Error> {
        match outcome {
            Outcome::Refused(at) => if at < self.funding {
                Err(Error::NotEnoughTokens)
            } else {
                Err(Error::LedgerFault)
            },
            Outcome::Applied => match self.verdict {
                Ok(commit) => Ok(commit.event),
                Err(error) => Err(error),
            },
        }
    }

    /// The registry after the operation, for a given answer of the ledger.
    pub open spec fn registry(self, outcome: Outcome) -> Map<AssetId, Pair> {
        match (outcome, self.verdict) {
            (Outcome::Applied, Ok(commit)) => self.base.insert(commit.lp_id, commit.pair),
            _ => self.base,
        }
    }
}

/// An operation that has been decided on and waits for the ledger.
///
/// The caller runs [`Staged::calls`] in order inside one atomic scope of the
/// ledger, stops at the first call that is refused, and hands the answer to
/// [`Staged::settle`]. It commits the scope if `settle` returns `Ok` and
/// rolls it back otherwise. No other operation touches the registry in
/// between.
pub struct Staged {
    calls: Vec<LedgerCall>,
    funding: usize,
    verdict: Result<Commit, Error>,
    base: Ghost<Map<AssetId, Pair>>,
    hash: Ghost<AssetIdHash>,
}

impl View for Staged {
    type V = Plan;

    closed spec fn view(&self) -> Plan {
        Plan {
            calls: self.calls@,
            funding: self.funding as nat,
            verdict: self.verdict,
            base: self.base@,
            hash: self.hash@,
        }
    }
}

/// The plan of an operation that was not turned down at once.
pub open spec fn planned(staged: Result<Staged, Error>) -> Result<Plan, Error> {
    match staged {
        Ok(staged) => Ok(staged@),
        Err(error) => Err(error),
    }
}

impl Staged {
    pub(crate) fn new(
        calls: Vec<LedgerCall>,
        funding: usize,
        verdict: Result<Commit, Error>,
        base: Ghost<Map<AssetId, Pair>>,
        hash: Ghost<AssetIdHash>,
    ) -> (staged: Staged)
        ensures
            staged@ == (Plan {
                calls: calls@,
                funding: funding as nat,
                verdict,
                base: base@,
                hash: hash@,
            }),
    {
        Staged { calls, funding, verdict, base, hash }
    }

    /// The ledger calls, in the order in which they are to run.
    pub fn calls(&self) -> (calls: &Vec<LedgerCall>)
        ensures
            calls@ == self@.calls,
    {
        &self.calls
    }

    /// How many of the leading calls draw on the caller's own balance.
    pub fn funding(&self) -> (funding: usize)
        ensures
            funding == self@.funding,
    {
        self.funding
    }

    /// What follows once every call has gone through: the registry write and
    /// the report, or the reason why the scope is rolled back all the same.
    pub fn verdict(&self) -> (verdict: Result<Commit, Error>)
        ensures
            verdict == self@.verdict,
    {
        self.verdict
    }

    /// Ends the operation with the ledger's answer: writes the pool's record
    /// and returns the report if everything went through, and otherwise
    /// leaves the registry untouched and says why.
    pub fn settle(self, pools: &mut LPPairs, outcome: Outcome) -> (result: Result<Event, Error>)
        requires
            self@.wf(),
            old(pools)@ == self@.base,
        ensures
            result == self@.result(outcome),
            final(pools)@ == self@.registry(outcome),
            final(pools).wf(self@.hash),
            result is Err ==> final(pools)@ == old(pools)@,
    {
        match outcome {
            Outcome::Refused(at) => {
                if at < self.funding {
                    Err(Error::NotEnoughTokens)
                } else {
                    Err(Error::LedgerFault)
                }
            },
            Outcome::Applied => match self.verdict {
                Ok(commit) => {
                    pools.put(self.hash, commit.lp_id, commit.pair);
                    Ok(commit.event)
                },
                Err(error) => Err(error),
            },
        }
    }
}

} // verus!
