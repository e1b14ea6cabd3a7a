//! Conflict resolution, fact proposals and route planning requests.
use vstd::prelude::*;

use crate::text::same_text;

verus! {

/// The position a stance takes.
#[derive(PartialEq, Eq, Structural, Debug, Clone, Copy)]
pub enum StancePosition {
    Support,
    Oppose,
}

/// `SUPPORT`, `Support` and `support` support; any other position opposes.
pub fn parse_stance_position(position: &str) -> (r: StancePosition)
    ensures
        r == (if position@ == "SUPPORT"@ || position@ == "Support"@ || position@ == "support"@ {
            StancePosition::Support
        } else {
            StancePosition::Oppose
        }),
{
    if same_text(position, "SUPPORT") || same_text(position, "Support") || same_text(
        position,
        "support",
    ) {
        StancePosition::Support
    } else {
        StancePosition::Oppose
    }
}

/// The greatest round of the stances (0 when there are none).
pub open spec fn max_round(rounds: Seq<u32>) -> u32
    decreases rounds.len(),
{
    if rounds.len() == 0 {
        0
    } else if max_round(rounds.drop_last()) >= rounds.last() {
        max_round(rounds.drop_last())
    } else {
        rounds.last()
    }
}

/// Rounds a stance matrix may take: three more than the latest round stated.
pub fn stance_max_rounds(rounds: &Vec<u32>) -> (r: u32)
    requires
        max_round(rounds@) <= u32::MAX - 3,
    ensures
        r == max_round(rounds@) + 3,
{
    let n = rounds.len();
    let mut m: u32 = 0;
    let mut i: usize = 0;
    while i < n
        invariant
            n == rounds@.len(),
            i <= n,
            m == max_round(rounds@.take(i as int)),
        decreases n - i,
    {
        assert(rounds@.take(i + 1).drop_last() =~= rounds@.take(i as int));
        if rounds[i] > m {
            m = rounds[i];
        }
        i = i + 1;
    }
    assert(rounds@.take(n as int) =~= rounds@);
    m + 3
}

/// The context a stance matrix refers to: the request's, or 64 zeros.
pub fn default_context_ref(context_ref: Option<String>) -> (r: String)
    ensures
        match context_ref {
            Some(c) => r == c,
            None => r@ == Seq::new(64, |i: int| '0'),
        },
{
    match context_ref {
        Some(c) => c,
        None => {
            let mut s = String::new();
            let mut i: usize = 0;
            proof {
                reveal_strlit("0");
            }
            while i < 64
                invariant
                    i <= 64,
                    s@ == Seq::new(i as nat, |k: int| '0'),
                    "0"@ == seq!['0'],
                decreases 64 - i,
            {
                s.append("0");
                i = i + 1;
                assert(s@ =~= Seq::new(i as nat, |k: int| '0'));
            }
            s
        },
    }
}

/// Result of a committed fact proposal.
pub struct ProposeResponse {
    pub commit_index: u64,
    pub new_version: u64,
    pub key: String,
    pub committed_at_ms: u64,
}

/// Why a route request is refused (each a contract compilation problem).
#[derive(PartialEq, Eq, Structural, Debug, Clone, Copy)]
pub enum RouteAnchorError {
    /// "contract_hash is required to anchor the execution plan"
    HashRequired,
    /// "CONTRACT_ANCHOR_NOT_FOUND: compile the contract before routing"
    AnchorNotFound,
    /// "CONTRACT_HASH_MISMATCH: route request contract does not match the persisted contract_hash"
    HashMismatch,
}

impl RouteAnchorError {
    pub open spec fn message_spec(self) -> Seq<char> {
        match self {
            RouteAnchorError::HashRequired => "contract_hash is required to anchor the execution plan"@,
            RouteAnchorError::AnchorNotFound => "CONTRACT_ANCHOR_NOT_FOUND: compile the contract before routing"@,
            RouteAnchorError::HashMismatch => "CONTRACT_HASH_MISMATCH: route request contract does not match the persisted contract_hash"@,
        }
    }

    /// The detail the route request is refused with.
    pub fn message(&self) -> (r: String)
        ensures
            r@ == self.message_spec(),
    {
        match self {
            RouteAnchorError::HashRequired => String::from_str(
                "contract_hash is required to anchor the execution plan",
            ),
            RouteAnchorError::AnchorNotFound => String::from_str(
                "CONTRACT_ANCHOR_NOT_FOUND: compile the contract before routing",
            ),
            RouteAnchorError::HashMismatch => String::from_str(
                "CONTRACT_HASH_MISMATCH: route request contract does not match the persisted contract_hash",
            ),
        }
    }
}

/// A route request must name a contract hash.
pub fn require_contract_hash(contract_hash: &str) -> (r: Result<(), RouteAnchorError>)
    ensures
        r == (if contract_hash@.len() == 0 {
            Err(RouteAnchorError::HashRequired)
        } else {
            Ok(())
        }),
{
    if contract_hash.unicode_len() == 0 {
        Err(RouteAnchorError::HashRequired)
    } else {
        Ok(())
    }
}

/// The named contract must have been compiled, that is persisted, before routing.
pub fn check_contract_persisted(persisted: bool) -> (r: Result<(), RouteAnchorError>)
    ensures
        r == (if persisted {
            Ok(())
        } else {
            Err(RouteAnchorError::AnchorNotFound)
        }),
{
    if persisted {
        Ok(())
    } else {
        Err(RouteAnchorError::AnchorNotFound)
    }
}

/// The contract a route request sends must hash to the hash it names.
pub fn check_contract_hash(contract_hash: &str, computed_hash: &str) -> (r: Result<(), RouteAnchorError>)
    ensures
        r == (if computed_hash@ == contract_hash@ {
            Ok(())
        } else {
            Err(RouteAnchorError::HashMismatch)
        }),
{
    if same_text(computed_hash, contract_hash) {
        Ok(())
    } else {
        Err(RouteAnchorError::HashMismatch)
    }
}

} // verus!
