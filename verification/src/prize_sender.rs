//! Planning a winner's payout: from the sender account's chain state to the
//! exact contents of the next send block, and the minimum-latency floor on
//! dispatch. Querying the ledger node, generating proof-of-work, signing and
//! broadcasting are the caller's side effects; every decision about what the
//! block says is made — and verified — here.

use vstd::prelude::*;

use crate::account::Account;
use crate::amount::Amount;
use crate::timing::Duration;

verus! {

/// The payout dispatch never completes faster than this, so its timing does
/// not reveal how fast proof-of-work generation was.
pub const MIN_SEND_DELAY_MS: u64 = 15_000;

/// What the ledger node reports about the sender's account: the chain head,
/// the balance, and the voting representative if one was requested and set.
pub struct AccountInfo {
    pub frontier: Vec<u8>,
    pub balance: Amount,
    pub representative: Option<Account>,
}

/// The exact contents of the payout block to build, sign and broadcast: it
/// follows the frontier, keeps the representative, lowers the balance by the
/// prize, and links to the winner.
#[derive(PartialEq, Eq, Debug)]
pub struct BlockPlan {
    pub previous: Vec<u8>,
    pub representative: Account,
    pub new_balance: Amount,
    pub destination: Account,
}

/// Why no payout block can be planned. Either error is recoverable: the
/// caller logs it and the raffle goes on.
#[derive(PartialEq, Eq, Debug)]
pub enum PrizeError {
    /// The node's answer carried no representative field.
    MissingRepresentative,
    /// The sender's balance does not cover the prize.
    InsufficientBalance,
}

/// Plan the payout block for `prize` to `destination`, given the sender
/// account's state. Succeeds exactly when a representative is known and the
/// balance covers the prize.
pub fn plan_send_block(info: AccountInfo, destination: Account, prize: Amount) -> (r: Result<
    BlockPlan,
    PrizeError,
>)
    ensures
        info.representative is None ==> r == Err::<BlockPlan, PrizeError>(
            PrizeError::MissingRepresentative,
        ),
        info.representative is Some && info.balance.raw < prize.raw ==> r == Err::<
            BlockPlan,
            PrizeError,
        >(PrizeError::InsufficientBalance),
        info.representative is Some && info.balance.raw >= prize.raw ==> (r matches Ok(p)
            && p.previous@ == info.frontier@ && p.representative@ == info.representative.unwrap()@
            && p.new_balance.raw == info.balance.raw - prize.raw && p.destination@
            == destination@),
{
    let rep = match info.representative {
        Some(rep) => rep,
        None => {
            return Err(PrizeError::MissingRepresentative);
        },
    };
    let new_balance = match info.balance.checked_sub(prize) {
        Some(b) => b,
        None => {
            return Err(PrizeError::InsufficientBalance);
        },
    };
    Ok(
        BlockPlan {
            previous: info.frontier,
            representative: rep,
            new_balance,
            destination,
        },
    )
}

/// How much longer to wait before dispatching a payout whose work generation
/// took `elapsed`: the remainder of the minimum delay, if any.
pub fn remaining_delay(elapsed: Duration) -> (r: Duration)
    ensures
        r.millis == if elapsed.millis < MIN_SEND_DELAY_MS {
            MIN_SEND_DELAY_MS - elapsed.millis
        } else {
            0int
        },
{
    if elapsed.millis < MIN_SEND_DELAY_MS {
        Duration::from_millis(MIN_SEND_DELAY_MS - elapsed.millis)
    } else {
        Duration::from_millis(0)
    }
}

} // verus!
