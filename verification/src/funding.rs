//! The funding gate: makes sure that the balance with the storage network
//! covers an upload before the upload starts.
//!
//! The funding gate decides; its caller acts. If the balance falls short, the
//! funding gate asks for one transfer of the missing amount. Once the transfer
//! is confirmed it asks for the balance again and again, a fixed number of
//! times, until the balance covers the requirement or the attempts are used
//! up. A query that fails counts as an attempt and leaves the observed balance
//! as it was.

use crate::task::{UploadError, UploadErrorView};
use vstd::prelude::*;

verus! {

/// The number of times the balance is queried after a transfer.
pub const MAX_RETRY: u64 = 120;

/// Time in milliseconds to wait between two queries of the balance.
pub const DELAY_UNTIL_RETRY: u64 = 1000;

/// The state of the funding gate.
#[derive(Clone, Copy, Debug, PartialEq, Eq, Structural)]
pub enum FundingGate {
    /// The balance covers the requirement: the upload may start.
    Funded { balance: u64 },
    /// The balance falls short by `amount`, which is to be transferred.
    Transfer { required: u64, balance: u64, amount: u64 },
    /// The transfer is confirmed and the balance has been queried `attempts`
    /// times without covering the requirement.
    Polling { required: u64, balance: u64, attempts: u64 },
    /// The attempts are used up and the balance still falls short.
    Exhausted { required: u64, balance: u64 },
}

/// What the caller of the funding gate does next.
#[derive(Clone, Copy, Debug, PartialEq, Eq, Structural)]
pub enum FundingAction {
    /// Start the upload.
    Proceed,
    /// Transfer the amount to the storage network's deposit address, wait for
    /// the confirmation, notify the storage network, and report with
    /// [`FundingGate::transfer_confirmed`].
    SendTransfer(u64),
    /// Query the balance and report with [`FundingGate::observe`]; if the
    /// funding gate then polls on, wait `DELAY_UNTIL_RETRY` milliseconds
    /// first.
    QueryBalance,
    /// Give up: the balance is insufficient.
    Fail,
}

/// Something that the caller reports to the funding gate.
pub enum FundingEvent {
    /// The transfer was sent and confirmed.
    TransferConfirmed,
    /// The balance was queried: `Some` balance, or `None` if the query failed.
    Reading(Option<u64>),
}

impl FundingGate {
    /// The funding gate for an upload that requires `required`, at a balance
    /// of `balance`.
    pub open spec fn opened(required: u64, balance: u64) -> FundingGate {
        if balance >= required {
            FundingGate::Funded { balance }
        } else {
            FundingGate::Transfer { required, balance, amount: (required - balance) as u64 }
        }
    }

    /// The funding gate after the transfer has been confirmed.
    pub open spec fn confirmed(self) -> FundingGate {
        match self {
            FundingGate::Transfer { required, balance, amount } => FundingGate::Polling {
                required,
                balance,
                attempts: 0,
            },
            _ => self,
        }
    }

    /// The funding gate after one more query of the balance.
    pub open spec fn observed(self, reading: Option<u64>) -> FundingGate {
        match self {
            FundingGate::Polling { required, balance, attempts } => {
                let seen = match reading {
                    Some(value) => value,
                    None => balance,
                };
                if seen >= required {
                    FundingGate::Funded { balance: seen }
                } else if attempts + 1 >= MAX_RETRY {
                    FundingGate::Exhausted { required, balance: seen }
                } else {
                    FundingGate::Polling { required, balance: seen, attempts: (attempts + 1) as u64 }
                }
            },
            _ => self,
        }
    }

    /// The funding gate after `event`.
    pub open spec fn stepped(self, event: FundingEvent) -> FundingGate {
        match event {
            FundingEvent::TransferConfirmed => self.confirmed(),
            FundingEvent::Reading(reading) => self.observed(reading),
        }
    }

    /// The funding gate after the events of `events`, in order.
    pub open spec fn after(self, events: Seq<FundingEvent>) -> FundingGate
        decreases events.len(),
    {
        if events.len() == 0 {
            self
        } else {
            self.after(events.drop_last()).stepped(events.last())
        }
    }

    /// What the caller is asked to do in this state.
    pub open spec fn wanted(self) -> FundingAction {
        match self {
            FundingGate::Funded { .. } => FundingAction::Proceed,
            FundingGate::Transfer { amount, .. } => FundingAction::SendTransfer(amount),
            FundingGate::Polling { .. } => FundingAction::QueryBalance,
            FundingGate::Exhausted { .. } => FundingAction::Fail,
        }
    }

    /// The state's invariant: a funding gate that waits for a transfer or for
    /// the balance falls short, the amount of a transfer is what is missing,
    /// and the attempts are within their budget.
    pub open spec fn inv(self) -> bool {
        match self {
            FundingGate::Funded { .. } => true,
            FundingGate::Transfer { required, balance, amount } => balance < required && amount
                == required - balance,
            FundingGate::Polling { required, balance, attempts } => balance < required && attempts
                < MAX_RETRY,
            FundingGate::Exhausted { required, balance } => balance < required,
        }
    }

    /// Opens the funding gate for an upload that requires `required`, at a
    /// balance of `balance`: it is funded if the balance covers the
    /// requirement, and asks for a transfer of what is missing otherwise.
    pub fn open(required: u64, balance: u64) -> (state: FundingGate)
        ensures
            state == FundingGate::opened(required, balance),
            state.inv(),
    {
        if balance >= required {
            FundingGate::Funded { balance }
        } else {
            FundingGate::Transfer { required, balance, amount: required - balance }
        }
    }

    /// Reports that the transfer was sent and confirmed: the funding gate
    /// starts to poll. In any other state nothing changes.
    pub fn transfer_confirmed(self) -> (state: FundingGate)
        ensures
            state == self.confirmed(),
            self.inv() ==> state.inv(),
    {
        match self {
            FundingGate::Transfer { required, balance, amount } => FundingGate::Polling {
                required,
                balance,
                attempts: 0,
            },
            _ => self,
        }
    }

    /// Reports one query of the balance: `Some` balance, or `None` if the
    /// query failed. A polling funding gate becomes funded if the balance now
    /// covers the requirement, exhausted if this was the last attempt, and
    /// polls on otherwise. In any other state nothing changes.
    pub fn observe(self, reading: Option<u64>) -> (state: FundingGate)
        ensures
            state == self.observed(reading),
            self.inv() ==> state.inv(),
    {
        match self {
            FundingGate::Polling { required, balance, attempts } => {
                let seen = match reading {
                    Some(value) => value,
                    None => balance,
                };
                if seen >= required {
                    FundingGate::Funded { balance: seen }
                } else if attempts >= MAX_RETRY - 1 {
                    FundingGate::Exhausted { required, balance: seen }
                } else {
                    FundingGate::Polling { required, balance: seen, attempts: attempts + 1 }
                }
            },
            _ => self,
        }
    }

    /// What the caller is asked to do next.
    pub fn action(&self) -> (action: FundingAction)
        ensures
            action == self.wanted(),
    {
        match self {
            FundingGate::Funded { .. } => FundingAction::Proceed,
            FundingGate::Transfer { amount, .. } => FundingAction::SendTransfer(*amount),
            FundingGate::Polling { .. } => FundingAction::QueryBalance,
            FundingGate::Exhausted { .. } => FundingAction::Fail,
        }
    }

    /// The verdict of the funding gate for the account `address`:
    /// `Some(Ok(()))` once it is funded, `Some(Err(..))` with the
    /// insufficient-balance error once it is exhausted, `None` while it is
    /// undecided.
    pub fn verdict(&self, address: &str) -> (r: Option<Result<(), UploadError>>)
        ensures
            match r {
                Some(Ok(())) => *self is Funded,
                Some(Err(e)) => *self is Exhausted && e@ == UploadErrorView::NoBundlrBalance(
                    address@,
                ),
                None => *self is Transfer || *self is Polling,
            },
    {
        match self {
            FundingGate::Funded { .. } => Some(Ok(())),
            FundingGate::Exhausted { .. } => Some(Err(UploadError::NoBundlrBalance(address.to_owned()))),
            _ => None,
        }
    }
}

/// Whether no reading of `readings` covers `required`.
pub open spec fn all_short(readings: Seq<Option<u64>>, required: u64) -> bool {
    forall|i: int|
        0 <= i < readings.len() ==> match #[trigger] readings[i] {
            Some(value) => value < required,
            None => true,
        }
}

impl FundingGate {
    /// The funding gate after the balance has been queried once for each
    /// reading of `readings`, in order.
    pub open spec fn polled(self, readings: Seq<Option<u64>>) -> FundingGate
        decreases readings.len(),
    {
        if readings.len() == 0 {
            self
        } else {
            self.polled(readings.drop_last()).observed(readings.last())
        }
    }
}

/// The top-up is idempotent: the amount that the funding gate asks to transfer
/// is exactly what is missing, so that at the balance after the transfer the
/// funding gate is funded and asks for no second transfer.
pub proof fn lemma_top_up_is_idempotent(required: u64, balance: u64)
    requires
        balance < required,
    ensures
        FundingGate::opened(required, balance) matches FundingGate::Transfer { amount, .. }
            && balance + amount == required && FundingGate::opened(
            required,
            (balance + amount) as u64,
        ) == (FundingGate::Funded { balance: required }),
{
}

/// No event makes a funding gate ask for a transfer that did not ask for one
/// before.
pub proof fn lemma_step_asks_no_transfer(state: FundingGate, event: FundingEvent)
    requires
        !(state is Transfer),
    ensures
        !(state.stepped(event) is Transfer),
{
}

/// A funding gate that does not ask for a transfer never asks for one later,
/// whatever is reported to it.
pub proof fn lemma_never_asks_again(state: FundingGate, events: Seq<FundingEvent>)
    requires
        !(state is Transfer),
    ensures
        !(state.after(events) is Transfer),
    decreases events.len(),
{
    if events.len() > 0 {
        lemma_never_asks_again(state, events.drop_last());
    }
}

/// The funding gate asks for at most one transfer: once a transfer has been
/// confirmed, no later state of the funding gate asks for a transfer, whatever
/// the balance turns out to be.
pub proof fn lemma_single_transfer(required: u64, balance: u64, events: Seq<FundingEvent>)
    ensures
        !(FundingGate::opened(required, balance).confirmed().after(events) is Transfer),
{
    lemma_never_asks_again(FundingGate::opened(required, balance).confirmed(), events);
}

/// While fewer readings than the budget have come in and none covered the
/// requirement, the funding gate polls on and has counted them.
pub proof fn lemma_polls_on(required: u64, balance: u64, readings: Seq<Option<u64>>)
    requires
        balance < required,
        readings.len() < MAX_RETRY,
        all_short(readings, required),
    ensures
        (FundingGate::Polling { required, balance, attempts: 0 }).polled(readings) matches FundingGate::Polling {
            required: r,
            balance: b,
            attempts: a,
        } && r == required && b < required && a == readings.len(),
    decreases readings.len(),
{
    if readings.len() > 0 {
        let earlier = readings.drop_last();
        lemma_polls_on(required, balance, earlier);
    }
}

/// If the balance stays short through all `MAX_RETRY` queries after the
/// transfer, the funding gate ends exhausted: it asks the caller to give up
/// and no upload is started.
pub proof fn lemma_exhausted_after_budget(required: u64, balance: u64, readings: Seq<Option<u64>>)
    requires
        balance < required,
        readings.len() == MAX_RETRY,
        all_short(readings, required),
    ensures
        (FundingGate::Polling { required, balance, attempts: 0 }).polled(readings) is Exhausted,
        (FundingGate::Polling { required, balance, attempts: 0 }).polled(readings).wanted()
            == FundingAction::Fail,
{
    let earlier = readings.drop_last();
    lemma_polls_on(required, balance, earlier);
}

/// The first reading that covers the requirement, if it comes within the
/// budget, funds the funding gate.
pub proof fn lemma_funded_on_cover(
    required: u64,
    balance: u64,
    readings: Seq<Option<u64>>,
    value: u64,
)
    requires
        balance < required,
        readings.len() < MAX_RETRY,
        all_short(readings, required),
        value >= required,
    ensures
        (FundingGate::Polling { required, balance, attempts: 0 }).polled(readings.push(Some(value)))
            == (FundingGate::Funded { balance: value }),
{
    lemma_polls_on(required, balance, readings);
    assert(readings.push(Some(value)).drop_last() =~= readings);
}

} // verus!
