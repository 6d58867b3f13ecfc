//! Sequences of calls to the entry points that change the ledger, and what
//! they leave behind. Reading entry points take the ledger by shared
//! reference and so never change it; they are not calls here.
use vstd::prelude::*;

use crate::model::ContractModel;
use crate::types::{Milestone, NevoError};

verus! {

/// A call of an entry point that may change the ledger, with its arguments
/// as plain values.
pub enum Call {
    SetAdmin { admin: Seq<char> },
    RegisterSchool { admin: Seq<char>, school: Seq<char> },
    CreatePool { creator: Seq<char>, goal: u128 },
    CreatePoolForSchool { creator: Seq<char>, goal: u128, school: Seq<char> },
    Donate { id: u32, amount: u128 },
    ClosePool { id: u32 },
    ApplyToPool { id: u32, student: Seq<char>, data: Seq<char> },
    ApproveApplication { id: u32, school: Seq<char>, student: Seq<char>, approved: bool },
    SetupMilestones { id: u32, student: Seq<char>, milestones: Seq<Milestone> },
    SetApplicationStatus { id: u32, student: Seq<char>, status: Seq<char> },
    WithdrawUnallocatedFunds { id: u32, token: Seq<char> },
    ClaimFunds { student: Seq<char>, id: u32, amount: i128, token: Seq<char> },
    ClaimProtocolFees { admin: Seq<char>, token: Seq<char> },
}

/// The ledger a call leaves when it succeeds, or why it fails.
pub open spec fn outcome(m: ContractModel, c: Call) -> Result<ContractModel, NevoError> {
    match c {
        Call::SetAdmin { admin } => Ok(m.set_admin(admin)),
        Call::RegisterSchool { admin, school } => m.register_school(admin, school),
        Call::CreatePool { creator, goal } => match m.create_pool(creator, goal) {
            Ok((m1, _)) => Ok(m1),
            Err(e) => Err(e),
        },
        Call::CreatePoolForSchool { creator, goal, school } => match m.create_pool_for_school(creator, goal, school) {
            Ok((m1, _)) => Ok(m1),
            Err(e) => Err(e),
        },
        Call::Donate { id, amount } => m.donate(id, amount),
        Call::ClosePool { id } => m.close_pool(id),
        Call::ApplyToPool { id, student, data } => m.apply_to_pool(id, student, data),
        Call::ApproveApplication { id, school, student, approved } => m.approve_application(id, school, student, approved),
        Call::SetupMilestones { id, student, milestones } => m.setup_application_milestones(id, student, milestones),
        Call::SetApplicationStatus { id, student, status } => Ok(m.set_application_status(id, student, status)),
        Call::WithdrawUnallocatedFunds { id, token } => match m.withdraw_unallocated_funds(id, token) {
            Ok((m1, _)) => Ok(m1),
            Err(e) => Err(e),
        },
        Call::ClaimFunds { student, id, amount, token } => match m.claim_funds(student, id, amount, token) {
            Ok((m1, _)) => Ok(m1),
            Err(e) => Err(e),
        },
        Call::ClaimProtocolFees { admin, token } => match m.claim_protocol_fees(admin, token) {
            Ok((m1, _)) => Ok(m1),
            Err(e) => Err(e),
        },
    }
}

/// The ledger after a call: the new one if it succeeded, the old one if it
/// failed.
pub open spec fn after(m: ContractModel, c: Call) -> ContractModel {
    match outcome(m, c) {
        Ok(m1) => m1,
        Err(_) => m,
    }
}

/// The ledger after the calls, made in order.
pub open spec fn run(m: ContractModel, calls: Seq<Call>) -> ContractModel
    decreases calls.len(),
{
    if calls.len() == 0 {
        m
    } else {
        run(after(m, calls[0]), calls.drop_first())
    }
}

/// The ids of the pools the successful creating calls returned, in order.
pub open spec fn created_ids(m: ContractModel, calls: Seq<Call>) -> Seq<u32>
    decreases calls.len(),
{
    if calls.len() == 0 {
        Seq::empty()
    } else {
        let c = calls[0];
        let created = match c {
            Call::CreatePool { .. } => outcome(m, c) is Ok,
            Call::CreatePoolForSchool { .. } => outcome(m, c) is Ok,
            _ => false,
        };
        let rest = created_ids(after(m, c), calls.drop_first());
        if created {
            seq![(m.pools.len() + 1) as u32] + rest
        } else {
            rest
        }
    }
}

/// Whether `c` is a successful claim of `student` on pool `id`.
pub open spec fn is_claim_of(m: ContractModel, c: Call, id: u32, student: Seq<char>) -> bool {
    &&& c matches Call::ClaimFunds { student: s, id: i, .. }
    &&& s == student
    &&& i == id
    &&& outcome(m, c) is Ok
}

/// The sum of the amounts of the successful claims of `student` on pool
/// `id` among the calls.
pub open spec fn claimed_in(m: ContractModel, calls: Seq<Call>, id: u32, student: Seq<char>) -> int
    decreases calls.len(),
{
    if calls.len() == 0 {
        0
    } else {
        let c = calls[0];
        let here: int = if is_claim_of(m, c, id, student) { c->ClaimFunds_amount as int } else { 0 };
        here + claimed_in(after(m, c), calls.drop_first(), id, student)
    }
}

/// Whether a claim of `student` on pool `id` succeeded among the calls.
pub open spec fn any_claim_in(m: ContractModel, calls: Seq<Call>, id: u32, student: Seq<char>) -> bool
    decreases calls.len(),
{
    if calls.len() == 0 {
        false
    } else {
        is_claim_of(m, calls[0], id, student) || any_claim_in(after(m, calls[0]), calls.drop_first(), id, student)
    }
}

/// The milestones of `student` on pool `id` after the calls: those of the
/// last successful setup for them among the calls, `current` if there is
/// none.
pub open spec fn last_milestones(current: Seq<Milestone>, m: ContractModel, calls: Seq<Call>, id: u32, student: Seq<char>) -> Seq<Milestone>
    decreases calls.len(),
{
    if calls.len() == 0 {
        current
    } else {
        let c = calls[0];
        let next = match c {
            Call::SetupMilestones { id: i, student: s, milestones } =>
                if i == id && s == student && outcome(m, c) is Ok { milestones } else { current },
            _ => current,
        };
        last_milestones(next, after(m, c), calls.drop_first(), id, student)
    }
}

} // verus!
