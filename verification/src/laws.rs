//! Properties of the contract that span entry points, proved over the model
//! that the entry points' contracts are stated in.
use vstd::prelude::*;

use crate::model::{
    approved_status, milestone_total, pending_status, rejected_status, ContractModel, TransferView,
};
use crate::history::{
    after, any_claim_in, claimed_in, created_ids, is_claim_of, last_milestones, outcome, run, Call,
};
use crate::types::{Milestone, NevoError};

verus! {

/// A new pool gets the next id, the pool count becomes that id, and the
/// pool reads back with its sponsor and goal, nothing collected and open.
/// Creating a pool succeeds whenever fewer than `u32::MAX` pools exist.
pub proof fn law_created_pool_reads_back(m: ContractModel, creator: Seq<char>, goal: u128)
    requires
        m.valid(),
    ensures
        m.pools.len() < u32::MAX ==> m.create_pool(creator, goal) is Ok,
        match m.create_pool(creator, goal) {
            Ok((m1, id)) => {
                &&& id == m.pools.len() + 1
                &&& m1.pools.len() == id
                &&& m1.get_pool(id) == Ok::<(u32, Seq<char>, u128, u128, bool), NevoError>((id, creator, goal, 0u128, false))
                &&& forall|other: u32| other != id ==> m1.get_pool(other) == m.get_pool(other)
            },
            Err(e) => e == NevoError::ArithmeticOverflow,
        },
{
}

/// A donation to an open pool adds exactly its amount to the pool's total
/// and changes nothing else about the pool's sponsor, goal or state.
pub proof fn law_donation_adds_amount(m: ContractModel, id: u32, amount: u128)
    requires
        m.valid(),
    ensures
        match m.donate(id, amount) {
            Ok(m1) => {
                &&& m.get_pool(id) is Ok
                &&& m1.get_pool(id) is Ok
                &&& m1.get_pool(id)->Ok_0.3 == m.get_pool(id)->Ok_0.3 + amount
                &&& m1.get_pool(id)->Ok_0.1 == m.get_pool(id)->Ok_0.1
                &&& m1.get_pool(id)->Ok_0.2 == m.get_pool(id)->Ok_0.2
                &&& !m1.get_pool(id)->Ok_0.4
            },
            Err(_) => true,
        },
        m.pool_exists(id) && !m.pool(id).info.is_closed && m.pool(id).info.collected + amount <= u128::MAX
            && m.pool(id).donations < u32::MAX ==> m.donate(id, amount) is Ok,
{
}

/// Two donations to a pool add up.
pub proof fn law_donations_accumulate(m: ContractModel, id: u32, a1: u128, a2: u128)
    requires
        m.valid(),
        m.donate(id, a1) is Ok,
        m.donate(id, a1)->Ok_0.donate(id, a2) is Ok,
    ensures
        m.donate(id, a1)->Ok_0.donate(id, a2)->Ok_0.get_pool(id)->Ok_0.3 == m.get_pool(id)->Ok_0.3 + a1 + a2,
{
}

/// A closed pool refuses donations, and closing it keeps what it collected.
pub proof fn law_closed_pool_refuses_donations(m: ContractModel, id: u32, amount: u128)
    requires
        m.valid(),
        m.close_pool(id) is Ok,
    ensures
        m.close_pool(id)->Ok_0.donate(id, amount) == Err::<ContractModel, NevoError>(NevoError::PoolClosed),
        m.close_pool(id)->Ok_0.get_pool(id)->Ok_0.3 == m.get_pool(id)->Ok_0.3,
        m.close_pool(id)->Ok_0.get_pool(id)->Ok_0.4,
{
}

/// Reading a status gives back what was last written for that pool and
/// student, and writing it leaves every other status as it was.
pub proof fn law_status_read_after_write(m: ContractModel, id: u32, student: Seq<char>, status: Seq<char>, id2: u32, student2: Seq<char>)
    ensures
        m.set_application_status(id, student, status).get_application_status(id, student) == status,
        (id2, student2) != (id, student) ==> m.set_application_status(id, student, status).get_application_status(id2, student2)
            == m.get_application_status(id2, student2),
{
}

/// A new application is pending, and the same student cannot apply to the
/// same pool again.
pub proof fn law_application_pending_and_unique(m: ContractModel, id: u32, student: Seq<char>, data: Seq<char>, data2: Seq<char>)
    requires
        m.valid(),
        m.apply_to_pool(id, student, data) is Ok,
    ensures
        m.apply_to_pool(id, student, data)->Ok_0.get_application_status(id, student) == pending_status(),
        m.apply_to_pool(id, student, data)->Ok_0.apply_to_pool(id, student, data2)
            == Err::<ContractModel, NevoError>(NevoError::DuplicateApplication),
{
    let m1 = m.apply_to_pool(id, student, data)->Ok_0;
    let n = m.pool(id).applications.len() as int;
    assert(m1.pool(id).applications[n].0 == student);
}

/// Once the linked school approves an application, the status is
/// "Approved" and a positive claim by the student passes the status checks;
/// once it rejects it, the status is "Rejected".
pub proof fn law_approval_opens_claims(
    m: ContractModel,
    id: u32,
    school: Seq<char>,
    student: Seq<char>,
    approved: bool,
    amount: i128,
    token: Seq<char>,
)
    requires
        m.valid(),
        m.approve_application(id, school, student, approved) is Ok,
    ensures
        m.get_pool_school(id) == Ok::<Seq<char>, NevoError>(school),
        m.has_applied(id, student),
        m.approve_application(id, school, student, approved)->Ok_0.get_application_status(id, student)
            == if approved { approved_status() } else { rejected_status() },
        approved && amount > 0 ==> {
            let r = m.approve_application(id, school, student, approved)->Ok_0.claim_funds(student, id, amount, token);
            r != Err::<(ContractModel, TransferView), NevoError>(NevoError::StatusNotFound)
                && r != Err::<(ContractModel, TransferView), NevoError>(NevoError::NotApproved)
                && r != Err::<(ContractModel, TransferView), NevoError>(NevoError::PoolNotFound)
        },
{
}

/// A claim splits into a fee of one percent (rounded down), which is added
/// to the unclaimed protocol fees, and a transfer of the rest to the
/// student; the student's claimed amount grows by the whole claim, never
/// beyond what the pool collected, and the pools are untouched.
pub proof fn law_claim_splits_fee(m: ContractModel, student: Seq<char>, id: u32, amount: i128, token: Seq<char>)
    requires
        m.valid(),
    ensures
        match m.claim_funds(student, id, amount, token) {
            Ok((m1, t)) => {
                &&& amount > 0
                &&& t.to == student
                &&& t.token == token
                &&& t.amount + amount / 100 == amount
                &&& m1.unclaimed_fees == m.unclaimed_fees + amount / 100
                &&& m1.get_claimed_amount(id, student) == m.claim_record(id, student).amount_claimed + amount
                &&& m1.get_claimed_amount(id, student) <= m.pool(id).info.collected as i128
                &&& m1.get_claimed_amount(id, student) <= m.claim_record(id, student).approved_amount
                &&& m1.pools == m.pools
                &&& m1.statuses == m.statuses
            },
            Err(_) => true,
        },
{
}

/// Claimed amounts accumulate: a first claim starts from zero.
pub proof fn law_first_claim_starts_from_zero(m: ContractModel, student: Seq<char>, id: u32, amount: i128, token: Seq<char>)
    requires
        m.valid(),
        m.get_application(id, student) is None,
        m.claim_funds(student, id, amount, token) is Ok,
    ensures
        m.claim_funds(student, id, amount, token)->Ok_0.0.get_claimed_amount(id, student) == amount,
        m.claim_funds(student, id, amount, token)->Ok_0.0.get_application(id, student)
            == Some(crate::types::Application { approved_amount: m.pool(id).info.collected as i128, amount_claimed: amount }),
{
}

/// Only the stored admin collects the protocol fees; collecting pays out all
/// of them and resets them, so collecting again right after finds none.
pub proof fn law_fees_reset_after_collection(m: ContractModel, admin: Seq<char>, token: Seq<char>, token2: Seq<char>)
    requires
        m.valid(),
        m.claim_protocol_fees(admin, token) is Ok,
    ensures
        m.admin == Some(admin),
        m.claim_protocol_fees(admin, token)->Ok_0.1 == (TransferView { token, to: admin, amount: m.unclaimed_fees }),
        m.claim_protocol_fees(admin, token)->Ok_0.0.claim_protocol_fees(admin, token2)
            == Err::<(ContractModel, TransferView), NevoError>(NevoError::NoUnclaimedFees),
{
}

/// The locked funds of a pool depend only on its applications and on the
/// statuses and claim records.
pub proof fn lemma_locked_depends_on(m: ContractModel, m1: ContractModel, id: u32, n: nat)
    requires
        m.pool_exists(id),
        m1.pool_exists(id),
        m1.pool(id).applications == m.pool(id).applications,
        m1.statuses == m.statuses,
        m1.claims == m.claims,
        n <= m.pool(id).applications.len(),
    ensures
        m1.locked_upto(id, n) == m.locked_upto(id, n),
    decreases n,
{
    if n > 0 {
        lemma_locked_depends_on(m, m1, id, (n - 1) as nat);
    }
}

/// A withdrawal sends the sponsor exactly the surplus over the locked funds
/// and leaves the pool holding just the locked funds, so withdrawing again
/// right after finds no surplus.
pub proof fn law_withdrawal_leaves_locked_funds(m: ContractModel, id: u32, token: Seq<char>, token2: Seq<char>)
    requires
        m.valid(),
        m.withdraw_unallocated_funds(id, token) is Ok,
    ensures
        m.locked_funds(id) is Ok,
        ({
            let (m1, t) = m.withdraw_unallocated_funds(id, token)->Ok_0;
            let locked = m.locked_funds(id)->Ok_0;
            &&& 0 <= locked < m.pool(id).info.collected
            &&& m1.pool(id).info.collected == locked
            &&& t.to == m.pool(id).info.sponsor
            &&& t.amount == ((m.pool(id).info.collected - locked) as u128) as i128
            &&& m1.withdraw_unallocated_funds(id, token2) == Err::<(ContractModel, TransferView), NevoError>(NevoError::NoSurplus)
        }),
{
    let m1 = m.withdraw_unallocated_funds(id, token)->Ok_0.0;
    assert(m.locked_upto(id, 0) == Ok::<int, NevoError>(0));
    lemma_locked_nonneg(m, id, m.pool(id).applications.len());
    lemma_locked_depends_on(m, m1, id, m.pool(id).applications.len());
}

/// Summed locked funds are never negative.
pub proof fn lemma_locked_nonneg(m: ContractModel, id: u32, n: nat)
    ensures
        m.locked_upto(id, n) is Ok ==> m.locked_upto(id, n)->Ok_0 >= 0,
    decreases n,
{
    if n > 0 {
        lemma_locked_nonneg(m, id, (n - 1) as nat);
    }
}

/// Stored milestones are never empty and add up to the pool's goal.
pub proof fn law_milestones_match_goal(m: ContractModel, id: u32, student: Seq<char>, ms: Seq<Milestone>)
    requires
        m.valid(),
        m.setup_application_milestones(id, student, ms) is Ok,
    ensures
        m.setup_application_milestones(id, student, ms)->Ok_0.get_milestones(id, student) == ms,
        ms.len() > 0,
        milestone_total(ms) == m.pool(id).info.goal,
{
}

/// Only the stored admin registers schools, and a registered school stays
/// registered.
pub proof fn law_registered_school(m: ContractModel, admin: Seq<char>, school: Seq<char>, other: Seq<char>)
    requires
        m.valid(),
        m.register_school(admin, school) is Ok,
    ensures
        m.admin == Some(admin),
        m.register_school(admin, school)->Ok_0.schools.contains(school),
        m.schools.contains(other) ==> m.register_school(admin, school)->Ok_0.schools.contains(other),
{
}

/// A pool created for a school is linked to it and otherwise reads back as
/// any new pool.
pub proof fn law_school_pool_linked(m: ContractModel, creator: Seq<char>, goal: u128, school: Seq<char>)
    requires
        m.valid(),
        m.create_pool_for_school(creator, goal, school) is Ok,
    ensures
        m.schools.contains(school),
        ({
            let (m1, id) = m.create_pool_for_school(creator, goal, school)->Ok_0;
            &&& m1.get_pool_school(id) == Ok::<Seq<char>, NevoError>(school)
            &&& m1.get_pool(id) == Ok::<(u32, Seq<char>, u128, u128, bool), NevoError>((id, creator, goal, 0u128, false))
        }),
{
}

/// A claim keeps the student's claimed total within the approved amount of
/// the claim record: the amount already claimed plus the new claim never
/// exceeds `approved_amount`, which the claim leaves as it was.
pub proof fn law_claims_within_approved_amount(m: ContractModel, student: Seq<char>, id: u32, amount: i128, token: Seq<char>)
    requires
        m.valid(),
        m.claim_funds(student, id, amount, token) is Ok,
    ensures
        ({
            let a = m.claim_funds(student, id, amount, token)->Ok_0.0.get_application(id, student);
            a is Some && a->0.amount_claimed <= a->0.approved_amount
                && a->0.approved_amount == m.claim_record(id, student).approved_amount
        }),
{
}

// ─── Laws over sequences of calls ─────────────────────────────────────────

/// Every claim record has a non-negative claimed total within its approved
/// amount.
pub open spec fn claims_bounded(m: ContractModel) -> bool {
    forall|k: (u32, Seq<char>)|
        #[trigger] m.claims.contains_key(k) ==> 0 <= m.claims[k].amount_claimed <= m.claims[k].approved_amount
}

/// What one call does to the pools, claim records and milestones.
pub proof fn lemma_after_one(m: ContractModel, c: Call, id: u32, student: Seq<char>)
    ensures
        after(m, c).pools.len() == m.pools.len() + (if created_ids(m, seq![c]).len() > 0 { 1int } else { 0 }),
        created_ids(m, seq![c]).len() > 0 ==> created_ids(m, seq![c]) == seq![(m.pools.len() + 1) as u32]
            && m.pools.len() < u32::MAX,
        forall|i: int| 0 <= i < m.pools.len() ==> {
            &&& (#[trigger] after(m, c).pools[i]).info.sponsor == m.pools[i].info.sponsor
            &&& after(m, c).pools[i].info.goal == m.pools[i].info.goal
            &&& (m.pools[i].school is Some ==> after(m, c).pools[i].school == m.pools[i].school)
        },
        after(m, c).get_claimed_amount(id, student) == m.get_claimed_amount(id, student)
            + (if is_claim_of(m, c, id, student) { c->ClaimFunds_amount as int } else { 0 }),
        after(m, c).get_application(id, student) is Some <==> (m.get_application(id, student) is Some || is_claim_of(m, c, id, student)),
        after(m, c).get_milestones(id, student) == (match c {
            Call::SetupMilestones { id: i, student: s, milestones } =>
                if i == id && s == student && outcome(m, c) is Ok { milestones } else { m.get_milestones(id, student) },
            _ => m.get_milestones(id, student),
        }),
        claims_bounded(m) ==> claims_bounded(after(m, c)),
{
    reveal_with_fuel(created_ids, 2);
    let cs = seq![c];
    assert(cs.drop_first() =~= Seq::<Call>::empty());
    match c {
        Call::ClaimFunds { student: s, id: i, amount, token } => {
            if outcome(m, c) is Ok {
                let m1 = after(m, c);
                assert forall|k: (u32, Seq<char>)| #[trigger] m1.claims.contains_key(k) && claims_bounded(m) implies
                    0 <= m1.claims[k].amount_claimed <= m1.claims[k].approved_amount by {
                    if k != (i, s) {
                        assert(m.claims.contains_key(k));
                    }
                }
            }
        },
        _ => {},
    }
}

/// Pools are never removed or overwritten: over any calls, the pool count
/// never decreases, every pool keeps its sponsor, its goal and the school it
/// is linked to, and each successful creation returns the next id, so the
/// ids returned are distinct, increasing and exactly the new pools.
pub proof fn law_pools_persist(m: ContractModel, calls: Seq<Call>)
    ensures
        run(m, calls).pools.len() == m.pools.len() + created_ids(m, calls).len(),
        forall|j: int| 0 <= j < created_ids(m, calls).len() ==>
            #[trigger] created_ids(m, calls)[j] as int == m.pools.len() + j + 1,
        forall|i: int| 0 <= i < m.pools.len() ==> {
            &&& (#[trigger] run(m, calls).pools[i]).info.sponsor == m.pools[i].info.sponsor
            &&& run(m, calls).pools[i].info.goal == m.pools[i].info.goal
            &&& (m.pools[i].school is Some ==> run(m, calls).pools[i].school == m.pools[i].school)
        },
    decreases calls.len(),
{
    if calls.len() > 0 {
        let c = calls[0];
        let m1 = after(m, c);
        let rest = calls.drop_first();
        lemma_after_one(m, c, 0, Seq::empty());
        law_pools_persist(m1, rest);
        reveal_with_fuel(created_ids, 2);
        assert(seq![c].drop_first() =~= Seq::<Call>::empty());
        let ids = created_ids(m, calls);
        let rids = created_ids(m1, rest);
        if created_ids(m, seq![c]).len() > 0 {
            assert(ids == seq![(m.pools.len() + 1) as u32] + rids);
            assert forall|j: int| 0 <= j < ids.len() implies #[trigger] ids[j] as int == m.pools.len() + j + 1 by {
                if j > 0 {
                    assert(ids[j] == rids[j - 1]);
                }
            }
        } else {
            assert(ids == rids);
        }
    }
}

/// The claim record of a student on a pool holds the sum of all their
/// successful claims on it: over any calls, the claimed amount grows by
/// exactly the amounts of the successful claims, and a record exists
/// afterwards exactly when one existed before or a claim succeeded.
pub proof fn law_claims_accumulate(m: ContractModel, calls: Seq<Call>, id: u32, student: Seq<char>)
    ensures
        run(m, calls).get_claimed_amount(id, student) == m.get_claimed_amount(id, student) + claimed_in(m, calls, id, student),
        run(m, calls).get_application(id, student) is Some
            <==> (m.get_application(id, student) is Some || any_claim_in(m, calls, id, student)),
    decreases calls.len(),
{
    if calls.len() > 0 {
        lemma_after_one(m, calls[0], id, student);
        law_claims_accumulate(after(m, calls[0]), calls.drop_first(), id, student);
    }
}

/// From a new contract, a student's claim record on a pool is absent until
/// one of their claims on it succeeds, and then holds the sum of the amounts
/// of all their successful claims on it.
pub proof fn law_claim_record_from_start(calls: Seq<Call>, id: u32, student: Seq<char>)
    ensures
        run(ContractModel::empty(), calls).get_application(id, student) is None
            <==> !any_claim_in(ContractModel::empty(), calls, id, student),
        run(ContractModel::empty(), calls).get_application(id, student) is Some ==>
            run(ContractModel::empty(), calls).get_application(id, student)->0.amount_claimed
                == claimed_in(ContractModel::empty(), calls, id, student),
{
    law_claims_accumulate(ContractModel::empty(), calls, id, student);
}

/// A student's milestones for a pool are those of the last successful setup
/// among any calls, and otherwise what they were before.
pub proof fn law_milestones_last_setup(m: ContractModel, calls: Seq<Call>, id: u32, student: Seq<char>)
    ensures
        run(m, calls).get_milestones(id, student) == last_milestones(m.get_milestones(id, student), m, calls, id, student),
    decreases calls.len(),
{
    if calls.len() > 0 {
        lemma_after_one(m, calls[0], id, student);
        law_milestones_last_setup(after(m, calls[0]), calls.drop_first(), id, student);
    }
}

/// From a new contract, `get_milestones` gives the milestones of the last
/// successful setup for the pool and student, and nothing if none succeeded.
pub proof fn law_milestones_from_start(calls: Seq<Call>, id: u32, student: Seq<char>)
    ensures
        run(ContractModel::empty(), calls).get_milestones(id, student)
            == last_milestones(Seq::empty(), ContractModel::empty(), calls, id, student),
{
    law_milestones_last_setup(ContractModel::empty(), calls, id, student);
}

/// Claims never exceed approved amounts: from a new contract, after any
/// calls, every claim record has a non-negative claimed total no larger than
/// its approved amount.
pub proof fn law_claim_records_bounded(calls: Seq<Call>)
    ensures
        claims_bounded(run(ContractModel::empty(), calls)),
{
    lemma_claims_bounded_kept(ContractModel::empty(), calls);
}

/// Calls keep claim records bounded.
pub proof fn lemma_claims_bounded_kept(m: ContractModel, calls: Seq<Call>)
    requires
        claims_bounded(m),
    ensures
        claims_bounded(run(m, calls)),
    decreases calls.len(),
{
    if calls.len() > 0 {
        lemma_after_one(m, calls[0], 0, Seq::empty());
        lemma_claims_bounded_kept(after(m, calls[0]), calls.drop_first());
    }
}

// ─── What the entry points do not refuse ──────────────────────────────────

/// Withdrawing does not depend on whether the pool is closed: whenever the
/// pool exists and its locked funds sum without failure to less than it has
/// collected, the withdrawal succeeds; and closing the pool first changes
/// neither whether a withdrawal succeeds, nor what it transfers, nor why it
/// fails.
pub proof fn law_withdraw_ignores_closing(m: ContractModel, id: u32, token: Seq<char>)
    requires
        m.valid(),
        m.pool_exists(id),
    ensures
        m.locked_funds(id) is Ok && m.locked_funds(id)->Ok_0 < m.pool(id).info.collected
            ==> m.withdraw_unallocated_funds(id, token) is Ok,
        m.close_pool(id) is Ok,
        m.close_pool(id)->Ok_0.withdraw_unallocated_funds(id, token) is Ok
            <==> m.withdraw_unallocated_funds(id, token) is Ok,
        m.withdraw_unallocated_funds(id, token) is Ok ==>
            m.close_pool(id)->Ok_0.withdraw_unallocated_funds(id, token)->Ok_0.1 == m.withdraw_unallocated_funds(id, token)->Ok_0.1,
        m.withdraw_unallocated_funds(id, token) is Err ==>
            m.close_pool(id)->Ok_0.withdraw_unallocated_funds(id, token) == m.withdraw_unallocated_funds(id, token),
{
    let m1 = m.close_pool(id)->Ok_0;
    lemma_locked_depends_on(m, m1, id, m.pool(id).applications.len());
}

/// A pool without applications locks nothing: withdrawing from it succeeds
/// exactly when it has collected something, and transfers all of it to the
/// sponsor.
pub proof fn law_withdraw_without_applications(m: ContractModel, id: u32, token: Seq<char>)
    requires
        m.valid(),
        m.pool_exists(id),
        m.pool(id).applications.len() == 0,
    ensures
        m.withdraw_unallocated_funds(id, token) is Ok <==> m.pool(id).info.collected > 0,
        m.withdraw_unallocated_funds(id, token) is Ok ==> {
            let (m1, t) = m.withdraw_unallocated_funds(id, token)->Ok_0;
            &&& t.to == m.pool(id).info.sponsor
            &&& t.amount == m.pool(id).info.collected as i128
            &&& m1.pool(id).info.collected == 0
        },
{
}

/// The part of the first `n` applications' locked funds that each approved
/// or pending application contributes is at most the sum.
pub proof fn lemma_locked_covers(m: ContractModel, id: u32, n: nat, j: int)
    requires
        m.pool_exists(id),
        n <= m.pool(id).applications.len(),
        0 <= j < n,
        m.locked_upto(id, n) is Ok,
    ensures
        m.locked_by(id, m.pool(id).applications[j].0) is Ok,
        0 <= m.locked_by(id, m.pool(id).applications[j].0)->Ok_0 <= m.locked_upto(id, n)->Ok_0,
    decreases n,
{
    lemma_locked_nonneg(m, id, (n - 1) as nat);
    if m.locked_upto(id, (n - 1) as nat) is Err {
        m.lemma_locked_err_persists(id, (n - 1) as nat, n);
    }
    if j < n - 1 {
        lemma_locked_covers(m, id, (n - 1) as nat, j);
    }
}

/// A withdrawal never takes what an applicant may still claim: after it,
/// the pool holds at least the approved amount minus the claimed amount of
/// every application whose status is "Approved" or "Pending" (with no claim
/// record, nothing).
pub proof fn law_withdraw_keeps_allowances(m: ContractModel, id: u32, token: Seq<char>, j: int)
    requires
        m.valid(),
        m.withdraw_unallocated_funds(id, token) is Ok,
        0 <= j < m.pool(id).applications.len(),
    ensures
        ({
            let s = m.pool(id).applications[j].0;
            let k = (id, s);
            let st = if m.statuses.contains_key(k) { m.statuses[k] } else { Seq::<char>::empty() };
            let m1 = m.withdraw_unallocated_funds(id, token)->Ok_0.0;
            (st == "Approved"@ || st == "Pending"@) && m.claims.contains_key(k) ==>
                m1.pool(id).info.collected >= m.claims[k].approved_amount - m.claims[k].amount_claimed
        }),
{
    lemma_locked_covers(m, id, m.pool(id).applications.len(), j);
}

/// A claim does not depend on whether the pool is closed: a positive claim
/// by a student whose status on an existing pool is "Approved" succeeds
/// whenever the new claimed total stays within what the pool has collected
/// and within the approved amount of the student's record (on a first claim,
/// what the pool has collected) and the fees do not overflow; and closing the
/// pool first changes neither whether a claim succeeds, nor what it
/// transfers, nor why it fails.
pub proof fn law_claim_ignores_closing(m: ContractModel, student: Seq<char>, id: u32, amount: i128, token: Seq<char>)
    requires
        m.valid(),
        m.pool_exists(id),
    ensures
        ({
            let k = (id, student);
            let collected = m.pool(id).info.collected as i128;
            let a = if m.claims.contains_key(k) {
                m.claims[k]
            } else {
                (crate::types::Application { approved_amount: collected, amount_claimed: 0 })
            };
            (amount > 0 && m.statuses.contains_key(k) && m.statuses[k] == "Approved"@
                && a.amount_claimed + amount <= collected && a.amount_claimed + amount <= a.approved_amount
                && m.unclaimed_fees + amount / 100 <= i128::MAX)
                ==> m.claim_funds(student, id, amount, token) is Ok
        }),
        m.close_pool(id) is Ok,
        m.close_pool(id)->Ok_0.claim_funds(student, id, amount, token) is Ok
            <==> m.claim_funds(student, id, amount, token) is Ok,
        m.claim_funds(student, id, amount, token) is Ok ==>
            m.close_pool(id)->Ok_0.claim_funds(student, id, amount, token)->Ok_0.1 == m.claim_funds(student, id, amount, token)->Ok_0.1,
        m.claim_funds(student, id, amount, token) is Err ==>
            m.close_pool(id)->Ok_0.claim_funds(student, id, amount, token) == m.claim_funds(student, id, amount, token),
{
}

/// The milestone total is the plain sum of the amounts: nothing for no
/// milestones, the amount for one, and additive over concatenation (so
/// appending a milestone adds its amount).
pub proof fn law_milestone_total_is_sum(ms: Seq<Milestone>, x: Milestone, ms2: Seq<Milestone>)
    ensures
        milestone_total(Seq::empty()) == 0,
        milestone_total(seq![x]) == x.amount,
        milestone_total(ms.push(x)) == milestone_total(ms) + x.amount,
        milestone_total(ms + ms2) == milestone_total(ms) + milestone_total(ms2),
    decreases ms2.len(),
{
    assert(seq![x].drop_last() =~= Seq::<Milestone>::empty());
    assert(ms.push(x).drop_last() =~= ms);
    if ms2.len() > 0 {
        law_milestone_total_is_sum(ms, x, ms2.drop_last());
        assert((ms + ms2).drop_last() =~= ms + ms2.drop_last());
        assert((ms + ms2).last() == ms2.last());
    } else {
        assert(ms + ms2 =~= ms);
    }
}

/// Setting milestones succeeds whenever the pool exists, the milestones are
/// not empty and their amounts add up to the pool's goal; the milestones are
/// then stored as given.
pub proof fn law_setup_milestones_succeeds(m: ContractModel, id: u32, student: Seq<char>, ms: Seq<Milestone>)
    requires
        m.valid(),
        m.pool_exists(id),
        ms.len() > 0,
        milestone_total(ms) == m.pool(id).info.goal,
    ensures
        m.setup_application_milestones(id, student, ms) is Ok,
        m.setup_application_milestones(id, student, ms)->Ok_0.get_milestones(id, student) == ms,
{
}

/// Applying is refused as a duplicate only within a pool: a student who has
/// not applied to an existing pool with fewer than `u32::MAX` applications
/// can apply to it, whatever they applied to elsewhere, and is then pending.
pub proof fn law_apply_succeeds(m: ContractModel, id: u32, student: Seq<char>, data: Seq<char>)
    requires
        m.valid(),
        m.pool_exists(id),
        forall|i: int| 0 <= i < m.pool(id).applications.len() ==> (#[trigger] m.pool(id).applications[i]).0 != student,
        m.pool(id).applications.len() < u32::MAX,
    ensures
        m.apply_to_pool(id, student, data) is Ok,
        m.apply_to_pool(id, student, data)->Ok_0.get_application_status(id, student) == "Pending"@,
{
}

/// A student can apply to two different pools: applying to one does not
/// stop a later application to the other, which then succeeds as it would
/// have alone.
pub proof fn law_apply_to_two_pools(m: ContractModel, id1: u32, id2: u32, student: Seq<char>, d1: Seq<char>, d2: Seq<char>)
    requires
        m.valid(),
        id1 != id2,
        m.apply_to_pool(id1, student, d1) is Ok,
        m.apply_to_pool(id2, student, d2) is Ok,
    ensures
        m.apply_to_pool(id1, student, d1)->Ok_0.apply_to_pool(id2, student, d2) is Ok,
        m.apply_to_pool(id1, student, d1)->Ok_0.apply_to_pool(id2, student, d2)->Ok_0.get_application_status(id1, student) == "Pending"@,
        m.apply_to_pool(id1, student, d1)->Ok_0.apply_to_pool(id2, student, d2)->Ok_0.get_application_status(id2, student) == "Pending"@,
{
    let m1 = m.apply_to_pool(id1, student, d1)->Ok_0;
    assert(m1.pool(id2) == m.pool(id2));
}

/// A registered school can have any number of pools: creating a pool for it
/// succeeds whenever fewer than `u32::MAX` pools exist, returns the next id
/// and links the pool to the school; two creations in a row both succeed.
pub proof fn law_school_pools_unlimited(m: ContractModel, c1: Seq<char>, g1: u128, c2: Seq<char>, g2: u128, school: Seq<char>)
    requires
        m.valid(),
        m.schools.contains(school),
    ensures
        m.pools.len() < u32::MAX ==> {
            &&& m.create_pool_for_school(c1, g1, school) is Ok
            &&& m.create_pool_for_school(c1, g1, school)->Ok_0.1 == m.pools.len() + 1
            &&& m.create_pool_for_school(c1, g1, school)->Ok_0.0.get_pool_school((m.pools.len() + 1) as u32)
                == Ok::<Seq<char>, NevoError>(school)
        },
        m.pools.len() + 1 < u32::MAX ==> {
            let m1 = m.create_pool_for_school(c1, g1, school)->Ok_0.0;
            &&& m1.create_pool_for_school(c2, g2, school) is Ok
            &&& m1.create_pool_for_school(c2, g2, school)->Ok_0.1 == m.pools.len() + 2
            &&& m1.create_pool_for_school(c2, g2, school)->Ok_0.0.get_pool_school((m.pools.len() + 2) as u32)
                == Ok::<Seq<char>, NevoError>(school)
            &&& m1.create_pool_for_school(c2, g2, school)->Ok_0.0.get_pool_school((m.pools.len() + 1) as u32)
                == Ok::<Seq<char>, NevoError>(school)
        },
{
}

/// Registering a school succeeds exactly when the caller is the stored
/// admin; with no admin stored it fails with `AdminNotSet`, and for any
/// other caller with `UnauthorizedAdmin`.
pub proof fn law_register_school_outcome(m: ContractModel, admin: Seq<char>, school: Seq<char>)
    requires
        m.valid(),
    ensures
        m.admin == Some(admin) ==> m.register_school(admin, school) is Ok,
        m.admin is None ==> m.register_school(admin, school) == Err::<ContractModel, NevoError>(NevoError::AdminNotSet),
        m.admin is Some && m.admin != Some(admin) ==>
            m.register_school(admin, school) == Err::<ContractModel, NevoError>(NevoError::UnauthorizedAdmin),
{
}

/// The school linked to a pool can decide any application made to it: the
/// decision succeeds whenever the caller is the linked school and the
/// student has applied to the pool.
pub proof fn law_approve_succeeds(m: ContractModel, id: u32, school: Seq<char>, student: Seq<char>, approved: bool, i: int)
    requires
        m.valid(),
        m.pool_exists(id),
        m.pool(id).school == Some(school),
        0 <= i < m.pool(id).applications.len(),
        m.pool(id).applications[i].0 == student,
    ensures
        m.approve_application(id, school, student, approved) is Ok,
{
    assert(m.has_applied(id, student));
}

/// The stored admin collects whatever fees are pending, as long as there
/// are any.
pub proof fn law_collect_fees_succeeds(m: ContractModel, admin: Seq<char>, token: Seq<char>)
    requires
        m.valid(),
        m.admin == Some(admin),
        m.unclaimed_fees != 0,
    ensures
        m.claim_protocol_fees(admin, token) is Ok,
        m.claim_protocol_fees(admin, token)->Ok_0.1.amount == m.unclaimed_fees,
        m.claim_protocol_fees(admin, token)->Ok_0.1.to == admin,
{
}

/// A claim succeeds only for a positive amount, by a student whose status
/// on an existing pool is "Approved", with the new claimed total within what
/// the pool has collected and within the approved amount of the record.
pub proof fn law_claim_requires_approval(m: ContractModel, student: Seq<char>, id: u32, amount: i128, token: Seq<char>)
    requires
        m.valid(),
        m.claim_funds(student, id, amount, token) is Ok,
    ensures
        amount > 0,
        m.pool_exists(id),
        m.statuses.contains_key((id, student)),
        m.statuses[(id, student)] == "Approved"@,
        ({
            let k = (id, student);
            let collected = m.pool(id).info.collected as i128;
            let a = if m.claims.contains_key(k) {
                m.claims[k]
            } else {
                (crate::types::Application { approved_amount: collected, amount_claimed: 0 })
            };
            a.amount_claimed + amount <= collected && a.amount_claimed + amount <= a.approved_amount
        }),
{
}

/// Only approved and pending applications lock funds: when no application
/// of a pool has status "Approved" or "Pending", a withdrawal succeeds
/// exactly when the pool has collected something and sends all of it.
pub proof fn law_withdraw_unlocked_pool(m: ContractModel, id: u32, token: Seq<char>)
    requires
        m.valid(),
        m.pool_exists(id),
        forall|j: int| 0 <= j < m.pool(id).applications.len() ==> {
            let k = (id, (#[trigger] m.pool(id).applications[j]).0);
            m.statuses.contains_key(k) ==> m.statuses[k] != "Approved"@ && m.statuses[k] != "Pending"@
        },
    ensures
        m.withdraw_unallocated_funds(id, token) is Ok <==> m.pool(id).info.collected > 0,
        m.withdraw_unallocated_funds(id, token) is Ok ==>
            m.withdraw_unallocated_funds(id, token)->Ok_0.1.amount == m.pool(id).info.collected as i128,
{
    lemma_unlocked_sum_zero(m, id, m.pool(id).applications.len());
}

/// The sum over applications that lock nothing is zero.
pub proof fn lemma_unlocked_sum_zero(m: ContractModel, id: u32, n: nat)
    requires
        m.pool_exists(id),
        n <= m.pool(id).applications.len(),
        forall|j: int| 0 <= j < m.pool(id).applications.len() ==> {
            let k = (id, (#[trigger] m.pool(id).applications[j]).0);
            m.statuses.contains_key(k) ==> m.statuses[k] != "Approved"@ && m.statuses[k] != "Pending"@
        },
    ensures
        m.locked_upto(id, n) == Ok::<int, NevoError>(0),
    decreases n,
{
    if n > 0 {
        lemma_unlocked_sum_zero(m, id, (n - 1) as nat);
        let s = m.pool(id).applications[n - 1].0;
        reveal_strlit("Approved");
        reveal_strlit("Pending");
        assert(!m.statuses.contains_key((id, s)) ==> m.get_application_status(id, s) == Seq::<char>::empty());
    }
}

/// With a single application, a withdrawal keeps exactly what its student
/// may still claim: if the status is "Approved" and the claim record (with a
/// non-negative claimed total) leaves a non-negative allowance below what the
/// pool has collected, the sponsor
/// receives the rest and the pool keeps the allowance.
pub proof fn law_withdraw_single_application(m: ContractModel, id: u32, token: Seq<char>)
    requires
        m.valid(),
        m.pool_exists(id),
        m.pool(id).applications.len() == 1,
        m.statuses.contains_key((id, m.pool(id).applications[0].0)),
        m.statuses[(id, m.pool(id).applications[0].0)] == "Approved"@,
        m.claims.contains_key((id, m.pool(id).applications[0].0)),
        ({
            let a = m.claims[(id, m.pool(id).applications[0].0)];
            0 <= a.amount_claimed && 0 <= a.approved_amount - a.amount_claimed < m.pool(id).info.collected
        }),
    ensures
        m.withdraw_unallocated_funds(id, token) is Ok,
        ({
            let a = m.claims[(id, m.pool(id).applications[0].0)];
            let (m1, t) = m.withdraw_unallocated_funds(id, token)->Ok_0;
            &&& m1.pool(id).info.collected == a.approved_amount - a.amount_claimed
            &&& t.amount == ((m.pool(id).info.collected - (a.approved_amount - a.amount_claimed)) as u128) as i128
        }),
{
    let s = m.pool(id).applications[0].0;
    let a = m.claims[(id, s)];
    let d = a.approved_amount - a.amount_claimed;
    assert(m.get_application_status(id, s) == approved_status());
    assert(m.get_application(id, s) == Some(a));
    assert(m.locked_by(id, s) == Ok::<int, NevoError>(d));
    assert(m.locked_upto(id, 0) == Ok::<int, NevoError>(0));
    assert(m.locked_upto(id, 1) == Ok::<int, NevoError>(d));
    assert(m.locked_funds(id) == Ok::<int, NevoError>(d));
}

/// Setting the admin takes effect at once, whoever was admin before: the
/// new admin can then register schools, and anyone else is refused.
pub proof fn law_set_admin_takes_effect(m: ContractModel, admin: Seq<char>, other: Seq<char>, school: Seq<char>)
    requires
        m.valid(),
        other != admin,
    ensures
        m.set_admin(admin).register_school(admin, school) is Ok,
        m.set_admin(admin).register_school(other, school) == Err::<ContractModel, NevoError>(NevoError::UnauthorizedAdmin),
{
}

} // verus!
