//! The mathematical model of the contract's ledger, and what each entry point
//! does to it.
use vstd::prelude::*;

use crate::types::{Application, Milestone, NevoError, PoolView};

verus! {

/// Everything the ledger keeps about one pool.
pub struct PoolState {
    /// Sponsor, goal, amount collected and whether the pool is closed.
    pub info: PoolView,
    /// The school the pool was created for, if any.
    pub school: Option<Seq<char>>,
    /// How many donations the pool has received.
    pub donations: u32,
    /// The applications in the order they were made: student and
    /// application data. Application number `n` is at index `n - 1`.
    pub applications: Seq<(Seq<char>, Seq<char>)>,
}

/// A token transfer out of the contract's balance, as plain values.
pub struct TransferView {
    pub token: Seq<char>,
    pub to: Seq<char>,
    pub amount: i128,
}

/// The ledger of the contract. Pool `id` is `pools[id - 1]`; statuses,
/// milestones and claim records are keyed by pool id and student.
pub struct ContractModel {
    pub admin: Option<Seq<char>>,
    pub schools: Set<Seq<char>>,
    pub pools: Seq<PoolState>,
    pub statuses: Map<(u32, Seq<char>), Seq<char>>,
    pub milestones: Map<(u32, Seq<char>), Seq<Milestone>>,
    pub claims: Map<(u32, Seq<char>), Application>,
    pub unclaimed_fees: i128,
}

/// The status an application gets when it is made.
pub open spec fn pending_status() -> Seq<char> {
    "Pending"@
}

/// The status of an application a school approved.
pub open spec fn approved_status() -> Seq<char> {
    "Approved"@
}

/// The status of an application a school rejected.
pub open spec fn rejected_status() -> Seq<char> {
    "Rejected"@
}

/// The sum of the amounts of the milestones.
pub open spec fn milestone_total(ms: Seq<Milestone>) -> int
    decreases ms.len(),
{
    if ms.len() == 0 {
        0
    } else {
        milestone_total(ms.drop_last()) + ms.last().amount
    }
}

/// The sum over a longer prefix is no smaller.
pub proof fn lemma_milestone_total_monotone(ms: Seq<Milestone>, i: int, j: int)
    requires
        0 <= i <= j <= ms.len(),
    ensures
        milestone_total(ms.take(i)) <= milestone_total(ms.take(j)),
    decreases j - i,
{
    if i < j {
        lemma_milestone_total_monotone(ms, i, j - 1);
        assert(ms.take(j).drop_last() =~= ms.take(j - 1));
    }
}

/// The pool as the pool getters report it: id, sponsor, goal, collected,
/// closed.
pub open spec fn pool_tuple(id: u32, p: PoolView) -> (u32, Seq<char>, u128, u128, bool) {
    (id, p.sponsor, p.goal, p.collected, p.is_closed)
}

/// The pools' counters fit `u32` and no student applies to a pool twice.
pub open spec fn pools_valid_spec(pools: Seq<PoolState>) -> bool {
    &&& pools.len() <= u32::MAX
    &&& forall|i: int| 0 <= i < pools.len() ==> #[trigger] pools[i].applications.len() <= u32::MAX
    &&& forall|i: int, a: int, b: int|
        0 <= i < pools.len() && 0 <= a < pools[i].applications.len()
            && 0 <= b < pools[i].applications.len() && a != b ==>
            (#[trigger] pools[i].applications[a]).0 != (#[trigger] pools[i].applications[b]).0
}

impl ContractModel {
    /// The ledger before any entry point ran.
    pub open spec fn empty() -> ContractModel {
        ContractModel {
            admin: None,
            schools: Set::empty(),
            pools: Seq::empty(),
            statuses: Map::empty(),
            milestones: Map::empty(),
            claims: Map::empty(),
            unclaimed_fees: 0,
        }
    }

    /// Counters fit their integer types and a student applies to a pool at
    /// most once.
    pub open spec fn valid(self) -> bool {
        pools_valid_spec(self.pools)
    }

    pub open spec fn pool_exists(self, id: u32) -> bool {
        1 <= id <= self.pools.len()
    }

    pub open spec fn pool(self, id: u32) -> PoolState {
        self.pools[id - 1]
    }

    /// The ledger with pool `id` replaced.
    pub open spec fn with_pool(self, id: u32, p: PoolState) -> ContractModel {
        ContractModel { pools: self.pools.update(id - 1, p), ..self }
    }

    pub open spec fn has_applied(self, id: u32, student: Seq<char>) -> bool {
        exists|i: int|
            0 <= i < self.pool(id).applications.len() && (#[trigger] self.pool(id).applications[i]).0 == student
    }

    // ─── Administration ────────────────────────────────────────────────────

    pub open spec fn set_admin(self, admin: Seq<char>) -> ContractModel {
        ContractModel { admin: Some(admin), ..self }
    }

    pub open spec fn register_school(self, admin: Seq<char>, school: Seq<char>) -> Result<ContractModel, NevoError> {
        match self.admin {
            None => Err(NevoError::AdminNotSet),
            Some(a) => if a != admin {
                Err(NevoError::UnauthorizedAdmin)
            } else {
                Ok(ContractModel { schools: self.schools.insert(school), ..self })
            },
        }
    }

    // ─── Pools ─────────────────────────────────────────────────────────────

    /// A fresh pool of `creator` with goal `goal`.
    pub open spec fn new_pool(creator: Seq<char>, goal: u128) -> PoolState {
        PoolState {
            info: PoolView { sponsor: creator, goal, collected: 0, is_closed: false },
            school: None,
            donations: 0,
            applications: Seq::empty(),
        }
    }

    pub open spec fn create_pool(self, creator: Seq<char>, goal: u128) -> Result<(ContractModel, u32), NevoError> {
        if self.pools.len() >= u32::MAX {
            Err(NevoError::ArithmeticOverflow)
        } else {
            Ok((
                ContractModel { pools: self.pools.push(Self::new_pool(creator, goal)), ..self },
                (self.pools.len() + 1) as u32,
            ))
        }
    }

    pub open spec fn create_pool_for_school(self, creator: Seq<char>, goal: u128, school: Seq<char>) -> Result<(ContractModel, u32), NevoError> {
        if !self.schools.contains(school) {
            Err(NevoError::SchoolNotRegistered)
        } else {
            match self.create_pool(creator, goal) {
                Err(e) => Err(e),
                Ok((m, id)) => Ok((m.with_pool(id, PoolState { school: Some(school), ..m.pool(id) }), id)),
            }
        }
    }

    pub open spec fn get_pool_school(self, id: u32) -> Result<Seq<char>, NevoError> {
        if self.pool_exists(id) && self.pool(id).school is Some {
            Ok(self.pool(id).school->0)
        } else {
            Err(NevoError::PoolSchoolNotSet)
        }
    }

    pub open spec fn donate(self, id: u32, amount: u128) -> Result<ContractModel, NevoError> {
        if !self.pool_exists(id) {
            Err(NevoError::PoolNotFound)
        } else {
            let p = self.pool(id);
            if p.info.is_closed {
                Err(NevoError::PoolClosed)
            } else if p.info.collected + amount > u128::MAX || p.donations >= u32::MAX {
                Err(NevoError::ArithmeticOverflow)
            } else {
                Ok(self.with_pool(id, PoolState {
                    info: PoolView { collected: (p.info.collected + amount) as u128, ..p.info },
                    donations: (p.donations + 1) as u32,
                    ..p
                }))
            }
        }
    }

    pub open spec fn get_pool(self, id: u32) -> Result<(u32, Seq<char>, u128, u128, bool), NevoError> {
        if self.pool_exists(id) {
            Ok(pool_tuple(id, self.pool(id).info))
        } else {
            Err(NevoError::PoolNotFound)
        }
    }

    /// The address whose authorization closing pool `id` demands.
    pub open spec fn close_pool_auth(self, id: u32) -> Option<Seq<char>> {
        if self.pool_exists(id) {
            Some(self.pool(id).info.sponsor)
        } else {
            None
        }
    }

    pub open spec fn close_pool(self, id: u32) -> Result<ContractModel, NevoError> {
        if !self.pool_exists(id) {
            Err(NevoError::PoolNotFound)
        } else {
            let p = self.pool(id);
            Ok(self.with_pool(id, PoolState { info: PoolView { is_closed: true, ..p.info }, ..p }))
        }
    }

    // ─── Applications ──────────────────────────────────────────────────────

    pub open spec fn apply_to_pool(self, id: u32, student: Seq<char>, data: Seq<char>) -> Result<ContractModel, NevoError> {
        if !self.pool_exists(id) {
            Err(NevoError::PoolNotFound)
        } else if self.has_applied(id, student) {
            Err(NevoError::DuplicateApplication)
        } else if self.pool(id).applications.len() >= u32::MAX {
            Err(NevoError::ArithmeticOverflow)
        } else {
            let p = self.pool(id);
            let m = self.with_pool(id, PoolState { applications: p.applications.push((student, data)), ..p });
            Ok(ContractModel { statuses: m.statuses.insert((id, student), pending_status()), ..m })
        }
    }

    pub open spec fn approve_application(self, id: u32, school: Seq<char>, student: Seq<char>, approved: bool) -> Result<ContractModel, NevoError> {
        match self.get_pool_school(id) {
            Err(e) => Err(e),
            Ok(linked) => if linked != school {
                Err(NevoError::NotLinkedSchool)
            } else if !self.has_applied(id, student) {
                Err(NevoError::NotApplied)
            } else {
                Ok(self.set_application_status(
                    id,
                    student,
                    if approved { approved_status() } else { rejected_status() },
                ))
            },
        }
    }

    pub open spec fn setup_application_milestones(self, id: u32, student: Seq<char>, ms: Seq<Milestone>) -> Result<ContractModel, NevoError> {
        if !self.pool_exists(id) {
            Err(NevoError::PoolNotFound)
        } else if ms.len() == 0 {
            Err(NevoError::MilestonesRequired)
        } else if milestone_total(ms) > u128::MAX {
            Err(NevoError::MilestoneAmountOverflow)
        } else if milestone_total(ms) != self.pool(id).info.goal {
            Err(NevoError::MilestoneTotalMismatch)
        } else {
            Ok(ContractModel { milestones: self.milestones.insert((id, student), ms), ..self })
        }
    }

    pub open spec fn get_milestones(self, id: u32, student: Seq<char>) -> Seq<Milestone> {
        if self.milestones.contains_key((id, student)) {
            self.milestones[(id, student)]
        } else {
            Seq::empty()
        }
    }

    pub open spec fn set_application_status(self, id: u32, student: Seq<char>, status: Seq<char>) -> ContractModel {
        ContractModel { statuses: self.statuses.insert((id, student), status), ..self }
    }

    pub open spec fn get_application_status(self, id: u32, student: Seq<char>) -> Seq<char> {
        if self.statuses.contains_key((id, student)) {
            self.statuses[(id, student)]
        } else {
            Seq::empty()
        }
    }

    pub open spec fn get_application(self, id: u32, student: Seq<char>) -> Option<Application> {
        if self.claims.contains_key((id, student)) {
            Some(self.claims[(id, student)])
        } else {
            None
        }
    }

    pub open spec fn get_claimed_amount(self, id: u32, student: Seq<char>) -> i128 {
        match self.get_application(id, student) {
            Some(a) => a.amount_claimed,
            None => 0,
        }
    }

    // ─── Funds ─────────────────────────────────────────────────────────────

    /// What one application of pool `id` locks: for an application that is
    /// approved or pending, what its student may still claim (never below
    /// zero); nothing for any other.
    pub open spec fn locked_by(self, id: u32, student: Seq<char>) -> Result<int, NevoError> {
        let st = self.get_application_status(id, student);
        if st == approved_status() || st == pending_status() {
            let a = match self.get_application(id, student) {
                Some(a) => a,
                None => Application { approved_amount: 0, amount_claimed: 0 },
            };
            let d = a.approved_amount - a.amount_claimed;
            if d < i128::MIN || d > i128::MAX {
                Err(NevoError::ArithmeticOverflow)
            } else if d < 0 {
                Ok(0)
            } else {
                Ok(d)
            }
        } else {
            Ok(0)
        }
    }

    /// The funds locked by the first `n` applications of pool `id`, summed in
    /// order; the first failure stops the sum.
    pub open spec fn locked_upto(self, id: u32, n: nat) -> Result<int, NevoError>
        decreases n,
    {
        if n == 0 {
            Ok(0)
        } else {
            match self.locked_upto(id, (n - 1) as nat) {
                Err(e) => Err(e),
                Ok(acc) => match self.locked_by(id, self.pool(id).applications[n - 1].0) {
                    Err(e) => Err(e),
                    Ok(r) => if acc + r > u128::MAX {
                        Err(NevoError::LockedFundsOverflow)
                    } else {
                        Ok(acc + r)
                    },
                },
            }
        }
    }

    /// The funds locked by all applications of pool `id`.
    pub open spec fn locked_funds(self, id: u32) -> Result<int, NevoError> {
        self.locked_upto(id, self.pool(id).applications.len())
    }

    /// The address whose authorization withdrawing from pool `id` demands.
    pub open spec fn withdraw_auth(self, id: u32) -> Option<Seq<char>> {
        self.close_pool_auth(id)
    }

    pub open spec fn withdraw_unallocated_funds(self, id: u32, token: Seq<char>) -> Result<(ContractModel, TransferView), NevoError> {
        if !self.pool_exists(id) {
            Err(NevoError::PoolNotFound)
        } else {
            let p = self.pool(id);
            match self.locked_funds(id) {
                Err(e) => Err(e),
                Ok(locked) => if p.info.collected < locked {
                    Err(NevoError::Insolvency)
                } else if p.info.collected == locked {
                    Err(NevoError::NoSurplus)
                } else {
                    let surplus = (p.info.collected - locked) as u128;
                    Ok((
                        self.with_pool(id, PoolState { info: PoolView { collected: locked as u128, ..p.info }, ..p }),
                        TransferView { token, to: p.info.sponsor, amount: surplus as i128 },
                    ))
                },
            }
        }
    }

    /// The claim record a claim of `student` on pool `id` starts from.
    pub open spec fn claim_record(self, id: u32, student: Seq<char>) -> Application {
        match self.get_application(id, student) {
            Some(a) => a,
            None => Application { approved_amount: self.pool(id).info.collected as i128, amount_claimed: 0 },
        }
    }

    pub open spec fn claim_funds(self, student: Seq<char>, id: u32, amount: i128, token: Seq<char>) -> Result<(ContractModel, TransferView), NevoError> {
        if amount <= 0 {
            Err(NevoError::ClaimAmountNotPositive)
        } else if !self.statuses.contains_key((id, student)) {
            Err(NevoError::StatusNotFound)
        } else if self.statuses[(id, student)] != approved_status() {
            Err(NevoError::NotApproved)
        } else if !self.pool_exists(id) {
            Err(NevoError::PoolNotFound)
        } else {
            let collected = self.pool(id).info.collected as i128;
            let a = self.claim_record(id, student);
            let fee = amount / 100;
            if a.amount_claimed + amount > i128::MAX {
                Err(NevoError::ArithmeticOverflow)
            } else if a.amount_claimed + amount > collected || a.amount_claimed + amount > a.approved_amount {
                Err(NevoError::Overdraw)
            } else if self.unclaimed_fees + fee > i128::MAX {
                Err(NevoError::ArithmeticOverflow)
            } else {
                Ok((
                    ContractModel {
                        unclaimed_fees: (self.unclaimed_fees + fee) as i128,
                        claims: self.claims.insert(
                            (id, student),
                            Application {
                                approved_amount: a.approved_amount,
                                amount_claimed: (a.amount_claimed + amount) as i128,
                            },
                        ),
                        ..self
                    },
                    TransferView { token, to: student, amount: (amount - fee) as i128 },
                ))
            }
        }
    }

    pub open spec fn claim_protocol_fees(self, admin: Seq<char>, token: Seq<char>) -> Result<(ContractModel, TransferView), NevoError> {
        match self.admin {
            None => Err(NevoError::AdminNotSet),
            Some(a) => if a != admin {
                Err(NevoError::UnauthorizedAdmin)
            } else if self.unclaimed_fees == 0 {
                Err(NevoError::NoUnclaimedFees)
            } else {
                Ok((
                    ContractModel { unclaimed_fees: 0, ..self },
                    TransferView { token, to: admin, amount: self.unclaimed_fees },
                ))
            },
        }
    }

    /// Once the sum of locked funds has failed, it fails the same way over
    /// every longer prefix.
    pub proof fn lemma_locked_err_persists(self, id: u32, a: nat, b: nat)
        requires
            a <= b,
            self.locked_upto(id, a) is Err,
        ensures
            self.locked_upto(id, b) == self.locked_upto(id, a),
        decreases b - a,
    {
        if a < b {
            self.lemma_locked_err_persists(id, a, (b - 1) as nat);
        }
    }
}

} // verus!
