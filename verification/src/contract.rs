//! The contract's entry points, over the ledger they keep.
use vstd::prelude::*;

use crate::model::{pools_valid_spec, ContractModel, PoolState, TransferView};
use crate::table::{keys_unique, rows_map, StudentEntry, StudentTable};
use crate::types::{Application, Milestone, NevoError, Outcome, Pool, Transfer};

verus! {

/// One application to a pool.
pub struct ApplicationEntry {
    pub student: String,
    pub data: String,
}

/// A pool with what the ledger keeps beside it.
pub struct PoolRecord {
    pub pool: Pool,
    pub school: Option<String>,
    pub donations: u32,
    pub applications: Vec<ApplicationEntry>,
}

/// The view of an optional address.
pub open spec fn opt_view(o: Option<String>) -> Option<Seq<char>> {
    match o {
        Some(s) => Some(s@),
        None => None,
    }
}

/// The pool getters' tuple as plain values.
pub open spec fn tuple_view(t: (u32, String, u128, u128, bool)) -> (u32, Seq<char>, u128, u128, bool) {
    (t.0, t.1@, t.2, t.3, t.4)
}

/// The view of a transfer.
pub open spec fn transfer_view(t: Transfer) -> TransferView {
    TransferView { token: t.token@, to: t.to@, amount: t.amount }
}

/// An application as plain values: student and application data.
pub open spec fn entry_view(e: ApplicationEntry) -> (Seq<char>, Seq<char>) {
    (e.student@, e.data@)
}

impl PoolRecord {
    /// The pool record as plain values.
    pub open spec fn state(self) -> PoolState {
        PoolState {
            info: self.pool@,
            school: opt_view(self.school),
            donations: self.donations,
            applications: self.applications@.map_values(|e: ApplicationEntry| entry_view(e)),
        }
    }
}

/// The ledger of the scholarship contract.
pub struct Contract {
    admin: Option<String>,
    schools: Vec<String>,
    pools: Vec<PoolRecord>,
    statuses: StudentTable<String>,
    milestones: StudentTable<Vec<Milestone>>,
    claims: StudentTable<Application>,
    unclaimed_fees: i128,
}

/// The set of the addresses in the list.
pub open spec fn address_set(v: Seq<String>) -> Set<Seq<char>> {
    Set::new(|s: Seq<char>| exists|i: int| 0 <= i < v.len() && v[i]@ == s)
}

/// The pools of the ledger as plain values.
pub open spec fn pool_states(pools: Seq<PoolRecord>) -> Seq<PoolState> {
    pools.map_values(|r: PoolRecord| r.state())
}

/// The ledger laid out as plain values, for storing it between invocations.
pub struct LedgerSnapshot {
    pub admin: Option<String>,
    pub schools: Vec<String>,
    pub pools: Vec<PoolRecord>,
    pub statuses: Vec<StudentEntry<String>>,
    pub milestones: Vec<StudentEntry<Vec<Milestone>>>,
    pub claims: Vec<StudentEntry<Application>>,
    pub unclaimed_fees: i128,
}

impl LedgerSnapshot {
    /// The ledger the snapshot describes.
    pub open spec fn model(&self) -> ContractModel {
        ContractModel {
            admin: opt_view(self.admin),
            schools: address_set(self.schools@),
            pools: pool_states(self.pools@),
            statuses: rows_map(self.statuses@),
            milestones: rows_map(self.milestones@),
            claims: rows_map(self.claims@),
            unclaimed_fees: self.unclaimed_fees,
        }
    }

    /// The snapshot describes a ledger the contract can reach: no key occurs
    /// twice in a table and the model is valid.
    pub open spec fn well_formed(&self) -> bool {
        &&& keys_unique(self.statuses@)
        &&& keys_unique(self.milestones@)
        &&& keys_unique(self.claims@)
        &&& self.model().valid()
    }
}

impl View for Contract {
    type V = ContractModel;

    closed spec fn view(&self) -> ContractModel {
        ContractModel {
            admin: opt_view(self.admin),
            schools: address_set(self.schools@),
            pools: pool_states(self.pools@),
            statuses: self.statuses.view_map(),
            milestones: self.milestones.view_map(),
            claims: self.claims.view_map(),
            unclaimed_fees: self.unclaimed_fees,
        }
    }
}

/// Whether the pools satisfy the model's validity: counters fit and no
/// student applies to a pool twice.
fn pools_valid(pools: &Vec<PoolRecord>) -> (r: bool)
    ensures
        r == pools_valid_spec(pool_states(pools@)),
{
    let ghost ps = pool_states(pools@);
    if pools.len() > 0xffff_ffff {
        return false;
    }
    let n = pools.len();
    let mut i: usize = 0;
    while i < n
        invariant
            n == pools@.len(),
            n <= u32::MAX,
            ps == pool_states(pools@),
            i <= n,
            forall|x: int| 0 <= x < i ==> #[trigger] ps[x].applications.len() <= u32::MAX,
            forall|x: int, a: int, b: int|
                0 <= x < i && 0 <= a < ps[x].applications.len() && 0 <= b < ps[x].applications.len() && a != b ==>
                    (#[trigger] ps[x].applications[a]).0 != (#[trigger] ps[x].applications[b]).0,
        decreases n - i,
    {
        let apps = &pools[i].applications;
        assert(ps[i as int].applications == apps@.map_values(|e: ApplicationEntry| entry_view(e)));
        if apps.len() > 0xffff_ffff {
            return false;
        }
        let m = apps.len();
        let mut a: usize = 0;
        while a < m
            invariant
                n == pools@.len(),
                i < n,
                m == apps@.len(),
                apps == pools@[i as int].applications,
                ps == pool_states(pools@),
                ps[i as int].applications == apps@.map_values(|e: ApplicationEntry| entry_view(e)),
                a <= m,
                forall|x: int, y: int|
                    0 <= x < a && 0 <= y < a && x != y ==> apps@[x].student@ != apps@[y].student@,
            decreases m - a,
        {
            let mut b: usize = 0;
            while b < a
                invariant
                    n == pools@.len(),
                    i < n,
                    m == apps@.len(),
                    apps == pools@[i as int].applications,
                    ps == pool_states(pools@),
                    ps[i as int].applications == apps@.map_values(|e: ApplicationEntry| entry_view(e)),
                    a < m,
                    b <= a,
                    forall|y: int| 0 <= y < b ==> apps@[y].student@ != apps@[a as int].student@,
                decreases a - b,
            {
                if apps[b].student == apps[a].student {
                    assert(ps[i as int].applications[b as int].0 == ps[i as int].applications[a as int].0);
                    return false;
                }
                b = b + 1;
            }
            a = a + 1;
        }
        assert forall|x: int, y: int|
            0 <= x < ps[i as int].applications.len() && 0 <= y < ps[i as int].applications.len() && x != y implies
                (#[trigger] ps[i as int].applications[x]).0 != (#[trigger] ps[i as int].applications[y]).0 by {
            assert(apps@[x].student@ != apps@[y].student@);
        }
        i = i + 1;
    }
    true
}

impl Contract {
    /// The ledger is well formed.
    pub closed spec fn wf(&self) -> bool {
        &&& self.statuses.wf()
        &&& self.milestones.wf()
        &&& self.claims.wf()
        &&& self@.valid()
    }

    /// A well-formed ledger has a valid model, the premise of the laws.
    pub proof fn lemma_wf_valid(&self)
        requires
            self.wf(),
        ensures
            self@.valid(),
    {
    }

    /// A contract with an empty ledger.
    pub fn new() -> (c: Contract)
        ensures
            c.wf(),
            c@ == ContractModel::empty(),
    {
        let c = Contract {
            admin: None,
            schools: Vec::new(),
            pools: Vec::new(),
            statuses: StudentTable::new(),
            milestones: StudentTable::new(),
            claims: StudentTable::new(),
            unclaimed_fees: 0,
        };
        assert(c@.schools =~= Set::<Seq<char>>::empty());
        assert(c@.pools =~= Seq::<PoolState>::empty());
        c
    }

    /// The index of pool `pool_id` in the ledger, if it exists.
    fn pool_index(&self, pool_id: u32) -> (r: Option<usize>)
        requires
            self.wf(),
        ensures
            match r {
                Some(i) => self@.pool_exists(pool_id) && i == pool_id - 1,
                None => !self@.pool_exists(pool_id),
            },
    {
        if pool_id >= 1 && (pool_id as usize) <= self.pools.len() {
            Some((pool_id - 1) as usize)
        } else {
            None
        }
    }

    /// The contract holding the ledger a snapshot describes, if the snapshot
    /// is well formed.
    pub fn from_snapshot(snapshot: LedgerSnapshot) -> (r: Option<Contract>)
        ensures
            r is Some <==> snapshot.well_formed(),
            r is Some ==> r->0.wf() && r->0@ == snapshot.model(),
    {
        let ghost snap = snapshot;
        let LedgerSnapshot { admin, schools, pools, statuses, milestones, claims, unclaimed_fees } = snapshot;
        if !pools_valid(&pools) {
            return None;
        }
        let statuses = match StudentTable::from_rows(statuses) {
            Some(t) => t,
            None => return None,
        };
        let milestones = match StudentTable::from_rows(milestones) {
            Some(t) => t,
            None => return None,
        };
        let claims = match StudentTable::from_rows(claims) {
            Some(t) => t,
            None => return None,
        };
        let c = Contract { admin, schools, pools, statuses, milestones, claims, unclaimed_fees };
        assert(c@.pools == snap.model().pools);
        Some(c)
    }

    /// The snapshot of the ledger.
    pub fn into_snapshot(self) -> (r: LedgerSnapshot)
        requires
            self.wf(),
        ensures
            r.well_formed(),
            r.model() == self@,
    {
        let Contract { admin, schools, pools, statuses, milestones, claims, unclaimed_fees } = self;
        LedgerSnapshot {
            admin,
            schools,
            pools,
            statuses: statuses.into_rows(),
            milestones: milestones.into_rows(),
            claims: claims.into_rows(),
            unclaimed_fees,
        }
    }

    // ─── Administration ────────────────────────────────────────────────────

    /// Set the platform admin address; demands the new admin's authorization.
    pub fn set_admin(&mut self, admin: String) -> (out: Outcome<()>)
        requires
            old(self).wf(),
        ensures
            final(self).wf(),
            out.auth == Some(admin),
            out.result is Ok,
            final(self)@ == old(self)@.set_admin(admin@),
    {
        let auth = admin.clone();
        self.admin = Some(admin);
        proof {
            assert(self@.pools =~= old(self)@.pools);
        }
        Outcome { auth: Some(auth), result: Ok(()) }
    }

    /// Register a school; demands the authorization of `admin`, who must be
    /// the stored admin.
    pub fn register_school(&mut self, admin: String, school: String) -> (out: Outcome<()>)
        requires
            old(self).wf(),
        ensures
            final(self).wf(),
            out.auth == Some(admin),
            match old(self)@.register_school(admin@, school@) {
                Ok(m) => out.result is Ok && final(self)@ == m,
                Err(e) => out.result == Err::<(), NevoError>(e) && final(self)@ == old(self)@,
            },
    {
        let auth = Some(admin.clone());
        match &self.admin {
            None => return Outcome { auth, result: Err(NevoError::AdminNotSet) },
            Some(stored) => {
                if *stored != admin {
                    return Outcome { auth, result: Err(NevoError::UnauthorizedAdmin) };
                }
            },
        }
        let ghost m = old(self)@.register_school(admin@, school@)->Ok_0;
        if self.is_school_registered(&school) {
            assert(self@.schools =~= m.schools);
        } else {
            self.schools.push(school);
            proof {
                assert forall|s: Seq<char>| #[trigger] self@.schools.contains(s) == m.schools.contains(s) by {
                    if s == school@ {
                        assert(self.schools@[self.schools@.len() - 1]@ == s);
                    }
                    if old(self)@.schools.contains(s) {
                        let i = choose|i: int| 0 <= i < old(self).schools@.len() && old(self).schools@[i]@ == s;
                        assert(self.schools@[i]@ == s);
                    }
                    if self@.schools.contains(s) && s != school@ {
                        let i = choose|i: int| 0 <= i < self.schools@.len() && self.schools@[i]@ == s;
                        assert(old(self).schools@[i]@ == s);
                    }
                }
                assert(self@.schools =~= m.schools);
                assert(self@.pools =~= m.pools);
            }
        }
        Outcome { auth, result: Ok(()) }
    }

    /// Whether `school` has been registered.
    pub fn is_school_registered(&self, school: &String) -> (r: bool)
        requires
            self.wf(),
        ensures
            r == self@.schools.contains(school@),
    {
        let mut i: usize = 0;
        while i < self.schools.len()
            invariant
                i <= self.schools@.len(),
                forall|j: int| 0 <= j < i ==> self.schools@[j]@ != school@,
            decreases self.schools@.len() - i,
        {
            if self.schools[i] == *school {
                return true;
            }
            i = i + 1;
        }
        false
    }

    // ─── Pools ─────────────────────────────────────────────────────────────

    /// Create a new donation / sponsorship pool and return its id. The title
    /// and description are accepted and not kept.
    pub fn create_pool(&mut self, creator: String, title: &String, description: &String, goal: u128) -> (r: Result<u32, NevoError>)
        requires
            old(self).wf(),
        ensures
            final(self).wf(),
            match old(self)@.create_pool(creator@, goal) {
                Ok((m, id)) => r == Ok::<u32, NevoError>(id) && final(self)@ == m,
                Err(e) => r == Err::<u32, NevoError>(e) && final(self)@ == old(self)@,
            },
    {
        if self.pools.len() >= 0xffff_ffff {
            return Err(NevoError::ArithmeticOverflow);
        }
        let pool_id: u32 = (self.pools.len() + 1) as u32;
        let pool = Pool { sponsor: creator, goal, collected: 0, is_closed: false };
        self.pools.push(PoolRecord { pool, school: None, donations: 0, applications: Vec::new() });
        proof {
            let m = old(self)@.create_pool(creator@, goal)->Ok_0.0;
            let last = self.pools@[self.pools@.len() - 1];
            assert(last.applications@.map_values(|e: ApplicationEntry| entry_view(e)) =~= Seq::<(Seq<char>, Seq<char>)>::empty());
            assert(self@.pools =~= m.pools);
            assert(self@.schools =~= m.schools);
        }
        Ok(pool_id)
    }

    /// Create a new sponsorship pool linked to a registered school; demands
    /// the creator's authorization.
    pub fn create_pool_for_school(
        &mut self,
        creator: String,
        title: &String,
        description: &String,
        goal: u128,
        school: String,
    ) -> (out: Outcome<u32>)
        requires
            old(self).wf(),
        ensures
            final(self).wf(),
            out.auth == Some(creator),
            match old(self)@.create_pool_for_school(creator@, goal, school@) {
                Ok((m, id)) => out.result == Ok::<u32, NevoError>(id) && final(self)@ == m,
                Err(e) => out.result == Err::<u32, NevoError>(e) && final(self)@ == old(self)@,
            },
    {
        let auth = Some(creator.clone());
        if !self.is_school_registered(&school) {
            return Outcome { auth, result: Err(NevoError::SchoolNotRegistered) };
        }
        let result = match self.create_pool(creator, title, description, goal) {
            Err(e) => Err(e),
            Ok(pool_id) => {
                let i = (pool_id - 1) as usize;
                let ghost mid = self@;
                self.pools[i].school = Some(school);
                proof {
                    let m = old(self)@.create_pool_for_school(creator@, goal, school@)->Ok_0.0;
                    assert(self.pools@[i as int].state() == PoolState { school: Some(school@), ..mid.pool(pool_id) });
                    assert(self@.pools =~= m.pools);
                    assert(self@.schools =~= m.schools);
                }
                Ok(pool_id)
            },
        };
        Outcome { auth, result }
    }

    /// The school linked to a pool.
    pub fn get_pool_school(&self, pool_id: u32) -> (r: Result<String, NevoError>)
        requires
            self.wf(),
        ensures
            match self@.get_pool_school(pool_id) {
                Ok(s) => r is Ok && r->Ok_0@ == s,
                Err(e) => r == Err::<String, NevoError>(e),
            },
    {
        match self.pool_index(pool_id) {
            Some(i) => match &self.pools[i].school {
                Some(s) => Ok(s.clone()),
                None => Err(NevoError::PoolSchoolNotSet),
            },
            None => Err(NevoError::PoolSchoolNotSet),
        }
    }

    /// Donate `amount` to an open pool. The donor is not recorded; the number
    /// of donations is.
    pub fn donate(&mut self, pool_id: u32, donor: &String, amount: u128) -> (r: Result<(), NevoError>)
        requires
            old(self).wf(),
        ensures
            final(self).wf(),
            match old(self)@.donate(pool_id, amount) {
                Ok(m) => r is Ok && final(self)@ == m,
                Err(e) => r == Err::<(), NevoError>(e) && final(self)@ == old(self)@,
            },
    {
        let i = match self.pool_index(pool_id) {
            Some(i) => i,
            None => return Err(NevoError::PoolNotFound),
        };
        if self.pools[i].pool.is_closed {
            return Err(NevoError::PoolClosed);
        }
        let collected = self.pools[i].pool.collected;
        let donations = self.pools[i].donations;
        let new_collected = match collected.checked_add(amount) {
            Some(c) => c,
            None => return Err(NevoError::ArithmeticOverflow),
        };
        if donations >= 0xffff_ffff {
            return Err(NevoError::ArithmeticOverflow);
        }
        self.pools[i].pool.collected = new_collected;
        self.pools[i].donations = donations + 1;
        proof {
            let m = old(self)@.donate(pool_id, amount)->Ok_0;
            assert(self@.pools =~= m.pools);
            assert(self@.schools =~= m.schools);
        }
        Ok(())
    }

    /// The pool as (id, sponsor, goal, collected, is_closed).
    pub fn get_pool(&self, pool_id: u32) -> (r: Result<(u32, String, u128, u128, bool), NevoError>)
        requires
            self.wf(),
        ensures
            match self@.get_pool(pool_id) {
                Ok(t) => r is Ok && tuple_view(r->Ok_0) == t,
                Err(e) => r == Err::<(u32, String, u128, u128, bool), NevoError>(e),
            },
    {
        match self.pool_index(pool_id) {
            Some(i) => {
                let p = &self.pools[i].pool;
                Ok((pool_id, p.sponsor.clone(), p.goal, p.collected, p.is_closed))
            },
            None => Err(NevoError::PoolNotFound),
        }
    }

    /// The pool as (id, sponsor, goal, collected, is_closed), if it exists.
    pub fn try_get_pool(&self, pool_id: u32) -> (r: Option<(u32, String, u128, u128, bool)>)
        requires
            self.wf(),
        ensures
            match self@.get_pool(pool_id) {
                Ok(t) => r is Some && tuple_view(r->0) == t,
                Err(_) => r is None,
            },
    {
        match self.get_pool(pool_id) {
            Ok(t) => Some(t),
            Err(_) => None,
        }
    }

    /// The total amount collected by a pool.
    pub fn get_total_raised(&self, pool_id: u32) -> (r: Result<u128, NevoError>)
        requires
            self.wf(),
        ensures
            match self@.get_pool(pool_id) {
                Ok(t) => r == Ok::<u128, NevoError>(t.3),
                Err(e) => r == Err::<u128, NevoError>(e),
            },
    {
        match self.pool_index(pool_id) {
            Some(i) => Ok(self.pools[i].pool.collected),
            None => Err(NevoError::PoolNotFound),
        }
    }

    /// Close a pool; demands the sponsor's authorization.
    pub fn close_pool(&mut self, pool_id: u32) -> (out: Outcome<()>)
        requires
            old(self).wf(),
        ensures
            final(self).wf(),
            opt_view(out.auth) == old(self)@.close_pool_auth(pool_id),
            match old(self)@.close_pool(pool_id) {
                Ok(m) => out.result is Ok && final(self)@ == m,
                Err(e) => out.result == Err::<(), NevoError>(e) && final(self)@ == old(self)@,
            },
    {
        let i = match self.pool_index(pool_id) {
            Some(i) => i,
            None => return Outcome { auth: None, result: Err(NevoError::PoolNotFound) },
        };
        let auth = Some(self.pools[i].pool.sponsor.clone());
        self.pools[i].pool.is_closed = true;
        proof {
            let m = old(self)@.close_pool(pool_id)->Ok_0;
            assert(self@.pools =~= m.pools);
            assert(self@.schools =~= m.schools);
        }
        Outcome { auth, result: Ok(()) }
    }

    /// The number of pools created.
    pub fn get_pool_count(&self) -> (r: u32)
        requires
            self.wf(),
        ensures
            r == self@.pools.len(),
    {
        self.pools.len() as u32
    }

    // ─── Applications ──────────────────────────────────────────────────────

    /// Whether `student` has applied to the pool at index `i`.
    fn applied_at(&self, i: usize, student: &String) -> (r: bool)
        requires
            self.wf(),
            i < self.pools@.len(),
        ensures
            r == self@.has_applied((i + 1) as u32, student@),
    {
        let ghost id = (i + 1) as u32;
        let apps = &self.pools[i].applications;
        let mut j: usize = 0;
        while j < apps.len()
            invariant
                self.wf(),
                i < self.pools@.len(),
                id == (i + 1) as u32,
                apps == self.pools@[i as int].applications,
                j <= apps@.len(),
                self@.pool(id).applications == apps@.map_values(|e: ApplicationEntry| entry_view(e)),
                forall|k: int| 0 <= k < j ==> apps@[k].student@ != student@,
            decreases apps@.len() - j,
        {
            if apps[j].student == *student {
                assert(self@.pool(id).applications[j as int].0 == student@);
                return true;
            }
            j = j + 1;
        }
        assert forall|k: int| 0 <= k < self@.pool(id).applications.len() implies
            (#[trigger] self@.pool(id).applications[k]).0 != student@ by {
            assert(apps@[k].student@ != student@);
        }
        false
    }

    /// A student applies to a pool; demands the student's authorization. The
    /// application's status becomes "Pending".
    pub fn apply_to_pool(&mut self, pool_id: u32, student: String, application_data: String) -> (out: Outcome<()>)
        requires
            old(self).wf(),
        ensures
            final(self).wf(),
            out.auth == Some(student),
            match old(self)@.apply_to_pool(pool_id, student@, application_data@) {
                Ok(m) => out.result is Ok && final(self)@ == m,
                Err(e) => out.result == Err::<(), NevoError>(e) && final(self)@ == old(self)@,
            },
    {
        let auth = Some(student.clone());
        let i = match self.pool_index(pool_id) {
            Some(i) => i,
            None => return Outcome { auth, result: Err(NevoError::PoolNotFound) },
        };
        if self.applied_at(i, &student) {
            return Outcome { auth, result: Err(NevoError::DuplicateApplication) };
        }
        if self.pools[i].applications.len() >= 0xffff_ffff {
            return Outcome { auth, result: Err(NevoError::ArithmeticOverflow) };
        }
        let ghost mid = self@;
        let key = student.clone();
        self.pools[i].applications.push(ApplicationEntry { student, data: application_data });
        proof {
            let p = mid.pool(pool_id);
            let np = PoolState { applications: p.applications.push((student@, application_data@)), ..p };
            assert(self.pools@[i as int].state().applications =~= np.applications);
            assert(self@.pools =~= mid.with_pool(pool_id, np).pools);
            assert(self@.schools =~= mid.schools);
            assert forall|a: int, b: int|
                0 <= a < np.applications.len() && 0 <= b < np.applications.len() && a != b implies
                    (#[trigger] np.applications[a]).0 != (#[trigger] np.applications[b]).0 by {
                let n = p.applications.len() as int;
                if a < n && b < n {
                    assert(p.applications[a].0 != p.applications[b].0);
                } else if a < n {
                    assert(p.applications[a].0 != student@);
                } else {
                    assert(p.applications[b].0 != student@);
                }
            }
        }
        let pending = String::from_str("Pending");
        self.statuses.set(pool_id, key, pending);
        proof {
            let m = old(self)@.apply_to_pool(pool_id, student@, application_data@)->Ok_0;
            assert(self@.pools =~= m.pools);
            assert(self@.schools =~= m.schools);
            assert(self@.statuses =~= m.statuses);
        }
        Outcome { auth, result: Ok(()) }
    }

    /// The school linked to a pool approves or rejects a student's
    /// application; demands the school's authorization.
    pub fn approve_application(&mut self, pool_id: u32, school: String, student: String, approved: bool) -> (out: Outcome<()>)
        requires
            old(self).wf(),
        ensures
            final(self).wf(),
            out.auth == Some(school),
            match old(self)@.approve_application(pool_id, school@, student@, approved) {
                Ok(m) => out.result is Ok && final(self)@ == m,
                Err(e) => out.result == Err::<(), NevoError>(e) && final(self)@ == old(self)@,
            },
    {
        let auth = Some(school.clone());
        let linked = match self.get_pool_school(pool_id) {
            Ok(s) => s,
            Err(e) => return Outcome { auth, result: Err(e) },
        };
        if linked != school {
            return Outcome { auth, result: Err(NevoError::NotLinkedSchool) };
        }
        let i = (pool_id - 1) as usize;
        if !self.applied_at(i, &student) {
            return Outcome { auth, result: Err(NevoError::NotApplied) };
        }
        let status = if approved { String::from_str("Approved") } else { String::from_str("Rejected") };
        self.statuses.set(pool_id, student, status);
        proof {
            let m = old(self)@.approve_application(pool_id, school@, student@, approved)->Ok_0;
            assert(self@.pools =~= m.pools);
            assert(self@.schools =~= m.schools);
            assert(self@.statuses =~= m.statuses);
        }
        Outcome { auth, result: Ok(()) }
    }

    /// Set a student's milestones for a pool; demands the student's
    /// authorization. The milestones must be non-empty and their amounts
    /// must add up to the pool's goal.
    pub fn setup_application_milestones(&mut self, pool_id: u32, student: String, milestones: Vec<Milestone>) -> (out: Outcome<()>)
        requires
            old(self).wf(),
        ensures
            final(self).wf(),
            out.auth == Some(student),
            match old(self)@.setup_application_milestones(pool_id, student@, milestones@) {
                Ok(m) => out.result is Ok && final(self)@ == m,
                Err(e) => out.result == Err::<(), NevoError>(e) && final(self)@ == old(self)@,
            },
    {
        let auth = Some(student.clone());
        let i = match self.pool_index(pool_id) {
            Some(i) => i,
            None => return Outcome { auth, result: Err(NevoError::PoolNotFound) },
        };
        if milestones.len() == 0 {
            return Outcome { auth, result: Err(NevoError::MilestonesRequired) };
        }
        let mut sum: u128 = 0;
        let mut k: usize = 0;
        while k < milestones.len()
            invariant
                old(self).wf(),
                *self == *old(self),
                auth == Some(student),
                old(self)@.pool_exists(pool_id),
                milestones@.len() > 0,
                k <= milestones@.len(),
                sum == crate::model::milestone_total(milestones@.take(k as int)),
            decreases milestones@.len() - k,
        {
            assert(milestones@.take(k + 1).drop_last() =~= milestones@.take(k as int));
            assert(milestones@.take(k + 1).last() == milestones@[k as int]);
            match sum.checked_add(milestones[k].amount) {
                Some(v) => sum = v,
                None => {
                    proof {
                        crate::model::lemma_milestone_total_monotone(milestones@, k + 1, milestones@.len() as int);
                        assert(milestones@.take(milestones@.len() as int) =~= milestones@);
                    }
                    return Outcome { auth, result: Err(NevoError::MilestoneAmountOverflow) };
                },
            }
            k = k + 1;
        }
        assert(milestones@.take(milestones@.len() as int) =~= milestones@);
        if sum != self.pools[i].pool.goal {
            return Outcome { auth, result: Err(NevoError::MilestoneTotalMismatch) };
        }
        self.milestones.set(pool_id, student, milestones);
        proof {
            let m = old(self)@.setup_application_milestones(pool_id, student@, milestones@)->Ok_0;
            assert(self@.pools =~= m.pools);
            assert(self@.schools =~= m.schools);
        }
        Outcome { auth, result: Ok(()) }
    }

    /// A student's milestones for a pool; empty when none were set.
    pub fn get_milestones(&self, pool_id: u32, student: &String) -> (r: Vec<Milestone>)
        requires
            self.wf(),
        ensures
            r@ == self@.get_milestones(pool_id, student@),
    {
        let mut r: Vec<Milestone> = Vec::new();
        match self.milestones.get(pool_id, student) {
            Some(ms) => {
                let mut k: usize = 0;
                while k < ms.len()
                    invariant
                        k <= ms@.len(),
                        r@ == ms@.take(k as int),
                    decreases ms@.len() - k,
                {
                    r.push(ms[k]);
                    k = k + 1;
                    assert(r@ =~= ms@.take(k as int));
                }
                assert(ms@.take(ms@.len() as int) =~= ms@);
            },
            None => {
                assert(r@ =~= Seq::<Milestone>::empty());
            },
        }
        r
    }

    /// Set the status of a student's application to a pool. Any status is
    /// accepted, for any pool id.
    pub fn set_application_status(&mut self, pool_id: u32, student: String, status: String)
        requires
            old(self).wf(),
        ensures
            final(self).wf(),
            final(self)@ == old(self)@.set_application_status(pool_id, student@, status@),
    {
        self.statuses.set(pool_id, student, status);
        proof {
            let m = old(self)@.set_application_status(pool_id, student@, status@);
            assert(self@.pools =~= m.pools);
            assert(self@.schools =~= m.schools);
        }
    }

    /// The status of a student's application to a pool; empty when none was
    /// set.
    pub fn get_application_status(&self, pool_id: u32, student: &String) -> (r: String)
        requires
            self.wf(),
        ensures
            r@ == self@.get_application_status(pool_id, student@),
    {
        match self.statuses.get(pool_id, student) {
            Some(s) => s.clone(),
            None => String::new(),
        }
    }

    /// The amount a student has claimed from a pool; zero before any claim.
    pub fn get_claimed_amount(&self, pool_id: u32, student: &String) -> (r: i128)
        requires
            self.wf(),
        ensures
            r == self@.get_claimed_amount(pool_id, student@),
    {
        match self.claims.get(pool_id, student) {
            Some(a) => a.amount_claimed,
            None => 0,
        }
    }

    /// A student's claim record for a pool; `None` before any claim.
    pub fn get_application(&self, pool_id: u32, student: &String) -> (r: Option<Application>)
        requires
            self.wf(),
        ensures
            r == self@.get_application(pool_id, student@),
    {
        match self.claims.get(pool_id, student) {
            Some(a) => Some(*a),
            None => None,
        }
    }

    // ─── Funds ─────────────────────────────────────────────────────────────

    /// Withdraw the pool's surplus to its sponsor; demands the sponsor's
    /// authorization. The surplus is what the pool collected beyond the
    /// funds locked by its approved and pending applications.
    pub fn withdraw_unallocated_funds(&mut self, pool_id: u32, token_address: String) -> (out: Outcome<Transfer>)
        requires
            old(self).wf(),
        ensures
            final(self).wf(),
            opt_view(out.auth) == old(self)@.withdraw_auth(pool_id),
            match old(self)@.withdraw_unallocated_funds(pool_id, token_address@) {
                Ok((m, t)) => out.result is Ok && transfer_view(out.result->Ok_0) == t && final(self)@ == m,
                Err(e) => out.result is Err && out.result->Err_0 == e && final(self)@ == old(self)@,
            },
    {
        let i = match self.pool_index(pool_id) {
            Some(i) => i,
            None => return Outcome { auth: None, result: Err(NevoError::PoolNotFound) },
        };
        let sponsor = self.pools[i].pool.sponsor.clone();
        let auth = Some(sponsor.clone());
        let approved = String::from_str("Approved");
        let pending = String::from_str("Pending");
        let n = self.pools[i].applications.len();
        let ghost m0 = old(self)@;
        let mut locked: u128 = 0;
        let mut k: usize = 0;
        while k < n
            invariant
                old(self).wf(),
                *self == *old(self),
                m0 == old(self)@,
                m0.pool_exists(pool_id),
                i == pool_id - 1,
                n == m0.pool(pool_id).applications.len(),
                k <= n,
                approved@ == crate::model::approved_status(),
                pending@ == crate::model::pending_status(),
                m0.locked_upto(pool_id, k as nat) == Ok::<int, NevoError>(locked as int),
                opt_view(auth) == m0.withdraw_auth(pool_id),
            decreases n - k,
        {
            let student = &self.pools[i].applications[k].student;
            assert(student@ == m0.pool(pool_id).applications[k as int].0);
            let status = self.get_application_status(pool_id, student);
            if status == approved || status == pending {
                let (ap, cl): (i128, i128) = match self.claims.get(pool_id, student) {
                    Some(a) => (a.approved_amount, a.amount_claimed),
                    None => (0, 0),
                };
                let d = match ap.checked_sub(cl) {
                    Some(d) => d,
                    None => {
                        proof {
                            m0.lemma_locked_err_persists(pool_id, (k + 1) as nat, n as nat);
                        }
                        return Outcome { auth, result: Err(NevoError::ArithmeticOverflow) };
                    },
                };
                let r: u128 = if d < 0 { 0 } else { d as u128 };
                locked = match locked.checked_add(r) {
                    Some(v) => v,
                    None => {
                        proof {
                            m0.lemma_locked_err_persists(pool_id, (k + 1) as nat, n as nat);
                        }
                        return Outcome { auth, result: Err(NevoError::LockedFundsOverflow) };
                    },
                };
            }
            k = k + 1;
        }
        let collected = self.pools[i].pool.collected;
        if collected < locked {
            return Outcome { auth, result: Err(NevoError::Insolvency) };
        }
        let surplus = collected - locked;
        if surplus == 0 {
            return Outcome { auth, result: Err(NevoError::NoSurplus) };
        }
        self.pools[i].pool.collected = collected - surplus;
        proof {
            let m = old(self)@.withdraw_unallocated_funds(pool_id, token_address@)->Ok_0.0;
            assert(self@.pools =~= m.pools);
            assert(self@.schools =~= m.schools);
        }
        Outcome { auth, result: Ok(Transfer { token: token_address, to: sponsor, amount: surplus as i128 }) }
    }

    /// An approved student claims `claim_amount` from a pool; demands the
    /// student's authorization. The claimed total may exceed neither what the
    /// pool has collected nor the amount approved in the student's claim
    /// record (on the first claim, what the pool has collected). One percent of the claim (rounded down) is
    /// kept as protocol fee; the rest is transferred to the student.
    pub fn claim_funds(&mut self, student: String, pool_id: u32, claim_amount: i128, token_address: String) -> (out: Outcome<Transfer>)
        requires
            old(self).wf(),
        ensures
            final(self).wf(),
            out.auth == Some(student),
            match old(self)@.claim_funds(student@, pool_id, claim_amount, token_address@) {
                Ok((m, t)) => out.result is Ok && transfer_view(out.result->Ok_0) == t && final(self)@ == m,
                Err(e) => out.result is Err && out.result->Err_0 == e && final(self)@ == old(self)@,
            },
    {
        let auth = Some(student.clone());
        if claim_amount <= 0 {
            return Outcome { auth, result: Err(NevoError::ClaimAmountNotPositive) };
        }
        let approved = String::from_str("Approved");
        match self.statuses.get(pool_id, &student) {
            None => return Outcome { auth, result: Err(NevoError::StatusNotFound) },
            Some(status) => {
                if *status != approved {
                    return Outcome { auth, result: Err(NevoError::NotApproved) };
                }
            },
        }
        let i = match self.pool_index(pool_id) {
            Some(i) => i,
            None => return Outcome { auth, result: Err(NevoError::PoolNotFound) },
        };
        let collected = self.pools[i].pool.collected as i128;
        let app = match self.claims.get(pool_id, &student) {
            Some(a) => *a,
            None => Application { approved_amount: collected, amount_claimed: 0 },
        };
        let new_claimed = match app.amount_claimed.checked_add(claim_amount) {
            Some(v) => v,
            None => return Outcome { auth, result: Err(NevoError::ArithmeticOverflow) },
        };
        if new_claimed > collected || new_claimed > app.approved_amount {
            return Outcome { auth, result: Err(NevoError::Overdraw) };
        }
        let fee = claim_amount / 100;
        let net_transfer = claim_amount - fee;
        let new_fees = match self.unclaimed_fees.checked_add(fee) {
            Some(v) => v,
            None => return Outcome { auth, result: Err(NevoError::ArithmeticOverflow) },
        };
        self.unclaimed_fees = new_fees;
        let key = student.clone();
        self.claims.set(pool_id, key, Application { approved_amount: app.approved_amount, amount_claimed: new_claimed });
        proof {
            let m = old(self)@.claim_funds(student@, pool_id, claim_amount, token_address@)->Ok_0.0;
            assert(self@.pools =~= m.pools);
            assert(self@.schools =~= m.schools);
        }
        Outcome { auth, result: Ok(Transfer { token: token_address, to: student, amount: net_transfer }) }
    }

    /// The admin claims all accumulated protocol fees; demands the admin's
    /// authorization. The fees are transferred to the admin and reset to
    /// zero; the transfer's amount is the amount of fees collected.
    pub fn claim_protocol_fees(&mut self, admin: String, token_address: String) -> (out: Outcome<Transfer>)
        requires
            old(self).wf(),
        ensures
            final(self).wf(),
            out.auth == Some(admin),
            match old(self)@.claim_protocol_fees(admin@, token_address@) {
                Ok((m, t)) => out.result is Ok && transfer_view(out.result->Ok_0) == t && final(self)@ == m,
                Err(e) => out.result is Err && out.result->Err_0 == e && final(self)@ == old(self)@,
            },
    {
        let auth = Some(admin.clone());
        match &self.admin {
            None => return Outcome { auth, result: Err(NevoError::AdminNotSet) },
            Some(stored) => {
                if *stored != admin {
                    return Outcome { auth, result: Err(NevoError::UnauthorizedAdmin) };
                }
            },
        }
        let fees = self.unclaimed_fees;
        if fees == 0 {
            return Outcome { auth, result: Err(NevoError::NoUnclaimedFees) };
        }
        self.unclaimed_fees = 0;
        proof {
            let m = old(self)@.claim_protocol_fees(admin@, token_address@)->Ok_0.0;
            assert(self@.pools =~= m.pools);
            assert(self@.schools =~= m.schools);
        }
        Outcome { auth, result: Ok(Transfer { token: token_address, to: admin, amount: fees }) }
    }
}

} // verus!
