use vstd::prelude::*;

verus! {

/// Tracks a student's approved funding and how much has been streamed so far.
///
/// `amount_claimed` starts at zero and grows with each partial withdrawal.
#[derive(Clone, Copy, Debug, PartialEq, Eq, Structural)]
pub struct Application {
    /// The total amount the student is approved to receive from this pool.
    pub approved_amount: i128,
    /// Running total of funds already disbursed to the student.
    pub amount_claimed: i128,
}

impl View for Application {
    type V = Application;

    open spec fn view(&self) -> Application {
        *self
    }
}

/// Milestone for streaming disbursements.
#[derive(Clone, Copy, Debug, PartialEq, Eq, Structural)]
pub struct Milestone {
    pub amount: u128,
}

impl View for Milestone {
    type V = Milestone;

    open spec fn view(&self) -> Milestone {
        *self
    }
}

/// A donation / sponsorship pool.
///
/// Addresses are held by their string encoding.
#[derive(Debug)]
pub struct Pool {
    pub sponsor: String,
    pub goal: u128,
    pub collected: u128,
    pub is_closed: bool,
}

/// The mathematical value of a [`Pool`].
pub struct PoolView {
    pub sponsor: Seq<char>,
    pub goal: u128,
    pub collected: u128,
    pub is_closed: bool,
}

impl View for Pool {
    type V = PoolView;

    open spec fn view(&self) -> PoolView {
        PoolView {
            sponsor: self.sponsor@,
            goal: self.goal,
            collected: self.collected,
            is_closed: self.is_closed,
        }
    }
}

/// Why an entry point refused to act. Each variant is one way the contract
/// aborts an invocation.
#[derive(Clone, Copy, Debug, PartialEq, Eq, Structural)]
pub enum NevoError {
    AdminNotSet,
    UnauthorizedAdmin,
    SchoolNotRegistered,
    PoolSchoolNotSet,
    PoolNotFound,
    PoolClosed,
    DuplicateApplication,
    NotLinkedSchool,
    NotApplied,
    MilestonesRequired,
    MilestoneAmountOverflow,
    MilestoneTotalMismatch,
    LockedFundsOverflow,
    Insolvency,
    NoSurplus,
    ClaimAmountNotPositive,
    StatusNotFound,
    NotApproved,
    Overdraw,
    NoUnclaimedFees,
    /// An integer operation of the contract left its type's range.
    ArithmeticOverflow,
}

impl NevoError {
    /// The message the contract aborts with.
    pub open spec fn text(self) -> Seq<char> {
        match self {
            NevoError::AdminNotSet => "Admin not set"@,
            NevoError::UnauthorizedAdmin => "Unauthorized admin"@,
            NevoError::SchoolNotRegistered => "School is not registered"@,
            NevoError::PoolSchoolNotSet => "Pool school not set"@,
            NevoError::PoolNotFound => "Pool not found"@,
            NevoError::PoolClosed => "Pool is closed"@,
            NevoError::DuplicateApplication => "Duplicate application"@,
            NevoError::NotLinkedSchool => "Only linked school can approve"@,
            NevoError::NotApplied => "Student has not applied"@,
            NevoError::MilestonesRequired => "Milestones required"@,
            NevoError::MilestoneAmountOverflow => "Milestone amount overflow"@,
            NevoError::MilestoneTotalMismatch => "Milestone total must equal pool goal"@,
            NevoError::LockedFundsOverflow => "Locked funds overflow"@,
            NevoError::Insolvency => "Insolvency: locked funds exceed collected"@,
            NevoError::NoSurplus => "No surplus to withdraw"@,
            NevoError::ClaimAmountNotPositive => "Claim amount must be positive"@,
            NevoError::StatusNotFound => "Application status not found"@,
            NevoError::NotApproved => "Application is not approved"@,
            NevoError::Overdraw => "Overdraw attempt"@,
            NevoError::NoUnclaimedFees => "No unclaimed fees"@,
            NevoError::ArithmeticOverflow => "arithmetic overflow"@,
        }
    }

    /// The message the contract aborts with.
    pub fn message(&self) -> (r: &'static str)
        ensures
            r@ == self.text(),
    {
        match self {
            NevoError::AdminNotSet => "Admin not set",
            NevoError::UnauthorizedAdmin => "Unauthorized admin",
            NevoError::SchoolNotRegistered => "School is not registered",
            NevoError::PoolSchoolNotSet => "Pool school not set",
            NevoError::PoolNotFound => "Pool not found",
            NevoError::PoolClosed => "Pool is closed",
            NevoError::DuplicateApplication => "Duplicate application",
            NevoError::NotLinkedSchool => "Only linked school can approve",
            NevoError::NotApplied => "Student has not applied",
            NevoError::MilestonesRequired => "Milestones required",
            NevoError::MilestoneAmountOverflow => "Milestone amount overflow",
            NevoError::MilestoneTotalMismatch => "Milestone total must equal pool goal",
            NevoError::LockedFundsOverflow => "Locked funds overflow",
            NevoError::Insolvency => "Insolvency: locked funds exceed collected",
            NevoError::NoSurplus => "No surplus to withdraw",
            NevoError::ClaimAmountNotPositive => "Claim amount must be positive",
            NevoError::StatusNotFound => "Application status not found",
            NevoError::NotApproved => "Application is not approved",
            NevoError::Overdraw => "Overdraw attempt",
            NevoError::NoUnclaimedFees => "No unclaimed fees",
            NevoError::ArithmeticOverflow => "arithmetic overflow",
        }
    }
}

/// A token transfer out of the contract's own balance.
#[derive(Debug)]
pub struct Transfer {
    pub token: String,
    pub to: String,
    pub amount: i128,
}

/// What an entry point that demands an authorization produced: the address
/// whose authorization it demanded before it finished (if it got that far),
/// and its result.
#[derive(Debug)]
pub struct Outcome<T> {
    pub auth: Option<String>,
    pub result: Result<T, NevoError>,
}

} // verus!
