use vstd::prelude::*;

verus! {

/// Stable classification of every application failure.
#[derive(Clone, Copy, Debug, PartialEq, Eq, Structural)]
pub enum ApplicationErrorCategory {
    Unauthenticated,
    Forbidden,
    NotFound,
    AlreadyExists,
    VersionConflict,
    ConcurrencyConflict,
    ImmutableViolation,
    StateConflict,
    ValidationFailed,
    HashMismatch,
    LineageIncomplete,
    StorageUnavailable,
}

/// A classified application failure together with its retry hint.
#[derive(Clone, Copy, Debug, PartialEq, Eq, Structural)]
pub struct ApplicationError {
    pub category: ApplicationErrorCategory,
    pub retryable: bool,
}

pub type ApplicationResult<T> = Result<T, ApplicationError>;

impl ApplicationError {
    pub open spec fn spec_category(self) -> ApplicationErrorCategory {
        self.category
    }

    pub open spec fn spec_retryable(self) -> bool {
        self.retryable
    }

    pub fn new(category: ApplicationErrorCategory, retryable: bool) -> (error: Self)
        ensures
            error.spec_category() == category,
            error.spec_retryable() == retryable,
    {
        ApplicationError { category, retryable }
    }

    pub fn category(&self) -> (category: ApplicationErrorCategory)
        ensures
            category == self.spec_category(),
    {
        self.category
    }

    pub fn retryable(&self) -> (retryable: bool)
        ensures
            retryable == self.spec_retryable(),
    {
        self.retryable
    }
}

/// The codes with which the domain rejects a value. Which application category each maps to is
/// the domain's own rule; the library reports the code.
#[derive(Clone, Copy, Debug, PartialEq, Eq, Structural)]
pub enum DomainErrorCode {
    InvalidValue,
    BrokenLineage,
    ContentHashMismatch,
    InvalidEffectiveTime,
}

/// Why a request is refused: an application error, or a value the domain rejects with a code.
#[derive(Clone, Copy, Debug, PartialEq, Eq, Structural)]
pub enum Rejection {
    Application(ApplicationError),
    Domain(DomainErrorCode),
}

/// The non-retryable error of one category.
pub open spec fn failure(category: ApplicationErrorCategory) -> ApplicationError {
    ApplicationError { category, retryable: false }
}

pub fn validation() -> (error: ApplicationError)
    ensures
        error == failure(ApplicationErrorCategory::ValidationFailed),
{
    ApplicationError::new(ApplicationErrorCategory::ValidationFailed, false)
}

pub fn integrity() -> (error: ApplicationError)
    ensures
        error == failure(ApplicationErrorCategory::HashMismatch),
{
    ApplicationError::new(ApplicationErrorCategory::HashMismatch, false)
}

pub fn lineage() -> (error: ApplicationError)
    ensures
        error == failure(ApplicationErrorCategory::LineageIncomplete),
{
    ApplicationError::new(ApplicationErrorCategory::LineageIncomplete, false)
}

pub fn not_found() -> (error: ApplicationError)
    ensures
        error == failure(ApplicationErrorCategory::NotFound),
{
    ApplicationError::new(ApplicationErrorCategory::NotFound, false)
}

pub fn forbidden() -> (error: ApplicationError)
    ensures
        error == failure(ApplicationErrorCategory::Forbidden),
{
    ApplicationError::new(ApplicationErrorCategory::Forbidden, false)
}

pub fn state_conflict() -> (error: ApplicationError)
    ensures
        error == failure(ApplicationErrorCategory::StateConflict),
{
    ApplicationError::new(ApplicationErrorCategory::StateConflict, false)
}

} // verus!
