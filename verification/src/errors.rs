//! The ways in which an operation can fail.

use vstd::prelude::*;

verus! {

/// A request that breaks a rule of the model and that the caller can mend.
#[derive(Debug, PartialEq, Eq, Structural, Clone, Copy)]
pub enum BadRequest {
    /// The name is empty or is no letter followed by letters, digits and
    /// underscores, or is too long.
    NameInvalid,
    /// The project already holds an entity of that name.
    NameTaken,
    /// The weight is no percentage.
    WeightOutOfRange,
    /// The weights of the standard variants would add up to more than 100.
    WeightExceeded,
    /// The feature has no control variant in the environment.
    NoDefaultValue,
    /// A control variant is changed through its feature only.
    ControlVariantImmutable,
    /// The control variant cannot go while standard variants remain.
    ControlHasDependents,
}

/// Why an operation failed.
#[derive(Debug, PartialEq, Eq, Structural, Clone, Copy)]
pub enum FlagrantError {
    /// The project, environment, feature or variant does not exist.
    NotFound,
    /// The request breaks a rule of the model.
    BadRequest(BadRequest),
    /// The feature has no value in the environment.
    NoValue,
    /// The store could not take the request; nothing was changed.
    StoreUnavailable,
    /// Anything else.
    Internal,
}

/// An error on its way to a client of the service.
#[derive(Debug, PartialEq, Eq, Structural, Clone, Copy)]
pub struct ServiceError(pub FlagrantError);

/// The status code that answers a request that failed with `error`.
pub open spec fn status_of(error: FlagrantError) -> int {
    match error {
        FlagrantError::BadRequest(_) => 400,
        FlagrantError::NotFound => 404,
        FlagrantError::NoValue => 404,
        FlagrantError::StoreUnavailable => 500,
        FlagrantError::Internal => 500,
    }
}

/// The sentence that tells the user of `error`.
pub open spec fn message_of(error: FlagrantError) -> Seq<char> {
    match error {
        FlagrantError::NotFound => "Not found"@,
        FlagrantError::BadRequest(BadRequest::NameInvalid) => "Bad request (Invalid name)"@,
        FlagrantError::BadRequest(BadRequest::NameTaken) => "Bad request (Name already taken)"@,
        FlagrantError::BadRequest(BadRequest::WeightOutOfRange) =>
                "Bad request (Variant weight should be positive number in range of <0, 100>.)"@,
        FlagrantError::BadRequest(BadRequest::WeightExceeded) =>
                "Bad request (Environmental weights greater than 100%)"@,
        FlagrantError::BadRequest(BadRequest::NoDefaultValue) =>
                "Bad request (No feature value set. Use \"FEATURE val ...\" to set default feature value.)"@,
        FlagrantError::BadRequest(BadRequest::ControlVariantImmutable) =>
                "Bad request (Control variant cannot be modified this way. Use `feature::update(...)` instead.)"@,
        FlagrantError::BadRequest(BadRequest::ControlHasDependents) =>
                "Bad request (Could not remove default variant as there are still other variants defined for this feature)"@,
        FlagrantError::NoValue => "Feature has no value in this environment"@,
        FlagrantError::StoreUnavailable => "Store unavailable"@,
        FlagrantError::Internal => "Unexpected failure"@,
    }
}

impl FlagrantError {
    /// Whether the same request may succeed when it is made again.
    pub fn is_retryable(&self) -> (retry: bool)
        ensures
            retry == (*self == FlagrantError::StoreUnavailable),
    {
        match self {
            FlagrantError::StoreUnavailable => true,
            _ => false,
        }
    }

    /// A sentence for the user.
    pub fn message(&self) -> (text: &'static str)
        ensures
            text@ == message_of(*self),
    {
        match self {
            FlagrantError::NotFound => "Not found",
            FlagrantError::BadRequest(BadRequest::NameInvalid) => "Bad request (Invalid name)",
            FlagrantError::BadRequest(BadRequest::NameTaken) => "Bad request (Name already taken)",
            FlagrantError::BadRequest(BadRequest::WeightOutOfRange) =>
                "Bad request (Variant weight should be positive number in range of <0, 100>.)",
            FlagrantError::BadRequest(BadRequest::WeightExceeded) =>
                "Bad request (Environmental weights greater than 100%)",
            FlagrantError::BadRequest(BadRequest::NoDefaultValue) =>
                "Bad request (No feature value set. Use \"FEATURE val ...\" to set default feature value.)",
            FlagrantError::BadRequest(BadRequest::ControlVariantImmutable) =>
                "Bad request (Control variant cannot be modified this way. Use `feature::update(...)` instead.)",
            FlagrantError::BadRequest(BadRequest::ControlHasDependents) =>
                "Bad request (Could not remove default variant as there are still other variants defined for this feature)",
            FlagrantError::NoValue => "Feature has no value in this environment",
            FlagrantError::StoreUnavailable => "Store unavailable",
            FlagrantError::Internal => "Unexpected failure",
        }
    }
}

impl ServiceError {
    /// The status code of the response.
    pub fn status(&self) -> (code: u16)
        ensures
            code == status_of(self.0),
    {
        match self.0 {
            FlagrantError::BadRequest(_) => 400,
            FlagrantError::NotFound => 404,
            FlagrantError::NoValue => 404,
            FlagrantError::StoreUnavailable => 500,
            FlagrantError::Internal => 500,
        }
    }

    /// The body of the response.
    pub fn body(&self) -> (text: &'static str)
        ensures
            text@ == message_of(self.0),
    {
        self.0.message()
    }
}

} // verus!
