use flagrant::errors::{BadRequest, FlagrantError, ServiceError};

#[test]
fn errors_map_to_status_codes() {
    for kind in [
        BadRequest::NameInvalid,
        BadRequest::NameTaken,
        BadRequest::WeightOutOfRange,
        BadRequest::WeightExceeded,
        BadRequest::NoDefaultValue,
        BadRequest::ControlVariantImmutable,
        BadRequest::ControlHasDependents,
    ] {
        assert_eq!(ServiceError(FlagrantError::BadRequest(kind)).status(), 400);
        assert!(FlagrantError::BadRequest(kind).message().starts_with("Bad request ("));
        assert!(!FlagrantError::BadRequest(kind).is_retryable());
    }
    assert_eq!(ServiceError(FlagrantError::NotFound).status(), 404);
    assert_eq!(ServiceError(FlagrantError::NoValue).status(), 404);
    assert_eq!(ServiceError(FlagrantError::StoreUnavailable).status(), 500);
    assert_eq!(ServiceError(FlagrantError::Internal).status(), 500);
    assert!(FlagrantError::StoreUnavailable.is_retryable());
    assert!(!FlagrantError::Internal.is_retryable());
    assert!(!FlagrantError::NotFound.is_retryable());
}

#[test]
fn errors_carry_a_sentence_for_the_user() {
    assert_eq!(ServiceError(FlagrantError::NotFound).body(), "Not found");
    assert_eq!(
        FlagrantError::BadRequest(BadRequest::ControlHasDependents).message(),
        "Bad request (Could not remove default variant as there are still other variants defined for this feature)"
    );
    assert_eq!(
        FlagrantError::BadRequest(BadRequest::NoDefaultValue).message(),
        "Bad request (No feature value set. Use \"FEATURE val ...\" to set default feature value.)"
    );
    assert_eq!(FlagrantError::NoValue.message(), "Feature has no value in this environment");
}
