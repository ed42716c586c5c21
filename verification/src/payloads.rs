//! What the requests of the admin interface carry.

use vstd::prelude::*;
use vstd::std_specs::convert::FromSpecImpl;
use crate::model::{first_control, Feature};
use crate::values::FeatureValue;

verus! {

/// The body of a request that creates an environment.
#[derive(Debug, PartialEq)]
pub struct EnvRequestPayload {
    pub name: String,
    pub description: Option<String>,
}

/// The body of a request that creates or updates a feature.
#[derive(Debug, PartialEq)]
pub struct FeatureRequestPayload {
    pub name: String,
    pub value: Option<FeatureValue>,
    pub description: Option<String>,
    pub is_enabled: bool,
}

/// The body of a request that creates or updates a variant: the value in
/// its encoded form, and the weight.
#[derive(Debug, PartialEq)]
pub struct VariantRequestPayload {
    pub value: String,
    pub weight: i16,
}

/// How a listing of environments is narrowed.
#[derive(Debug, PartialEq)]
pub struct EnvQueryParams {
    pub prefix: Option<String>,
}

/// How a listing of features is narrowed.
#[derive(Debug, PartialEq)]
pub struct FeatureQueryParams {
    pub name: Option<String>,
    pub prefix: Option<String>,
}

/// The payload that asks for `feature` as it is: its name, its switch, and
/// the value of its control variant where it has one.
pub open spec fn payload_for(feature: Feature) -> FeatureRequestPayload {
    FeatureRequestPayload {
        name: feature.name,
        value: match first_control(feature.variants@) {
            Some(variant) => Some(variant.value),
            None => None,
        },
        description: None,
        is_enabled: feature.is_enabled,
    }
}

impl From<Feature> for FeatureRequestPayload {
    fn from(feature: Feature) -> (payload: FeatureRequestPayload) {
        let value = match feature.get_default_value() {
            Some(v) => Some(v.clone()),
            None => None,
        };
        FeatureRequestPayload {
            name: feature.name,
            value,
            description: None,
            is_enabled: feature.is_enabled,
        }
    }
}

impl FromSpecImpl<Feature> for FeatureRequestPayload {
    open spec fn obeys_from_spec() -> bool {
        true
    }

    open spec fn from_spec(feature: Feature) -> FeatureRequestPayload {
        payload_for(feature)
    }
}

} // verus!
