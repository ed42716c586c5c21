//! The entities that the admin and evaluation operations hand out.

use vstd::prelude::*;
use crate::values::FeatureValue;

verus! {

/// A namespace that owns environments and features.
#[derive(Debug, PartialEq)]
pub struct Project {
    pub id: u16,
    pub name: String,
}

/// A named slice of a project, such as production or staging.
#[derive(Debug, PartialEq)]
pub struct Environment {
    pub id: u16,
    pub project_id: u16,
    pub name: String,
    pub description: Option<String>,
}

/// One candidate value of a feature, as seen from one environment.
///
/// A control variant belongs to the environment named in `environment_id`;
/// a standard variant names none and is shared by all environments.
#[derive(Debug, PartialEq)]
pub struct Variant {
    pub id: u16,
    pub value: FeatureValue,
    pub weight: u8,
    pub accumulator: i32,
    pub environment_id: Option<u16>,
}

/// A flag, with its variants as seen from one environment.
#[derive(Debug, PartialEq)]
pub struct Feature {
    pub id: u16,
    pub project_id: u16,
    pub name: String,
    pub variants: Vec<Variant>,
    pub is_enabled: bool,
}

/// The position of the first control variant at or after `from`, or the
/// length of `variants` where there is none.
pub open spec fn control_position(variants: Seq<Variant>, from: int) -> int
    decreases variants.len() - from,
{
    if from < 0 || from >= variants.len() {
        variants.len() as int
    } else if variants[from].environment_id is Some {
        from
    } else {
        control_position(variants, from + 1)
    }
}

/// The first control variant among `variants`.
pub open spec fn first_control(variants: Seq<Variant>) -> Option<Variant> {
    let at = control_position(variants, 0);
    if at < variants.len() {
        Some(variants[at])
    } else {
        None
    }
}

impl Default for Project {
    fn default() -> (project: Self)
        ensures
            project.id == 0,
            project.name@ == Seq::<char>::empty(),
    {
        Project { id: 0, name: String::new() }
    }
}

impl Clone for Project {
    fn clone(&self) -> (copy: Self)
        ensures
            copy == *self,
    {
        Project { id: self.id, name: self.name.clone() }
    }
}

impl Default for Environment {
    fn default() -> (environment: Self)
        ensures
            environment.id == 0,
            environment.project_id == 0,
            environment.name@ == Seq::<char>::empty(),
            environment.description is None,
    {
        Environment { id: 0, project_id: 0, name: String::new(), description: None }
    }
}

impl Clone for Environment {
    fn clone(&self) -> (copy: Self)
        ensures
            copy == *self,
    {
        let description = match &self.description {
            Some(d) => Some(d.clone()),
            None => None,
        };
        Environment {
            id: self.id,
            project_id: self.project_id,
            name: self.name.clone(),
            description,
        }
    }
}

impl Clone for Variant {
    fn clone(&self) -> (copy: Self)
        ensures
            copy == *self,
    {
        Variant {
            id: self.id,
            value: self.value.clone(),
            weight: self.weight,
            accumulator: self.accumulator,
            environment_id: self.environment_id,
        }
    }
}

impl Variant {
    /// A standard variant, whose accumulator starts at its weight.
    pub fn build(id: u16, value: FeatureValue, weight: u8) -> (variant: Variant)
        ensures
            variant == (Variant {
                id,
                value,
                weight,
                accumulator: weight as i32,
                environment_id: None,
            }),
    {
        Variant { id, value, weight, accumulator: weight as i32, environment_id: None }
    }

    /// The control variant of `environment`, which holds the whole weight
    /// as long as the feature has no other variant.
    pub fn build_default(environment: &Environment, id: u16, value: FeatureValue) -> (variant:
        Variant)
        ensures
            variant == (Variant {
                id,
                value,
                weight: 100,
                accumulator: 100,
                environment_id: Some(environment.id),
            }),
    {
        Variant { id, value, weight: 100, accumulator: 100, environment_id: Some(environment.id) }
    }

    /// Whether this is the control variant of some environment.
    pub fn is_control(&self) -> (control: bool)
        ensures
            control == self.environment_id is Some,
    {
        self.environment_id.is_some()
    }
}

impl Feature {
    /// The control variant among the variants of this feature.
    pub fn get_default_variant(&self) -> (found: Option<&Variant>)
        ensures
            match found {
                Some(v) => first_control(self.variants@) == Some(*v),
                None => first_control(self.variants@) is None,
            },
    {
        let mut at: usize = 0;
        while at < self.variants.len() && !self.variants[at].is_control()
            invariant
                at <= self.variants.len(),
                control_position(self.variants@, 0) == control_position(self.variants@, at as int),
            decreases self.variants.len() - at,
        {
            at = at + 1;
        }
        if at < self.variants.len() {
            Some(&self.variants[at])
        } else {
            None
        }
    }

    /// The value of the control variant.
    pub fn get_default_value(&self) -> (found: Option<&FeatureValue>)
        ensures
            match found {
                Some(v) => first_control(self.variants@) is Some && first_control(
                    self.variants@,
                )->0.value == *v,
                None => first_control(self.variants@) is None,
            },
    {
        if let Some(variant) = self.get_default_variant() {
            return Some(&variant.value);
        }
        None
    }

    /// This feature with `variants` in place of its own.
    pub fn with_variants(self, variants: Vec<Variant>) -> (feature: Feature)
        ensures
            feature == (Feature { variants, ..self }),
    {
        let mut feature = self;
        feature.variants = variants;
        feature
    }
}

} // verus!
