//! Feature flags with weighted variants: the data model, the rules that keep
//! it consistent, and the accumulator scheme that spreads evaluations over the
//! variants of a feature according to their weights.
//!
//! The state lives in a [`store::Store`]. Projects own environments and
//! features ([`project`], [`environment`], [`feature`]); a feature has, in
//! every environment in which it has a value, a control variant, and beside
//! it standard variants that all environments share ([`variant`]). An
//! evaluation ([`evaluation`]) picks a variant as [`distributor`] says and
//! books the choice. What holds of every store is stated in [`laws`].
//!
//! [`variadic`] holds a feature with its distributor in memory, without a
//! store. The remaining modules serve the clients of the service: the paths
//! of its requests ([`resource`], [`session`], [`payloads`]), the values as
//! they are written ([`values`], [`weights`], [`names`]), and the
//! interactive shell ([`tokenizer`], [`command`], [`tabular`], [`text`]).

pub mod board;
pub mod command;
pub mod distributor;
pub mod environment;
pub mod errors;
pub mod evaluation;
pub mod feature;
pub mod laws;
pub mod model;
pub mod names;
pub mod payloads;
pub mod project;
pub mod resource;
pub mod session;
pub mod store;
pub mod tabular;
pub mod text;
pub mod tokenizer;
pub mod values;
pub mod variadic;
pub mod variant;
pub mod weights;
