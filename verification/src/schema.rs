//! The rules by which a config struct's declaration becomes behaviour: which
//! field attributes are accepted and how they combine, which env keys a field
//! reads, how a field is displayed, and what a build-time constants module
//! holds.

pub mod text;
pub mod attrs;
pub mod fields;
pub mod plan;
pub mod render;
pub mod cascade;
