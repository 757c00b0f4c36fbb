//! Spinoza: the capability model, case specification checks, method
//! registry selection rules, pack conformance checks, audit and listing
//! reports, solve-time component selection and the topology of structured
//! meshes of a modular multiphysics framework, with their contracts proved
//! by Verus.

pub mod block;
pub mod text;
pub mod capability;
pub mod error;
pub mod spec;
pub mod keys;
pub mod components;
pub mod pack;
pub mod registry;
pub mod packs;
pub mod catalog;
pub mod conformance;
pub mod audit;
pub mod list;
pub mod solve;
pub mod grid;
pub mod mesher;
pub mod constraints;
