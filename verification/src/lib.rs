//! Validation of shipment-planning rows and the plans built from them.
//!
//! A row of the planning sheet is read into a draft ([`adapter`]), the draft
//! is held to the rules and becomes a packed or a loose entry ([`entry`]),
//! and the entries of a batch make a plan ([`builder`], [`plan`]), which can
//! be sorted ([`order`], [`sorting`]), broken down into cases and summed up.
//! Measurements are kept exact ([`measure`]). Two small modules hold the rows
//! of return reports ([`customer_returns`], [`removals`]).
pub mod adapter;
pub mod builder;
pub mod customer_returns;
pub mod entry;
pub mod error;
pub mod measure;
pub mod order;
pub mod plan;
pub mod removals;
pub mod sorting;
