//! Audit, invariant and regression checks for rendered figures.
//!
//! From a finished render (the scene description and the RGBA pixel buffer)
//! the library derives structured, numeric evidence and checks it against a
//! fixed set of rules, so that regressions can be found without looking at
//! pixels:
//!
//! - [`metrics`] computes histogram, edge density, background and
//!   transparency percentages, dominant colours and connected components
//!   (the latter on [`regions`]);
//! - [`metadata`] assembles the facts about the render request;
//! - [`invariants`] checks scene, camera, geometry and render rules;
//! - [`report`] assembles the [`audit`] bundle of one render;
//! - [`regression`] compares two bundles within tolerances.
//!
//! The scene model ([`scene`], [`camera`], [`geometry`], [`materials`],
//! [`lighting`]) and the bitmap [`font`] are what the rules read and what a
//! renderer draws. Everything is pure computation: nothing here reads,
//! writes or draws. Real quantities are carried as fixed-point numbers (see
//! [`scalar`]), so every rule is decided by integer arithmetic.

pub mod audit;
pub mod camera;
pub mod font;
pub mod geometry;
pub mod invariants;
pub mod lighting;
pub mod materials;
pub mod metadata;
pub mod metrics;
pub mod regions;
pub mod regression;
pub mod report;
pub mod scalar;
pub mod scene;
pub mod text;
pub mod ticks;
