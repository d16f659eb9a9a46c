//! The verified core of a small deferred renderer.
//!
//! The centre is an in-memory entity-component store: entities are
//! assembled through a builder protocol, their components live in one flat
//! array per component type, and queries select the entries whose mask
//! contains a requested combination of component types. `components` holds
//! the data, `model` the mathematical state of the store and its steps,
//! `steps` the proofs that the steps keep the invariant, `storage` and
//! `reload` the work on single arrays, `world` the store itself, and `laws`
//! what holds of every store.
//!
//! Around it stand the decisions that the renderer and its shader build
//! server take on plain values: the choice of a memory type (`memory`), of
//! a queue family and of the swapchain's parameters (`swapchain`), the
//! description of a frame (`framegraph`), the packed words of an instance
//! record (`instance`), and the bookkeeping of shader sources (`assets`).

pub mod assets;
pub mod components;
pub mod framegraph;
pub mod instance;
pub mod laws;
pub mod memory;
pub mod model;
pub mod reload;
pub mod steps;
pub mod storage;
pub mod swapchain;
pub mod world;
