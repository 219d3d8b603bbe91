//! Tiered memory storage: a bounded, verified hot tier in front of a
//! pluggable persistent backend, together with the small utilities and
//! factories that surround it.

pub mod agent;
pub mod canvas;
pub mod channels;
pub mod embeddings;
pub mod entry;
pub mod hot_index;
pub mod observability;
pub mod tier_model;
pub mod tiered;
pub mod tools;
pub mod tunnel;
pub mod util;
