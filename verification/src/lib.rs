//! Core engine for a satellite tracking application.
//!
//! The crate covers the parts of the tracker that decide and compute, rather
//! than render: the satellite-group roster and its selection/loading state
//! machine, the element-set cache with its staleness rule, materialization of
//! catalog records into propagatable objects, segmentation of visibility
//! samples into pass-time windows, the simulation clock, and the text-layout
//! helpers used by the object tables.
//!
//! Floating-point geodesy (frame transforms, azimuth/elevation, ground and
//! sky tracks) and all I/O (network fetches, cache files, the terminal) live
//! outside this crate; the engine exchanges plain values with that code.

pub mod cache;
pub mod group;
pub mod object;
pub mod passes;
pub mod pipeline;
pub mod selection;
pub mod sim_time;
pub mod text;
