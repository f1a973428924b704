//! Provisioning a machine from a profile: what may run, what is run, and
//! what is said of it.
//!
//! A profile is a tree ([`profile`]) that declares capabilities, paths,
//! URLs and phases. A phase is either one effect, or a list of steps that
//! [`lifecycle`] composes and [`steps`] gives identities to. Before
//! anything runs it is checked against what the profile declared
//! ([`capgate`], [`policy`], [`demand`], [`admission`]); a step whose
//! [`condition`] is satisfied already is skipped ([`running`]).
//!
//! The library makes no effect itself. [`registry`] and [`phases`] hand
//! the host what to do, take back what came of it, and record the entry
//! ([`report`]), the line and the event ([`audit`]) that say so.
//! [`effects`], [`chunked`], [`aria2c`] and [`observe`] hold the
//! decisions around the effects that a host makes.

pub mod admission;
pub mod aria2c;
pub mod audit;
pub mod calls;
pub mod capgate;
pub mod chunked;
pub mod condition;
pub mod context;
pub mod demand;
pub mod effects;
pub mod exec;
pub mod json;
pub mod lifecycle;
pub mod names;
pub mod observe;
pub mod payload;
pub mod phases;
pub mod policy;
pub mod profile;
pub mod registry;
pub mod report;
pub mod running;
pub mod scheme;
pub mod steps;
pub mod text;
