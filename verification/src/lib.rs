//! Coursework completion tracking: a verified model of members, groups,
//! tasks and completion records, together with the resolution engine that
//! partitions members or groups into finished and unfinished sets.
//!
//! The heart of the crate is [`store::Store`], an in-memory relational
//! store of six collections whose invariant [`store::StoreModel::wf`]
//! captures the schema: unique identifiers and usernames, unique
//! per-course group numbers, unique membership and completion edges, and
//! referential integrity — every completion edge names an existing actor
//! and an existing task of the matching assignment mode.
//!
//! On top of it stand the roster service ([`roster`]): group creation with
//! atomic per-course sequential numbering, membership mutation, and group
//! listing hydrated with member rosters; and the resolution engine
//! ([`engine`]): completion marking of the mode that matches each task,
//! and the partition computations for one task, one member, or one group.
//! Every operation's contract relates its result and the new store to a
//! mathematical transition on [`store::StoreModel`], and the partition,
//! inheritance, idempotence, numbering and hydration laws are proved as
//! public lemmas beside the operations they govern.
//!
//! Everything here is verified; transport, credential handling and
//! persistence wiring live outside the library and hand it plain values.

pub mod status;
pub mod message;
pub mod users;
pub mod tasks;
pub mod course;
pub mod group;
pub mod group_tasks;
pub mod user_tasks;
pub mod auth;
pub mod session;
pub mod response;
pub mod seq_facts;
pub mod store;
pub mod roster;
pub mod engine;
pub mod responder;
pub mod middleware;
