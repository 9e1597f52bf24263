//! Local data layer of an exam-room scheduling application.
//!
//! The crate keeps a relational cache of catalogue tables (users, rooms,
//! subjects, enrollments) that mirrors a remote read-only source, guards a
//! single operator session, and records exam-slot bookings. Every function
//! carries a contract over the mathematical view of the tables, and the
//! laws of the engine (idempotent refresh, update policy, atomic booking)
//! are proved from those contracts.

pub mod error;
pub mod records;
pub mod remote;
pub mod table;
pub mod reconcile;
pub mod users;
pub mod store;
pub mod credential;
pub mod session;
pub mod sync;
pub mod booking;
pub mod config;
