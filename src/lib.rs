//! The datum lifecycle and job-control plane of a batch job runner: the
//! entity model, the reservation protocol, ownership checks on worker
//! updates, job completion, and the babysitter's reconciliation passes.

pub mod auth;
pub mod babysitter;
pub mod connect_via;
pub mod controller;
pub mod db;
pub mod deploy;
pub mod errors;
pub mod laws;
pub mod models;
pub mod outside;
pub mod rest_api;
pub mod status;
pub mod store;
pub mod uri;
pub mod worker;
