//! Analysis and trivial location planning of compiled workflow graphs,
//! together with the request-level decisions of the service around it.

pub mod analysis_laws;
pub mod auth;
pub mod bstowir;
pub mod conv;
pub mod effect;
pub mod eflinttojson;
pub mod error;
pub mod graph;
pub mod laws;
pub mod layout_laws;
pub mod reach;
pub mod relay;
pub mod text;
pub mod walker;
