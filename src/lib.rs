//! Symptom tracking core: caregiver invitations, caregiver relationships,
//! form storage and the aggregated views that patients and caregivers read.

pub mod model;
pub mod recency;
pub mod tokens;
pub mod registry;
pub mod laws;
pub mod aggregate;
pub mod history;
pub mod dto;
