//! Constants of the performance-screen drawable sub-acts.

pub mod judgement_string;
pub mod note_explosion;
pub mod performance_info;
pub mod wailing_bonus_orch;
pub mod wailing_effect;
