//! Drums performance screen sub-act positions and constants (whole pixels).

pub mod drums_chip_fire;
pub mod drums_combo_dgb;
pub mod drums_danger;
pub mod drums_filling;
pub mod drums_gauge;
pub mod drums_judgement;
pub mod drums_lane_flush;
pub mod drums_pad;
pub mod drums_score;
pub mod drums_status_panel;
pub mod stage_perf_drums;
