//! Drums gameplay rules: damage levels, pad state, hit grouping and
//! judgment resolution, and the Customize editor's profile reducers.

pub mod damage_level;
pub mod drums_perf;
pub mod drawable_sub_acts;
pub mod drums_screen_sub_acts;
pub mod lane_map;
pub mod drum_groups;
pub mod editor;
pub mod autoplay;
pub mod bgm_scheduler;
pub mod beat_lines;
