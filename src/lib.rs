//! Classification of media files: each file path is checked against filter
//! rules, read for a season and episode marker, and given one of five
//! actions, with a canonical destination path for files to be renamed.
pub mod action;
pub mod text;
pub mod path;
pub mod descriptor;
pub mod normalize;
pub mod cache;
pub mod intent;
pub mod laws;

pub use action::Action;
pub use cache::{Episode, EpisodeIndex, EpisodeKey, Series, TvdbCache};
pub use descriptor::{get_descriptor, Descriptor};
pub use intent::{get_file_intent, FileIntent, FilterRules};
pub use normalize::{clean_episode_title, clean_series_name};
