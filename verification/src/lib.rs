//! A small task tracker: a persisted task list, a persisted configuration
//! of known repositories, a board projection grouped by status, and the
//! rules that keep local records consistent with a remote issue tracker.

pub mod board;
pub mod codec;
pub mod config_record;
pub mod manager;
pub mod model;
pub mod records;
