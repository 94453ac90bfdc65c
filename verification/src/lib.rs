//! Offsets headers: reading the offsets they declare, bringing them up to
//! date from a dump, and the state of the window that drives dumps and
//! updates.
pub mod clock;
pub mod config;
pub mod grammar;
pub mod laws;
pub mod offset_map;
pub mod parser;
pub mod text;
pub mod ui;

pub use config::DumpConfig;
pub use offset_map::OffsetMap;
pub use parser::{
    apply_offset_update, combine_output_files, is_hpp_file_name, parse_hpp_content, update_offsets_at,
    OffsetUpdate,
    OutputFile, UpdateStats,
};
pub use ui::{
    auto_update_log, FileTypesState, LogLevel, LogLine, Tab, UiApp, UiLogger, UpdateOutcome,
};
