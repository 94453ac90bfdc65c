//! The state of the window and of its console, and the decisions taken on
//! it; drawing the window is left to the program around the library.
use vstd::prelude::*;
use crate::config::{owned, string_views, DumpConfig};
use crate::parser::UpdateStats;
use crate::text::{decimal, extend_str, push_decimal, string_of};

verus! {

/// The most lines the console keeps before dropping old ones.
pub const MAX_LOG_LINES: usize = 2000;

/// How many of the oldest lines go when the console holds too many.
pub const DROPPED_LOG_LINES: usize = 500;

/// How severe a logged message is.
#[derive(Clone, Copy, Debug, PartialEq, Eq)]
pub enum LogLevel {
    Error,
    Warn,
    Info,
    Debug,
    Trace,
}

/// The name a level is shown under.
pub open spec fn level_label(level: LogLevel) -> Seq<char> {
    match level {
        LogLevel::Error => "ERROR"@,
        LogLevel::Warn => "WARN"@,
        LogLevel::Info => "INFO"@,
        LogLevel::Debug => "DEBUG"@,
        LogLevel::Trace => "TRACE"@,
    }
}

/// The colour (red, green, blue) that the console shows a level in.
pub open spec fn level_rgb(level: LogLevel) -> (u8, u8, u8) {
    match level {
        LogLevel::Error => (255, 80, 80),
        LogLevel::Warn => (255, 200, 50),
        LogLevel::Info => (100, 220, 120),
        LogLevel::Debug => (130, 180, 255),
        LogLevel::Trace => (160, 160, 160),
    }
}

impl LogLevel {
    /// The name this level is shown under.
    pub fn label(self) -> (r: &'static str)
        ensures
            r@ == level_label(self),
    {
        match self {
            LogLevel::Error => "ERROR",
            LogLevel::Warn => "WARN",
            LogLevel::Info => "INFO",
            LogLevel::Debug => "DEBUG",
            LogLevel::Trace => "TRACE",
        }
    }

    /// The colour the console shows this level in.
    pub fn rgb(self) -> (r: (u8, u8, u8))
        ensures
            r == level_rgb(self),
    {
        match self {
            LogLevel::Error => (255, 80, 80),
            LogLevel::Warn => (255, 200, 50),
            LogLevel::Info => (100, 220, 120),
            LogLevel::Debug => (130, 180, 255),
            LogLevel::Trace => (160, 160, 160),
        }
    }
}

/// One line of the console.
#[derive(Clone)]
pub struct LogLine {
    pub level: LogLevel,
    pub message: String,
}

/// A console line as shown: `[LEVEL] text`.
pub open spec fn log_message(level: LogLevel, text: Seq<char>) -> Seq<char> {
    "["@ + level_label(level) + "] "@ + text
}

/// The console's lines: new lines go at the end, and once there are more
/// than `MAX_LOG_LINES` the oldest `DROPPED_LOG_LINES` are dropped.
pub struct UiLogger {
    buffer: Vec<LogLine>,
}

impl UiLogger {
    /// The lines held, oldest first.
    pub closed spec fn lines(&self) -> Seq<LogLine> {
        self.buffer@
    }

    /// A console that holds `buffer`.
    pub fn new(buffer: Vec<LogLine>) -> (r: Self)
        ensures
            r.lines() == buffer@,
    {
        UiLogger { buffer }
    }

    /// Every message is taken.
    pub fn enabled(&self) -> (r: bool)
        ensures
            r,
    {
        true
    }

    /// Adds `text` at `level` as the newest line, shown as `[LEVEL] text`.
    /// When the console then holds more than `MAX_LOG_LINES` lines, its
    /// oldest `DROPPED_LOG_LINES` lines go.
    pub fn log(&mut self, level: LogLevel, text: &str)
        ensures
            ({
                let n = old(self).lines().len() + 1;
                let dropped: int = if n > MAX_LOG_LINES {
                    DROPPED_LOG_LINES as int
                } else {
                    0
                };
                &&& final(self).lines().len() == n - dropped
                &&& forall|i: int|
                    0 <= i < n - dropped - 1 ==> #[trigger] final(self).lines()[i] == old(
                        self,
                    ).lines()[i + dropped]
                &&& final(self).lines().last().level == level
                &&& final(self).lines().last().message@ == log_message(level, text@)
            }),
            old(self).lines().len() <= MAX_LOG_LINES ==> final(self).lines().len()
                <= MAX_LOG_LINES,
    {
        let mut m: Vec<char> = Vec::new();
        extend_str(&mut m, "[");
        extend_str(&mut m, level.label());
        extend_str(&mut m, "] ");
        extend_str(&mut m, text);
        let line = LogLine { level, message: string_of(&m) };
        self.buffer.push(line);
        if self.buffer.len() > MAX_LOG_LINES {
            let rest = self.buffer.split_off(DROPPED_LOG_LINES);
            self.buffer = rest;
        }
    }

    /// The lines held, oldest first.
    pub fn entries(&self) -> (r: &Vec<LogLine>)
        ensures
            r@ == self.lines(),
    {
        &self.buffer
    }

    /// Drops every line.
    pub fn clear(&mut self)
        ensures
            final(self).lines().len() == 0,
    {
        self.buffer.clear();
    }
}

/// Which kinds of file a dump writes.
#[derive(Clone, Copy, Debug, PartialEq, Eq)]
pub struct FileTypesState {
    pub cs: bool,
    pub hpp: bool,
    pub json: bool,
    pub rs: bool,
    pub zig: bool,
}

impl Default for FileTypesState {
    fn default() -> (r: Self)
        ensures
            r.cs && r.hpp && r.json && r.rs && r.zig,
    {
        FileTypesState { cs: true, hpp: true, json: true, rs: true, zig: true }
    }
}

/// The extensions of the kinds of file chosen, in a fixed order.
pub open spec fn selected_types(f: FileTypesState) -> Seq<Seq<char>> {
    (if f.cs { seq!["cs"@] } else { Seq::empty() })
        + (if f.hpp { seq!["hpp"@] } else { Seq::empty() })
        + (if f.json { seq!["json"@] } else { Seq::empty() })
        + (if f.rs { seq!["rs"@] } else { Seq::empty() })
        + (if f.zig { seq!["zig"@] } else { Seq::empty() })
}

/// The tabs of the window.
#[derive(Clone, Copy, Debug, PartialEq, Eq)]
pub enum Tab {
    Dumper,
    Update,
    Console,
    Credits,
}

/// How an offset update that was asked for came out.
pub enum UpdateOutcome {
    /// The header was updated; its report and counts.
    Updated { summary: String, stats: UpdateStats },
    /// The dump's output directory could not be read.
    ScanFailed(String),
    /// The header could not be read, or not written back.
    UpdateFailed(String),
}

/// The window's state.
pub struct UiApp {
    pub output_path: String,
    pub process_name: String,
    pub indent_size: i32,
    pub file_types: FileTypesState,
    pub selected_tab: Tab,
    pub cs2_running: bool,
    pub selected_offset_file: Option<String>,
    pub update_status: String,
    pub update_details: String,
    pub auto_update_on_dump: bool,
    pub console_auto_scroll: bool,
}

/// `a` and `b` agree on everything but the chosen header and the report
/// of the last update.
pub open spec fn same_settings(a: &UiApp, b: &UiApp) -> bool {
    &&& a.output_path == b.output_path
    &&& a.process_name == b.process_name
    &&& a.indent_size == b.indent_size
    &&& a.file_types == b.file_types
    &&& a.selected_tab == b.selected_tab
    &&& a.cs2_running == b.cs2_running
    &&& a.auto_update_on_dump == b.auto_update_on_dump
    &&& a.console_auto_scroll == b.console_auto_scroll
}

/// The details shown after a successful update.
pub open spec fn success_details(summary: Seq<char>, stats: UpdateStats) -> Seq<char> {
    summary + "\n\nDetails:\nTotal offsets: "@ + decimal(stats.total as nat)
}

/// `prefix` followed by `text`, as a `String`.
fn joined(prefix: &str, text: &str) -> (r: String)
    ensures
        r@ == prefix@ + text@,
{
    let mut m: Vec<char> = Vec::new();
    extend_str(&mut m, prefix);
    extend_str(&mut m, text);
    string_of(&m)
}

impl UiApp {
    /// The state the window opens in: output to `output`, reading
    /// `cs2.exe`, indenting by 4, every file type chosen, the dumper tab
    /// shown, no header chosen, and the console following new lines.
    pub fn initial() -> (r: Self)
        ensures
            r.output_path@ == "output"@,
            r.process_name@ == "cs2.exe"@,
            r.indent_size == 4,
            r.file_types == (FileTypesState { cs: true, hpp: true, json: true, rs: true, zig: true }),
            r.selected_tab == Tab::Dumper,
            !r.cs2_running,
            r.selected_offset_file is None,
            r.update_status@.len() == 0,
            r.update_details@.len() == 0,
            !r.auto_update_on_dump,
            r.console_auto_scroll,
    {
        UiApp {
            output_path: owned("output"),
            process_name: owned("cs2.exe"),
            indent_size: 4,
            file_types: FileTypesState::default(),
            selected_tab: Tab::Dumper,
            cs2_running: false,
            selected_offset_file: None,
            update_status: String::new(),
            update_details: String::new(),
            auto_update_on_dump: false,
            console_auto_scroll: true,
        }
    }

    /// The extensions of the file types chosen, in the order cs, hpp, json,
    /// rs, zig.
    pub fn get_selected_file_types(&self) -> (r: Vec<String>)
        ensures
            string_views(r@) == selected_types(self.file_types),
    {
        let mut types: Vec<String> = Vec::new();
        if self.file_types.cs {
            types.push(owned("cs"));
        }
        if self.file_types.hpp {
            types.push(owned("hpp"));
        }
        if self.file_types.json {
            types.push(owned("json"));
        }
        if self.file_types.rs {
            types.push(owned("rs"));
        }
        if self.file_types.zig {
            types.push(owned("zig"));
        }
        assert(string_views(types@) =~= selected_types(self.file_types));
        types
    }

    /// The dump that the window asks for: the local process named in the
    /// window, the chosen file types, its indentation and output directory.
    pub fn dump_config(&self) -> (r: DumpConfig)
        ensures
            r.connector is None,
            r.connector_args is None,
            string_views(r.file_types@) == selected_types(self.file_types),
            r.indent_size == self.indent_size as usize,
            r.output@ == self.output_path@,
            r.process_name@ == self.process_name@,
    {
        DumpConfig {
            connector: None,
            connector_args: None,
            file_types: self.get_selected_file_types(),
            indent_size: self.indent_size as usize,
            output: self.output_path.clone(),
            process_name: self.process_name.clone(),
        }
    }

    /// A header was chosen for updating: it is kept, and the report of an
    /// earlier update is cleared.
    pub fn select_offset_file(&mut self, path: String)
        ensures
            final(self).selected_offset_file == Some(path),
            final(self).update_status@.len() == 0,
            final(self).update_details@.len() == 0,
            same_settings(&*final(self), &*old(self)),
    {
        self.selected_offset_file = Some(path);
        self.update_status = String::new();
        self.update_details = String::new();
    }

    /// The header to bring up to date after a successful dump: the chosen
    /// one, when updating on dump is switched on.
    pub fn auto_update_target(&self) -> (r: Option<String>)
        ensures
            r == (if self.auto_update_on_dump {
                self.selected_offset_file
            } else {
                None::<String>
            }),
    {
        if self.auto_update_on_dump {
            self.selected_offset_file.clone()
        } else {
            None
        }
    }

    /// Shows how an update asked for on the update tab came out, and gives
    /// the line to log about it.
    pub fn finish_offset_update(&mut self, outcome: &UpdateOutcome) -> (r: (LogLevel, String))
        ensures
            match outcome {
                UpdateOutcome::Updated { summary, stats } => {
                    &&& final(self).update_status@ == "[SUCCESS] Update complete"@
                    &&& final(self).update_details@ == success_details(summary@, *stats)
                    &&& r.0 == LogLevel::Info
                    &&& r.1@ == "Offsets updated: "@ + summary@
                },
                UpdateOutcome::ScanFailed(e) => {
                    &&& final(self).update_status@ == "[ERROR] Scan Failed"@
                    &&& final(self).update_details@ == "Error: "@ + e@
                    &&& r.0 == LogLevel::Error
                    &&& r.1@ == "Scan failed: "@ + e@
                },
                UpdateOutcome::UpdateFailed(e) => {
                    &&& final(self).update_status@ == "[ERROR] Update Failed"@
                    &&& final(self).update_details@ == "Error: "@ + e@
                    &&& r.0 == LogLevel::Error
                    &&& r.1@ == "Update failed: "@ + e@
                },
            },
            final(self).selected_offset_file == old(self).selected_offset_file,
            same_settings(&*final(self), &*old(self)),
    {
        match outcome {
            UpdateOutcome::Updated { summary, stats } => {
                self.update_status = owned("[SUCCESS] Update complete");
                let mut d: Vec<char> = Vec::new();
                extend_str(&mut d, summary.as_str());
                extend_str(&mut d, "\n\nDetails:\nTotal offsets: ");
                push_decimal(&mut d, stats.total as u64);
                self.update_details = string_of(&d);
                (LogLevel::Info, joined("Offsets updated: ", summary.as_str()))
            },
            UpdateOutcome::ScanFailed(e) => {
                self.update_status = owned("[ERROR] Scan Failed");
                self.update_details = joined("Error: ", e.as_str());
                (LogLevel::Error, joined("Scan failed: ", e.as_str()))
            },
            UpdateOutcome::UpdateFailed(e) => {
                self.update_status = owned("[ERROR] Update Failed");
                self.update_details = joined("Error: ", e.as_str());
                (LogLevel::Error, joined("Update failed: ", e.as_str()))
            },
        }
    }
}

/// The line to log about an update made on its own after a dump; the
/// window's report is left as it is.
pub fn auto_update_log(outcome: &UpdateOutcome) -> (r: (LogLevel, String))
    ensures
        match outcome {
            UpdateOutcome::Updated { summary, .. } => r.0 == LogLevel::Info && r.1@
                == "Auto-update: "@ + summary@,
            UpdateOutcome::ScanFailed(e) => r.0 == LogLevel::Error && r.1@ == "Scan failed: "@
                + e@,
            UpdateOutcome::UpdateFailed(e) => r.0 == LogLevel::Error && r.1@
                == "Auto-update failed: "@ + e@,
        },
{
    match outcome {
        UpdateOutcome::Updated { summary, .. } => (
            LogLevel::Info,
            joined("Auto-update: ", summary.as_str()),
        ),
        UpdateOutcome::ScanFailed(e) => (LogLevel::Error, joined("Scan failed: ", e.as_str())),
        UpdateOutcome::UpdateFailed(e) => (
            LogLevel::Error,
            joined("Auto-update failed: ", e.as_str()),
        ),
    }
}

} // verus!
