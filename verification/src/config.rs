//! What a dump is asked to do.
use vstd::prelude::*;
use crate::text::{chars_of, string_of};

verus! {

/// The settings of a dump: how to reach the game's memory, which files to
/// write, how to indent them, where to write them and which process to read.
#[derive(Clone, Debug)]
pub struct DumpConfig {
    pub connector: Option<String>,
    pub connector_args: Option<String>,
    pub file_types: Vec<String>,
    pub indent_size: usize,
    pub output: String,
    pub process_name: String,
}

/// The file types that a dump writes unless told otherwise.
pub open spec fn default_file_types() -> Seq<Seq<char>> {
    seq!["cs"@, "hpp"@, "json"@, "rs"@, "zig"@]
}

/// The views of a list of strings.
pub open spec fn string_views(v: Seq<String>) -> Seq<Seq<char>> {
    v.map_values(|s: String| s@)
}

/// A `String` holding the characters of `s`.
pub(crate) fn owned(s: &str) -> (r: String)
    ensures
        r@ == s@,
{
    string_of(&chars_of(s))
}

impl Default for DumpConfig {
    fn default() -> (r: Self)
        ensures
            r.connector is None,
            r.connector_args is None,
            string_views(r.file_types@) == default_file_types(),
            r.indent_size == 4,
            r.output@ == "output"@,
            r.process_name@ == "cs2.exe"@,
    {
        let mut file_types: Vec<String> = Vec::new();
        file_types.push(owned("cs"));
        file_types.push(owned("hpp"));
        file_types.push(owned("json"));
        file_types.push(owned("rs"));
        file_types.push(owned("zig"));
        assert(string_views(file_types@) =~= default_file_types());
        DumpConfig {
            connector: None,
            connector_args: None,
            file_types,
            indent_size: 4,
            output: owned("output"),
            process_name: owned("cs2.exe"),
        }
    }
}

} // verus!
