//! Configuration of the Pony module.

use vstd::prelude::*;

verus! {

/// What the Pony module renders and when it runs: its format string, the
/// version-format template, symbol and style, and the files, extensions
/// and folders whose presence marks a Pony project.
#[derive(Debug, Clone, PartialEq, Eq)]
pub struct PonyConfig {
    pub format: String,
    pub version_format: String,
    pub symbol: String,
    pub style: String,
    pub disabled: bool,
    pub detect_extensions: Vec<String>,
    pub detect_files: Vec<String>,
    pub detect_folders: Vec<String>,
}

impl Default for PonyConfig {
    /// The stock configuration.
    fn default() -> (r: PonyConfig)
        ensures
            r.format@ == "via [$symbol($version )]($style)"@,
            r.version_format@ == "v${raw}"@,
            r.symbol@ == "\u{1F40E} "@,
            r.style@ == "bold yellow"@,
            !r.disabled,
            r.detect_extensions@.len() == 1,
            r.detect_extensions@[0]@ == "pony"@,
            r.detect_files@.len() == 0,
            r.detect_folders@.len() == 0,
    {
        let mut detect_extensions: Vec<String> = Vec::new();
        detect_extensions.push("pony".to_owned());
        PonyConfig {
            format: "via [$symbol($version )]($style)".to_owned(),
            version_format: "v${raw}".to_owned(),
            symbol: "\u{1F40E} ".to_owned(),
            style: "bold yellow".to_owned(),
            disabled: false,
            detect_extensions,
            detect_files: Vec::new(),
            detect_folders: Vec::new(),
        }
    }
}

} // verus!
