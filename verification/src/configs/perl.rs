//! Configuration of the Perl module.

use vstd::prelude::*;

verus! {

/// What the Perl module renders and when it runs.
#[derive(Debug, Clone, PartialEq, Eq)]
pub struct PerlConfig {
    pub format: String,
    pub version_format: String,
    pub symbol: String,
    pub style: String,
    pub disabled: bool,
    pub detect_extensions: Vec<String>,
    pub detect_files: Vec<String>,
    pub detect_folders: Vec<String>,
}

impl Default for PerlConfig {
    /// The stock configuration.
    fn default() -> (r: PerlConfig)
        ensures
            r.format@ == "via [$symbol($version )]($style)"@,
            r.version_format@ == "v${raw}"@,
            r.symbol@ == "\u{1F42A} "@,
            r.style@ == "149 bold"@,
            !r.disabled,
            r.detect_extensions@.len() == 3,
            r.detect_extensions@[0]@ == "pl"@,
            r.detect_extensions@[1]@ == "pm"@,
            r.detect_extensions@[2]@ == "pod"@,
            r.detect_files@.len() == 7,
            r.detect_files@[0]@ == "Makefile.PL"@,
            r.detect_files@[1]@ == "Build.PL"@,
            r.detect_files@[2]@ == "cpanfile"@,
            r.detect_files@[3]@ == "cpanfile.snapshot"@,
            r.detect_files@[4]@ == "META.json"@,
            r.detect_files@[5]@ == "META.yml"@,
            r.detect_files@[6]@ == ".perl-version"@,
            r.detect_folders@.len() == 0,
    {
        let mut detect_extensions: Vec<String> = Vec::new();
        detect_extensions.push("pl".to_owned());
        detect_extensions.push("pm".to_owned());
        detect_extensions.push("pod".to_owned());
        let mut detect_files: Vec<String> = Vec::new();
        detect_files.push("Makefile.PL".to_owned());
        detect_files.push("Build.PL".to_owned());
        detect_files.push("cpanfile".to_owned());
        detect_files.push("cpanfile.snapshot".to_owned());
        detect_files.push("META.json".to_owned());
        detect_files.push("META.yml".to_owned());
        detect_files.push(".perl-version".to_owned());
        PerlConfig {
            format: "via [$symbol($version )]($style)".to_owned(),
            version_format: "v${raw}".to_owned(),
            symbol: "\u{1F42A} ".to_owned(),
            style: "149 bold".to_owned(),
            disabled: false,
            detect_extensions,
            detect_files,
            detect_folders: Vec::new(),
        }
    }
}

} // verus!
