//! Configuration of the AWS module.

use vstd::prelude::*;

verus! {

/// What the AWS module renders: its format string, symbol and style, and
/// the aliases that shorten long region names.
#[derive(Debug, Clone, PartialEq, Eq)]
pub struct AwsConfig {
    pub format: String,
    pub symbol: String,
    pub style: String,
    pub disabled: bool,
    pub region_aliases: Vec<(String, String)>,
}

impl Default for AwsConfig {
    /// The stock configuration.
    fn default() -> (r: AwsConfig)
        ensures
            r.format@ == "on [$symbol($profile )(\\($region\\) )]($style)"@,
            r.symbol@ == "\u{2601}\u{fe0f}  "@,
            r.style@ == "bold yellow"@,
            !r.disabled,
            r.region_aliases@.len() == 0,
    {
        AwsConfig {
            format: "on [$symbol($profile )(\\($region\\) )]($style)".to_owned(),
            symbol: "\u{2601}\u{fe0f}  ".to_owned(),
            style: "bold yellow".to_owned(),
            disabled: false,
            region_aliases: Vec::new(),
        }
    }
}

} // verus!
