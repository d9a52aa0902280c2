//! The Pony module: shows the Pony compiler's version when the directory
//! looks like a Pony project.
//!
//! The caller scans the directory and runs `ponyc --version`; cleaning the
//! output, formatting the version and rendering are here.

use vstd::prelude::*;
use crate::configs::pony::PonyConfig;
use crate::eval::{opt_str_view, render_nodes};
use crate::formatter::StringFormatter;
use crate::parser::parse_spec;
use crate::resolve::{ResolvedValue, TableView, ValueView};
use crate::segment::{SegView, Segment};
use crate::version::{
    before_dash, format_module_version, format_version_spec, prefix_before, trim_output, trim_spec,
};

verus! {

/// The version value the module resolves: the command's output trimmed,
/// cut at the first `-`, and run through the version-format template.
/// Absent when the command could not run or the template fails.
pub open spec fn pony_version_value(
    output: Option<Seq<char>>,
    version_format: Seq<char>,
) -> ValueView {
    match output {
        Option::None => ValueView::Absent,
        Option::Some(out) => {
            let cleaned = prefix_before(trim_spec(out), '-');
            match format_version_spec(version_format, cleaned) {
                Option::None => ValueView::Absent,
                Option::Some(v) => ValueView::Text(v),
            }
        },
    }
}

/// The lookup tables the module registers.
pub open spec fn pony_table_spec(config: PonyConfig, output: Option<Seq<char>>) -> TableView {
    TableView {
        meta: seq![("symbol"@, config.symbol@)],
        styles: seq![("style"@, Ok(config.style@))],
        values: seq![("version"@, pony_version_value(output, config.version_format@))],
    }
}

/// What the whole module renders: nothing outside a Pony project, nothing
/// on a parse or evaluation failure (the caller logs the error), else the
/// rendered segments.
pub open spec fn pony_module_spec(
    is_pony_project: bool,
    ponyc_output: Option<Seq<char>>,
    config: PonyConfig,
) -> Option<Seq<SegView>> {
    if !is_pony_project {
        Option::None
    } else {
        match parse_spec(config.format@) {
            Err(_) => Option::None,
            Ok(nodes) => match render_nodes(nodes, pony_table_spec(config, ponyc_output)) {
                Ok(segs) => Option::Some(segs),
                Err(_) => Option::None,
            },
        }
    }
}

/// Render the Pony module from the directory-scan outcome and the raw
/// output of `ponyc --version` (`None` when it could not run).
pub fn module(is_pony_project: bool, ponyc_output: Option<String>, config: &PonyConfig) -> (r:
    Option<Vec<Segment>>)
    ensures
        ({
            let spec_r = pony_module_spec(is_pony_project, opt_str_view(ponyc_output), *config);
            match r {
                Option::Some(segs) => spec_r == Option::Some(segs.deep_view()),
                Option::None => spec_r is None,
            }
        }),
{
    if !is_pony_project {
        return Option::None;
    }
    let fmt = match StringFormatter::new(config.format.as_str()) {
        Ok(f) => f,
        Err(_) => {
            return Option::None;
        },
    };
    let mut meta: Vec<(String, String)> = Vec::new();
    meta.push(("symbol".to_owned(), config.symbol.clone()));
    let mut styles: Vec<(String, Result<String, String>)> = Vec::new();
    styles.push(("style".to_owned(), Ok(config.style.clone())));
    let version_value = match &ponyc_output {
        Option::Some(out) => {
            let trimmed = trim_output(out.as_str());
            let cleaned = before_dash(trimmed.as_str());
            match format_module_version("pony", cleaned.as_str(), config.version_format.as_str()) {
                Option::None => ResolvedValue::Absent,
                Option::Some(v) => ResolvedValue::Text(v),
            }
        },
        Option::None => ResolvedValue::Absent,
    };
    let mut values: Vec<(String, ResolvedValue)> = Vec::new();
    values.push(("version".to_owned(), version_value));
    let fmt = fmt.map_meta(meta).map_style(styles).map(values);
    proof {
        let ghost spec_table = pony_table_spec(*config, opt_str_view(ponyc_output));
        assert(fmt@.table.meta =~= spec_table.meta);
        assert(fmt@.table.styles =~= spec_table.styles);
        assert(fmt@.table.values =~= spec_table.values);
        assert(fmt@.table =~= spec_table);
    }
    match fmt.parse() {
        Ok(segs) => Option::Some(segs),
        Err(_) => Option::None,
    }
}

} // verus!
