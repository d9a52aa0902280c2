//! The Perl module: shows the Perl version when the directory looks like a
//! Perl project.
//!
//! The caller scans the directory and runs `perl` to obtain the version
//! (asynchronously if it likes); the decision and the rendering are here.

use vstd::prelude::*;
use crate::configs::perl::PerlConfig;
use crate::eval::{opt_str_view, render_nodes};
use crate::formatter::StringFormatter;
use crate::parser::parse_spec;
use crate::resolve::{ResolvedValue, TableView, ValueView};
use crate::segment::{SegView, Segment};

verus! {

/// The lookup tables the module registers: its symbol, its style, and the
/// version value (prefixed with `v`) when the command produced one.
pub open spec fn perl_table_spec(config: PerlConfig, version: Option<Seq<char>>) -> TableView {
    TableView {
        meta: seq![("symbol"@, config.symbol@)],
        styles: seq![("style"@, Ok(config.style@))],
        values: seq![
            ("version"@, match version {
                Option::Some(v) => ValueView::Text("v"@ + v),
                Option::None => ValueView::Absent,
            }),
        ],
    }
}

/// What the whole module renders: nothing outside a Perl project, nothing
/// on a parse or evaluation failure (the caller logs the error), else the
/// rendered segments.
pub open spec fn perl_module_spec(
    is_perl_project: bool,
    perl_version: Option<Seq<char>>,
    config: PerlConfig,
) -> Option<Seq<SegView>> {
    if !is_perl_project {
        Option::None
    } else {
        match parse_spec(config.format@) {
            Err(_) => Option::None,
            Ok(nodes) => match render_nodes(nodes, perl_table_spec(config, perl_version)) {
                Ok(segs) => Option::Some(segs),
                Err(_) => Option::None,
            },
        }
    }
}

/// Render the Perl module from the directory-scan outcome and the version
/// the command reported (`None` when it could not run).
pub fn module(is_perl_project: bool, perl_version: Option<String>, config: &PerlConfig) -> (r:
    Option<Vec<Segment>>)
    ensures
        ({
            let spec_r = perl_module_spec(is_perl_project, opt_str_view(perl_version), *config);
            match r {
                Option::Some(segs) => spec_r == Option::Some(segs.deep_view()),
                Option::None => spec_r is None,
            }
        }),
{
    if !is_perl_project {
        return Option::None;
    }
    let fmt = match StringFormatter::new(config.format.as_str()) {
        Ok(f) => f,
        Err(_) => {
            return Option::None;
        },
    };
    let mut meta: Vec<(String, String)> = Vec::new();
    meta.push(("symbol".to_owned(), config.symbol.clone()));
    let mut styles: Vec<(String, Result<String, String>)> = Vec::new();
    styles.push(("style".to_owned(), Ok(config.style.clone())));
    let version_value = match &perl_version {
        Option::Some(v) => {
            let mut vs: String = "v".to_owned();
            vs.append(v.as_str());
            ResolvedValue::Text(vs)
        },
        Option::None => ResolvedValue::Absent,
    };
    let mut values: Vec<(String, ResolvedValue)> = Vec::new();
    values.push(("version".to_owned(), version_value));
    let fmt = fmt.map_meta(meta).map_style(styles).map(values);
    proof {
        let ghost spec_table = perl_table_spec(*config, opt_str_view(perl_version));
        assert(fmt@.table.meta =~= spec_table.meta);
        assert(fmt@.table.styles =~= spec_table.styles);
        assert(fmt@.table.values =~= spec_table.values);
        assert(fmt@.table =~= spec_table);
    }
    match fmt.parse() {
        Ok(segs) => Option::Some(segs),
        Err(_) => Option::None,
    }
}

} // verus!
