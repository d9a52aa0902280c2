//! The AWS module: shows the active profile and region.
//!
//! The caller gathers the environment values and, when the region has to
//! come from the AWS config file, loads and parses that file into an
//! [`IniDoc`]; everything that decides and renders is here.

use vstd::prelude::*;
use crate::configs::aws::AwsConfig;
use crate::eval::{opt_str_view, render_nodes};
use crate::formatter::StringFormatter;
use crate::parser::parse_spec;
use crate::resolve::{assoc, lookup_pairs, pairs_view, ResolvedValue, TableView, ValueView};
use crate::segment::{SegView, Segment};

verus! {

/// One section of a parsed INI-style config file, as plain values.
pub struct IniSection {
    pub name: String,
    pub entries: Vec<(String, String)>,
}

/// A whole parsed INI-style config file.
pub struct IniDoc {
    pub sections: Vec<IniSection>,
}

/// The first section with this name.
pub open spec fn find_section_spec(sections: Seq<IniSection>, name: Seq<char>) -> Option<IniSection>
    decreases sections.len(),
{
    if sections.len() == 0 {
        Option::None
    } else if sections[0].name@ == name {
        Option::Some(sections[0])
    } else {
        find_section_spec(sections.drop_first(), name)
    }
}

/// The region recorded in the config file for this profile: the `region`
/// key of the `profile <name>` section, or of the `default` section when
/// no profile is given.
pub open spec fn region_from_config_spec(doc: IniDoc, profile: Option<Seq<char>>) -> Option<
    Seq<char>,
> {
    let section_name = match profile {
        Option::Some(p) => "profile "@ + p,
        Option::None => "default"@,
    };
    match find_section_spec(doc.sections@, section_name) {
        Option::None => Option::None,
        Option::Some(sec) => assoc(pairs_view(sec.entries@), "region"@),
    }
}

/// Look the region up in a parsed config file, for a profile or for the
/// default section.
pub fn get_aws_region_from_config(doc: &IniDoc, aws_profile: Option<&String>) -> (r: Option<String>)
    ensures
        opt_str_view(r) == region_from_config_spec(*doc, match aws_profile {
            Option::Some(p) => Option::Some(p@),
            Option::None => Option::None,
        }),
{
    let section_name: String = match aws_profile {
        Option::Some(p) => {
            let mut s: String = "profile ".to_owned();
            proof {
                assert(s@ == "profile "@);
            }
            s.append(p.as_str());
            proof {
                assert(s@ == "profile "@ + p@);
            }
            s
        },
        Option::None => "default".to_owned(),
    };
    let ghost sections = doc.sections@;
    proof {
        assert(sections.skip(0) =~= sections);
    }
    let n = doc.sections.len();
    let mut i: usize = 0;
    while i < n
        invariant
            n == sections.len(),
            sections == doc.sections@,
            i <= n,
            section_name@ == (match aws_profile {
                Option::Some(p) => "profile "@ + p@,
                Option::None => "default"@,
            }),
            find_section_spec(sections, section_name@) == find_section_spec(
                sections.skip(i as int),
                section_name@,
            ),
        decreases n - i,
    {
        let sec = &doc.sections[i];
        proof {
            assert(sections.skip(i as int)[0] == sections[i as int]);
        }
        if sec.name.eq(&section_name) {
            proof {
                assert(find_section_spec(sections, section_name@) == Option::Some(
                    sections[i as int],
                ));
            }
            proof {
                assert(section_name@ == (match aws_profile {
                    Option::Some(p) => "profile "@ + p@,
                    Option::None => "default"@,
                }));
            }
            let key: String = "region".to_owned();
            let out = lookup_pairs(&sec.entries, &key);
            proof {
                assert(region_from_config_spec(*doc, match aws_profile {
                    Option::Some(p) => Option::Some(p@),
                    Option::None => Option::None,
                }) == assoc(pairs_view(sections[i as int].entries@), "region"@));
            }
            return out;
        }
        proof {
            assert(sections.skip(i as int).drop_first() =~= sections.skip(i as int + 1));
        }
        i = i + 1;
    }
    proof {
        assert(sections.skip(i as int).len() == 0);
    }
    Option::None
}

/// The profile the environment names, in its priority order.
pub open spec fn chosen_profile(
    awsu: Option<Seq<char>>,
    vault: Option<Seq<char>>,
    profile: Option<Seq<char>>,
) -> Option<Seq<char>> {
    if awsu is Some {
        awsu
    } else if vault is Some {
        vault
    } else {
        profile
    }
}

/// The profile and region the module shows, from the environment values
/// and (when the environment names no region) the parsed config file.
pub open spec fn profile_and_region_spec(
    awsu: Option<Seq<char>>,
    vault: Option<Seq<char>>,
    profile: Option<Seq<char>>,
    default_region: Option<Seq<char>>,
    region: Option<Seq<char>>,
    doc: Option<IniDoc>,
) -> (Option<Seq<char>>, Option<Seq<char>>) {
    let p = chosen_profile(awsu, vault, profile);
    let r0 = if default_region is Some {
        default_region
    } else {
        region
    };
    let r = if r0 is Some {
        r0
    } else {
        match doc {
            Option::None => Option::None,
            Option::Some(d) => region_from_config_spec(d, p),
        }
    };
    (p, r)
}

/// Decide the profile and region from the gathered environment values;
/// fall back to the config file for the region.
pub fn get_aws_profile_and_region(
    awsu_profile: Option<String>,
    aws_vault: Option<String>,
    aws_profile: Option<String>,
    aws_default_region: Option<String>,
    aws_region: Option<String>,
    config_doc: Option<&IniDoc>,
) -> (r: (Option<String>, Option<String>))
    ensures
        (opt_str_view(r.0), opt_str_view(r.1)) == profile_and_region_spec(
            opt_str_view(awsu_profile),
            opt_str_view(aws_vault),
            opt_str_view(aws_profile),
            opt_str_view(aws_default_region),
            opt_str_view(aws_region),
            match config_doc {
                Option::Some(d) => Option::Some(*d),
                Option::None => Option::None,
            },
        ),
{
    let profile: Option<String> = if awsu_profile.is_some() {
        awsu_profile
    } else if aws_vault.is_some() {
        aws_vault
    } else {
        aws_profile
    };
    let region0: Option<String> = if aws_default_region.is_some() {
        aws_default_region
    } else {
        aws_region
    };
    let region: Option<String> = if region0.is_some() {
        region0
    } else {
        match config_doc {
            Option::None => Option::None,
            Option::Some(doc) => {
                match &profile {
                    Option::Some(p) => get_aws_region_from_config(doc, Option::Some(p)),
                    Option::None => get_aws_region_from_config(doc, Option::None),
                }
            },
        }
    };
    (profile, region)
}

/// The region under its alias, when the configuration has one for it.
pub open spec fn alias_region_spec(
    region: Seq<char>,
    aliases: Seq<(Seq<char>, Seq<char>)>,
) -> Seq<char> {
    match assoc(aliases, region) {
        Option::None => region,
        Option::Some(a) => a,
    }
}

/// Replace a region name by its configured alias, if any.
pub fn alias_region(region: String, aliases: &Vec<(String, String)>) -> (r: String)
    ensures
        r@ == alias_region_spec(region@, pairs_view(aliases@)),
{
    match lookup_pairs(aliases, &region) {
        Option::None => region,
        Option::Some(a) => a,
    }
}

/// The lookup tables the module registers: its symbol, its style, and the
/// resolved profile and region values.
pub open spec fn aws_table_spec(
    config: AwsConfig,
    profile: Option<Seq<char>>,
    region: Option<Seq<char>>,
) -> TableView {
    TableView {
        meta: seq![("symbol"@, config.symbol@)],
        styles: seq![("style"@, Ok(config.style@))],
        values: seq![
            ("profile"@, match profile {
                Option::Some(p) => ValueView::Text(p),
                Option::None => ValueView::Absent,
            }),
            ("region"@, match region {
                Option::Some(rg) => ValueView::Text(rg),
                Option::None => ValueView::Absent,
            }),
        ],
    }
}

/// What the whole module renders: nothing when neither a profile nor a
/// region is known, nothing on a parse or evaluation failure (the caller
/// logs the error), else the rendered segments.
pub open spec fn aws_module_spec(
    awsu: Option<Seq<char>>,
    vault: Option<Seq<char>>,
    profile: Option<Seq<char>>,
    default_region: Option<Seq<char>>,
    region: Option<Seq<char>>,
    doc: Option<IniDoc>,
    config: AwsConfig,
) -> Option<Seq<SegView>> {
    let pr = profile_and_region_spec(awsu, vault, profile, default_region, region, doc);
    if pr.0 is None && pr.1 is None {
        Option::None
    } else {
        let mapped = match pr.1 {
            Option::Some(rg) => Option::Some(
                alias_region_spec(rg, pairs_view(config.region_aliases@)),
            ),
            Option::None => Option::None,
        };
        match parse_spec(config.format@) {
            Err(_) => Option::None,
            Ok(nodes) => match render_nodes(nodes, aws_table_spec(config, pr.0, mapped)) {
                Ok(segs) => Option::Some(segs),
                Err(_) => Option::None,
            },
        }
    }
}

/// Render the AWS module from the gathered environment values, the parsed
/// config file (when one was read) and the configuration.
pub fn module(
    awsu_profile: Option<String>,
    aws_vault: Option<String>,
    aws_profile: Option<String>,
    aws_default_region: Option<String>,
    aws_region: Option<String>,
    config_doc: Option<&IniDoc>,
    config: &AwsConfig,
) -> (r: Option<Vec<Segment>>)
    ensures
        ({
            let spec_r = aws_module_spec(
                opt_str_view(awsu_profile),
                opt_str_view(aws_vault),
                opt_str_view(aws_profile),
                opt_str_view(aws_default_region),
                opt_str_view(aws_region),
                match config_doc {
                    Option::Some(d) => Option::Some(*d),
                    Option::None => Option::None,
                },
                *config,
            );
            match r {
                Option::Some(segs) => spec_r == Option::Some(segs.deep_view()),
                Option::None => spec_r is None,
            }
        }),
{
    let (profile, region) = get_aws_profile_and_region(
        awsu_profile,
        aws_vault,
        aws_profile,
        aws_default_region,
        aws_region,
        config_doc,
    );
    if profile.is_none() && region.is_none() {
        return Option::None;
    }
    let mapped: Option<String> = match region {
        Option::Some(rg) => Option::Some(alias_region(rg, &config.region_aliases)),
        Option::None => Option::None,
    };
    let fmt = match StringFormatter::new(config.format.as_str()) {
        Ok(f) => f,
        Err(_) => {
            return Option::None;
        },
    };
    let mut meta: Vec<(String, String)> = Vec::new();
    meta.push(("symbol".to_owned(), config.symbol.clone()));
    let mut styles: Vec<(String, Result<String, String>)> = Vec::new();
    styles.push(("style".to_owned(), Ok(config.style.clone())));
    let mut values: Vec<(String, ResolvedValue)> = Vec::new();
    let profile_value = match profile {
        Option::Some(p) => ResolvedValue::Text(p),
        Option::None => ResolvedValue::Absent,
    };
    let region_value = match mapped {
        Option::Some(rg) => ResolvedValue::Text(rg),
        Option::None => ResolvedValue::Absent,
    };
    values.push(("profile".to_owned(), profile_value));
    values.push(("region".to_owned(), region_value));
    let fmt = fmt.map_meta(meta).map_style(styles).map(values);
    proof {
        let ghost spec_table = aws_table_spec(
            *config,
            opt_str_view(profile),
            opt_str_view(mapped),
        );
        assert(fmt@.table.meta =~= spec_table.meta);
        assert(fmt@.table.styles =~= spec_table.styles);
        assert(fmt@.table.values =~= spec_table.values);
        assert(fmt@.table =~= spec_table);
    }
    match fmt.parse() {
        Ok(segs) => Option::Some(segs),
        Err(_) => Option::None,
    }
}

} // verus!
