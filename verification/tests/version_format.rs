//! The version-format template and the output-cleaning helpers.

use prompt_fmt::version::{before_dash, format_module_version, trim_output};

#[test]
fn raw_substitution() {
    assert_eq!(
        format_module_version("pony", "0.6.0", "v${raw}"),
        Some("v0.6.0".to_owned())
    );
}

#[test]
fn component_substitution() {
    assert_eq!(
        format_module_version("pony", "1.22.3", "${major}/${minor}/${patch}"),
        Some("1/22/3".to_owned())
    );
}

#[test]
fn missing_components_are_empty() {
    assert_eq!(
        format_module_version("pony", "7", "v${major}.${minor}"),
        Some("v7.".to_owned())
    );
}

#[test]
fn unknown_reference_fails() {
    assert_eq!(format_module_version("pony", "1.2.3", "v${nope}"), None);
}

#[test]
fn unterminated_reference_fails() {
    assert_eq!(format_module_version("pony", "1.2.3", "v${raw"), None);
}

#[test]
fn plain_template_passes_through() {
    assert_eq!(
        format_module_version("pony", "1.2.3", "fixed"),
        Some("fixed".to_owned())
    );
}

#[test]
fn trim_output_strips_both_ends() {
    assert_eq!(trim_output("  0.6.0\n"), "0.6.0");
    assert_eq!(trim_output("\t\r\n"), "");
    assert_eq!(trim_output("x"), "x");
}

#[test]
fn before_dash_cuts_build_metadata() {
    assert_eq!(before_dash("0.6.0-5468cb9"), "0.6.0");
    assert_eq!(before_dash("0.38.1"), "0.38.1");
}
