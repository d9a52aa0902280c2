//! The prompt modules, rendered from plain inputs: the same scenarios the
//! surrounding program exercises through the environment, a directory scan
//! and the tools' output.

use prompt_fmt::configs::aws::AwsConfig;
use prompt_fmt::configs::perl::PerlConfig;
use prompt_fmt::configs::pony::PonyConfig;
use prompt_fmt::modules::aws::{self, IniDoc, IniSection};
use prompt_fmt::modules::{perl, pony};
use prompt_fmt::segment::Segment;

fn s(x: &str) -> String {
    x.to_owned()
}

fn text_of(segs: &[Segment]) -> String {
    let mut out = String::new();
    for seg in segs {
        out.push_str(&seg.text);
    }
    out
}

fn aws_with_env(
    awsu_profile: Option<&str>,
    aws_vault: Option<&str>,
    aws_profile: Option<&str>,
    aws_default_region: Option<&str>,
    aws_region: Option<&str>,
) -> Option<Vec<Segment>> {
    aws::module(
        awsu_profile.map(s),
        aws_vault.map(s),
        aws_profile.map(s),
        aws_default_region.map(s),
        aws_region.map(s),
        None,
        &AwsConfig::default(),
    )
}

/// The painted body of the module's one styled group, with the leading
/// literal checked on the way.
fn styled_body(segs: &[Segment], lead: &str, style: &str) -> String {
    assert_eq!(segs[0].text, lead);
    assert_eq!(segs[0].style, None);
    let mut body = String::new();
    for seg in &segs[1..] {
        assert_eq!(seg.style.as_deref(), Some(style));
        body.push_str(&seg.text);
    }
    body
}

#[test]
fn no_region_set() {
    let actual = aws_with_env(None, None, None, None, None);
    assert_eq!(actual, None);
}

#[test]
fn region_set() {
    let segs = aws_with_env(None, None, None, None, Some("ap-northeast-2")).unwrap();
    assert_eq!(
        styled_body(&segs, "on ", "bold yellow"),
        "\u{2601}\u{fe0f}  (ap-northeast-2) "
    );
}

#[test]
fn region_set_with_alias() {
    let mut config = AwsConfig::default();
    config
        .region_aliases
        .push((s("ap-southeast-2"), s("au")));
    let segs = aws::module(
        None,
        None,
        None,
        None,
        Some(s("ap-southeast-2")),
        None,
        &config,
    )
    .unwrap();
    assert_eq!(
        styled_body(&segs, "on ", "bold yellow"),
        "\u{2601}\u{fe0f}  (au) "
    );
}

#[test]
fn default_region_set() {
    let segs = aws_with_env(
        None,
        None,
        None,
        Some("ap-northeast-1"),
        Some("ap-northeast-2"),
    )
    .unwrap();
    assert_eq!(
        styled_body(&segs, "on ", "bold yellow"),
        "\u{2601}\u{fe0f}  (ap-northeast-1) "
    );
}

#[test]
fn profile_set() {
    let segs = aws_with_env(None, None, Some("astronauts"), None, None).unwrap();
    assert_eq!(
        styled_body(&segs, "on ", "bold yellow"),
        "\u{2601}\u{fe0f}  astronauts "
    );
}

#[test]
fn profile_set_from_aws_vault() {
    let segs = aws_with_env(
        None,
        Some("astronauts-vault"),
        Some("astronauts-profile"),
        None,
        None,
    )
    .unwrap();
    assert_eq!(
        styled_body(&segs, "on ", "bold yellow"),
        "\u{2601}\u{fe0f}  astronauts-vault "
    );
}

#[test]
fn profile_set_from_awsu() {
    let segs = aws_with_env(
        Some("astronauts-awsu"),
        None,
        Some("astronauts-profile"),
        None,
        None,
    )
    .unwrap();
    assert_eq!(
        styled_body(&segs, "on ", "bold yellow"),
        "\u{2601}\u{fe0f}  astronauts-awsu "
    );
}

#[test]
fn profile_and_region_set() {
    let segs = aws_with_env(None, None, Some("astronauts"), None, Some("ap-northeast-2")).unwrap();
    assert_eq!(
        styled_body(&segs, "on ", "bold yellow"),
        "\u{2601}\u{fe0f}  astronauts (ap-northeast-2) "
    );
}

fn aws_test_config_doc() -> IniDoc {
    IniDoc {
        sections: vec![
            IniSection {
                name: s("default"),
                entries: vec![(s("region"), s("us-east-1"))],
            },
            IniSection {
                name: s("profile astronauts"),
                entries: vec![(s("region"), s("us-east-2"))],
            },
        ],
    }
}

#[test]
fn default_profile_set() {
    let doc = aws_test_config_doc();
    let segs = aws::module(None, None, None, None, None, Some(&doc), &AwsConfig::default())
        .unwrap();
    assert_eq!(
        styled_body(&segs, "on ", "bold yellow"),
        "\u{2601}\u{fe0f}  (us-east-1) "
    );
}

#[test]
fn profile_and_config_set() {
    let doc = aws_test_config_doc();
    let segs = aws::module(
        None,
        None,
        Some(s("astronauts")),
        None,
        None,
        Some(&doc),
        &AwsConfig::default(),
    )
    .unwrap();
    assert_eq!(
        styled_body(&segs, "on ", "bold yellow"),
        "\u{2601}\u{fe0f}  astronauts (us-east-2) "
    );
}

#[test]
fn profile_and_region_set_with_display_all() {
    let segs = aws_with_env(None, None, Some("astronauts"), None, Some("ap-northeast-1")).unwrap();
    assert_eq!(
        styled_body(&segs, "on ", "bold yellow"),
        "\u{2601}\u{fe0f}  astronauts (ap-northeast-1) "
    );
}

#[test]
fn profile_set_with_display_all() {
    let segs = aws_with_env(None, None, Some("astronauts"), None, None).unwrap();
    assert_eq!(
        styled_body(&segs, "on ", "bold yellow"),
        "\u{2601}\u{fe0f}  astronauts "
    );
}

#[test]
fn region_set_with_display_all() {
    let segs = aws_with_env(None, None, None, None, Some("ap-northeast-1")).unwrap();
    assert_eq!(
        styled_body(&segs, "on ", "bold yellow"),
        "\u{2601}\u{fe0f}  (ap-northeast-1) "
    );
}

fn aws_config_with_format(format: &str) -> AwsConfig {
    let mut config = AwsConfig::default();
    config.format = s(format);
    config
}

#[test]
fn profile_and_region_set_with_display_region() {
    let config = aws_config_with_format("on [$symbol$region]($style) ");
    let segs = aws::module(
        None,
        None,
        Some(s("astronauts")),
        Some(s("ap-northeast-1")),
        None,
        None,
        &config,
    )
    .unwrap();
    assert_eq!(text_of(&segs), "on \u{2601}\u{fe0f}  ap-northeast-1 ");
    assert_eq!(segs[1].style.as_deref(), Some("bold yellow"));
}

#[test]
fn profile_and_region_set_with_display_profile() {
    let config = aws_config_with_format("on [$symbol$profile]($style) ");
    let segs = aws::module(
        None,
        None,
        Some(s("astronauts")),
        None,
        Some(s("ap-northeast-1")),
        None,
        &config,
    )
    .unwrap();
    assert_eq!(text_of(&segs), "on \u{2601}\u{fe0f}  astronauts ");
    assert_eq!(segs[1].style.as_deref(), Some("bold yellow"));
}

#[test]
fn region_set_with_display_profile() {
    let config = aws_config_with_format("on [$symbol$profile]($style) ");
    let segs = aws::module(None, None, None, None, Some(s("ap-northeast-1")), None, &config)
        .unwrap();
    assert_eq!(text_of(&segs), "on \u{2601}\u{fe0f}   ");
}

#[test]
fn region_not_set_with_display_region() {
    let config = aws_config_with_format("on [$symbol$region]($style) ");
    let actual = aws::module(None, None, None, None, None, None, &config);
    assert_eq!(actual, None);
}

#[test]
fn folder_without_perl_files() {
    let actual = perl::module(false, Some(s("5.26.1")), &PerlConfig::default());
    assert_eq!(actual, None);
}

fn assert_perl_renders(version: &str, expected_body: &str) {
    let segs = perl::module(true, Some(s(version)), &PerlConfig::default()).unwrap();
    assert_eq!(styled_body(&segs, "via ", "149 bold"), expected_body);
}

#[test]
fn folder_with_makefile_file() {
    assert_perl_renders("5.26.1", "\u{1F42A} v5.26.1 ");
}

#[test]
fn folder_with_buildfile_file() {
    assert_perl_renders("5.26.1", "\u{1F42A} v5.26.1 ");
}

#[test]
fn folder_with_cpanfile_file() {
    assert_perl_renders("5.26.1", "\u{1F42A} v5.26.1 ");
}

#[test]
fn folder_with_cpanfile_snapshot_file() {
    assert_perl_renders("5.26.1", "\u{1F42A} v5.26.1 ");
}

#[test]
fn folder_with_meta_json_file() {
    assert_perl_renders("5.26.1", "\u{1F42A} v5.26.1 ");
}

#[test]
fn folder_with_meta_yml_file() {
    assert_perl_renders("5.26.1", "\u{1F42A} v5.26.1 ");
}

#[test]
fn folder_with_perl_version() {
    assert_perl_renders("5.26.1", "\u{1F42A} v5.26.1 ");
}

#[test]
fn folder_with_perl_file() {
    assert_perl_renders("5.26.1", "\u{1F42A} v5.26.1 ");
}

#[test]
fn folder_with_perl_module_file() {
    assert_perl_renders("5.26.1", "\u{1F42A} v5.26.1 ");
}

#[test]
fn folder_with_perldoc_file() {
    assert_perl_renders("5.26.1", "\u{1F42A} v5.26.1 ");
}

#[test]
fn perl_without_version_renders_symbol_only() {
    let segs = perl::module(true, None, &PerlConfig::default()).unwrap();
    assert_eq!(styled_body(&segs, "via ", "149 bold"), "\u{1F42A} ");
}

#[test]
fn folder_without_pony() {
    let actual = pony::module(false, None, &PonyConfig::default());
    assert_eq!(actual, None);
}

#[test]
fn folder_with_pony_file() {
    let segs = pony::module(
        true,
        Some(s("0.6.0-5468cb9 [release]\ncompiled with: llvm 3.9.1\n")),
        &PonyConfig::default(),
    )
    .unwrap();
    assert_eq!(
        styled_body(&segs, "via ", "bold yellow"),
        "\u{1F40E} v0.6.0 "
    );
}

#[test]
fn pony_version_without_suffix() {
    let segs = pony::module(true, Some(s("0.38.1\n")), &PonyConfig::default()).unwrap();
    assert_eq!(
        styled_body(&segs, "via ", "bold yellow"),
        "\u{1F40E} v0.38.1 "
    );
}

#[test]
fn alias_region_replaces_only_known_regions() {
    let aliases = vec![(s("ap-southeast-2"), s("au")), (s("us-east-1"), s("va"))];
    assert_eq!(aws::alias_region(s("ap-southeast-2"), &aliases), "au");
    assert_eq!(aws::alias_region(s("eu-west-1"), &aliases), "eu-west-1");
}

#[test]
fn region_lookup_prefers_the_named_profile() {
    let doc = aws_test_config_doc();
    let astronauts = s("astronauts");
    assert_eq!(
        aws::get_aws_region_from_config(&doc, Some(&astronauts)),
        Some(s("us-east-2"))
    );
    assert_eq!(
        aws::get_aws_region_from_config(&doc, None),
        Some(s("us-east-1"))
    );
}
