use tss::config::{credential_from_output, default_config_template, resolve_credential, CredentialStep, SourceConfig, TssConfig};
use tss::ingest::{clock_seconds, filename_to_title, sniff_format, split_frontmatter, Format};
use tss::SourceKind;

fn sc(key: Option<&str>, cmd: Option<&str>) -> SourceConfig {
    SourceConfig { api_key: key.map(|s| s.to_string()), api_key_command: cmd.map(|s| s.to_string()), default_tag: None, base_url: None }
}

#[test]
fn redacted_display() {
    let cfg = TssConfig {
        fireflies: Some(sc(Some("abcdefghijkl"), None)),
        pocket: Some(SourceConfig {
            api_key: Some("short".to_string()),
            api_key_command: Some("pass show pocket".to_string()),
            default_tag: Some("sales".to_string()),
            base_url: Some("http://localhost".to_string()),
        }),
    };
    assert_eq!(
        cfg.display_redacted(),
        "[fireflies]\n  api_key = \"abcd...ijkl\"\n[pocket]\n  api_key = \"****\"\n  api_key_command = \"pass show pocket\"\n  default_tag = \"sales\"\n  base_url = \"http://localhost\""
    );
    assert_eq!(TssConfig::default().display_redacted(), "(no sources configured)");
}

#[test]
fn source_config_by_name() {
    let cfg = TssConfig { fireflies: None, pocket: Some(sc(Some("k"), None)) };
    assert!(cfg.source_config("fireflies").is_none());
    assert_eq!(cfg.source_config("pocket").unwrap().api_key.as_deref(), Some("k"));
    assert!(cfg.source_config("zoom").is_none());
}

#[test]
fn credential_order() {
    let c = sc(Some("cfg"), Some("cmd"));
    assert!(matches!(resolve_credential(Some("flag".into()), Some("env".into()), Some(&c)), CredentialStep::Found { key } if key == "flag"));
    assert!(matches!(resolve_credential(Some(String::new()), Some("env".into()), Some(&c)), CredentialStep::Found { key } if key == "env"));
    assert!(matches!(resolve_credential(None, None, Some(&c)), CredentialStep::Found { key } if key == "cfg"));
    let only_cmd = sc(Some(""), Some("cmd"));
    assert!(matches!(resolve_credential(None, None, Some(&only_cmd)), CredentialStep::RunCommand { command } if command == "cmd"));
    assert!(matches!(resolve_credential(None, None, None), CredentialStep::Missing));
    assert_eq!(credential_from_output("  secret\n"), Some("secret".to_string()));
    assert_eq!(credential_from_output(" \n"), None);
}

#[test]
fn config_template_names_both_sources() {
    let t = default_config_template();
    assert!(t.contains("[fireflies]"));
    assert!(t.contains("[pocket]"));
    assert!(t.contains("default_tag"));
}

#[test]
fn formats() {
    assert_eq!(Format::from_str("JSON"), Some(Format::Json));
    assert_eq!(Format::from_str("Md"), Some(Format::Markdown));
    assert_eq!(Format::from_str("txt"), Some(Format::Text));
    assert_eq!(Format::from_str("pdf"), None);
    assert_eq!(Format::detect_from_extension("notes/a.markdown"), Some(Format::Markdown));
    assert_eq!(Format::detect_from_extension("a.text"), Some(Format::Text));
    assert_eq!(Format::detect_from_extension("a.JSON"), None);
    assert_eq!(Format::detect_from_extension("README"), None);
    assert_eq!(sniff_format("  {\"id\": 1}"), Format::Json);
    assert_eq!(sniff_format("\n---\ntitle: x\n---"), Format::Markdown);
    assert_eq!(sniff_format("hello"), Format::Text);
}

#[test]
fn titles_from_file_names() {
    assert_eq!(filename_to_title("weekly-sync_2026.md"), "weekly sync 2026");
    assert_eq!(filename_to_title("plain"), "plain");
}

#[test]
fn frontmatter_split() {
    let (fm, body) = split_frontmatter("---\ntitle: A\ndate: 2026-01-15\n---\n\n## Alice (00:30)\nHi");
    assert_eq!(fm.as_deref(), Some("title: A\ndate: 2026-01-15"));
    assert_eq!(body, "\n\n## Alice (00:30)\nHi");
    let (none, all) = split_frontmatter("no front matter");
    assert!(none.is_none());
    assert_eq!(all, "no front matter");
    let (open, whole) = split_frontmatter("---\nunclosed");
    assert!(open.is_none());
    assert_eq!(whole, "---\nunclosed");
    let (fm2, rest) = split_frontmatter("  ---\na: 1\n---");
    assert_eq!(fm2.as_deref(), Some("a: 1"));
    assert_eq!(rest, "");
}

#[test]
fn source_kinds() {
    assert_eq!(SourceKind::from_name("fireflies"), Some(SourceKind::Fireflies));
    assert_eq!(SourceKind::from_name("pocket").map(|k| k.name()), Some("pocket"));
    assert_eq!(SourceKind::from_name("zoom"), None);
}

#[test]
fn heading_times() {
    assert_eq!(clock_seconds("00:30"), 30);
    assert_eq!(clock_seconds("01:15"), 75);
    assert_eq!(clock_seconds("1:02:03"), 3723);
    assert_eq!(clock_seconds("42"), 0);
    assert_eq!(clock_seconds("1:2:3:4"), 0);
    assert_eq!(clock_seconds("x:30"), 30);
}
