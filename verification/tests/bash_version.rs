use rsime::shell::{bash_supports_prompt_expansion, parse_bash_version};

#[test]
fn parse_bash_version_works() {
    assert_eq!(parse_bash_version("5.2"), (5, 2));
    assert_eq!(parse_bash_version("4.4"), (4, 4));
    assert_eq!(parse_bash_version("3.2"), (3, 2));
    assert_eq!(parse_bash_version("garbage"), (0, 0));
    assert_eq!(parse_bash_version("5"), (5, 0));
}

#[test]
fn ps1_at_p_support_threshold() {
    assert!(!bash_supports_prompt_expansion(3, 2));
    assert!(!bash_supports_prompt_expansion(4, 0));
    assert!(!bash_supports_prompt_expansion(4, 3));
    assert!(bash_supports_prompt_expansion(4, 4));
    assert!(bash_supports_prompt_expansion(5, 0));
    assert!(bash_supports_prompt_expansion(5, 2));
}

#[test]
fn parse_bash_version_fields() {
    assert_eq!(parse_bash_version("5.2.15"), (5, 2));
    assert_eq!(parse_bash_version("+4.+4"), (4, 4));
    assert_eq!(parse_bash_version("4.x"), (4, 0));
    assert_eq!(parse_bash_version(".3"), (0, 3));
    assert_eq!(parse_bash_version(""), (0, 0));
    assert_eq!(parse_bash_version("4294967295.1"), (4294967295, 1));
    assert_eq!(parse_bash_version("4294967296.1"), (0, 1));
    assert_eq!(parse_bash_version("-4.4"), (0, 4));
    assert_eq!(parse_bash_version("12.34"), (12, 34));
}
