use env_validator::text::is_blank_str;
use env_validator::{validate_env_vars, ConfigError, EnvConfig, ParseError};

fn env_of(pairs: &[(&str, &str)]) -> Vec<(String, String)> {
    pairs.iter().map(|(k, v)| (k.to_string(), v.to_string())).collect()
}

fn ok_config(names: &[&str], env: &[(String, String)]) -> EnvConfig {
    match validate_env_vars(names, env) {
        Ok(c) => c,
        Err(e) => panic!("unexpected failure: {:?}", e),
    }
}

fn err_config(names: &[&str], env: &[(String, String)]) -> ConfigError {
    match validate_env_vars(names, env) {
        Ok(c) => panic!("unexpected success: {:?}", c),
        Err(e) => e,
    }
}

#[test]
fn all_present_values_are_returned() {
    let env = env_of(&[("DATABASE_URL", "postgres://x"), ("PORT", " 8080 "), ("OTHER", "y")]);
    let c = ok_config(&["DATABASE_URL", "PORT"], &env);
    assert_eq!(c.get("DATABASE_URL").map(|s| s.as_str()), Some("postgres://x"));
    assert_eq!(c.get("PORT").map(|s| s.as_str()), Some(" 8080 "));
    assert_eq!(c.get("OTHER"), None);
}

#[test]
fn absent_name_is_listed_bare() {
    let env = env_of(&[("A", "1")]);
    let e = err_config(&["A", "B"], &env);
    assert_eq!(e.missing_vars, vec!["B".to_string()]);
    assert!(e.invalid_vars.is_empty());
}

#[test]
fn blank_values_are_listed_as_empty() {
    let env = env_of(&[("A", ""), ("B", "   "), ("C", "\t\n"), ("D", "\u{a0}\u{3000}")]);
    let e = err_config(&["A", "B", "C", "D"], &env);
    assert_eq!(
        e.missing_vars,
        vec![
            "A (empty)".to_string(),
            "B (empty)".to_string(),
            "C (empty)".to_string(),
            "D (empty)".to_string()
        ]
    );
}

#[test]
fn every_problem_is_reported_in_order() {
    let env = env_of(&[("A", "1"), ("B", " ")]);
    let e = err_config(&["X", "A", "B", "Y", "X"], &env);
    assert_eq!(
        e.missing_vars,
        vec!["X".to_string(), "B (empty)".to_string(), "Y".to_string(), "X".to_string()]
    );
}

#[test]
fn validation_twice_gives_equal_outcomes() {
    let env = env_of(&[("A", "1"), ("B", "2")]);
    let c1 = ok_config(&["A", "B"], &env);
    let c2 = ok_config(&["A", "B"], &env);
    assert_eq!(c1.get("A"), c2.get("A"));
    assert_eq!(c1.get("B"), c2.get("B"));
    let e1 = err_config(&["A", "Z"], &env);
    let e2 = err_config(&["A", "Z"], &env);
    assert_eq!(e1.missing_vars, e2.missing_vars);
    assert_eq!(e1.invalid_vars, e2.invalid_vars);
}

#[test]
fn parsed_port_round_trips() {
    let env = env_of(&[("PORT", "42")]);
    let c = ok_config(&["PORT"], &env);
    assert_eq!(c.get_parsed::<u16>("PORT"), Ok(42u16));
    assert_eq!(c.get_parsed::<u16>("PORT"), c.get_parsed::<u16>("PORT"));
}

#[test]
fn missing_api_key_scenario() {
    let env = env_of(&[("DATABASE_URL", "postgres://x"), ("PORT", "8080")]);
    let e = err_config(&["DATABASE_URL", "PORT", "API_KEY"], &env);
    assert_eq!(e.missing_vars, vec!["API_KEY".to_string()]);
    assert!(e.invalid_vars.is_empty());
}

#[test]
fn non_numeric_port_fails_to_parse() {
    let env = env_of(&[("PORT", "abc")]);
    let c = ok_config(&["PORT"], &env);
    match c.get_parsed::<u16>("PORT") {
        Err(ParseError::Invalid { key, reason }) => {
            assert_eq!(key, "PORT");
            assert_eq!(reason, "invalid digit found in string");
        }
        other => panic!("unexpected result: {:?}", other),
    }
}

#[test]
fn empty_list_always_succeeds() {
    let env = env_of(&[("A", "1")]);
    let c = ok_config(&[], &env);
    assert_eq!(c.get("A"), None);
    assert_eq!(c.get(""), None);
    let c = ok_config(&[], &[]);
    assert_eq!(c.get("PORT"), None);
}

#[test]
fn first_pair_of_a_name_wins() {
    let env = env_of(&[("A", "first"), ("A", "second")]);
    let c = ok_config(&["A", "A"], &env);
    assert_eq!(c.get("A").map(|s| s.as_str()), Some("first"));
}

#[test]
fn parse_of_unknown_key_is_key_not_found() {
    let env = env_of(&[("PORT", "8080")]);
    let c = ok_config(&["PORT"], &env);
    let e = c.get_parsed::<u32>("HOST").unwrap_err();
    assert_eq!(e, ParseError::KeyNotFound { key: "HOST".to_string() });
    assert_eq!(e.message(), "Key 'HOST' not found");
    assert_eq!(c.get_parsed::<u32>("PORT"), Ok(8080));
    assert_eq!(c.get_parsed::<String>("PORT"), Ok("8080".to_string()));
}

#[test]
fn parse_error_message_is_the_reason() {
    let env = env_of(&[("N", "300")]);
    let c = ok_config(&["N"], &env);
    let e = c.get_parsed::<u8>("N").unwrap_err();
    assert_eq!(e.message(), "number too large to fit in target type");
}

#[test]
fn whitespace_classification() {
    assert!(is_blank_str(""));
    assert!(is_blank_str(" \t\r\n\u{b}\u{c}\u{85}\u{a0}\u{1680}\u{2000}\u{200a}\u{2028}\u{2029}\u{202f}\u{205f}\u{3000}"));
    assert!(!is_blank_str(" a "));
    assert!(!is_blank_str("\u{200b}"));
}

#[test]
fn error_text_lists_both_sections() {
    let e = ConfigError {
        missing_vars: vec!["A".to_string(), "B (empty)".to_string()],
        invalid_vars: vec![("PORT".to_string(), "not a number".to_string())],
    };
    assert_eq!(
        e.render(),
        "Configuration validation failed:\n\
         Missing required environment variables:\n  - A\n  - B (empty)\n\
         Invalid environment variables:\n  - PORT: not a number\n"
    );
}

#[test]
fn error_text_omits_empty_sections() {
    let e = ConfigError { missing_vars: vec!["API_KEY".to_string()], invalid_vars: vec![] };
    assert_eq!(
        e.render(),
        "Configuration validation failed:\nMissing required environment variables:\n  - API_KEY\n"
    );
    let e = ConfigError { missing_vars: vec![], invalid_vars: vec![] };
    assert_eq!(e.render(), "Configuration validation failed:\n");
}
