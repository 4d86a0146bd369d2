use komodo_core::interpolate::{
    apply_replacers, build_replacers, interpolate, interpolation_log, make_placeholder,
    Replacer, VarEntry,
};
use komodo_core::text::{contains_str, replace_all};

fn vars_one_secret() -> Vec<VarEntry> {
    vec![VarEntry { name: "TOKEN".to_string(), value: "ghp_abc".to_string(), secret: true }]
}

#[test]
fn expands_secret_token_into_text() {
    let vars = vars_one_secret();
    let (text, used) = interpolate("echo [[TOKEN]]", &vars).unwrap();
    assert_eq!(text, "echo ghp_abc");
    assert_eq!(used, vec![true]);
}

#[test]
fn secret_replacers_map_value_to_bracketed_name() {
    let vars = vars_one_secret();
    let (_, used) = interpolate("echo [[TOKEN]]", &vars).unwrap();
    let replacers = build_replacers(&vars, &used, true);
    assert_eq!(replacers.len(), 1);
    assert_eq!(replacers[0].value, "ghp_abc");
    assert_eq!(replacers[0].placeholder, "[TOKEN]");
}

#[test]
fn sanitised_log_shows_placeholder_never_value() {
    let vars = vars_one_secret();
    let (text, used) = interpolate("echo [[TOKEN]]", &vars).unwrap();
    let replacers = build_replacers(&vars, &used, true);
    let shown = apply_replacers(text.as_str(), &replacers);
    assert_eq!(shown, "echo [TOKEN]");
    assert!(!contains_str(shown.as_str(), "ghp_abc"));
}

#[test]
fn unknown_name_aborts_with_that_name() {
    let vars = vars_one_secret();
    let err = interpolate("echo [[MISSING]]", &vars).unwrap_err();
    assert_eq!(err.name, "MISSING");
}

#[test]
fn leftmost_unknown_name_wins() {
    let vars = vars_one_secret();
    let err = interpolate("[[FIRST]] then [[SECOND]]", &vars).unwrap_err();
    assert_eq!(err.name, "FIRST");
}

#[test]
fn text_without_tokens_is_unchanged() {
    let vars = vars_one_secret();
    let (text, used) = interpolate("echo [ not a token ]]", &vars).unwrap();
    assert_eq!(text, "echo [ not a token ]]");
    assert_eq!(used, vec![false]);
}

#[test]
fn malformed_token_stays_literal() {
    let vars = vars_one_secret();
    let (text, _) = interpolate("[[TOK EN]] [[TOKEN]]", &vars).unwrap();
    assert_eq!(text, "[[TOK EN]] ghp_abc");
}

#[test]
fn unused_entries_produce_no_replacer() {
    let mut vars = vars_one_secret();
    vars.push(VarEntry {
        name: "PLAIN".to_string(),
        value: "visible".to_string(),
        secret: false,
    });
    let (_, used) = interpolate("nothing here", &vars).unwrap();
    let all = build_replacers(&vars, &used, false);
    assert!(all.is_empty());
}

#[test]
fn global_replacers_cover_plain_variables_too() {
    let mut vars = vars_one_secret();
    vars.push(VarEntry {
        name: "PLAIN".to_string(),
        value: "visible".to_string(),
        secret: false,
    });
    let (_, used) = interpolate("[[TOKEN]] [[PLAIN]]", &vars).unwrap();
    let all = build_replacers(&vars, &used, false);
    assert_eq!(all.len(), 2);
    let secrets = build_replacers(&vars, &used, true);
    assert_eq!(secrets.len(), 1);
    assert_eq!(secrets[0].value, "ghp_abc");
}

#[test]
fn replace_all_rewrites_every_occurrence() {
    let out = replace_all("x ghp_abc y ghp_abc", "ghp_abc", "[TOKEN]");
    assert_eq!(out, "x [TOKEN] y [TOKEN]");
    assert!(!contains_str(out.as_str(), "ghp_abc"));
}

#[test]
fn replace_all_handles_overlapping_candidates() {
    let out = replace_all("aaa", "aa", "[A]");
    assert_eq!(out, "[A]a");
}

#[test]
fn interpolation_log_names_secrets_without_values() {
    let vars = vars_one_secret();
    let (_, used) = interpolate("echo [[TOKEN]]", &vars).unwrap();
    let log = interpolation_log(&vars, &used, 7);
    assert_eq!(log.stage, "interpolate variables");
    assert_eq!(log.stdout, "secret: TOKEN\n");
    assert!(!contains_str(log.stdout.as_str(), "ghp_abc"));
    assert!(log.success);
}

#[test]
fn interpolation_log_pairs_variables_with_their_placeholder() {
    let vars = vec![VarEntry {
        name: "PORT".to_string(),
        value: "8080".to_string(),
        secret: false,
    }];
    let (_, used) = interpolate("port [[PORT]]", &vars).unwrap();
    let log = interpolation_log(&vars, &used, 7);
    assert_eq!(log.stdout, "variable: PORT -> [PORT]\n");
    assert!(!contains_str(log.stdout.as_str(), "8080"));
}

#[test]
fn placeholder_is_single_bracketed_name() {
    assert_eq!(make_placeholder("TOKEN"), "[TOKEN]");
}

#[test]
fn applying_replacer_list_in_order() {
    let reps = vec![
        Replacer { value: "one".to_string(), placeholder: "[A]".to_string() },
        Replacer { value: "two".to_string(), placeholder: "[B]".to_string() },
    ];
    let out = apply_replacers("one two one", &reps);
    assert_eq!(out, "[A] [B] [A]");
}
