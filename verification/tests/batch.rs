use komodo_core::execution::{
    batch_deploy_stack_if_changed_request, batch_deploy_stack_request,
    batch_destroy_stack_request, route, DispatchRoute, Execution,
};
use komodo_core::pattern::{
    glob_matches, item_matches_exec, resolve_targets, split_pattern, str_le_exec,
    TargetResource,
};

fn resource(id: &str, name: &str, tags: &[&str]) -> TargetResource {
    TargetResource {
        id: id.to_string(),
        name: name.to_string(),
        tags: tags.iter().map(|t| t.to_string()).collect(),
    }
}

fn stacks() -> Vec<TargetResource> {
    vec![
        resource("1", "web-a", &[]),
        resource("2", "web-b", &[]),
        resource("3", "api-prod", &["prod"]),
        resource("4", "db", &["prod"]),
    ]
}

#[test]
fn batch_glob_and_tag_pattern_resolves_four_unique_targets_by_name() {
    let pool = stacks();
    let targets = resolve_targets("web-*, #prod", &pool);
    let names: Vec<&str> = targets.iter().map(|t| t.name.as_str()).collect();
    assert_eq!(names, vec!["api-prod", "db", "web-a", "web-b"]);
}

#[test]
fn duplicate_matches_are_deduplicated_by_id() {
    let pool = vec![resource("1", "web-a", &["prod"])];
    let targets = resolve_targets("web-*, #prod", &pool);
    assert_eq!(targets.len(), 1);
    assert_eq!(targets[0].name, "web-a");
}

#[test]
fn unmatched_resources_stay_out() {
    let pool = stacks();
    let targets = resolve_targets("web-a", &pool);
    assert_eq!(targets.len(), 1);
    assert_eq!(targets[0].id, "1");
}

#[test]
fn pattern_splits_on_commas_and_whitespace() {
    assert_eq!(split_pattern("web-*, #prod"), vec!["web-*", "#prod"]);
    assert_eq!(split_pattern("  a,,b\tc  "), vec!["a", "b", "c"]);
    assert!(split_pattern(" , ").is_empty());
}

#[test]
fn glob_star_matches_any_run() {
    assert!(glob_matches("web-*", "web-a"));
    assert!(glob_matches("web-*", "web-"));
    assert!(!glob_matches("web-*", "api"));
    assert!(glob_matches("*", ""));
}

#[test]
fn glob_question_mark_matches_one_character() {
    assert!(glob_matches("web-?", "web-a"));
    assert!(!glob_matches("web-?", "web-ab"));
    assert!(!glob_matches("web-?", "web-"));
}

#[test]
fn literal_pattern_matches_exactly() {
    assert!(glob_matches("db", "db"));
    assert!(!glob_matches("db", "db2"));
}

#[test]
fn tag_selector_demands_every_listed_tag() {
    let tagged = resource("1", "x", &["prod", "eu"]);
    assert!(item_matches_exec("#prod", &tagged));
    assert!(item_matches_exec("#prod#eu", &tagged));
    assert!(!item_matches_exec("#prod#us", &tagged));
    let untagged = resource("2", "y", &[]);
    assert!(!item_matches_exec("#prod", &untagged));
}

#[test]
fn name_order_is_lexicographic() {
    assert!(str_le_exec("api-prod", "db"));
    assert!(str_le_exec("db", "web-a"));
    assert!(str_le_exec("web-a", "web-b"));
    assert!(!str_le_exec("web-b", "web-a"));
    assert!(str_le_exec("web", "web"));
}

#[test]
fn batch_variants_route_to_batch_dispatch() {
    assert_eq!(
        route(&Execution::BatchDeployStack { pattern: "web-*".to_string() }),
        DispatchRoute::ExecuteBatch
    );
    assert_eq!(
        route(&Execution::DeployStack {
            stack: "web".to_string(),
            service: None,
            stop_time: None
        }),
        DispatchRoute::ExecuteSingle
    );
    assert_eq!(
        route(&Execution::CommitSync { sync: "s".to_string() }),
        DispatchRoute::WriteSingle
    );
    assert_eq!(route(&Execution::Sleep { duration_ms: 5 }), DispatchRoute::LocalSleep);
    assert_eq!(route(&Execution::NoOp), DispatchRoute::LocalNoOp);
}

#[test]
fn batch_singletons_carry_default_fields() {
    match batch_deploy_stack_request("web-a".to_string()) {
        Execution::DeployStack { stack, service, stop_time } => {
            assert_eq!(stack, "web-a");
            assert!(service.is_none());
            assert!(stop_time.is_none());
        }
        _ => panic!("wrong variant"),
    }
    match batch_deploy_stack_if_changed_request("web-a".to_string()) {
        Execution::DeployStackIfChanged { stack, stop_time } => {
            assert_eq!(stack, "web-a");
            assert!(stop_time.is_none());
        }
        _ => panic!("wrong variant"),
    }
    match batch_destroy_stack_request("web-a".to_string()) {
        Execution::DestroyStack { stack, service, remove_orphans, stop_time } => {
            assert_eq!(stack, "web-a");
            assert!(service.is_none());
            assert!(!remove_orphans);
            assert!(stop_time.is_none());
        }
        _ => panic!("wrong variant"),
    }
}
