use komodo_core::stack::{
    apply_compose_up, cancel_unchanged_deploy, contents_changed, interpolate_stack_config,
    interpolate_stack_config_gated, ComposeUpResponse, FileContents, Stack, StackConfig,
    StackInfo, StackService, SystemCommand,
};
use komodo_core::interpolate::{build_replacers, VarEntry};
use komodo_core::update::{Operation, ResourceKind, Update, UpdateStatus};

fn base_config() -> StackConfig {
    StackConfig {
        server_id: "srv-1".to_string(),
        file_contents: String::new(),
        environment: String::new(),
        extra_args: vec![],
        build_extra_args: vec![],
        pre_deploy: SystemCommand { path: ".".to_string(), command: String::new() },
        git_provider: "git.example.com".to_string(),
        git_account: "acct".to_string(),
        git_https: true,
        repo: "acct/web".to_string(),
        branch: "main".to_string(),
        registry_provider: String::new(),
        registry_account: String::new(),
        skip_secret_interp: false,
        project_name: String::new(),
    }
}

fn base_info() -> StackInfo {
    StackInfo {
        missing_files: vec![],
        deployed_project_name: None,
        deployed_services: None,
        deployed_contents: None,
        deployed_hash: None,
        deployed_message: None,
        latest_services: vec![],
        remote_contents: None,
        remote_errors: None,
        latest_hash: None,
        latest_message: None,
    }
}

fn base_stack() -> Stack {
    Stack {
        id: "stack-1".to_string(),
        name: "web".to_string(),
        tags: vec![],
        config: base_config(),
        info: base_info(),
    }
}

fn files(pairs: &[(&str, &str)]) -> Vec<FileContents> {
    pairs
        .iter()
        .map(|(p, c)| FileContents { path: p.to_string(), contents: c.to_string() })
        .collect()
}

fn ok_response() -> ComposeUpResponse {
    ComposeUpResponse {
        logs: vec![],
        deployed: true,
        services: vec![StackService {
            service_name: "app".to_string(),
            container_name: "web-app".to_string(),
        }],
        file_contents: files(&[("compose.yml", "services: {}")]),
        missing_files: vec![],
        remote_errors: vec![],
        commit_hash: Some("abc123".to_string()),
        commit_message: Some("deploy".to_string()),
    }
}

#[test]
fn successful_deploy_advances_deployed_fields() {
    let stack = base_stack();
    let resp = ok_response();
    let info = apply_compose_up(&stack, &resp);
    let deployed = info.deployed_contents.unwrap();
    assert_eq!(deployed.len(), 1);
    assert_eq!(deployed[0].path, "compose.yml");
    assert_eq!(deployed[0].contents, "services: {}");
    assert_eq!(info.deployed_hash.as_deref(), Some("abc123"));
    assert_eq!(info.deployed_message.as_deref(), Some("deploy"));
    assert_eq!(info.deployed_services.unwrap().len(), 1);
}

#[test]
fn failed_deploy_keeps_deployed_fields_untouched() {
    let mut stack = base_stack();
    stack.info.deployed_contents = Some(files(&[("old.yml", "old")]));
    stack.info.deployed_hash = Some("old-hash".to_string());
    let mut resp = ok_response();
    resp.deployed = false;
    let info = apply_compose_up(&stack, &resp);
    let deployed = info.deployed_contents.unwrap();
    assert_eq!(deployed[0].path, "old.yml");
    assert_eq!(deployed[0].contents, "old");
    assert_eq!(info.deployed_hash.as_deref(), Some("old-hash"));
}

#[test]
fn deploying_twice_leaves_hash_at_second_response() {
    let mut stack = base_stack();
    let resp = ok_response();
    let info1 = apply_compose_up(&stack, &resp);
    stack.info = info1;
    let info2 = apply_compose_up(&stack, &resp);
    assert_eq!(info2.deployed_hash.as_deref(), Some("abc123"));

    let mut u1 = Update::new(
        ResourceKind::Stack,
        "stack-1".to_string(),
        Operation::DeployStack,
        "u".to_string(),
        10,
    );
    u1.finalize(20);
    let mut u2 = Update::new(
        ResourceKind::Stack,
        "stack-1".to_string(),
        Operation::DeployStack,
        "u".to_string(),
        30,
    );
    u2.finalize(40);
    assert!(u1.success && u2.success);
}

#[test]
fn git_sourced_stack_records_remote_contents() {
    let stack = base_stack();
    let info = apply_compose_up(&stack, &ok_response());
    assert!(info.remote_contents.is_some());
    assert!(info.remote_errors.is_some());
}

#[test]
fn inline_stack_records_no_remote_contents() {
    let mut stack = base_stack();
    stack.config.file_contents = "services: {}".to_string();
    let info = apply_compose_up(&stack, &ok_response());
    assert!(info.remote_contents.is_none());
    assert!(info.remote_errors.is_none());
}

#[test]
fn empty_reported_services_keep_previous_latest() {
    let mut stack = base_stack();
    stack.info.latest_services = vec![StackService {
        service_name: "kept".to_string(),
        container_name: "kept-1".to_string(),
    }];
    let mut resp = ok_response();
    resp.services = vec![];
    let info = apply_compose_up(&stack, &resp);
    assert_eq!(info.latest_services[0].service_name, "kept");
}

#[test]
fn project_name_prefers_the_override() {
    let mut stack = base_stack();
    assert_eq!(stack.project_name(), "web");
    stack.config.project_name = "custom".to_string();
    assert_eq!(stack.project_name(), "custom");
}

#[test]
fn unchanged_contents_mean_no_deploy() {
    let deployed = Some(files(&[("c.yml", "a")]));
    let remote = Some(files(&[("c.yml", "a")]));
    assert!(!contents_changed(&deployed, &remote));
}

#[test]
fn changed_file_contents_mean_deploy() {
    let deployed = Some(files(&[("c.yml", "a")]));
    let remote = Some(files(&[("c.yml", "b")]));
    assert!(contents_changed(&deployed, &remote));
}

#[test]
fn new_remote_file_means_deploy() {
    let deployed = Some(files(&[("c.yml", "a")]));
    let remote = Some(files(&[("c.yml", "a"), ("extra.yml", "x")]));
    assert!(contents_changed(&deployed, &remote));
}

#[test]
fn never_deployed_means_deploy() {
    let remote = Some(files(&[("c.yml", "a")]));
    assert!(contents_changed(&None, &remote));
}

#[test]
fn no_remote_contents_means_no_deploy() {
    let deployed = Some(files(&[("c.yml", "a")]));
    assert!(!contents_changed(&deployed, &None));
}

#[test]
fn cancelled_deploy_records_exactly_one_cancel_line() {
    let mut update = Update::new(
        ResourceKind::Stack,
        "stack-1".to_string(),
        Operation::DeployStackIfChanged,
        "u".to_string(),
        100,
    );
    cancel_unchanged_deploy(&mut update, 130);
    assert_eq!(update.status, UpdateStatus::Complete);
    assert!(update.success);
    assert_eq!(update.logs.len(), 1);
    assert_eq!(update.logs[0].stage, "Diff compose files");
    assert_eq!(update.logs[0].stdout, "Deploy cancelled after no changes detected.");
}

#[test]
fn stack_config_interpolation_expands_every_slot() {
    let vars = vec![VarEntry {
        name: "PORT".to_string(),
        value: "8080".to_string(),
        secret: false,
    }];
    let mut config = base_config();
    config.file_contents = "port: [[PORT]]".to_string();
    config.environment = "PORT=[[PORT]]".to_string();
    config.extra_args = vec!["--port=[[PORT]]".to_string()];
    config.pre_deploy.command = "check [[PORT]]".to_string();
    let (expanded, used) = interpolate_stack_config(&config, &vars).unwrap();
    assert_eq!(expanded.file_contents, "port: 8080");
    assert_eq!(expanded.environment, "PORT=8080");
    assert_eq!(expanded.extra_args, vec!["--port=8080".to_string()]);
    assert_eq!(expanded.pre_deploy.command, "check 8080");
    assert_eq!(used, vec![true]);
}

#[test]
fn skip_secret_interp_bypasses_expansion_entirely() {
    let vars = vec![VarEntry {
        name: "TOKEN".to_string(),
        value: "ghp_abc".to_string(),
        secret: true,
    }];
    let mut config = base_config();
    config.file_contents = "echo [[TOKEN]]".to_string();
    config.skip_secret_interp = true;
    let (kept, used) = interpolate_stack_config_gated(&config, &vars).unwrap();
    // the text is handed on untouched and no entry counts as used
    assert_eq!(kept.file_contents, "echo [[TOKEN]]");
    assert_eq!(used, vec![false]);
    // so both replacer sets are empty
    assert!(build_replacers(&vars, &used, false).is_empty());
    assert!(build_replacers(&vars, &used, true).is_empty());
}

#[test]
fn gate_expands_when_the_flag_is_off() {
    let vars = vec![VarEntry {
        name: "TOKEN".to_string(),
        value: "ghp_abc".to_string(),
        secret: true,
    }];
    let mut config = base_config();
    config.file_contents = "echo [[TOKEN]]".to_string();
    let (expanded, used) = interpolate_stack_config_gated(&config, &vars).unwrap();
    assert_eq!(expanded.file_contents, "echo ghp_abc");
    assert_eq!(used, vec![true]);
}

#[test]
fn stack_config_interpolation_reports_first_unknown() {
    let vars: Vec<VarEntry> = vec![];
    let mut config = base_config();
    config.environment = "A=[[GONE]]".to_string();
    let err = interpolate_stack_config(&config, &vars).unwrap_err();
    assert_eq!(err.name, "GONE");
}
