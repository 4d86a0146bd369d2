use komodo_core::deployment::{
    container_service_match, deployment_inspect_guard, deployment_log_plan,
    filter_update_available, summarize_deployments, unique_sorted_args, DeploymentListEntry,
    DeploymentState, ReadRefusal,
};
use komodo_core::requests::{
    apply_partial_deployment, signal_name, DeploymentConfig, PartialDeploymentConfig,
    TerminationSignal,
};
use komodo_core::server::{
    inspect_allowed, payload_or_empty, server_selected, stats_next_page,
    stats_page_timestamps, summarize_servers, ServerState, ServerStatus, TtlCache,
};
use komodo_core::permission::{check_permission, PermissionLevel};
use komodo_core::stack::{StackConfig, SystemCommand};
use komodo_core::store::{apply_partial, PartialStackConfig, ResourceStore};

#[test]
fn create_then_get_answers_the_created_resource() {
    let mut store: ResourceStore<u32> = ResourceStore::new();
    store.create(&"id-1".to_string(), 42);
    assert_eq!(*store.get("id-1").unwrap(), 42);
}

#[test]
fn delete_then_get_answers_missing() {
    let mut store: ResourceStore<u32> = ResourceStore::new();
    store.create(&"id-1".to_string(), 42);
    assert_eq!(store.delete("id-1").unwrap(), 42);
    assert!(store.get("id-1").is_err());
}

#[test]
fn deleting_one_id_leaves_the_rest() {
    let mut store: ResourceStore<u32> = ResourceStore::new();
    store.create(&"id-1".to_string(), 1);
    store.create(&"id-2".to_string(), 2);
    store.delete("id-1").unwrap();
    assert_eq!(*store.get("id-2").unwrap(), 2);
}

#[test]
fn replace_overwrites_only_existing_ids() {
    let mut store: ResourceStore<u32> = ResourceStore::new();
    store.create(&"id-1".to_string(), 1);
    assert!(store.replace("id-1", 9).is_ok());
    assert_eq!(*store.get("id-1").unwrap(), 9);
    assert!(store.replace("missing", 9).is_err());
}

fn stack_config() -> StackConfig {
    StackConfig {
        server_id: "srv".to_string(),
        file_contents: "fc".to_string(),
        environment: "env".to_string(),
        extra_args: vec!["--a".to_string()],
        build_extra_args: vec![],
        pre_deploy: SystemCommand { path: ".".to_string(), command: "prep".to_string() },
        git_provider: "gp".to_string(),
        git_account: "ga".to_string(),
        git_https: true,
        repo: "r".to_string(),
        branch: "b".to_string(),
        registry_provider: "rp".to_string(),
        registry_account: "ra".to_string(),
        skip_secret_interp: false,
        project_name: "p".to_string(),
    }
}

#[test]
fn empty_partial_update_is_identity() {
    let config = stack_config();
    let merged = apply_partial(&config, &PartialStackConfig::none());
    assert_eq!(merged.server_id, config.server_id);
    assert_eq!(merged.file_contents, config.file_contents);
    assert_eq!(merged.environment, config.environment);
    assert_eq!(merged.extra_args, config.extra_args);
    assert_eq!(merged.pre_deploy.command, config.pre_deploy.command);
    assert_eq!(merged.git_https, config.git_https);
    assert_eq!(merged.project_name, config.project_name);
}

#[test]
fn partial_update_overwrites_only_set_fields() {
    let config = stack_config();
    let mut partial = PartialStackConfig::none();
    partial.environment = Some("ENV=2".to_string());
    partial.git_https = Some(false);
    let merged = apply_partial(&config, &partial);
    assert_eq!(merged.environment, "ENV=2");
    assert!(!merged.git_https);
    assert_eq!(merged.file_contents, "fc");
}

#[test]
fn empty_partial_deployment_update_is_identity() {
    let config = DeploymentConfig {
        server_id: "srv".to_string(),
        image: "img:1".to_string(),
        environment: String::new(),
        extra_args: vec![],
        termination_signal: TerminationSignal::SigTerm,
        termination_timeout: 10,
        network: "host".to_string(),
        restart: "unless-stopped".to_string(),
    };
    let empty = PartialDeploymentConfig {
        server_id: None,
        image: None,
        environment: None,
        extra_args: None,
        termination_signal: None,
        termination_timeout: None,
        network: None,
        restart: None,
    };
    let merged = apply_partial_deployment(&config, &empty);
    assert_eq!(merged.image, "img:1");
    assert_eq!(merged.termination_timeout, 10);
    assert_eq!(merged.network, "host");
}

#[test]
fn signals_render_as_flag_values() {
    assert_eq!(signal_name(TerminationSignal::SigInt), "SIGINT");
    assert_eq!(signal_name(TerminationSignal::SigTerm), "SIGTERM");
}

#[test]
fn stats_page_holds_two_hundred_descending_timestamps() {
    // one-minute granularity, second page
    let now: i64 = 1_700_000_123_456;
    let granularity: i64 = 60_000;
    let page: u32 = 1;
    let ts = stats_page_timestamps(now, granularity, page);
    assert_eq!(ts.len(), 200);
    let aligned = now - now % granularity;
    assert_eq!(ts[0], aligned - granularity * 200);
    for k in 1..ts.len() {
        assert_eq!(ts[k - 1] - ts[k], granularity);
    }
}

#[test]
fn next_page_follows_exactly_a_full_page() {
    assert_eq!(stats_next_page(200, 1), Some(2));
    assert_eq!(stats_next_page(199, 1), None);
    assert_eq!(stats_next_page(0, 1), None);
}

#[test]
fn ttl_cache_answers_fresh_entries_only() {
    let mut cache = TtlCache::new();
    let key = "server-1".to_string();
    assert!(cache.lookup(&key, 1_000).is_none());
    cache.store(&key, "snapshot".to_string(), 1_000, 15_000);
    assert_eq!(cache.lookup(&key, 15_999).unwrap(), "snapshot");
    assert!(cache.lookup(&key, 16_000).is_none());
}

#[test]
fn ttl_cache_keys_are_independent() {
    let mut cache = TtlCache::new();
    cache.store(&"a".to_string(), "va".to_string(), 0, 100);
    assert!(cache.lookup(&"b".to_string(), 1).is_none());
    cache.store(&"a".to_string(), "vb".to_string(), 50, 100);
    assert_eq!(cache.lookup(&"a".to_string(), 120).unwrap(), "vb");
}

#[test]
fn servers_summary_counts_every_state() {
    let states = vec![
        ServerState::Healthy,
        ServerState::Healthy,
        ServerState::Unhealthy,
        ServerState::Disabled,
    ];
    let summary = summarize_servers(&states);
    assert_eq!(summary.total, 4);
    assert_eq!(summary.healthy, 2);
    assert_eq!(summary.unhealthy, 1);
    assert_eq!(summary.disabled, 1);
}

#[test]
fn unpolled_server_reads_unknown_and_empty() {
    let status = ServerStatus::unpolled();
    assert_eq!(status.version, "unknown");
    assert_eq!(payload_or_empty(&status.containers), "[]");
    assert!(!inspect_allowed(status.state));
}

#[test]
fn deployments_summary_buckets_states() {
    let states = vec![
        DeploymentState::Running,
        DeploymentState::Exited,
        DeploymentState::Paused,
        DeploymentState::NotDeployed,
        DeploymentState::Unknown,
        DeploymentState::Dead,
    ];
    let summary = summarize_deployments(&states);
    assert_eq!(summary.total, 6);
    assert_eq!(summary.running, 1);
    assert_eq!(summary.stopped, 2);
    assert_eq!(summary.not_deployed, 1);
    assert_eq!(summary.unknown, 1);
    assert_eq!(summary.unhealthy, 1);
}

#[test]
fn unassigned_deployment_answers_the_empty_log() {
    assert!(deployment_log_plan("", 100).is_none());
    assert_eq!(deployment_log_plan("srv", 100), Some(100));
    assert_eq!(deployment_log_plan("srv", 9_999), Some(5000));
}

#[test]
fn inspect_guard_demands_server_and_health() {
    assert_eq!(deployment_inspect_guard("", ServerState::Healthy), Err(ReadRefusal::NoServer));
    assert_eq!(
        deployment_inspect_guard("srv", ServerState::Unhealthy),
        Err(ReadRefusal::ServerUnhealthy)
    );
    assert!(deployment_inspect_guard("srv", ServerState::Healthy).is_ok());
}

#[test]
fn common_extra_args_are_unique_and_ordered() {
    let args = vec![
        "--b".to_string(),
        "--a".to_string(),
        "--b".to_string(),
        "--c".to_string(),
    ];
    let out = unique_sorted_args(&args);
    assert_eq!(out, vec!["--a".to_string(), "--b".to_string(), "--c".to_string()]);
}

#[test]
fn containers_match_their_service_by_name_or_replica() {
    assert!(container_service_match("proj-app", "proj-app"));
    assert!(container_service_match("proj-app", "proj-app-1"));
    assert!(container_service_match("proj-app", "proj-app-12"));
    assert!(!container_service_match("proj-app", "proj-app-"));
    assert!(!container_service_match("proj-app", "proj-app-1x"));
    assert!(!container_service_match("proj-app", "proj-apple"));
    assert!(!container_service_match("proj-app", "other"));
}

#[test]
fn permission_gate_demands_the_level_or_admin() {
    assert!(check_permission(false, PermissionLevel::Execute, PermissionLevel::Execute).is_ok());
    assert!(check_permission(false, PermissionLevel::Write, PermissionLevel::Execute).is_ok());
    assert!(check_permission(false, PermissionLevel::Read, PermissionLevel::Execute).is_err());
    assert!(check_permission(false, PermissionLevel::NoAccess, PermissionLevel::Read).is_err());
    assert!(check_permission(true, PermissionLevel::NoAccess, PermissionLevel::Write).is_ok());
}

#[test]
fn listing_filter_keeps_only_updatable_when_asked() {
    let items = vec![
        DeploymentListEntry { name: "a".to_string(), update_available: false },
        DeploymentListEntry { name: "b".to_string(), update_available: true },
        DeploymentListEntry { name: "c".to_string(), update_available: false },
    ];
    let everything = filter_update_available(&items, false);
    assert_eq!(everything.len(), 3);
    let updatable = filter_update_available(&items, true);
    assert_eq!(updatable.len(), 1);
    assert_eq!(updatable[0].name, "b");
}

#[test]
fn all_hosts_selector_takes_ids_names_or_everything() {
    let empty: Vec<String> = vec![];
    assert!(server_selected(&empty, "id-1", "alpha"));
    let named = vec!["alpha".to_string(), "id-2".to_string()];
    assert!(server_selected(&named, "id-1", "alpha"));
    assert!(server_selected(&named, "id-2", "beta"));
    assert!(!server_selected(&named, "id-3", "gamma"));
}
