use komodo_core::container::{
    batch_names, clamp_tail, create_network_command, delete_network_command, grep_pipeline,
    log_command, log_search_command, needs_signal_retry, old_docker_stderr,
    prune_containers_command, prune_networks_command, remove_command, rename_command,
    resolve_stop_attempts, stop_command, verb_command, ContainerListItem, ContainerVerb,
    SearchCombinator,
};
use komodo_core::update::Log;

fn log_with_stderr(stderr: &str) -> Log {
    Log {
        stage: "Docker Stop".to_string(),
        command: "docker stop --signal SIGINT -t 10 c".to_string(),
        stdout: String::new(),
        stderr: stderr.to_string(),
        success: false,
        start_ts: 1,
        end_ts: 2,
    }
}

#[test]
fn stop_command_carries_signal_and_time() {
    let cmd = stop_command("c", &Some("SIGINT".to_string()), &Some(10));
    assert_eq!(cmd, "docker stop --signal SIGINT -t 10 c");
}

#[test]
fn stop_command_without_flags_is_bare() {
    let cmd = stop_command("c", &None, &None);
    assert_eq!(cmd, "docker stop c");
}

#[test]
fn remove_command_chains_stop_and_removal() {
    let cmd = remove_command("c", &None, &Some(3));
    assert_eq!(cmd, "docker stop -t 3 c && docker container rm c");
}

#[test]
fn old_engine_stderr_triggers_signal_retry() {
    let first = log_with_stderr("unknown flag: --signal\nSee 'docker stop --help'.");
    assert!(needs_signal_retry(&first));
    let fine = log_with_stderr("no such container: c");
    assert!(!needs_signal_retry(&fine));
}

#[test]
fn retried_stop_log_starts_with_the_old_engine_note() {
    let first = log_with_stderr("unknown flag: --signal");
    let mut retry = log_with_stderr("still grumpy");
    retry.command = "docker stop -t 10 c".to_string();
    retry.success = true;
    let resolved = resolve_stop_attempts(first, Some(retry));
    assert!(resolved
        .stderr
        .starts_with("old docker version: unable to use --signal flag"));
    assert_eq!(
        resolved.stderr,
        "old docker version: unable to use --signal flag\n\nstill grumpy"
    );
    assert_eq!(resolved.command, "docker stop -t 10 c");
    assert!(resolved.success);
}

#[test]
fn retry_with_empty_stderr_keeps_just_the_note() {
    let note = old_docker_stderr("");
    assert_eq!(note, "old docker version: unable to use --signal flag");
}

#[test]
fn accepting_engine_answers_with_the_first_log() {
    let first = log_with_stderr("");
    let resolved = resolve_stop_attempts(first, None);
    assert_eq!(resolved.stderr, "");
    assert_eq!(resolved.command, "docker stop --signal SIGINT -t 10 c");
}

#[test]
fn verb_commands_name_the_container() {
    assert_eq!(verb_command(ContainerVerb::Start, "c"), "docker start c");
    assert_eq!(verb_command(ContainerVerb::Restart, "c"), "docker restart c");
    assert_eq!(verb_command(ContainerVerb::Pause, "c"), "docker pause c");
    assert_eq!(verb_command(ContainerVerb::Unpause, "c"), "docker unpause c");
}

#[test]
fn batch_operations_skip_labelled_containers() {
    let containers = vec![
        ContainerListItem { name: "a".to_string(), label_keys: vec![] },
        ContainerListItem {
            name: "b".to_string(),
            label_keys: vec!["komodo.skip".to_string()],
        },
        ContainerListItem {
            name: "c".to_string(),
            label_keys: vec!["other".to_string()],
        },
    ];
    assert_eq!(batch_names(&containers), vec!["a".to_string(), "c".to_string()]);
}

#[test]
fn log_tail_is_clamped_to_the_ceiling() {
    assert_eq!(clamp_tail(100), 100);
    assert_eq!(clamp_tail(5000), 5000);
    assert_eq!(clamp_tail(99999), 5000);
}

#[test]
fn log_command_carries_tail_and_timestamps() {
    assert_eq!(log_command("c", 200, false), "docker logs c --tail 200");
    assert_eq!(log_command("c", 200, true), "docker logs c --tail 200 --timestamps");
}

#[test]
fn and_search_chains_one_grep_per_term() {
    let terms = vec!["alpha".to_string(), "beta".to_string()];
    let cmd = log_search_command("c", &terms, SearchCombinator::And, false, false);
    assert_eq!(
        cmd,
        "docker logs c --tail 5000 2>&1 | grep 'alpha' | grep 'beta'"
    );
}

#[test]
fn or_search_uses_one_alternation() {
    let terms = vec!["alpha".to_string(), "beta".to_string()];
    let pipeline = grep_pipeline(&terms, SearchCombinator::Or, false);
    assert_eq!(pipeline, "grep 'alpha\\|beta'");
}

#[test]
fn inverted_search_drops_matching_lines() {
    let terms = vec!["noise".to_string()];
    let pipeline = grep_pipeline(&terms, SearchCombinator::And, true);
    assert_eq!(pipeline, "grep -v 'noise'");
}

#[test]
fn network_commands_name_the_network() {
    assert_eq!(create_network_command("net", &None), "docker network create net");
    assert_eq!(
        create_network_command("net", &Some("bridge".to_string())),
        "docker network create --driver bridge net"
    );
    assert_eq!(delete_network_command("net"), "docker network rm net");
    assert_eq!(prune_networks_command(), "docker network prune -f");
    assert_eq!(prune_containers_command(), "docker container prune -f");
    assert_eq!(rename_command("old", "new"), "docker rename old new");
}
