use komodo_core::gitpull::{
    remote_url, CloneArgs, GitRes, PullCache, PullRun, PullStep,
};
use komodo_core::interpolate::{Replacer, VarEntry};
use komodo_core::text::contains_str;
use komodo_core::update::Log;

fn args() -> CloneArgs {
    CloneArgs {
        provider: "git.example.com".to_string(),
        repo: "acct/web".to_string(),
        branch: "main".to_string(),
        commit: None,
        https: true,
        on_pull_path: ".".to_string(),
        on_pull_command: String::new(),
    }
}

fn command_log(command: &str, success: bool) -> Log {
    Log {
        stage: "git".to_string(),
        command: command.to_string(),
        stdout: String::new(),
        stderr: String::new(),
        success,
        start_ts: 0,
        end_ts: 0,
    }
}

fn some_result() -> GitRes {
    GitRes {
        logs: vec![command_log("git pull --rebase --force origin main", true)],
        hash: Some("abc".to_string()),
        message: Some("tip".to_string()),
        env_file_path: None,
    }
}

#[test]
fn second_pull_within_hold_off_answers_from_cache() {
    let mut cache = PullCache::new();
    let path = "/repos/web".to_string();
    cache.record(&path, some_result(), 1_000);
    // a second caller 4.9 s later takes the cached result: no new pull
    let hit = cache.check(&path, 5_999).expect("should answer from cache");
    assert_eq!(hit.hash.as_deref(), Some("abc"));
    assert_eq!(hit.logs.len(), 1);
}

#[test]
fn pull_after_hold_off_runs_again() {
    let mut cache = PullCache::new();
    let path = "/repos/web".to_string();
    cache.record(&path, some_result(), 1_000);
    assert!(cache.check(&path, 6_000).is_none());
}

#[test]
fn unknown_path_is_never_cached() {
    let cache = PullCache::new();
    assert!(cache.check(&"/elsewhere".to_string(), 0).is_none());
}

#[test]
fn caches_are_per_path() {
    let mut cache = PullCache::new();
    cache.record(&"/a".to_string(), some_result(), 1_000);
    assert!(cache.check(&"/a".to_string(), 1_001).is_some());
    assert!(cache.check(&"/b".to_string(), 1_001).is_none());
}

#[test]
fn remote_url_embeds_the_token() {
    let url = remote_url(&args(), &Some("tok123".to_string()));
    assert_eq!(url, "https://tok123@git.example.com/acct/web.git");
    let bare = remote_url(&args(), &None);
    assert_eq!(bare, "https://git.example.com/acct/web.git");
}

#[test]
fn pull_runs_the_fixed_command_sequence() {
    let mut run = PullRun::begin(&args(), &None, None, Vec::new());
    assert_eq!(
        run.current_command().unwrap(),
        "git remote set-url origin https://git.example.com/acct/web.git"
    );
    run.apply(command_log("set-url", true));
    assert_eq!(run.current_command().unwrap(), "git checkout -f main");
    run.apply(command_log("checkout", true));
    assert_eq!(
        run.current_command().unwrap(),
        "git pull --rebase --force origin main"
    );
    run.apply(command_log("pull", true));
    assert_eq!(run.step, PullStep::ReadCommit);
    run.record_commit(command_log("log", true), Some("abc".to_string()), Some("tip".to_string()));
    assert_eq!(run.step, PullStep::WriteEnv);
    run.record_env(None, Some(".env".to_string()));
    assert_eq!(run.step, PullStep::Done);
    let res = run.finish();
    assert_eq!(res.hash.as_deref(), Some("abc"));
    assert_eq!(res.message.as_deref(), Some("tip"));
    assert_eq!(res.env_file_path.as_deref(), Some(".env"));
    // checkout and set-url succeeded, so only pull and commit logs are kept
    assert_eq!(res.logs.len(), 2);
}

#[test]
fn pinned_commit_adds_a_reset_step() {
    let mut a = args();
    a.commit = Some("deadbeef".to_string());
    let mut run = PullRun::begin(&a, &None, None, Vec::new());
    run.apply(command_log("set-url", true));
    run.apply(command_log("checkout", true));
    run.apply(command_log("pull", true));
    assert_eq!(run.step, PullStep::ResetCommit);
    assert_eq!(run.current_command().unwrap(), "git reset --hard deadbeef");
}

#[test]
fn failed_checkout_short_circuits_with_its_log() {
    let mut run = PullRun::begin(&args(), &None, None, Vec::new());
    run.apply(command_log("set-url", true));
    run.apply(command_log("checkout", false));
    assert_eq!(run.step, PullStep::Done);
    let res = run.finish();
    assert_eq!(res.logs.len(), 1);
    assert!(res.hash.is_none());
    assert!(res.message.is_none());
}

#[test]
fn failed_rehome_log_is_sanitised_of_the_token() {
    let token = "tok123".to_string();
    let mut run = PullRun::begin(&args(), &Some(token.clone()), None, Vec::new());
    let mut failure = command_log(
        "git remote set-url origin https://tok123@git.example.com/acct/web.git",
        false,
    );
    failure.stderr = "fatal: cannot reach https://tok123@git.example.com".to_string();
    run.apply(failure);
    assert_eq!(run.step, PullStep::Done);
    let res = run.finish();
    assert_eq!(res.logs.len(), 1);
    assert!(!contains_str(res.logs[0].command.as_str(), "tok123"));
    assert!(!contains_str(res.logs[0].stderr.as_str(), "tok123"));
    assert!(contains_str(res.logs[0].command.as_str(), "<TOKEN>"));
}

#[test]
fn configured_hook_runs_after_the_env_file() {
    let mut a = args();
    a.on_pull_command = "make reload".to_string();
    let mut run = PullRun::begin(&a, &None, None, Vec::new());
    run.apply(command_log("set-url", true));
    run.apply(command_log("checkout", true));
    run.apply(command_log("pull", true));
    run.record_commit(command_log("log", true), None, None);
    run.record_env(None, Some(".env".to_string()));
    assert_eq!(run.step, PullStep::OnPull);
    // no secrets: the hook command runs as configured, its log untouched
    let cmd = run.hook_plan(50).unwrap();
    assert_eq!(cmd, "make reload");
    let mut hook = command_log("make reload", true);
    hook.stdout = "reloaded".to_string();
    run.record_hook(hook);
    assert_eq!(run.step, PullStep::Done);
    let res = run.finish();
    assert_eq!(res.logs.last().unwrap().stdout, "reloaded");
}

#[test]
fn hook_command_is_expanded_and_its_log_sanitised() {
    let mut a = args();
    a.on_pull_command = "notify [[HOOK_KEY]]".to_string();
    let secrets = vec![VarEntry {
        name: "HOOK_KEY".to_string(),
        value: "s3cret".to_string(),
        secret: true,
    }];
    let core = vec![Replacer {
        value: "corevalue".to_string(),
        placeholder: "<CORE>".to_string(),
    }];
    let mut run = PullRun::begin(&a, &None, Some(secrets), core);
    run.apply(command_log("set-url", true));
    run.apply(command_log("checkout", true));
    run.apply(command_log("pull", true));
    run.record_commit(command_log("log", true), None, None);
    run.record_env(None, Some(".env".to_string()));
    assert_eq!(run.step, PullStep::OnPull);
    let cmd = run.hook_plan(60).unwrap();
    assert_eq!(cmd, "notify s3cret");
    let mut hook = command_log(cmd.as_str(), true);
    hook.stdout = "sent s3cret and corevalue".to_string();
    run.record_hook(hook);
    let res = run.finish();
    let last = res.logs.last().unwrap();
    assert_eq!(last.command, "notify [HOOK_KEY]");
    assert_eq!(last.stdout, "sent [HOOK_KEY] and <CORE>");
    assert!(!contains_str(last.command.as_str(), "s3cret"));
    assert!(!contains_str(last.stdout.as_str(), "s3cret"));
}

#[test]
fn hook_with_unknown_secret_ends_the_pull_with_an_error() {
    let mut a = args();
    a.on_pull_command = "notify [[MISSING]]".to_string();
    let secrets: Vec<VarEntry> = vec![];
    let mut run = PullRun::begin(&a, &None, Some(secrets), Vec::new());
    run.apply(command_log("set-url", true));
    run.apply(command_log("checkout", true));
    run.apply(command_log("pull", true));
    run.record_commit(command_log("log", true), None, None);
    run.record_env(None, Some(".env".to_string()));
    assert_eq!(run.step, PullStep::OnPull);
    assert!(run.hook_plan(70).is_none());
    assert_eq!(run.step, PullStep::Done);
    let res = run.finish();
    assert!(res.env_file_path.is_none());
    let last = res.logs.last().unwrap();
    assert_eq!(last.stage, "interpolate secrets - on_pull");
    assert_eq!(last.stderr, "unknown variable: MISSING");
    assert!(!last.success);
}
