//! The git pull core: single-flight per-working-copy pulls with a
//! hold-off cache, and the pull command sequence itself.
//!
//! Concurrent pulls of one working copy serialise on that path; after a
//! pull completes, further calls within the hold-off answer from the
//! cache without spawning another subprocess. The pull itself runs a
//! fixed command sequence — re-home the remote, force-checkout the
//! branch, rebase-pull, optionally reset to a commit, read the head
//! commit, materialise the env file, run the hook — and any command's
//! failure short-circuits the rest while keeping the logs collected so
//! far. Only the re-home command carries the access token, and its record
//! is returned only after every occurrence of the token is replaced; the
//! hook's command is expanded from the secrets and its record rewritten
//! with the secret and caller replacers before it is kept.

use vstd::prelude::*;

use crate::interpolate::{
    applied_replacers, build_replacers, extend_replacers, first_unknown, interp_ok, interp_text,
    interpolate, replacer_pairs, replacers_from, replacers_wf, used_flags, Replacer, VarEntry,
};
use crate::text::sanitized;
use crate::update::{Log, Timestamp};

verus! {

/// How long after a pull completes the cached result keeps answering.
pub open spec fn pull_hold_off() -> int {
    5000
}

/// What a pull hands back: the logs of the commands run, the head commit
/// when it could be read, and the env file written, if any.
#[derive(Debug)]
pub struct GitRes {
    pub logs: Vec<Log>,
    pub hash: Option<String>,
    pub message: Option<String>,
    pub env_file_path: Option<String>,
}

impl Clone for GitRes {
    /// A clone carries the same result, the logs entry for entry.
    fn clone(&self) -> (res: GitRes)
        ensures
            res.logs@ == self.logs@,
            res.hash == self.hash,
            res.message == self.message,
            res.env_file_path == self.env_file_path,
    {
        GitRes {
            logs: crate::update::clone_logs(&self.logs),
            hash: crate::stack::clone_opt_string(&self.hash),
            message: crate::stack::clone_opt_string(&self.message),
            env_file_path: crate::stack::clone_opt_string(&self.env_file_path),
        }
    }
}

/// One completed pull, cached against its working-copy path.
#[derive(Debug)]
pub struct PullRecord {
    pub res: GitRes,
    pub last_ts: Timestamp,
}

/// The per-path pull cache. Paths are held at most once. The caller
/// serialises pulls of one path; these contracts fix when a call answers
/// from the cache instead of pulling again.
#[derive(Debug)]
pub struct PullCache {
    pub entries: Vec<(String, PullRecord)>,
}

impl PullCache {
    /// Paths are unique.
    pub open spec fn wf(self) -> bool {
        forall|i: int, j: int|
            0 <= i < j < self.entries@.len() ==> self.entries@[i].0@ != self.entries@[j].0@
    }

    /// The record cached for `path`, if any.
    pub open spec fn record_of(self, path: Seq<char>) -> Option<PullRecord> {
        if exists|i: int| 0 <= i < self.entries@.len() && self.entries@[i].0@ == path {
            Some(
                self.entries@[choose|i: int|
                    0 <= i < self.entries@.len() && self.entries@[i].0@ == path].1,
            )
        } else {
            None
        }
    }

    /// A record completed at `last_ts` still answers at `now`.
    pub open spec fn fresh(last_ts: Timestamp, now: Timestamp) -> bool {
        last_ts + pull_hold_off() > now
    }

    /// An empty cache.
    pub fn new() -> (r: PullCache)
        ensures
            r.wf(),
            forall|path: Seq<char>| #[trigger] r.record_of(path) is None,
    {
        PullCache { entries: Vec::new() }
    }

    /// The index holding `path`, if any.
    fn find(&self, path: &String) -> (r: Option<usize>)
        requires
            self.wf(),
        ensures
            match r {
                Some(i) => i < self.entries@.len() && self.entries@[i as int].0@ == path@
                    && self.record_of(path@) == Some(self.entries@[i as int].1),
                None => self.record_of(path@) is None,
            },
    {
        let mut i: usize = 0;
        while i < self.entries.len()
            invariant
                self.wf(),
                i <= self.entries@.len(),
                forall|j: int| 0 <= j < i ==> self.entries@[j].0@ != path@,
            decreases self.entries@.len() - i,
        {
            if crate::text::str_eq(self.entries[i].0.as_str(), path.as_str()) {
                return Some(i);
            }
            i += 1;
        }
        None
    }

    /// What a pull call does first under the path's lock: a record still
    /// within the hold-off answers the call — no command runs — and a
    /// missing or stale record sends the caller on to pull.
    pub fn check(&self, path: &String, now: Timestamp) -> (r: Option<GitRes>)
        requires
            self.wf(),
        ensures
            match r {
                Some(res) => {
                    &&& self.record_of(path@) matches Some(rec)
                    &&& PullCache::fresh(rec.last_ts, now)
                    &&& res.logs@ == rec.res.logs@
                    &&& res.hash == rec.res.hash
                    &&& res.message == rec.res.message
                    &&& res.env_file_path == rec.res.env_file_path
                },
                None => self.record_of(path@) is None || (self.record_of(
                    path@,
                ) matches Some(rec) && !PullCache::fresh(rec.last_ts, now)),
            },
    {
        match self.find(path) {
            Some(i) => {
                let rec = &self.entries[i].1;
                let still_fresh = if now < i64::MIN + 5000 {
                    true
                } else {
                    rec.last_ts > now - 5000
                };
                if still_fresh {
                    Some(rec.res.clone())
                } else {
                    None
                }
            }
            None => None,
        }
    }

    /// Record a completed pull under `path` at `now`. Every other path
    /// is untouched.
    pub fn record(&mut self, path: &String, res: GitRes, now: Timestamp)
        requires
            old(self).wf(),
        ensures
            final(self).wf(),
            final(self).record_of(path@) matches Some(rec) && rec.res == res && rec.last_ts
                == now,
            forall|other: Seq<char>| other != path@
                ==> #[trigger] final(self).record_of(other) == old(self).record_of(other),
    {
        let rec = PullRecord { res, last_ts: now };
        match self.find(path) {
            Some(i) => {
                let k = self.entries[i].0.clone();
                let ghost pre = *self;
                self.entries.set(i, (k, rec));
                proof {
                    lemma_record_update(pre, *self, i as int, path@);
                }
            }
            None => {
                let ghost pre = *self;
                self.entries.push((path.clone(), rec));
                proof {
                    lemma_record_push(pre, *self, path@);
                }
            }
        }
    }
}

/// After replacing the record at `k` (same path), `record_of` reads the
/// new record there and is unchanged elsewhere.
proof fn lemma_record_update(pre: PullCache, post: PullCache, k: int, path: Seq<char>)
    requires
        pre.wf(),
        0 <= k < pre.entries@.len(),
        post.entries@.len() == pre.entries@.len(),
        post.entries@[k].0@ == pre.entries@[k].0@,
        pre.entries@[k].0@ == path,
        forall|i: int| 0 <= i < pre.entries@.len() && i != k
            ==> post.entries@[i] == pre.entries@[i],
    ensures
        post.wf(),
        post.record_of(path) == Some(post.entries@[k].1),
        forall|other: Seq<char>| other != path
            ==> #[trigger] post.record_of(other) == pre.record_of(other),
{
    assert forall|i: int, j: int| 0 <= i < j < post.entries@.len()
        implies post.entries@[i].0@ != post.entries@[j].0@ by {
        assert(pre.entries@[i].0@ != pre.entries@[j].0@);
        assert(post.entries@[i].0@ == pre.entries@[i].0@);
        assert(post.entries@[j].0@ == pre.entries@[j].0@);
    }
    let w = choose|i: int| 0 <= i < post.entries@.len() && post.entries@[i].0@ == path;
    assert(w == k);
    assert forall|other: Seq<char>| other != path
        implies #[trigger] post.record_of(other) == pre.record_of(other) by {
        if exists|i: int| 0 <= i < pre.entries@.len() && pre.entries@[i].0@ == other {
            let i = choose|i: int| 0 <= i < pre.entries@.len() && pre.entries@[i].0@ == other;
            assert(i != k);
            assert(post.entries@[i].0@ == other);
            let j = choose|j: int| 0 <= j < post.entries@.len() && post.entries@[j].0@ == other;
            assert(j == i || post.entries@[j].0@ != post.entries@[i].0@);
            assert(post.record_of(other) == Some(post.entries@[i].1));
            assert(pre.record_of(other) == Some(pre.entries@[i].1));
        } else {
            assert(forall|i: int|
                0 <= i < post.entries@.len() ==> #[trigger] post.entries@[i].0@ != other);
        }
    }
}

/// After pushing a fresh path, `record_of` reads the pushed record there
/// and is unchanged elsewhere.
proof fn lemma_record_push(pre: PullCache, post: PullCache, path: Seq<char>)
    requires
        pre.wf(),
        forall|i: int| 0 <= i < pre.entries@.len() ==> pre.entries@[i].0@ != path,
        post.entries@ == pre.entries@.push(post.entries@.last()),
        post.entries@.last().0@ == path,
    ensures
        post.wf(),
        post.record_of(path) == Some(post.entries@.last().1),
        forall|other: Seq<char>| other != path
            ==> #[trigger] post.record_of(other) == pre.record_of(other),
{
    let n = pre.entries@.len() as int;
    assert forall|i: int, j: int| 0 <= i < j < post.entries@.len()
        implies post.entries@[i].0@ != post.entries@[j].0@ by {
        if j < n {
            assert(pre.entries@[i].0@ != pre.entries@[j].0@);
        } else {
            assert(post.entries@[j].0@ == path);
            assert(post.entries@[i] == pre.entries@[i]);
        }
    }
    assert(post.entries@[n].0@ == path);
    let w = choose|i: int| 0 <= i < post.entries@.len() && post.entries@[i].0@ == path;
    assert(w == n);
    assert forall|other: Seq<char>| other != path
        implies #[trigger] post.record_of(other) == pre.record_of(other) by {
        if exists|i: int| 0 <= i < pre.entries@.len() && pre.entries@[i].0@ == other {
            let i = choose|i: int| 0 <= i < pre.entries@.len() && pre.entries@[i].0@ == other;
            assert(post.entries@[i].0@ == other);
            let j = choose|j: int| 0 <= j < post.entries@.len() && post.entries@[j].0@ == other;
            assert(post.record_of(other) == Some(post.entries@[i].1));
            assert(pre.record_of(other) == Some(pre.entries@[i].1));
        } else {
            assert(forall|i: int|
                0 <= i < post.entries@.len() ==> #[trigger] post.entries@[i].0@ != other);
        }
    }
}

/// Single flight with hold-off: a record completed at `t0` is fresh at
/// exactly the instants before the hold-off elapses. By `check`'s
/// contract, every pull call on the path in that window answers with the
/// recorded result and spawns no further command; the first call at or
/// after the boundary pulls again.
pub proof fn lemma_pull_single_flight(t0: Timestamp)
    ensures
        forall|t: Timestamp| #[trigger] PullCache::fresh(t0, t) <==> t < t0 + pull_hold_off(),
{
}

/// Where a clone points: provider host, account, repo, branch, optional
/// pinned commit, optional post-pull hook command.
#[derive(Debug)]
pub struct CloneArgs {
    pub provider: String,
    pub repo: String,
    pub branch: String,
    pub commit: Option<String>,
    pub https: bool,
    pub on_pull_path: String,
    pub on_pull_command: String,
}

/// The remote url a pull re-homes origin to: the scheme, the access
/// token (when one is given) before an `@`, the provider host, and the
/// repo path.
pub open spec fn spec_remote_url(
    provider: Seq<char>,
    repo: Seq<char>,
    https: bool,
    token: Option<Seq<char>>,
) -> Seq<char> {
    (if https {
        "https://"@
    } else {
        "http://"@
    }) + (match token {
        Option::Some(t) => t + "@"@,
        Option::None => Seq::empty(),
    }) + provider + "/"@ + repo + ".git"@
}

/// Builds the remote url.
pub fn remote_url(args: &CloneArgs, token: &Option<String>) -> (r: String)
    ensures
        r@ == spec_remote_url(
            args.provider@,
            args.repo@,
            args.https,
            match token {
                Option::Some(t) => Option::Some(t@),
                Option::None => Option::None,
            },
        ),
{
    let mut out = String::new();
    if args.https {
        out.append("https://");
    } else {
        out.append("http://");
    }
    match token {
        Option::Some(t) => {
            out.append(t.as_str());
            out.append("@");
        }
        Option::None => {}
    }
    out.append(args.provider.as_str());
    out.append("/");
    out.append(args.repo.as_str());
    out.append(".git");
    proof {
        assert(out@ =~= spec_remote_url(
            args.provider@,
            args.repo@,
            args.https,
            match token {
                Option::Some(t) => Option::Some(t@),
                Option::None => Option::None,
            },
        ));
    }
    out
}

/// Where a pull stands in its command sequence.
#[derive(Clone, Copy, PartialEq, Eq, Structural, Debug)]
pub enum PullStep {
    SetRemote,
    Checkout,
    PullBranch,
    ResetCommit,
    ReadCommit,
    WriteEnv,
    OnPull,
    Done,
}

/// A pull in flight: the fixed sequence of commands over one working
/// copy, the logs collected so far, and what has been learned. The
/// caller runs each command this machine hands out and feeds the
/// resulting log back in.
#[derive(Debug)]
pub struct PullRun {
    pub branch: String,
    pub commit: Option<String>,
    pub on_pull_command: String,
    pub url: String,
    pub token: Option<String>,
    pub secrets: Option<Vec<VarEntry>>,
    pub core_replacers: Vec<Replacer>,
    pub hook_replacers: Vec<Replacer>,
    pub step: PullStep,
    pub logs: Vec<Log>,
    pub hash: Option<String>,
    pub message: Option<String>,
    pub env_file_path: Option<String>,
}

impl PullRun {
    /// Start a pull: re-home the remote first; nothing learned yet. The
    /// secrets, when given, later expand the hook command and sanitise
    /// its log together with the caller's own replacers; no secrets means
    /// the hook runs and logs as configured.
    pub fn begin(
        args: &CloneArgs,
        token: &Option<String>,
        secrets: Option<Vec<VarEntry>>,
        core_replacers: Vec<Replacer>,
    ) -> (r: PullRun)
        ensures
            r.step == PullStep::SetRemote,
            r.logs@ == Seq::<Log>::empty(),
            r.hash is None,
            r.message is None,
            r.env_file_path is None,
            r.branch == args.branch,
            r.commit == args.commit,
            r.on_pull_command == args.on_pull_command,
            r.url@ == spec_remote_url(
                args.provider@,
                args.repo@,
                args.https,
                match token {
                    Option::Some(t) => Option::Some(t@),
                    Option::None => Option::None,
                },
            ),
            r.token == *token,
            r.secrets == secrets,
            r.core_replacers == core_replacers,
            r.hook_replacers@ == Seq::<Replacer>::empty(),
    {
        PullRun {
            branch: args.branch.clone(),
            commit: crate::stack::clone_opt_string(&args.commit),
            on_pull_command: args.on_pull_command.clone(),
            url: remote_url(args, token),
            token: crate::stack::clone_opt_string(token),
            secrets,
            core_replacers,
            hook_replacers: Vec::new(),
            step: PullStep::SetRemote,
            logs: Vec::new(),
            hash: None,
            message: None,
            env_file_path: None,
        }
    }

    /// The shell command for the current git step: re-home, checkout,
    /// rebase-pull, or reset. The hook's command comes from `hook_plan`,
    /// which expands it first.
    pub fn current_command(&self) -> (r: Option<String>)
        ensures
            self.step == PullStep::SetRemote ==> (r matches Some(c) && c@
                == "git remote set-url origin "@ + self.url@),
            self.step == PullStep::Checkout ==> (r matches Some(c) && c@ == "git checkout -f "@
                + self.branch@),
            self.step == PullStep::PullBranch ==> (r matches Some(c) && c@
                == "git pull --rebase --force origin "@ + self.branch@),
            self.step == PullStep::ResetCommit && self.commit is Some ==> (r matches Some(c)
                && c@ == "git reset --hard "@ + self.commit->Some_0@),
            self.step == PullStep::ReadCommit || self.step == PullStep::WriteEnv || self.step
                == PullStep::OnPull || self.step == PullStep::Done ==> r is None,
    {
        match self.step {
            PullStep::SetRemote => {
                let mut c = String::new();
                c.append("git remote set-url origin ");
                c.append(self.url.as_str());
                Some(c)
            }
            PullStep::Checkout => {
                let mut c = String::new();
                c.append("git checkout -f ");
                c.append(self.branch.as_str());
                Some(c)
            }
            PullStep::PullBranch => {
                let mut c = String::new();
                c.append("git pull --rebase --force origin ");
                c.append(self.branch.as_str());
                Some(c)
            }
            PullStep::ResetCommit => {
                match &self.commit {
                    Option::Some(commit) => {
                        let mut c = String::new();
                        c.append("git reset --hard ");
                        c.append(commit.as_str());
                        Some(c)
                    }
                    Option::None => None,
                }
            }
            PullStep::OnPull => None,
            PullStep::ReadCommit => None,
            PullStep::WriteEnv => None,
            PullStep::Done => None,
        }
    }

    /// Feed back the log of the git command just run. A failed re-home or
    /// checkout ends the pull with that log alone — the re-home log with
    /// every occurrence of the access token replaced first — and no
    /// commit; a failed rebase-pull keeps the logs so far and ends with
    /// no commit; a reset's log is kept and the pull goes on either way.
    pub fn apply(&mut self, log: Log)
        requires
            old(self).step == PullStep::SetRemote || old(self).step == PullStep::Checkout
                || old(self).step == PullStep::PullBranch || old(self).step
                == PullStep::ResetCommit,
        ensures
            final(self).branch == old(self).branch,
            final(self).commit == old(self).commit,
            final(self).on_pull_command == old(self).on_pull_command,
            final(self).url == old(self).url,
            final(self).token == old(self).token,
            final(self).secrets == old(self).secrets,
            final(self).core_replacers == old(self).core_replacers,
            final(self).env_file_path == old(self).env_file_path,
            old(self).step == PullStep::SetRemote && log.success ==> final(self).step
                == PullStep::Checkout && final(self).logs@ == old(self).logs@
                && final(self).hash == old(self).hash
                && final(self).message == old(self).message,
            old(self).step == PullStep::SetRemote && !log.success ==> {
                &&& final(self).step == PullStep::Done
                &&& final(self).hash is None
                &&& final(self).message is None
                &&& final(self).logs@.len() == old(self).logs@.len() + 1
                &&& (old(self).token is Some && old(self).token->Some_0@.len() > 0 ==> {
                    let t = old(self).token->Some_0@;
                    let last = final(self).logs@.last();
                    &&& last.command@ == sanitized(log.command@, t, "<TOKEN>"@)
                    &&& last.stdout@ == sanitized(log.stdout@, t, "<TOKEN>"@)
                    &&& last.stderr@ == sanitized(log.stderr@, t, "<TOKEN>"@)
                })
                &&& (old(self).token is None ==> final(self).logs@.last() == log)
            },
            old(self).step == PullStep::Checkout ==> final(self).hash == old(self).hash
                && final(self).message == old(self).message,
            old(self).step == PullStep::Checkout && log.success ==> final(self).step
                == PullStep::PullBranch && final(self).logs@ == old(self).logs@,
            old(self).step == PullStep::Checkout && !log.success ==> final(self).step
                == PullStep::Done && final(self).logs@ == old(self).logs@.push(log),
            old(self).step == PullStep::PullBranch ==> final(self).logs@
                == old(self).logs@.push(log) && final(self).hash == old(self).hash
                && final(self).message == old(self).message,
            old(self).step == PullStep::PullBranch && log.success ==> final(self).step == (
            if old(self).commit is Some {
                PullStep::ResetCommit
            } else {
                PullStep::ReadCommit
            }),
            old(self).step == PullStep::PullBranch && !log.success ==> final(self).step
                == PullStep::Done,
            old(self).step == PullStep::ResetCommit ==> final(self).step == PullStep::ReadCommit
                && final(self).logs@ == old(self).logs@.push(log)
                && final(self).hash == old(self).hash
                && final(self).message == old(self).message,
    {
        match self.step {
            PullStep::SetRemote => {
                if log.success {
                    self.step = PullStep::Checkout;
                } else {
                    let scrubbed = match &self.token {
                        Option::Some(t) => {
                            if t.as_str().unicode_len() > 0 {
                                Log {
                                    stage: log.stage,
                                    command: crate::text::replace_all(
                                        log.command.as_str(),
                                        t.as_str(),
                                        "<TOKEN>",
                                    ),
                                    stdout: crate::text::replace_all(
                                        log.stdout.as_str(),
                                        t.as_str(),
                                        "<TOKEN>",
                                    ),
                                    stderr: crate::text::replace_all(
                                        log.stderr.as_str(),
                                        t.as_str(),
                                        "<TOKEN>",
                                    ),
                                    success: log.success,
                                    start_ts: log.start_ts,
                                    end_ts: log.end_ts,
                                }
                            } else {
                                log
                            }
                        }
                        Option::None => log,
                    };
                    self.logs.push(scrubbed);
                    self.hash = None;
                    self.message = None;
                    self.step = PullStep::Done;
                }
            }
            PullStep::Checkout => {
                if log.success {
                    self.step = PullStep::PullBranch;
                } else {
                    self.logs.push(log);
                    self.step = PullStep::Done;
                }
            }
            PullStep::PullBranch => {
                let ok = log.success;
                self.logs.push(log);
                if ok {
                    if self.commit.is_some() {
                        self.step = PullStep::ResetCommit;
                    } else {
                        self.step = PullStep::ReadCommit;
                    }
                } else {
                    self.step = PullStep::Done;
                }
            }
            PullStep::ResetCommit => {
                self.logs.push(log);
                self.step = PullStep::ReadCommit;
            }
            PullStep::OnPull => {}
            PullStep::ReadCommit => {}
            PullStep::WriteEnv => {}
            PullStep::Done => {}
        }
    }

    /// Record the head commit read after the pull: its log is kept and
    /// the hash and subject, when they could be read, are noted. Next the
    /// env file is materialised.
    pub fn record_commit(&mut self, log: Log, hash: Option<String>, message: Option<String>)
        requires
            old(self).step == PullStep::ReadCommit,
        ensures
            final(self).step == PullStep::WriteEnv,
            final(self).logs@ == old(self).logs@.push(log),
            final(self).hash == hash,
            final(self).message == message,
            final(self).env_file_path == old(self).env_file_path,
            final(self).on_pull_command == old(self).on_pull_command,
            final(self).token == old(self).token,
            final(self).secrets == old(self).secrets,
            final(self).core_replacers == old(self).core_replacers,
    {
        self.logs.push(log);
        self.hash = hash;
        self.message = message;
        self.step = PullStep::WriteEnv;
    }

    /// Record the env-file write: its log, when one was produced, is
    /// kept. A failed write ends the pull with no env file; after a
    /// successful write the hook runs, when one is configured, else the
    /// pull is done.
    pub fn record_env(&mut self, log: Option<Log>, path: Option<String>)
        requires
            old(self).step == PullStep::WriteEnv,
        ensures
            final(self).env_file_path == path,
            final(self).hash == old(self).hash,
            final(self).message == old(self).message,
            final(self).on_pull_command == old(self).on_pull_command,
            final(self).secrets == old(self).secrets,
            final(self).core_replacers == old(self).core_replacers,
            final(self).logs@ == (match log {
                Option::Some(l) => old(self).logs@.push(l),
                Option::None => old(self).logs@,
            }),
            path is None ==> final(self).step == PullStep::Done,
            path is Some && old(self).on_pull_command@.len() > 0 ==> final(self).step
                == PullStep::OnPull,
            path is Some && old(self).on_pull_command@.len() == 0 ==> final(self).step
                == PullStep::Done,
    {
        match log {
            Option::Some(l) => self.logs.push(l),
            Option::None => {}
        }
        match &path {
            Option::Some(_) => {
                if self.on_pull_command.as_str().unicode_len() > 0 {
                    self.step = PullStep::OnPull;
                } else {
                    self.step = PullStep::Done;
                }
            }
            Option::None => {
                self.step = PullStep::Done;
            }
        }
        self.env_file_path = path;
    }

    /// Plan the hook: expand its command with the secrets and arm the
    /// sanitising replacers the hook's log will be rewritten with — the
    /// secret replacers of the expansion extended by the caller's core
    /// replacers. With no secrets map the command runs as configured and
    /// nothing is rewritten. A hook command naming an unknown secret ends
    /// the pull with an error log and no env file.
    pub fn hook_plan(&mut self, now: Timestamp) -> (r: Option<String>)
        requires
            old(self).step == PullStep::OnPull,
            old(self).secrets is Some ==> forall|k: int|
                0 <= k < old(self).secrets->Some_0@.len()
                    ==> (#[trigger] old(self).secrets->Some_0@[k]).value@.len() >= 1,
            forall|k: int|
                0 <= k < old(self).core_replacers@.len()
                    ==> (#[trigger] old(self).core_replacers@[k]).value@.len() >= 1,
        ensures
            final(self).branch == old(self).branch,
            final(self).commit == old(self).commit,
            final(self).on_pull_command == old(self).on_pull_command,
            final(self).url == old(self).url,
            final(self).token == old(self).token,
            final(self).secrets == old(self).secrets,
            final(self).core_replacers == old(self).core_replacers,
            final(self).hash == old(self).hash,
            final(self).message == old(self).message,
            old(self).secrets is None ==> {
                &&& r matches Some(c) && c == old(self).on_pull_command
                &&& final(self).step == PullStep::OnPull
                &&& final(self).logs@ == old(self).logs@
                &&& final(self).env_file_path == old(self).env_file_path
                &&& replacer_pairs(final(self).hook_replacers@) == Seq::<(
                    Seq<char>,
                    Seq<char>,
                )>::empty()
                &&& replacers_wf(replacer_pairs(final(self).hook_replacers@))
            },
            old(self).secrets is Some && interp_ok(
                old(self).on_pull_command@,
                old(self).secrets->Some_0@,
            ) ==> {
                let sec = old(self).secrets->Some_0@;
                &&& r matches Some(c) && c@ == interp_text(old(self).on_pull_command@, sec)
                &&& final(self).step == PullStep::OnPull
                &&& final(self).logs@ == old(self).logs@
                &&& final(self).env_file_path == old(self).env_file_path
                &&& replacer_pairs(final(self).hook_replacers@) == replacers_from(
                    sec,
                    used_flags(old(self).on_pull_command@, sec),
                    true,
                    0,
                ) + replacer_pairs(old(self).core_replacers@)
                &&& replacers_wf(replacer_pairs(final(self).hook_replacers@))
            },
            old(self).secrets is Some && !interp_ok(
                old(self).on_pull_command@,
                old(self).secrets->Some_0@,
            ) ==> {
                let sec = old(self).secrets->Some_0@;
                &&& r is None
                &&& final(self).step == PullStep::Done
                &&& final(self).env_file_path is None
                &&& final(self).logs@.len() == old(self).logs@.len() + 1
                &&& final(self).logs@.subrange(0, old(self).logs@.len() as int) == old(
                    self,
                ).logs@
                &&& final(self).logs@.last().stage@ == "interpolate secrets - on_pull"@
                &&& !final(self).logs@.last().success
                &&& final(self).logs@.last().stderr@ == "unknown variable: "@ + first_unknown(
                    old(self).on_pull_command@,
                    sec,
                )
            },
    {
        let mut planned: Option<String> = None;
        let mut reps: Vec<Replacer> = Vec::new();
        let mut bad: Option<String> = None;
        let ghost mut secret_pairs: Seq<(Seq<char>, Seq<char>)> = Seq::empty();
        match &self.secrets {
            Option::None => {
                planned = Some(self.on_pull_command.clone());
            }
            Option::Some(sec) => {
                match interpolate(self.on_pull_command.as_str(), sec) {
                    Ok((expanded, used)) => {
                        proof {
                            assert(used@ =~= used_flags(self.on_pull_command@, sec@));
                        }
                        reps = build_replacers(sec, &used, true);
                        proof {
                            secret_pairs = replacer_pairs(reps@);
                        }
                        planned = Some(expanded);
                    }
                    Err(e) => {
                        bad = Some(e.name);
                    }
                }
            }
        }
        match bad {
            Option::Some(name) => {
                let mut msg = String::new();
                msg.append("unknown variable: ");
                msg.append(name.as_str());
                let ghost prior = self.logs@;
                self.logs.push(Log::error("interpolate secrets - on_pull", msg, now));
                self.env_file_path = None;
                self.step = PullStep::Done;
                proof {
                    assert(self.logs@.subrange(0, prior.len() as int) =~= prior);
                }
                return None;
            }
            Option::None => {}
        }
        if self.secrets.is_some() {
            extend_replacers(&mut reps, &self.core_replacers);
            proof {
                assert(replacer_pairs(reps@) =~= secret_pairs + replacer_pairs(
                    self.core_replacers@,
                ));
            }
        }
        let ghost pairs = replacer_pairs(reps@);
        proof {
            if self.secrets is Some {
                let sec = self.secrets->Some_0@;
                assert forall|j: int| 0 <= j < pairs.len() implies (
                #[trigger] pairs[j]).0.len() >= 1 by {
                    let base = replacers_from(
                        sec,
                        used_flags(self.on_pull_command@, sec),
                        true,
                        0,
                    );
                    if j < base.len() {
                        crate::interpolate::lemma_replacers_from_shape(
                            sec,
                            used_flags(self.on_pull_command@, sec),
                            true,
                            0,
                            j,
                        );
                    } else {
                        assert(pairs[j] == replacer_pairs(self.core_replacers@)[j
                            - base.len()]);
                    }
                }
            } else {
                assert(pairs =~= Seq::<(Seq<char>, Seq<char>)>::empty());
            }
        }
        self.hook_replacers = reps;
        planned
    }

    /// Record the hook's log: it is stored sanitised, every field
    /// rewritten with the armed replacers — secret values and the
    /// caller's own substitutions never reach the returned logs — and the
    /// pull is done.
    pub fn record_hook(&mut self, log: Log)
        requires
            old(self).step == PullStep::OnPull,
            replacers_wf(replacer_pairs(old(self).hook_replacers@)),
        ensures
            final(self).step == PullStep::Done,
            final(self).hash == old(self).hash,
            final(self).message == old(self).message,
            final(self).env_file_path == old(self).env_file_path,
            final(self).logs@.len() == old(self).logs@.len() + 1,
            final(self).logs@.subrange(0, old(self).logs@.len() as int) == old(self).logs@,
            ({
                let scrubbed = final(self).logs@.last();
                let pairs = replacer_pairs(old(self).hook_replacers@);
                &&& scrubbed.stage == log.stage
                &&& scrubbed.command@ == applied_replacers(log.command@, pairs)
                &&& scrubbed.stdout@ == applied_replacers(log.stdout@, pairs)
                &&& scrubbed.stderr@ == applied_replacers(log.stderr@, pairs)
                &&& scrubbed.success == log.success
                &&& scrubbed.start_ts == log.start_ts
                &&& scrubbed.end_ts == log.end_ts
            }),
    {
        let scrubbed = Log {
            stage: log.stage,
            command: crate::interpolate::apply_replacers(
                log.command.as_str(),
                &self.hook_replacers,
            ),
            stdout: crate::interpolate::apply_replacers(
                log.stdout.as_str(),
                &self.hook_replacers,
            ),
            stderr: crate::interpolate::apply_replacers(
                log.stderr.as_str(),
                &self.hook_replacers,
            ),
            success: log.success,
            start_ts: log.start_ts,
            end_ts: log.end_ts,
        };
        let ghost prior = self.logs@;
        self.logs.push(scrubbed);
        self.step = PullStep::Done;
        proof {
            assert(self.logs@.subrange(0, prior.len() as int) =~= prior);
        }
    }

    /// The finished pull's result.
    pub fn finish(self) -> (r: GitRes)
        requires
            self.step == PullStep::Done,
        ensures
            r.logs@ == self.logs@,
            r.hash == self.hash,
            r.message == self.message,
            r.env_file_path == self.env_file_path,
    {
        GitRes {
            logs: self.logs,
            hash: self.hash,
            message: self.message,
            env_file_path: self.env_file_path,
        }
    }
}

} // verus!
