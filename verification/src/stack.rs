//! Stacks: compose-based deployable units, and the bookkeeping of a
//! deploy.
//!
//! A deploy sends the stack's (interpolated) config to the target host's
//! agent and merges the response into the stack's cached info: on success
//! the `deployed_*` fields advance to what was just deployed; on failure
//! they stay exactly what they were. Deploy-if-changed first diffs the
//! deployed compose files against the freshly fetched remote ones and
//! cancels when nothing differs.

use vstd::prelude::*;

use crate::interpolate::{
    first_unknown, interp_ok, interp_text, interp_used, interpolate, UnknownVarError, VarEntry,
};
use crate::update::{Log, Timestamp, Update, UpdateStatus};

verus! {

/// One compose file: its path inside the working copy and its text.
#[derive(Debug)]
pub struct FileContents {
    pub path: String,
    pub contents: String,
}

impl Clone for FileContents {
    /// A clone holds the same path and text.
    fn clone(&self) -> (res: FileContents)
        ensures
            res == *self,
    {
        FileContents { path: self.path.clone(), contents: self.contents.clone() }
    }
}

/// A command run in a directory of the working copy.
#[derive(Debug)]
pub struct SystemCommand {
    pub path: String,
    pub command: String,
}

impl Clone for SystemCommand {
    /// A clone holds the same path and command.
    fn clone(&self) -> (res: SystemCommand)
        ensures
            res == *self,
    {
        SystemCommand { path: self.path.clone(), command: self.command.clone() }
    }
}

/// One service of a deployed stack: the compose service name and the
/// container it runs as.
#[derive(Debug)]
pub struct StackService {
    pub service_name: String,
    pub container_name: String,
}

impl Clone for StackService {
    /// A clone names the same service and container.
    fn clone(&self) -> (res: StackService)
        ensures
            res == *self,
    {
        StackService {
            service_name: self.service_name.clone(),
            container_name: self.container_name.clone(),
        }
    }
}

/// The view of an optional list: the sequence it holds, if any.
pub open spec fn opt_seq<T>(o: Option<Vec<T>>) -> Option<Seq<T>> {
    match o {
        Option::None => Option::None,
        Option::Some(v) => Option::Some(v@),
    }
}

/// Clones a compose-file list, entry for entry.
pub fn clone_files(v: &Vec<FileContents>) -> (r: Vec<FileContents>)
    ensures
        r@ == v@,
{
    let r = v.clone();
    proof {
        assert forall|i: int| 0 <= i < v@.len() implies r@[i] == v@[i] by {
            assert(vstd::pervasive::cloned::<FileContents>(v@[i], r@[i]));
        }
        assert(r@ =~= v@);
    }
    r
}

/// Clones a service list, entry for entry.
pub fn clone_services(v: &Vec<StackService>) -> (r: Vec<StackService>)
    ensures
        r@ == v@,
{
    let r = v.clone();
    proof {
        assert forall|i: int| 0 <= i < v@.len() implies r@[i] == v@[i] by {
            assert(vstd::pervasive::cloned::<StackService>(v@[i], r@[i]));
        }
        assert(r@ =~= v@);
    }
    r
}

/// Clones a string list, entry for entry.
pub fn clone_strings(v: &Vec<String>) -> (r: Vec<String>)
    ensures
        r@ == v@,
{
    let r = v.clone();
    proof {
        assert forall|i: int| 0 <= i < v@.len() implies r@[i] == v@[i] by {
            assert(vstd::pervasive::cloned::<String>(v@[i], r@[i]));
        }
        assert(r@ =~= v@);
    }
    r
}

/// Clones an optional string.
pub fn clone_opt_string(o: &Option<String>) -> (r: Option<String>)
    ensures
        r == *o,
{
    match o {
        Option::None => Option::None,
        Option::Some(s) => Option::Some(s.clone()),
    }
}

/// Clones an optional compose-file list; the views agree.
pub fn clone_opt_files(o: &Option<Vec<FileContents>>) -> (r: Option<Vec<FileContents>>)
    ensures
        opt_seq(r) == opt_seq(*o),
{
    match o {
        Option::None => Option::None,
        Option::Some(v) => Option::Some(clone_files(v)),
    }
}

/// Clones an optional service list; the views agree.
pub fn clone_opt_services(o: &Option<Vec<StackService>>) -> (r: Option<Vec<StackService>>)
    ensures
        opt_seq(r) == opt_seq(*o),
{
    match o {
        Option::None => Option::None,
        Option::Some(v) => Option::Some(clone_services(v)),
    }
}

/// A stack's configuration: inline compose text or a git source, the
/// target server, and the text slots interpolation expands.
#[derive(Debug)]
pub struct StackConfig {
    pub server_id: String,
    pub file_contents: String,
    pub environment: String,
    pub extra_args: Vec<String>,
    pub build_extra_args: Vec<String>,
    pub pre_deploy: SystemCommand,
    pub git_provider: String,
    pub git_account: String,
    pub git_https: bool,
    pub repo: String,
    pub branch: String,
    pub registry_provider: String,
    pub registry_account: String,
    pub skip_secret_interp: bool,
    pub project_name: String,
}

/// A stack's cached info: what was last deployed and what the remote
/// currently holds.
#[derive(Debug)]
pub struct StackInfo {
    pub missing_files: Vec<String>,
    pub deployed_project_name: Option<String>,
    pub deployed_services: Option<Vec<StackService>>,
    pub deployed_contents: Option<Vec<FileContents>>,
    pub deployed_hash: Option<String>,
    pub deployed_message: Option<String>,
    pub latest_services: Vec<StackService>,
    pub remote_contents: Option<Vec<FileContents>>,
    pub remote_errors: Option<Vec<FileContents>>,
    pub latest_hash: Option<String>,
    pub latest_message: Option<String>,
}

/// A stack resource.
#[derive(Debug)]
pub struct Stack {
    pub id: String,
    pub name: String,
    pub tags: Vec<String>,
    pub config: StackConfig,
    pub info: StackInfo,
}

/// What the agent reports back from a compose up.
#[derive(Debug)]
pub struct ComposeUpResponse {
    pub logs: Vec<Log>,
    pub deployed: bool,
    pub services: Vec<StackService>,
    pub file_contents: Vec<FileContents>,
    pub missing_files: Vec<String>,
    pub remote_errors: Vec<FileContents>,
    pub commit_hash: Option<String>,
    pub commit_message: Option<String>,
}

impl Stack {
    /// The compose project name this stack deploys under: the configured
    /// override when one is set, the stack's own name otherwise.
    pub open spec fn spec_project_name(self) -> Seq<char> {
        if self.config.project_name@.len() > 0 {
            self.config.project_name@
        } else {
            self.name@
        }
    }

    /// The compose project name, decided executably.
    pub fn project_name(&self) -> (r: String)
        ensures
            r@ == self.spec_project_name(),
    {
        if self.config.project_name.as_str().unicode_len() > 0 {
            self.config.project_name.clone()
        } else {
            self.name.clone()
        }
    }
}

/// The paths of a list of compose files, in order.
pub open spec fn paths_of(files: Seq<FileContents>) -> Seq<Seq<char>> {
    files.map_values(|f: FileContents| f.path@)
}

/// Merge a compose-up response into the stack's info. On a deploy the
/// `deployed_*` fields advance to exactly what was deployed; otherwise
/// they keep their pre-operation values. Remote contents and errors are
/// recorded only for a git-sourced stack (inline compose empty).
pub fn apply_compose_up(stack: &Stack, resp: &ComposeUpResponse) -> (info: StackInfo)
    ensures
        info.latest_services@ == if resp.services@.len() == 0 {
            stack.info.latest_services@
        } else {
            resp.services@
        },
        resp.deployed ==> {
            &&& opt_seq(info.deployed_services) == Some(info.latest_services@)
            &&& opt_seq(info.deployed_contents) == Some(resp.file_contents@)
            &&& info.deployed_hash == resp.commit_hash
            &&& info.deployed_message == resp.commit_message
        },
        !resp.deployed ==> {
            &&& opt_seq(info.deployed_services) == opt_seq(stack.info.deployed_services)
            &&& opt_seq(info.deployed_contents) == opt_seq(stack.info.deployed_contents)
            &&& info.deployed_hash == stack.info.deployed_hash
            &&& info.deployed_message == stack.info.deployed_message
        },
        stack.config.file_contents@.len() == 0 ==> {
            &&& opt_seq(info.remote_contents) == Some(resp.file_contents@)
            &&& opt_seq(info.remote_errors) == Some(resp.remote_errors@)
        },
        stack.config.file_contents@.len() > 0 ==> info.remote_contents is None
            && info.remote_errors is None,
        info.latest_hash == resp.commit_hash,
        info.latest_message == resp.commit_message,
        info.missing_files@ == resp.missing_files@,
        info.deployed_project_name matches Some(p) && p@ == stack.spec_project_name(),
{
    let latest_services = if resp.services.len() == 0 {
        clone_services(&stack.info.latest_services)
    } else {
        clone_services(&resp.services)
    };
    let (deployed_services, deployed_contents, deployed_hash, deployed_message) = if resp
        .deployed {
        (
            Some(clone_services(&latest_services)),
            Some(clone_files(&resp.file_contents)),
            clone_opt_string(&resp.commit_hash),
            clone_opt_string(&resp.commit_message),
        )
    } else {
        (
            clone_opt_services(&stack.info.deployed_services),
            clone_opt_files(&stack.info.deployed_contents),
            clone_opt_string(&stack.info.deployed_hash),
            clone_opt_string(&stack.info.deployed_message),
        )
    };
    let git_sourced = stack.config.file_contents.as_str().unicode_len() == 0;
    StackInfo {
        missing_files: clone_strings(&resp.missing_files),
        deployed_project_name: Some(stack.project_name()),
        deployed_services,
        deployed_contents,
        deployed_hash,
        deployed_message,
        latest_services,
        remote_contents: if git_sourced {
            Some(clone_files(&resp.file_contents))
        } else {
            None
        },
        remote_errors: if git_sourced {
            Some(clone_files(&resp.remote_errors))
        } else {
            None
        },
        latest_hash: clone_opt_string(&resp.commit_hash),
        latest_message: clone_opt_string(&resp.commit_message),
    }
}

/// On success the deployed paths are exactly the paths the agent
/// reported: the merge stores the reported files unchanged, so their
/// paths agree; on failure the merge keeps the pre-operation fields.
pub proof fn lemma_deploy_advances_paths(resp: ComposeUpResponse, info: StackInfo)
    requires
        resp.deployed,
        opt_seq(info.deployed_contents) == Some(resp.file_contents@),
    ensures
        info.deployed_contents is Some,
        paths_of(info.deployed_contents->Some_0@) == paths_of(resp.file_contents@),
{
}

/// What the deployed hash is after merging a response over a previous
/// one: a deploy advances it to the response's commit hash, anything
/// else keeps it.
pub open spec fn deployed_hash_after(
    prev: Option<String>,
    resp: ComposeUpResponse,
) -> Option<String> {
    if resp.deployed {
        resp.commit_hash
    } else {
        prev
    }
}

/// Deploying twice with the same successful response is idempotent on
/// the deployed hash: whatever was deployed before, after the second
/// deploy the hash is that response's commit hash.
pub proof fn lemma_deploy_twice_hash(prev: Option<String>, resp: ComposeUpResponse)
    requires
        resp.deployed,
    ensures
        deployed_hash_after(deployed_hash_after(prev, resp), resp) == resp.commit_hash,
        deployed_hash_after(deployed_hash_after(prev, resp), resp) == deployed_hash_after(
            prev,
            resp,
        ),
{
}

/// Index of the first file of `files` at `path`, or -1.
pub open spec fn first_at_path(files: Seq<FileContents>, path: Seq<char>) -> int
    decreases files.len(),
{
    if files.len() == 0 {
        -1
    } else if files[0].path@ == path {
        0
    } else {
        let r = first_at_path(files.skip(1), path);
        if r < 0 {
            -1
        } else {
            r + 1
        }
    }
}

/// A remote file differs from what was deployed: no deployed file shares
/// its path, or the first one that does holds different contents.
pub open spec fn file_differs(deployed: Seq<FileContents>, latest: FileContents) -> bool {
    let f = first_at_path(deployed, latest.path@);
    f < 0 || deployed[f].contents@ != latest.contents@
}

/// The deploy-if-changed rule: nothing was ever deployed, or some freshly
/// fetched remote file differs from its deployed counterpart. A stack with
/// no fetched remote contents counts as unchanged.
pub open spec fn spec_changed(
    deployed: Option<Vec<FileContents>>,
    remote: Option<Vec<FileContents>>,
) -> bool {
    match (deployed, remote) {
        (Some(d), Some(r)) => exists|i: int|
            0 <= i < r@.len() && file_differs(d@, #[trigger] r@[i]),
        (None, _) => true,
        (Some(_), None) => false,
    }
}

/// The found index is in range and holds the path.
proof fn lemma_first_at_path_valid(files: Seq<FileContents>, path: Seq<char>)
    ensures
        first_at_path(files, path) >= 0 ==> first_at_path(files, path) < files.len()
            && files[first_at_path(files, path)].path@ == path,
    decreases files.len(),
{
    if files.len() > 0 && files[0].path@ != path {
        lemma_first_at_path_valid(files.skip(1), path);
    }
}

/// A path matching no file up to `idx` and matching at `idx` is found
/// there; one matching nowhere is not found.
proof fn lemma_first_at_path_is(files: Seq<FileContents>, path: Seq<char>, idx: int)
    requires
        0 <= idx <= files.len(),
        forall|k: int| 0 <= k < idx ==> (#[trigger] files[k].path)@ != path,
        idx < files.len() ==> files[idx].path@ == path,
    ensures
        idx < files.len() ==> first_at_path(files, path) == idx,
        idx == files.len() ==> first_at_path(files, path) == -1,
    decreases files.len(),
{
    if files.len() > 0 {
        if idx == 0 {
        } else {
            lemma_first_at_path_is(files.skip(1), path, idx - 1);
        }
    }
}

/// The first deployed file at `path`, if any.
fn find_at_path<'a>(files: &'a Vec<FileContents>, path: &str) -> (r: Option<&'a FileContents>)
    ensures
        match r {
            Some(f) => first_at_path(files@, path@) >= 0 && *f == files@[first_at_path(
                files@,
                path@,
            )],
            None => first_at_path(files@, path@) == -1,
        },
{
    let mut i: usize = 0;
    while i < files.len()
        invariant
            i <= files@.len(),
            forall|k: int| 0 <= k < i ==> (#[trigger] files@[k].path)@ != path@,
        decreases files@.len() - i,
    {
        if crate::text::str_eq(files[i].path.as_str(), path) {
            proof {
                lemma_first_at_path_is(files@, path@, i as int);
            }
            return Some(&files[i]);
        }
        i += 1;
    }
    proof {
        lemma_first_at_path_is(files@, path@, files@.len() as int);
    }
    None
}

/// Whether the stack's freshly fetched remote contents differ from what
/// was last deployed — the deploy-if-changed gate.
pub fn contents_changed(
    deployed: &Option<Vec<FileContents>>,
    remote: &Option<Vec<FileContents>>,
) -> (r: bool)
    ensures
        r == spec_changed(*deployed, *remote),
{
    match (deployed, remote) {
        (Some(d), Some(rem)) => {
            let mut i: usize = 0;
            while i < rem.len()
                invariant
                    *deployed == Some(*d),
                    *remote == Some(*rem),
                    i <= rem@.len(),
                    forall|k: int| 0 <= k < i ==> !file_differs(d@, #[trigger] rem@[k]),
                decreases rem@.len() - i,
            {
                match find_at_path(d, rem[i].path.as_str()) {
                    Some(f) => {
                        if !crate::text::str_eq(
                            f.contents.as_str(),
                            rem[i].contents.as_str(),
                        ) {
                            proof {
                                assert(*deployed == Some(*d) && *remote == Some(*rem));
                                assert(file_differs((*deployed)->Some_0@, (
                                *remote)->Some_0@[i as int]));
                                assert(spec_changed(*deployed, *remote));
                            }
                            return true;
                        }
                    }
                    None => {
                        proof {
                            assert(*deployed == Some(*d) && *remote == Some(*rem));
                            assert(file_differs((*deployed)->Some_0@, (
                            *remote)->Some_0@[i as int]));
                            assert(spec_changed(*deployed, *remote));
                        }
                        return true;
                    }
                }
                i += 1;
            }
            false
        }
        (None, _) => true,
        (Some(_), None) => false,
    }
}

/// Record the deploy-if-changed cancellation: exactly one log line with
/// the fixed cancel message is appended and the update is finalised
/// successfully, before any agent call and without touching the stack.
pub fn cancel_unchanged_deploy(update: &mut Update, now: Timestamp)
    requires
        old(update).start_ts <= now,
        old(update).logs_end_by(now),
        old(update).spec_all_logs_success(),
    ensures
        final(update).logs@.len() == old(update).logs@.len() + 1,
        final(update).logs@.subrange(0, old(update).logs@.len() as int) == old(update).logs@,
        final(update).logs@.last().stage@ == "Diff compose files"@,
        final(update).logs@.last().stdout@ == "Deploy cancelled after no changes detected."@,
        final(update).status == UpdateStatus::Complete,
        final(update).success,
        final(update).times_ordered(),
        final(update).end_ts == now,
{
    let ghost prior = update.logs@;
    update.push_simple_log(
        "Diff compose files",
        "Deploy cancelled after no changes detected.".to_owned(),
        now,
    );
    update.finalize(now);
    proof {
        assert(update.logs@.subrange(0, prior.len() as int) =~= prior);
    }
}

/// Every slot of a list expands without an unknown name.
pub open spec fn vec_interp_ok(v: Seq<String>, vars: Seq<VarEntry>) -> bool {
    forall|k: int| 0 <= k < v.len() ==> interp_ok((#[trigger] v[k])@, vars)
}

/// The smallest index at or after `i` whose slot holds an unknown name,
/// or -1.
pub open spec fn vec_first_bad_from(v: Seq<String>, vars: Seq<VarEntry>, i: int) -> int
    decreases v.len() - i,
{
    if i < 0 || i >= v.len() {
        -1
    } else if !interp_ok(v[i]@, vars) {
        i
    } else {
        vec_first_bad_from(v, vars, i + 1)
    }
}

/// The smallest index whose slot holds an unknown name, or -1.
pub open spec fn vec_first_bad(v: Seq<String>, vars: Seq<VarEntry>) -> int {
    vec_first_bad_from(v, vars, 0)
}

/// The entries substituted across the slots of a list from index `i` on.
pub open spec fn vec_interp_used_from(v: Seq<String>, vars: Seq<VarEntry>, i: int) -> Set<int>
    decreases v.len() - i,
{
    if i < 0 || i >= v.len() {
        Set::empty()
    } else {
        interp_used(v[i]@, vars).union(vec_interp_used_from(v, vars, i + 1))
    }
}

/// The entries substituted across all slots of a list.
pub open spec fn vec_interp_used(v: Seq<String>, vars: Seq<VarEntry>) -> Set<int> {
    vec_interp_used_from(v, vars, 0)
}

/// A slot with an unknown name, preceded by none, is the first bad slot.
proof fn lemma_vec_first_bad_from(v: Seq<String>, vars: Seq<VarEntry>, j: int, i: int)
    requires
        0 <= j <= i < v.len(),
        forall|k: int| j <= k < i ==> interp_ok((#[trigger] v[k])@, vars),
        !interp_ok(v[i]@, vars),
    ensures
        vec_first_bad_from(v, vars, j) == i,
    decreases i - j,
{
    if j < i {
        lemma_vec_first_bad_from(v, vars, j + 1, i);
    }
}

/// Expand every slot of a list, left to right; abort on the first slot
/// with an unknown name.
fn interpolate_vec(v: &Vec<String>, vars: &Vec<VarEntry>) -> (r: Result<
    (Vec<String>, Vec<bool>),
    UnknownVarError,
>)
    ensures
        r is Ok <==> vec_interp_ok(v@, vars@),
        r matches Ok((t, used)) ==> t@.len() == v@.len() && (forall|k: int|
            0 <= k < v@.len() ==> (#[trigger] t@[k])@ == interp_text(v@[k]@, vars@)) && used@.len()
            == vars@.len() && (forall|k: int|
            0 <= k < vars@.len() ==> used@[k] == vec_interp_used(v@, vars@).contains(k)),
        r matches Err(e) ==> {
            let b = vec_first_bad(v@, vars@);
            &&& !vec_interp_ok(v@, vars@)
            &&& 0 <= b < v@.len()
            &&& e.name@ == first_unknown(v@[b]@, vars@)
        },
{
    let mut out: Vec<String> = Vec::new();
    let mut used: Vec<bool> = Vec::new();
    let mut vi: usize = 0;
    while vi < vars.len()
        invariant
            used@.len() == vi,
            vi <= vars@.len(),
            forall|k: int| 0 <= k < vi ==> !used@[k],
        decreases vars@.len() - vi,
    {
        used.push(false);
        vi += 1;
    }
    let ghost mut acc: Set<int> = Set::empty();
    let mut i: usize = 0;
    proof {
        assert(acc.union(vec_interp_used_from(v@, vars@, 0)) =~= vec_interp_used_from(
            v@,
            vars@,
            0,
        ));
    }
    while i < v.len()
        invariant
            used@.len() == vars@.len(),
            i <= v@.len(),
            out@.len() == i,
            forall|k: int| 0 <= k < i ==> interp_ok((#[trigger] v@[k])@, vars@),
            forall|k: int| 0 <= k < i ==> (#[trigger] out@[k])@ == interp_text(v@[k]@, vars@),
            acc.union(vec_interp_used_from(v@, vars@, i as int)) == vec_interp_used(v@, vars@),
            forall|k: int| 0 <= k < vars@.len() ==> used@[k] == acc.contains(k),
        decreases v@.len() - i,
    {
        match interpolate(v[i].as_str(), vars) {
            Ok((t, u)) => {
                out.push(t);
                let ghost acc0 = acc;
                proof {
                    acc = acc0.union(interp_used(v@[i as int]@, vars@));
                }
                let mut k: usize = 0;
                while k < used.len()
                    invariant
                        used@.len() == vars@.len(),
                        u@.len() == vars@.len(),
                        k <= used@.len(),
                        i < v@.len(),
                        acc == acc0.union(interp_used(v@[i as int]@, vars@)),
                        forall|m: int|
                            0 <= m < u@.len() ==> u@[m] == interp_used(
                                v@[i as int]@,
                                vars@,
                            ).contains(m),
                        forall|m: int| 0 <= m < k ==> used@[m] == acc.contains(m),
                        forall|m: int| k <= m < used@.len() ==> used@[m] == acc0.contains(m),
                    decreases used@.len() - k,
                {
                    let merged = u[k] || used[k];
                    used.set(k, merged);
                    k += 1;
                }
                i += 1;
                proof {
                    assert(acc.union(vec_interp_used_from(v@, vars@, i as int))
                        =~= acc0.union(vec_interp_used_from(v@, vars@, i - 1)));
                }
            }
            Err(e) => {
                proof {
                    lemma_vec_first_bad_from(v@, vars@, 0, i as int);
                }
                return Err(e);
            }
        }
    }
    proof {
        assert(acc.union(vec_interp_used_from(v@, vars@, v@.len() as int)) =~= acc);
    }
    Ok((out, used))
}

/// Every text slot of the config expands without an unknown name.
pub open spec fn stack_interp_ok(config: StackConfig, vars: Seq<VarEntry>) -> bool {
    &&& interp_ok(config.file_contents@, vars)
    &&& interp_ok(config.environment@, vars)
    &&& vec_interp_ok(config.extra_args@, vars)
    &&& vec_interp_ok(config.build_extra_args@, vars)
    &&& interp_ok(config.pre_deploy.command@, vars)
}

/// The unknown name expansion aborts on: the leftmost one, scanning the
/// slots in the order they are expanded.
pub open spec fn stack_first_unknown(config: StackConfig, vars: Seq<VarEntry>) -> Seq<char> {
    if !interp_ok(config.file_contents@, vars) {
        first_unknown(config.file_contents@, vars)
    } else if !interp_ok(config.environment@, vars) {
        first_unknown(config.environment@, vars)
    } else if !vec_interp_ok(config.extra_args@, vars) {
        first_unknown(config.extra_args@[vec_first_bad(config.extra_args@, vars)]@, vars)
    } else if !vec_interp_ok(config.build_extra_args@, vars) {
        first_unknown(
            config.build_extra_args@[vec_first_bad(config.build_extra_args@, vars)]@,
            vars,
        )
    } else {
        first_unknown(config.pre_deploy.command@, vars)
    }
}

/// The entries substituted anywhere in the config.
pub open spec fn stack_interp_used(config: StackConfig, vars: Seq<VarEntry>) -> Set<int> {
    interp_used(config.file_contents@, vars).union(
        interp_used(config.environment@, vars),
    ).union(vec_interp_used(config.extra_args@, vars)).union(
        vec_interp_used(config.build_extra_args@, vars),
    ).union(interp_used(config.pre_deploy.command@, vars))
}

/// The elementwise disjunction of two flag lists.
fn or_flags(a: &Vec<bool>, b: &Vec<bool>) -> (r: Vec<bool>)
    requires
        a@.len() == b@.len(),
    ensures
        r@.len() == a@.len(),
        forall|k: int| 0 <= k < a@.len() ==> r@[k] == (a@[k] || b@[k]),
{
    let mut r: Vec<bool> = Vec::new();
    let mut i: usize = 0;
    while i < a.len()
        invariant
            a@.len() == b@.len(),
            i <= a@.len(),
            r@.len() == i,
            forall|k: int| 0 <= k < i ==> r@[k] == (a@[k] || b@[k]),
        decreases a@.len() - i,
    {
        let v = a[i] || b[i];
        r.push(v);
        i += 1;
    }
    r
}

/// Two configs hold the same data.
pub open spec fn config_like(a: StackConfig, b: StackConfig) -> bool {
    &&& a.server_id == b.server_id
    &&& a.file_contents == b.file_contents
    &&& a.environment == b.environment
    &&& a.extra_args@ == b.extra_args@
    &&& a.build_extra_args@ == b.build_extra_args@
    &&& a.pre_deploy == b.pre_deploy
    &&& a.git_provider == b.git_provider
    &&& a.git_account == b.git_account
    &&& a.git_https == b.git_https
    &&& a.repo == b.repo
    &&& a.branch == b.branch
    &&& a.registry_provider == b.registry_provider
    &&& a.registry_account == b.registry_account
    &&& a.skip_secret_interp == b.skip_secret_interp
    &&& a.project_name == b.project_name
}

/// `c` is `config` with every text slot expanded from `vars` and every
/// other field untouched, and `used` flags exactly the substituted
/// entries.
pub open spec fn stack_config_expanded(
    c: StackConfig,
    used: Seq<bool>,
    config: StackConfig,
    vars: Seq<VarEntry>,
) -> bool {
    &&& c.file_contents@ == interp_text(config.file_contents@, vars)
    &&& c.environment@ == interp_text(config.environment@, vars)
    &&& c.extra_args@.len() == config.extra_args@.len()
    &&& forall|k: int|
        0 <= k < config.extra_args@.len() ==> (#[trigger] c.extra_args@[k])@ == interp_text(
            config.extra_args@[k]@,
            vars,
        )
    &&& c.build_extra_args@.len() == config.build_extra_args@.len()
    &&& forall|k: int|
        0 <= k < config.build_extra_args@.len() ==> (#[trigger] c.build_extra_args@[k])@
            == interp_text(config.build_extra_args@[k]@, vars)
    &&& c.pre_deploy.command@ == interp_text(config.pre_deploy.command@, vars)
    &&& c.pre_deploy.path == config.pre_deploy.path
    &&& c.server_id == config.server_id
    &&& c.git_provider == config.git_provider
    &&& c.git_account == config.git_account
    &&& c.git_https == config.git_https
    &&& c.repo == config.repo
    &&& c.branch == config.branch
    &&& c.registry_provider == config.registry_provider
    &&& c.registry_account == config.registry_account
    &&& c.skip_secret_interp == config.skip_secret_interp
    &&& c.project_name == config.project_name
    &&& used.len() == vars.len()
    &&& forall|k: int| 0 <= k < vars.len() ==> used[k] == stack_interp_used(config, vars).contains(k)
}

/// Expand every text slot of a stack's config — the compose text, the
/// environment, both argument lists, and the pre-deploy command — in that
/// order, aborting on the first unknown name. Returns the expanded config
/// (all non-text fields untouched) and one flag per entry saying whether
/// some slot substituted it.
pub fn interpolate_stack_config(config: &StackConfig, vars: &Vec<VarEntry>) -> (r: Result<
    (StackConfig, Vec<bool>),
    UnknownVarError,
>)
    ensures
        r is Ok <==> stack_interp_ok(*config, vars@),
        r matches Ok((c, used)) ==> stack_config_expanded(c, used@, *config, vars@),
        r matches Err(e) ==> e.name@ == stack_first_unknown(*config, vars@),
{
    let (file_contents, u1) = match interpolate(config.file_contents.as_str(), vars) {
        Ok(x) => x,
        Err(e) => {
            return Err(e);
        }
    };
    let (environment, u2) = match interpolate(config.environment.as_str(), vars) {
        Ok(x) => x,
        Err(e) => {
            return Err(e);
        }
    };
    let (extra_args, u3) = match interpolate_vec(&config.extra_args, vars) {
        Ok(x) => x,
        Err(e) => {
            return Err(e);
        }
    };
    let (build_extra_args, u4) = match interpolate_vec(&config.build_extra_args, vars) {
        Ok(x) => x,
        Err(e) => {
            return Err(e);
        }
    };
    let (pre_deploy_command, u5) = match interpolate(config.pre_deploy.command.as_str(), vars) {
        Ok(x) => x,
        Err(e) => {
            return Err(e);
        }
    };
    let used = or_flags(&or_flags(&or_flags(&or_flags(&u1, &u2), &u3), &u4), &u5);
    let out = StackConfig {
        server_id: config.server_id.clone(),
        file_contents,
        environment,
        extra_args,
        build_extra_args,
        pre_deploy: SystemCommand { path: config.pre_deploy.path.clone(), command: pre_deploy_command },
        git_provider: config.git_provider.clone(),
        git_account: config.git_account.clone(),
        git_https: config.git_https,
        repo: config.repo.clone(),
        branch: config.branch.clone(),
        registry_provider: config.registry_provider.clone(),
        registry_account: config.registry_account.clone(),
        skip_secret_interp: config.skip_secret_interp,
        project_name: config.project_name.clone(),
    };
    Ok((out, used))
}

/// Copies a config, field for field.
fn clone_stack_config(config: &StackConfig) -> (r: StackConfig)
    ensures
        config_like(r, *config),
{
    StackConfig {
        server_id: config.server_id.clone(),
        file_contents: config.file_contents.clone(),
        environment: config.environment.clone(),
        extra_args: clone_strings(&config.extra_args),
        build_extra_args: clone_strings(&config.build_extra_args),
        pre_deploy: config.pre_deploy.clone(),
        git_provider: config.git_provider.clone(),
        git_account: config.git_account.clone(),
        git_https: config.git_https,
        repo: config.repo.clone(),
        branch: config.branch.clone(),
        registry_provider: config.registry_provider.clone(),
        registry_account: config.registry_account.clone(),
        skip_secret_interp: config.skip_secret_interp,
        project_name: config.project_name.clone(),
    }
}

/// The interpolation gate of a deploy: a stack that asks to skip secret
/// interpolation is handed on untouched, with no entry flagged as used —
/// so both replacer sets built from the flags are empty. Every other
/// stack has its text slots expanded.
pub fn interpolate_stack_config_gated(config: &StackConfig, vars: &Vec<VarEntry>) -> (r: Result<
    (StackConfig, Vec<bool>),
    UnknownVarError,
>)
    ensures
        config.skip_secret_interp ==> (r matches Ok((c, used)) && config_like(c, *config)
            && used@.len() == vars@.len() && forall|k: int| 0 <= k < used@.len() ==> !used@[k]),
        !config.skip_secret_interp ==> {
            &&& r is Ok <==> stack_interp_ok(*config, vars@)
            &&& (r matches Ok((c, used)) ==> stack_config_expanded(c, used@, *config, vars@))
            &&& (r matches Err(e) ==> e.name@ == stack_first_unknown(*config, vars@))
        },
{
    if config.skip_secret_interp {
        let copy = clone_stack_config(config);
        let mut used: Vec<bool> = Vec::new();
        let mut vi: usize = 0;
        while vi < vars.len()
            invariant
                used@.len() == vi,
                vi <= vars@.len(),
                forall|k: int| 0 <= k < vi ==> !used@[k],
            decreases vars@.len() - vi,
        {
            used.push(false);
            vi += 1;
        }
        Ok((copy, used))
    } else {
        interpolate_stack_config(config, vars)
    }
}

/// The log line recorded when an execution targets one service of a
/// stack rather than the whole stack.
pub fn service_request_log(service: &str, now: Timestamp) -> (log: Log)
    ensures
        log.stage@ == "Service: "@ + service@,
        log.stdout@ == "Execution requested for Stack service "@ + service@,
        log.success,
        log.start_ts == now,
        log.end_ts == now,
{
    let mut stage = String::new();
    stage.append("Service: ");
    stage.append(service);
    let mut msg = String::new();
    msg.append("Execution requested for Stack service ");
    msg.append(service);
    Log::simple(stage.as_str(), msg, now)
}

} // verus!