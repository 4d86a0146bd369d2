//! The action-state registry: per-resource busy flags with guard semantics.
//!
//! For each resource kind the core keeps a map from resource id to a struct
//! of boolean flags, one per in-flight operation kind. An operation acquires
//! its flag before doing work and fails fast with `Busy` when the flag is
//! already held; releasing restores exactly what acquisition set.

use vstd::prelude::*;

verus! {

/// Acquisition failed: another operation already holds a flag.
#[derive(Clone, Copy, PartialEq, Eq, Structural, Debug)]
pub struct BusyError;

/// The operations that may be in flight on one stack.
#[derive(Clone, Copy, PartialEq, Eq, Structural, Debug)]
pub enum StackFlag {
    Deploying,
    Pulling,
    Starting,
    Restarting,
    Pausing,
    Unpausing,
    Stopping,
    Destroying,
}

/// The busy flags of one stack.
#[derive(Clone, Copy, PartialEq, Eq, Structural, Debug)]
pub struct StackActionState {
    pub deploying: bool,
    pub pulling: bool,
    pub starting: bool,
    pub restarting: bool,
    pub pausing: bool,
    pub unpausing: bool,
    pub stopping: bool,
    pub destroying: bool,
}

/// `s` with flag `f` set.
pub open spec fn with_stack_flag(s: StackActionState, f: StackFlag) -> StackActionState {
    match f {
        StackFlag::Deploying => StackActionState { deploying: true, ..s },
        StackFlag::Pulling => StackActionState { pulling: true, ..s },
        StackFlag::Starting => StackActionState { starting: true, ..s },
        StackFlag::Restarting => StackActionState { restarting: true, ..s },
        StackFlag::Pausing => StackActionState { pausing: true, ..s },
        StackFlag::Unpausing => StackActionState { unpausing: true, ..s },
        StackFlag::Stopping => StackActionState { stopping: true, ..s },
        StackFlag::Destroying => StackActionState { destroying: true, ..s },
    }
}

/// `s` with flag `f` cleared.
pub open spec fn without_stack_flag(s: StackActionState, f: StackFlag) -> StackActionState {
    match f {
        StackFlag::Deploying => StackActionState { deploying: false, ..s },
        StackFlag::Pulling => StackActionState { pulling: false, ..s },
        StackFlag::Starting => StackActionState { starting: false, ..s },
        StackFlag::Restarting => StackActionState { restarting: false, ..s },
        StackFlag::Pausing => StackActionState { pausing: false, ..s },
        StackFlag::Unpausing => StackActionState { unpausing: false, ..s },
        StackFlag::Stopping => StackActionState { stopping: false, ..s },
        StackFlag::Destroying => StackActionState { destroying: false, ..s },
    }
}

impl StackActionState {
    /// Whether flag `f` is set.
    pub open spec fn flag(self, f: StackFlag) -> bool {
        match f {
            StackFlag::Deploying => self.deploying,
            StackFlag::Pulling => self.pulling,
            StackFlag::Starting => self.starting,
            StackFlag::Restarting => self.restarting,
            StackFlag::Pausing => self.pausing,
            StackFlag::Unpausing => self.unpausing,
            StackFlag::Stopping => self.stopping,
            StackFlag::Destroying => self.destroying,
        }
    }

    /// Some operation is in flight.
    pub open spec fn spec_busy(self) -> bool {
        self.deploying || self.pulling || self.starting || self.restarting || self.pausing
            || self.unpausing || self.stopping || self.destroying
    }

    /// No operation is in flight.
    pub fn idle() -> (s: StackActionState)
        ensures
            !s.spec_busy(),
            forall|f: StackFlag| !s.flag(f),
    {
        StackActionState {
            deploying: false,
            pulling: false,
            starting: false,
            restarting: false,
            pausing: false,
            unpausing: false,
            stopping: false,
            destroying: false,
        }
    }

    /// Some operation is in flight, decided executably.
    pub fn busy(&self) -> (r: bool)
        ensures
            r == self.spec_busy(),
    {
        self.deploying || self.pulling || self.starting || self.restarting || self.pausing
            || self.unpausing || self.stopping || self.destroying
    }

    /// Whether flag `f` is set, decided executably.
    pub fn get_flag(&self, f: StackFlag) -> (r: bool)
        ensures
            r == self.flag(f),
    {
        match f {
            StackFlag::Deploying => self.deploying,
            StackFlag::Pulling => self.pulling,
            StackFlag::Starting => self.starting,
            StackFlag::Restarting => self.restarting,
            StackFlag::Pausing => self.pausing,
            StackFlag::Unpausing => self.unpausing,
            StackFlag::Stopping => self.stopping,
            StackFlag::Destroying => self.destroying,
        }
    }

    /// Acquire flag `f`: fails busy exactly when `f` is already held,
    /// and on success sets `f` and nothing else.
    pub fn try_set(&mut self, f: StackFlag) -> (r: Result<(), BusyError>)
        ensures
            old(self).flag(f) ==> r is Err && *final(self) == *old(self),
            !old(self).flag(f) ==> r is Ok && *final(self) == with_stack_flag(*old(self), f),
    {
        if self.get_flag(f) {
            Err(BusyError)
        } else {
            match f {
                StackFlag::Deploying => self.deploying = true,
                StackFlag::Pulling => self.pulling = true,
                StackFlag::Starting => self.starting = true,
                StackFlag::Restarting => self.restarting = true,
                StackFlag::Pausing => self.pausing = true,
                StackFlag::Unpausing => self.unpausing = true,
                StackFlag::Stopping => self.stopping = true,
                StackFlag::Destroying => self.destroying = true,
            }
            Ok(())
        }
    }

    /// Release flag `f`: clears `f` and nothing else, on every exit path
    /// of the operation that held it.
    pub fn clear(&mut self, f: StackFlag)
        ensures
            *final(self) == without_stack_flag(*old(self), f),
    {
        match f {
            StackFlag::Deploying => self.deploying = false,
            StackFlag::Pulling => self.pulling = false,
            StackFlag::Starting => self.starting = false,
            StackFlag::Restarting => self.restarting = false,
            StackFlag::Pausing => self.pausing = false,
            StackFlag::Unpausing => self.unpausing = false,
            StackFlag::Stopping => self.stopping = false,
            StackFlag::Destroying => self.destroying = false,
        }
    }
}

/// Acquiring a flag bars every further attempt on it: the state a
/// successful acquisition leaves holds the flag, so a second `try_set`
/// of the same flag on that state returns busy and changes nothing.
pub proof fn lemma_acquired_flag_blocks(s: StackActionState, f: StackFlag)
    ensures
        with_stack_flag(s, f).flag(f),
        with_stack_flag(s, f).spec_busy(),
{
}

/// Acquisition touches only its own flag: every other flag is unchanged,
/// so two operations on the same resource exclude each other exactly when
/// they contend for the same flag.
pub proof fn lemma_acquire_frames_other_flags(s: StackActionState, f: StackFlag, g: StackFlag)
    requires
        f != g,
    ensures
        with_stack_flag(s, f).flag(g) == s.flag(g),
        without_stack_flag(s, f).flag(g) == s.flag(g),
{
}

/// Dropping the guard restores the pre-acquisition state: the observable
/// state reflects exactly the set of guards still held.
pub proof fn lemma_release_restores(s: StackActionState, f: StackFlag)
    requires
        !s.flag(f),
    ensures
        without_stack_flag(with_stack_flag(s, f), f) == s,
{
}

/// The running flag of a resource whose only in-flight operation kind is a
/// run — procedures and actions.
#[derive(Clone, Copy, PartialEq, Eq, Structural, Debug)]
pub struct RunState {
    pub running: bool,
}

impl RunState {
    /// Some run is in flight.
    pub open spec fn spec_busy(self) -> bool {
        self.running
    }

    /// No run in flight.
    pub fn idle() -> (s: RunState)
        ensures
            !s.spec_busy(),
    {
        RunState { running: false }
    }

    /// Acquire the running flag: fails busy exactly when already running.
    pub fn try_set_running(&mut self) -> (r: Result<(), BusyError>)
        ensures
            old(self).running ==> r is Err && *final(self) == *old(self),
            !old(self).running ==> r is Ok && final(self).running,
    {
        if self.running {
            Err(BusyError)
        } else {
            self.running = true;
            Ok(())
        }
    }

    /// Release the running flag.
    pub fn clear_running(&mut self)
        ensures
            !final(self).running,
    {
        self.running = false;
    }

    /// Some run is in flight, decided executably.
    pub fn busy(&self) -> (r: bool)
        ensures
            r == self.spec_busy(),
    {
        self.running
    }
}

/// The registry for one resource kind: resource id to stack action state.
/// Ids are held at most once.
pub struct StackActionStates {
    pub entries: Vec<(String, StackActionState)>,
}

impl StackActionStates {
    /// Ids are unique, so each resource has one authoritative state.
    pub open spec fn wf(self) -> bool {
        forall|i: int, j: int|
            0 <= i < j < self.entries@.len() ==> self.entries@[i].0@ != self.entries@[j].0@
    }

    /// What the registry records for `id`: the stored state, or idle when
    /// the id has never been touched.
    pub open spec fn state_of(self, id: Seq<char>) -> StackActionState {
        if exists|i: int| 0 <= i < self.entries@.len() && self.entries@[i].0@ == id {
            self.entries@[choose|i: int|
                0 <= i < self.entries@.len() && self.entries@[i].0@ == id].1
        } else {
            StackActionState {
                deploying: false,
                pulling: false,
                starting: false,
                restarting: false,
                pausing: false,
                unpausing: false,
                stopping: false,
                destroying: false,
            }
        }
    }

    /// An empty registry: every resource idle.
    pub fn new() -> (r: StackActionStates)
        ensures
            r.wf(),
            forall|id: Seq<char>| !(#[trigger] r.state_of(id)).spec_busy(),
    {
        StackActionStates { entries: Vec::new() }
    }

    /// The index holding `id`, if any.
    fn find(&self, id: &String) -> (r: Option<usize>)
        requires
            self.wf(),
        ensures
            match r {
                Some(i) => i < self.entries@.len() && self.entries@[i as int].0@ == id@
                    && self.entries@[i as int].1 == self.state_of(id@),
                None => forall|i: int|
                    0 <= i < self.entries@.len() ==> self.entries@[i].0@ != id@,
            },
    {
        let mut i: usize = 0;
        while i < self.entries.len()
            invariant
                self.wf(),
                i <= self.entries@.len(),
                forall|j: int| 0 <= j < i ==> self.entries@[j].0@ != id@,
            decreases self.entries@.len() - i,
        {
            if self.entries[i].0.eq(id) {
                return Some(i);
            }
            i += 1;
        }
        None
    }

    /// The state recorded for `id` (idle when the id is unknown).
    pub fn get(&self, id: &String) -> (r: StackActionState)
        requires
            self.wf(),
        ensures
            r == self.state_of(id@),
    {
        match self.find(id) {
            Some(i) => self.entries[i].1,
            None => StackActionState::idle(),
        }
    }

    /// Acquire flag `f` on resource `id`: atomically, read the current
    /// state, fail busy exactly when `f` is already held, otherwise record
    /// the state with `f` set. Every other resource is untouched.
    pub fn try_set(&mut self, id: &String, f: StackFlag) -> (r: Result<(), BusyError>)
        requires
            old(self).wf(),
        ensures
            final(self).wf(),
            old(self).state_of(id@).flag(f) ==> r is Err
                && final(self).state_of(id@) == old(self).state_of(id@),
            !old(self).state_of(id@).flag(f) ==> r is Ok
                && final(self).state_of(id@) == with_stack_flag(old(self).state_of(id@), f),
            forall|other: Seq<char>| other != id@
                ==> #[trigger] final(self).state_of(other) == old(self).state_of(other),
    {
        match self.find(id) {
            Some(i) => {
                let mut state = self.entries[i].1;
                let r = state.try_set(f);
                if r.is_ok() {
                    let key = self.entries[i].0.clone();
                    self.entries.set(i, (key, state));
                    proof {
                        lemma_state_of_update(*old(self), *self, i as int, id@);
                    }
                }
                r
            }
            None => {
                let mut state = StackActionState::idle();
                let r = state.try_set(f);
                let ghost pre = *self;
                self.entries.push((id.clone(), state));
                proof {
                    lemma_state_of_push(pre, *self, id@);
                }
                r
            }
        }
    }

    /// Release flag `f` on resource `id`, restoring what acquisition set.
    pub fn clear(&mut self, id: &String, f: StackFlag)
        requires
            old(self).wf(),
        ensures
            final(self).wf(),
            final(self).state_of(id@) == without_stack_flag(old(self).state_of(id@), f),
            forall|other: Seq<char>| other != id@
                ==> #[trigger] final(self).state_of(other) == old(self).state_of(other),
    {
        match self.find(id) {
            Some(i) => {
                let mut state = self.entries[i].1;
                state.clear(f);
                let key = self.entries[i].0.clone();
                self.entries.set(i, (key, state));
                proof {
                    lemma_state_of_update(*old(self), *self, i as int, id@);
                }
            }
            None => {
                let ghost pre = *self;
                self.entries.push((id.clone(), StackActionState::idle()));
                proof {
                    lemma_state_of_push(pre, *self, id@);
                }
            }
        }
    }
}

/// After replacing the entry at `k` (same id), `state_of` reads the new
/// state at that id and is unchanged elsewhere.
proof fn lemma_state_of_update(
    pre: StackActionStates,
    post: StackActionStates,
    k: int,
    id: Seq<char>,
)
    requires
        pre.wf(),
        0 <= k < pre.entries@.len(),
        post.entries@.len() == pre.entries@.len(),
        post.entries@[k].0@ == pre.entries@[k].0@,
        pre.entries@[k].0@ == id,
        forall|i: int| 0 <= i < pre.entries@.len() && i != k
            ==> post.entries@[i] == pre.entries@[i],
    ensures
        post.wf(),
        post.state_of(id) == post.entries@[k].1,
        forall|other: Seq<char>| other != id
            ==> #[trigger] post.state_of(other) == pre.state_of(other),
{
    assert forall|i: int, j: int| 0 <= i < j < post.entries@.len()
        implies post.entries@[i].0@ != post.entries@[j].0@ by {
        assert(pre.entries@[i].0@ != pre.entries@[j].0@);
        assert(post.entries@[i].0@ == pre.entries@[i].0@);
        assert(post.entries@[j].0@ == pre.entries@[j].0@);
    }
    assert(post.entries@[k].0@ == id);
    let w = choose|i: int| 0 <= i < post.entries@.len() && post.entries@[i].0@ == id;
    assert(post.wf());
    assert(w == k);
    assert forall|other: Seq<char>| other != id
        implies #[trigger] post.state_of(other) == pre.state_of(other) by {
        if exists|i: int| 0 <= i < pre.entries@.len() && pre.entries@[i].0@ == other {
            let i = choose|i: int| 0 <= i < pre.entries@.len() && pre.entries@[i].0@ == other;
            assert(i != k);
            assert(post.entries@[i].0@ == other);
            let j = choose|j: int| 0 <= j < post.entries@.len() && post.entries@[j].0@ == other;
            assert(j == i || post.entries@[j].0@ != post.entries@[i].0@);
            assert(post.state_of(other) == post.entries@[i].1);
            assert(pre.state_of(other) == pre.entries@[i].1);
        } else {
            assert(forall|i: int|
                0 <= i < post.entries@.len() ==> #[trigger] post.entries@[i].0@ != other);
        }
    }
}

/// After pushing a fresh id, `state_of` reads the pushed state at that id
/// and is unchanged elsewhere.
proof fn lemma_state_of_push(pre: StackActionStates, post: StackActionStates, id: Seq<char>)
    requires
        pre.wf(),
        forall|i: int| 0 <= i < pre.entries@.len() ==> pre.entries@[i].0@ != id,
        post.entries@ == pre.entries@.push(post.entries@.last()),
        post.entries@.last().0@ == id,
    ensures
        post.wf(),
        post.state_of(id) == post.entries@.last().1,
        forall|other: Seq<char>| other != id
            ==> #[trigger] post.state_of(other) == pre.state_of(other),
{
    let n = pre.entries@.len() as int;
    assert forall|i: int, j: int| 0 <= i < j < post.entries@.len()
        implies post.entries@[i].0@ != post.entries@[j].0@ by {
        if j < n {
            assert(pre.entries@[i].0@ != pre.entries@[j].0@);
        } else {
            assert(post.entries@[j].0@ == id);
            assert(post.entries@[i] == pre.entries@[i]);
        }
    }
    assert(post.entries@[n].0@ == id);
    let w = choose|i: int| 0 <= i < post.entries@.len() && post.entries@[i].0@ == id;
    assert(w == n);
    assert forall|other: Seq<char>| other != id
        implies #[trigger] post.state_of(other) == pre.state_of(other) by {
        if exists|i: int| 0 <= i < pre.entries@.len() && pre.entries@[i].0@ == other {
            let i = choose|i: int| 0 <= i < pre.entries@.len() && pre.entries@[i].0@ == other;
            assert(post.entries@[i].0@ == other);
            let j = choose|j: int| 0 <= j < post.entries@.len() && post.entries@[j].0@ == other;
            assert(post.state_of(other) == post.entries@[i].1);
            assert(pre.state_of(other) == pre.entries@[i].1);
        } else {
            assert(forall|i: int|
                0 <= i < post.entries@.len() ==> #[trigger] post.entries@[i].0@ != other);
        }
    }
}

/// The cached terminal state of a scripted action: how its last run
/// ended, or that one runs now, or that the journal could not be read.
#[derive(Clone, Copy, PartialEq, Eq, Structural, Debug)]
pub enum ActionRunState {
    Succeeded,
    Failed,
    Running,
    Unknown,
}

/// The persisted journal could not be read.
#[derive(Clone, Copy, PartialEq, Eq, Structural, Debug)]
pub struct PersistenceError;

/// Derive an action's terminal state from its latest run-action update:
/// the update's outcome when one exists, a success when none was ever
/// recorded, and unknown when the journal could not be read. The journal
/// query hands in the `success` field of the newest matching record.
pub fn action_state_from_journal(latest: Result<Option<bool>, PersistenceError>) -> (r:
    ActionRunState)
    ensures
        latest matches Ok(Some(success)) ==> r == (if success {
            ActionRunState::Succeeded
        } else {
            ActionRunState::Failed
        }),
        latest matches Ok(o) && o is None ==> r == ActionRunState::Succeeded,
        latest is Err ==> r == ActionRunState::Unknown,
{
    match latest {
        Ok(Some(success)) => {
            if success {
                ActionRunState::Succeeded
            } else {
                ActionRunState::Failed
            }
        }
        Ok(None) => ActionRunState::Succeeded,
        Err(_) => ActionRunState::Unknown,
    }
}

/// The state a reader sees for an action: running when its busy flag is
/// held, the cached journal-derived state otherwise.
pub fn effective_action_state(running: bool, cached: ActionRunState) -> (r: ActionRunState)
    ensures
        running ==> r == ActionRunState::Running,
        !running ==> r == cached,
{
    if running {
        ActionRunState::Running
    } else {
        cached
    }
}

/// The lifecycle verbs of a stack, each guarded by its own flag.
#[derive(Clone, Copy, PartialEq, Eq, Structural, Debug)]
pub enum StackVerb {
    Deploy,
    Pull,
    Start,
    Restart,
    Pause,
    Unpause,
    Stop,
    Destroy,
}

/// The flag a stack verb acquires before doing work.
pub open spec fn spec_stack_verb_flag(v: StackVerb) -> StackFlag {
    match v {
        StackVerb::Deploy => StackFlag::Deploying,
        StackVerb::Pull => StackFlag::Pulling,
        StackVerb::Start => StackFlag::Starting,
        StackVerb::Restart => StackFlag::Restarting,
        StackVerb::Pause => StackFlag::Pausing,
        StackVerb::Unpause => StackFlag::Unpausing,
        StackVerb::Stop => StackFlag::Stopping,
        StackVerb::Destroy => StackFlag::Destroying,
    }
}

/// The flag a stack verb acquires, decided executably.
pub fn stack_verb_flag(v: StackVerb) -> (r: StackFlag)
    ensures
        r == spec_stack_verb_flag(v),
{
    match v {
        StackVerb::Deploy => StackFlag::Deploying,
        StackVerb::Pull => StackFlag::Pulling,
        StackVerb::Start => StackFlag::Starting,
        StackVerb::Restart => StackFlag::Restarting,
        StackVerb::Pause => StackFlag::Pausing,
        StackVerb::Unpause => StackFlag::Unpausing,
        StackVerb::Stop => StackFlag::Stopping,
        StackVerb::Destroy => StackFlag::Destroying,
    }
}

/// The starter script a freshly created action begins with when none was
/// given: it greets with the core's version through the pre-initialised
/// client.
pub fn default_action_file_contents() -> (r: String)
    ensures
        r@ == "// Run actions using the pre initialized 'komodo' client.
const version: Types.GetVersionResponse = await komodo.read('GetVersion', {});
console.log('\u{1f98e} Komodo version:', version.version, '\u{1f98e}\\n');"@,
{
    "// Run actions using the pre initialized 'komodo' client.
const version: Types.GetVersionResponse = await komodo.read('GetVersion', {});
console.log('\u{1f98e} Komodo version:', version.version, '\u{1f98e}\\n');".to_owned()
}

/// Validate a new action's config: a missing script is filled with the
/// starter script; a given script is kept.
pub fn action_file_contents_or_default(file_contents: Option<String>) -> (r: String)
    ensures
        file_contents matches Some(s) ==> r == s,
        file_contents is None ==> r@
            == "// Run actions using the pre initialized 'komodo' client.
const version: Types.GetVersionResponse = await komodo.read('GetVersion', {});
console.log('\u{1f98e} Komodo version:', version.version, '\u{1f98e}\\n');"@,
{
    match file_contents {
        Option::Some(s) => s,
        Option::None => default_action_file_contents(),
    }
}

} // verus!
