//! Deployments: read-side decisions around one single-container unit.
//!
//! A deployment may be unassigned (no server); log, stats and inspect
//! reads fail or answer empty before any host call in that case, and
//! inspect additionally demands a healthy cached server state. The
//! summary buckets deployments by their container state; the common
//! extra-args listing deduplicates and orders the collected arguments.

use vstd::prelude::*;

use crate::pattern::{lemma_str_le_total, str_le, str_le_exec};
use crate::server::ServerState;
use crate::text::{starts_with, str_eq};

verus! {

/// The container state of a deployment, as the poller last saw it.
#[derive(Clone, Copy, PartialEq, Eq, Structural, Debug)]
pub enum DeploymentState {
    Running,
    Exited,
    Paused,
    Restarting,
    Dead,
    Created,
    Removing,
    NotDeployed,
    Unknown,
}

/// The summary bucket a container state falls in.
#[derive(Clone, Copy, PartialEq, Eq, Structural, Debug)]
pub enum DeploymentBucket {
    Running,
    Stopped,
    NotDeployed,
    Unknown,
    Unhealthy,
}

/// Which bucket a state counts towards: running; exited and paused count
/// as stopped; never-deployed and unknown stand alone; everything else
/// is unhealthy.
pub open spec fn spec_bucket(s: DeploymentState) -> DeploymentBucket {
    match s {
        DeploymentState::Running => DeploymentBucket::Running,
        DeploymentState::Exited => DeploymentBucket::Stopped,
        DeploymentState::Paused => DeploymentBucket::Stopped,
        DeploymentState::NotDeployed => DeploymentBucket::NotDeployed,
        DeploymentState::Unknown => DeploymentBucket::Unknown,
        DeploymentState::Restarting => DeploymentBucket::Unhealthy,
        DeploymentState::Dead => DeploymentBucket::Unhealthy,
        DeploymentState::Created => DeploymentBucket::Unhealthy,
        DeploymentState::Removing => DeploymentBucket::Unhealthy,
    }
}

/// How many states of a list fall in the given bucket.
pub open spec fn count_bucket(states: Seq<DeploymentState>, b: DeploymentBucket) -> int
    decreases states.len(),
{
    if states.len() == 0 {
        0
    } else {
        (if spec_bucket(states[0]) == b {
            1int
        } else {
            0int
        }) + count_bucket(states.skip(1), b)
    }
}

/// The deployments summary: total and per-bucket counts.
#[derive(Clone, Copy, PartialEq, Eq, Structural, Debug)]
pub struct DeploymentsSummary {
    pub total: u64,
    pub running: u64,
    pub stopped: u64,
    pub not_deployed: u64,
    pub unknown: u64,
    pub unhealthy: u64,
}

/// Counting a list one element at a time extends the count.
proof fn lemma_count_bucket_step(states: Seq<DeploymentState>, b: DeploymentBucket, i: int)
    requires
        0 <= i < states.len(),
    ensures
        count_bucket(states.take(i + 1), b) == count_bucket(states.take(i), b) + (
        if spec_bucket(states[i]) == b {
            1int
        } else {
            0int
        }),
    decreases i,
{
    let a = states.take(i + 1);
    let c = states.take(i);
    if i == 0 {
        assert(a.skip(1) =~= Seq::<DeploymentState>::empty());
        assert(c =~= Seq::<DeploymentState>::empty());
        assert(a[0] == states[0]);
    } else {
        assert(a.skip(1) =~= states.subrange(1, i + 1));
        assert(c.skip(1) =~= states.subrange(1, i));
        assert(states.subrange(1, i + 1) =~= states.skip(1).take(i));
        assert(states.subrange(1, i) =~= states.skip(1).take(i - 1));
        lemma_count_bucket_step(states.skip(1), b, i - 1);
        assert(a[0] == c[0]);
        assert(states.skip(1)[i - 1] == states[i]);
    }
}

/// Summarise a list of deployment states: the total and the count of
/// each bucket.
pub fn summarize_deployments(states: &Vec<DeploymentState>) -> (r: DeploymentsSummary)
    ensures
        r.total == states@.len(),
        r.running == count_bucket(states@, DeploymentBucket::Running),
        r.stopped == count_bucket(states@, DeploymentBucket::Stopped),
        r.not_deployed == count_bucket(states@, DeploymentBucket::NotDeployed),
        r.unknown == count_bucket(states@, DeploymentBucket::Unknown),
        r.unhealthy == count_bucket(states@, DeploymentBucket::Unhealthy),
{
    let mut running: u64 = 0;
    let mut stopped: u64 = 0;
    let mut not_deployed: u64 = 0;
    let mut unknown: u64 = 0;
    let mut unhealthy: u64 = 0;
    let mut i: usize = 0;
    proof {
        assert(states@.take(0) =~= Seq::<DeploymentState>::empty());
    }
    while i < states.len()
        invariant
            i <= states@.len(),
            running == count_bucket(states@.take(i as int), DeploymentBucket::Running),
            stopped == count_bucket(states@.take(i as int), DeploymentBucket::Stopped),
            not_deployed == count_bucket(states@.take(i as int), DeploymentBucket::NotDeployed),
            unknown == count_bucket(states@.take(i as int), DeploymentBucket::Unknown),
            unhealthy == count_bucket(states@.take(i as int), DeploymentBucket::Unhealthy),
            running + stopped + not_deployed + unknown + unhealthy <= i,
        decreases states@.len() - i,
    {
        proof {
            lemma_count_bucket_step(states@, DeploymentBucket::Running, i as int);
            lemma_count_bucket_step(states@, DeploymentBucket::Stopped, i as int);
            lemma_count_bucket_step(states@, DeploymentBucket::NotDeployed, i as int);
            lemma_count_bucket_step(states@, DeploymentBucket::Unknown, i as int);
            lemma_count_bucket_step(states@, DeploymentBucket::Unhealthy, i as int);
        }
        match states[i] {
            DeploymentState::Running => running += 1,
            DeploymentState::Exited => stopped += 1,
            DeploymentState::Paused => stopped += 1,
            DeploymentState::NotDeployed => not_deployed += 1,
            DeploymentState::Unknown => unknown += 1,
            DeploymentState::Restarting => unhealthy += 1,
            DeploymentState::Dead => unhealthy += 1,
            DeploymentState::Created => unhealthy += 1,
            DeploymentState::Removing => unhealthy += 1,
        }
        i += 1;
    }
    proof {
        assert(states@.take(states@.len() as int) =~= states@);
    }
    DeploymentsSummary {
        total: states.len() as u64,
        running,
        stopped,
        not_deployed,
        unknown,
        unhealthy,
    }
}

/// Why a deployment read was refused before any host call.
#[derive(Clone, Copy, PartialEq, Eq, Structural, Debug)]
pub enum ReadRefusal {
    NoServer,
    ServerUnhealthy,
}

/// The log-read plan for a deployment: an unassigned deployment answers
/// the empty log with no host call; otherwise the tail is clamped to the
/// ceiling and the host is asked.
pub fn deployment_log_plan(server_id: &str, tail: u64) -> (r: Option<u64>)
    ensures
        server_id@.len() == 0 ==> r is None,
        server_id@.len() > 0 ==> (r matches Some(t) && t == if tail < 5000 {
            tail as int
        } else {
            5000
        }),
{
    if server_id.unicode_len() == 0 {
        None
    } else {
        Some(crate::container::clamp_tail(tail))
    }
}

/// The inspect guard for a deployment: refused without a server, refused
/// while the cached server state is not healthy, allowed otherwise.
pub fn deployment_inspect_guard(server_id: &str, state: ServerState) -> (r: Result<
    (),
    ReadRefusal,
>)
    ensures
        server_id@.len() == 0 <==> r == Err::<(), ReadRefusal>(ReadRefusal::NoServer),
        server_id@.len() > 0 && state != ServerState::Healthy <==> r == Err::<(), ReadRefusal>(
            ReadRefusal::ServerUnhealthy,
        ),
        server_id@.len() > 0 && state == ServerState::Healthy <==> r is Ok,
{
    if server_id.unicode_len() == 0 {
        Err(ReadRefusal::NoServer)
    } else if !crate::server::inspect_allowed(state) {
        Err(ReadRefusal::ServerUnhealthy)
    } else {
        Ok(())
    }
}

/// Every entry of `out` is one of the collected arguments.
pub open spec fn args_sound(out: Seq<String>, args: Seq<String>) -> bool {
    forall|k: int|
        0 <= k < out.len() ==> exists|j: int|
            0 <= j < args.len() && (#[trigger] out[k])@ == args[j]@
}

/// Every collected argument up to `upto` appears in `out`.
pub open spec fn args_complete(out: Seq<String>, args: Seq<String>, upto: int) -> bool {
    forall|j: int|
        0 <= j < upto ==> exists|k: int|
            0 <= k < out.len() && (#[trigger] args[j])@ == out[k]@
}

/// The list of distinct arguments of `args`, ordered. Every argument of
/// the input appears exactly once in the output; the output holds
/// nothing else.
pub fn unique_sorted_args(args: &Vec<String>) -> (r: Vec<String>)
    ensures
        forall|k: int|
            0 <= k < r@.len() - 1 ==> str_le((#[trigger] r@[k])@, r@[k + 1]@),
        forall|k: int, m: int| 0 <= k < m < r@.len() ==> (#[trigger] r@[k])@ != (
        #[trigger] r@[m])@,
        args_sound(r@, args@),
        args_complete(r@, args@, args@.len() as int),
    {
    let mut out: Vec<String> = Vec::new();
    let mut j: usize = 0;
    while j < args.len()
        invariant
            j <= args@.len(),
            forall|k: int|
                0 <= k < out@.len() - 1 ==> str_le((#[trigger] out@[k])@, out@[k + 1]@),
            forall|k: int, m: int| 0 <= k < m < out@.len() ==> (#[trigger] out@[k])@ != (
            #[trigger] out@[m])@,
            args_sound(out@, args@),
            args_complete(out@, args@, j as int),
        decreases args@.len() - j,
    {
        let mut present = false;
        let mut k: usize = 0;
        while k < out.len() && !present
            invariant
                j < args@.len(),
                k <= out@.len(),
                present ==> exists|m: int|
                    0 <= m < out@.len() && (#[trigger] out@[m])@ == args@[j as int]@,
                !present ==> forall|m: int|
                    0 <= m < k ==> (#[trigger] out@[m])@ != args@[j as int]@,
            decreases out@.len() - k,
        {
            if str_eq(out[k].as_str(), args[j].as_str()) {
                present = true;
            }
            k += 1;
        }
        if !present {
            let ghost pre = out@;
            let new = args[j].clone();
            let mut pos: usize = 0;
            while pos < out.len() && !str_le_exec(new.as_str(), out[pos].as_str())
                invariant
                    pos <= out@.len(),
                    forall|m: int| 0 <= m < pos ==> !str_le(new@, (#[trigger] out@[m])@),
                decreases out@.len() - pos,
            {
                pos += 1;
            }
            proof {
                assert forall|m: int| 0 <= m < pos implies str_le(
                    (#[trigger] out@[m])@,
                    new@,
                ) by {
                    lemma_str_le_total(new@, out@[m]@);
                }
            }
            let ghost newt = new@;
            out.insert(pos, new);
            proof {
                assert(out@[pos as int]@ == newt);
                assert forall|k2: int| 0 <= k2 < out@.len() - 1 implies str_le(
                    (#[trigger] out@[k2])@,
                    out@[k2 + 1]@,
                ) by {
                    if k2 + 1 < pos {
                        assert(out@[k2] == pre[k2] && out@[k2 + 1] == pre[k2 + 1]);
                    } else if k2 + 1 == pos {
                        assert(out@[k2] == pre[k2]);
                    } else if k2 == pos {
                        if k2 + 1 <= out@.len() - 1 {
                            assert(out@[k2 + 1] == pre[k2]);
                        }
                    } else {
                        assert(out@[k2] == pre[k2 - 1] && out@[k2 + 1] == pre[k2]);
                    }
                }
                assert forall|m: int| 0 <= m < pre.len() implies out@[if m < pos {
                    m
                } else {
                    m + 1
                }] == #[trigger] pre[m] by {}
                assert forall|k2: int, m: int| 0 <= k2 < m < out@.len() implies (
                #[trigger] out@[k2])@ != (#[trigger] out@[m])@ by {
                    if k2 == pos {
                        let m0 = m - 1;
                        assert(out@[m] == pre[m0]);
                    } else if m == pos {
                        let k0 = k2;
                        assert(out@[k2] == pre[k0]);
                    } else {
                        let k0 = if k2 < pos {
                            k2
                        } else {
                            k2 - 1
                        };
                        let m0 = if m < pos {
                            m
                        } else {
                            m - 1
                        };
                        assert(out@[k2] == pre[k0] && out@[m] == pre[m0]);
                    }
                }
                assert forall|k2: int| 0 <= k2 < out@.len() implies exists|jj: int|
                    0 <= jj < args@.len() && (#[trigger] out@[k2])@ == args@[jj]@ by {
                    if k2 == pos {
                        assert(out@[k2]@ == args@[j as int]@);
                    } else {
                        let m = if k2 < pos {
                            k2
                        } else {
                            k2 - 1
                        };
                        assert(out@[k2] == pre[m]);
                        assert(exists|jj: int|
                            0 <= jj < args@.len() && (#[trigger] pre[m])@ == args@[jj]@);
                    }
                }
                assert(args_sound(out@, args@));
                assert forall|jj: int| 0 <= jj < j + 1 implies exists|k2: int|
                    0 <= k2 < out@.len() && (#[trigger] args@[jj])@ == out@[k2]@ by {
                    if jj == j {
                        assert(args@[jj]@ == out@[pos as int]@);
                    } else {
                        let k0 = choose|k2: int|
                            0 <= k2 < pre.len() && (#[trigger] args@[jj])@ == pre[k2]@;
                        let k1: int = if k0 < pos {
                            k0
                        } else {
                            k0 + 1
                        };
                        assert(out@[k1] == pre[k0]);
                    }
                }
                assert(args_complete(out@, args@, j + 1));
            }
        } else {
            proof {
                assert forall|jj: int| 0 <= jj < j + 1 implies exists|k2: int|
                    0 <= k2 < out@.len() && (#[trigger] args@[jj])@ == out@[k2]@ by {}
                assert(args_complete(out@, args@, j + 1));
            }
        }
        j += 1;
    }
    out
}

/// Whether a compose container belongs to a service's container name:
/// the exact name, or the name followed by a dash and a replica number.
pub open spec fn container_matches_service(cname: Seq<char>, candidate: Seq<char>) -> bool {
    ||| candidate == cname
    ||| {
        &&& candidate.len() > cname.len() + 1
        &&& starts_with(candidate, cname + seq!['-'])
        &&& forall|k: int|
            cname.len() + 1 <= k < candidate.len() ==> {
                let c = #[trigger] candidate[k];
                48 <= c as u32 <= 57
            }
    }
}

/// Whether the running container `candidate` belongs to the service
/// whose container name is `cname`, decided executably.
pub fn container_service_match(cname: &str, candidate: &str) -> (r: bool)
    ensures
        r == container_matches_service(cname@, candidate@),
{
    let n = cname.unicode_len();
    let m = candidate.unicode_len();
    if str_eq(cname, candidate) {
        return true;
    }
    if m == 0 || m - 1 <= n {
        proof {
            if starts_with(candidate@, cname@ + seq!['-']) {
                assert(candidate@.len() >= cname@.len() + 1);
            }
        }
        return false;
    }
    let mut k: usize = 0;
    while k < n
        invariant
            n == cname@.len(),
            m == candidate@.len(),
            m > n + 1,
            k <= n,
            forall|i: int| 0 <= i < k ==> candidate@[i] == cname@[i],
        decreases n - k,
    {
        if candidate.get_char(k) != cname.get_char(k) {
            proof {
                if starts_with(candidate@, cname@ + seq!['-']) {
                    assert(candidate@.subrange(0, n + 1)[k as int] == (cname@ + seq!['-'])[
                    k as int]);
                }
                assert(!container_matches_service(cname@, candidate@));
            }
            return false;
        }
        k += 1;
    }
    if candidate.get_char(n) != '-' {
        proof {
            if starts_with(candidate@, cname@ + seq!['-']) {
                assert(candidate@.subrange(0, n + 1)[n as int] == (cname@ + seq!['-'])[n as int]);
            }
            assert(!container_matches_service(cname@, candidate@));
        }
        return false;
    }
    let mut i: usize = n + 1;
    while i < m
        invariant
            n == cname@.len(),
            m == candidate@.len(),
            m > n + 1,
            n + 1 <= i <= m,
            forall|k2: int| 0 <= k2 < n ==> candidate@[k2] == cname@[k2],
            candidate@[n as int] == '-',
            forall|k2: int|
                n + 1 <= k2 < i ==> {
                    let c = #[trigger] candidate@[k2];
                    48 <= c as u32 <= 57
                },
        decreases m - i,
    {
        let c = candidate.get_char(i) as u32;
        if c < 48 || c > 57 {
            proof {
                assert(!container_matches_service(cname@, candidate@));
            }
            return false;
        }
        i += 1;
    }
    proof {
        assert(candidate@.subrange(0, n + 1) =~= cname@ + seq!['-']);
        assert(starts_with(candidate@, cname@ + seq!['-']));
    }
    true
}

/// A deployment as the listing shows it: its name and whether a newer
/// image is available.
#[derive(Debug)]
pub struct DeploymentListEntry {
    pub name: String,
    pub update_available: bool,
}

impl Clone for DeploymentListEntry {
    /// A clone carries the same entry.
    fn clone(&self) -> (res: DeploymentListEntry)
        ensures
            res == *self,
    {
        DeploymentListEntry {
            name: self.name.clone(),
            update_available: self.update_available,
        }
    }
}

/// The listing filter: with the flag off, everything; with it on, the
/// deployments with an update available, in listing order.
pub open spec fn spec_update_available_filter(
    items: Seq<DeploymentListEntry>,
    only: bool,
) -> Seq<DeploymentListEntry>
    decreases items.len(),
{
    if !only {
        items
    } else if items.len() == 0 {
        items
    } else {
        let rest = spec_update_available_filter(items.skip(1), only);
        if items[0].update_available {
            seq![items[0]] + rest
        } else {
            rest
        }
    }
}

/// Filter a deployment listing by the update-available flag.
pub fn filter_update_available(items: &Vec<DeploymentListEntry>, only: bool) -> (r: Vec<
    DeploymentListEntry,
>)
    ensures
        r@ == spec_update_available_filter(items@, only),
{
    if !only {
        let mut out: Vec<DeploymentListEntry> = Vec::new();
        let mut i: usize = 0;
        while i < items.len()
            invariant
                i <= items@.len(),
                out@ == items@.take(i as int),
            decreases items@.len() - i,
        {
            let entry = items[i].clone();
            out.push(entry);
            i += 1;
            proof {
                assert(out@ =~= items@.take(i as int));
            }
        }
        proof {
            assert(items@.take(items@.len() as int) =~= items@);
        }
        out
    } else {
        let mut out: Vec<DeploymentListEntry> = Vec::new();
        let mut i: usize = 0;
        proof {
            assert(items@.skip(0) =~= items@);
            assert(out@ + spec_update_available_filter(items@, only)
                =~= spec_update_available_filter(items@, only));
        }
        while i < items.len()
            invariant
                only,
                i <= items@.len(),
                out@ + spec_update_available_filter(items@.skip(i as int), only)
                    == spec_update_available_filter(items@, only),
            decreases items@.len() - i,
        {
            let ghost tail = items@.skip(i as int);
            let ghost pre = out@;
            proof {
                assert(tail[0] == items@[i as int]);
                assert(tail.skip(1) =~= items@.skip(i + 1));
            }
            if items[i].update_available {
                let entry = items[i].clone();
                out.push(entry);
            }
            i += 1;
            proof {
                assert(out@ + spec_update_available_filter(items@.skip(i as int), only)
                    =~= pre + spec_update_available_filter(tail, only));
            }
        }
        proof {
            assert(items@.skip(items@.len() as int) =~= Seq::<DeploymentListEntry>::empty());
            assert(out@ + spec_update_available_filter(
                items@.skip(items@.len() as int),
                only,
            ) =~= out@);
        }
        out
    }
}

} // verus!
