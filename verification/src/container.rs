//! Container-engine command construction and the stop-flag compatibility
//! rule.
//!
//! The agent drives containers through shell commands. Stopping may carry
//! a termination signal, but older engines reject `--signal`: when the
//! first attempt's stderr says so, the stop is retried without the flag
//! and the final log's stderr is prefixed with a note. Batch operations
//! over all containers skip any container labelled to be left alone.

use vstd::prelude::*;

use crate::text::{contains_seq, int_str, starts_with};
use crate::update::Log;

verus! {

/// A lifecycle verb applied to one container.
#[derive(Clone, Copy, PartialEq, Eq, Structural, Debug)]
pub enum ContainerVerb {
    Start,
    Restart,
    Pause,
    Unpause,
}

/// The command word for a verb.
pub open spec fn verb_word(v: ContainerVerb) -> Seq<char> {
    match v {
        ContainerVerb::Start => "start"@,
        ContainerVerb::Restart => "restart"@,
        ContainerVerb::Pause => "pause"@,
        ContainerVerb::Unpause => "unpause"@,
    }
}

/// The command that applies a verb to a container.
pub open spec fn spec_verb_command(v: ContainerVerb, name: Seq<char>) -> Seq<char> {
    "docker "@ + verb_word(v) + " "@ + name
}

/// Builds the command that applies a verb to a container.
pub fn verb_command(v: ContainerVerb, name: &str) -> (r: String)
    ensures
        r@ == spec_verb_command(v, name@),
{
    let mut out = String::new();
    out.append("docker ");
    match v {
        ContainerVerb::Start => out.append("start"),
        ContainerVerb::Restart => out.append("restart"),
        ContainerVerb::Pause => out.append("pause"),
        ContainerVerb::Unpause => out.append("unpause"),
    }
    out.append(" ");
    out.append(name);
    out
}

/// The stop command: `docker stop`, the signal flag when one is given,
/// the wait time when one is given, then the container name.
pub open spec fn spec_stop_command(
    name: Seq<char>,
    signal: Option<Seq<char>>,
    time: Option<int>,
) -> Seq<char> {
    "docker stop "@ + (match signal {
        Option::Some(s) => "--signal "@ + s + " "@,
        Option::None => Seq::empty(),
    }) + (match time {
        Option::Some(t) => "-t "@ + int_str(t) + " "@,
        Option::None => Seq::empty(),
    }) + name
}

/// Builds the stop command for a container.
pub fn stop_command(name: &str, signal: &Option<String>, time: &Option<i32>) -> (r: String)
    ensures
        r@ == spec_stop_command(
            name@,
            match signal {
                Option::Some(s) => Option::Some(s@),
                Option::None => Option::None,
            },
            match time {
                Option::Some(t) => Option::Some(*t as int),
                Option::None => Option::None,
            },
        ),
{
    let mut out = String::new();
    out.append("docker stop ");
    match signal {
        Option::Some(s) => {
            out.append("--signal ");
            out.append(s.as_str());
            out.append(" ");
        }
        Option::None => {}
    }
    match time {
        Option::Some(t) => {
            out.append("-t ");
            let ts = crate::text::i64_string(*t as i64);
            out.append(ts.as_str());
            out.append(" ");
        }
        Option::None => {}
    }
    out.append(name);
    proof {
        assert(out@ =~= spec_stop_command(
            name@,
            match signal {
                Option::Some(s) => Option::Some(s@),
                Option::None => Option::None,
            },
            match time {
                Option::Some(t) => Option::Some(*t as int),
                Option::None => Option::None,
            },
        ));
    }
    out
}

/// The stop-and-remove command: the stop command chained with removal.
pub open spec fn spec_remove_command(
    name: Seq<char>,
    signal: Option<Seq<char>>,
    time: Option<int>,
) -> Seq<char> {
    spec_stop_command(name, signal, time) + " && docker container rm "@ + name
}

/// Builds the stop-and-remove command for a container.
pub fn remove_command(name: &str, signal: &Option<String>, time: &Option<i32>) -> (r: String)
    ensures
        r@ == spec_remove_command(
            name@,
            match signal {
                Option::Some(s) => Option::Some(s@),
                Option::None => Option::None,
            },
            match time {
                Option::Some(t) => Option::Some(*t as int),
                Option::None => Option::None,
            },
        ),
{
    let stop = stop_command(name, signal, time);
    let mut out = stop;
    out.append(" && docker container rm ");
    out.append(name);
    out
}

/// Whether a stop attempt's stderr shows the engine rejected the signal
/// flag, so the stop must be retried without it.
pub fn needs_signal_retry(log: &Log) -> (r: bool)
    ensures
        r == contains_seq(log.stderr@, "unknown flag: --signal"@),
{
    crate::text::contains_str(log.stderr.as_str(), "unknown flag: --signal")
}

/// The stderr of a retried stop: the old-engine note, then the retry's
/// own stderr after a blank line, when there is any.
pub open spec fn spec_old_docker_stderr(stderr: Seq<char>) -> Seq<char> {
    if stderr.len() == 0 {
        "old docker version: unable to use --signal flag"@
    } else {
        "old docker version: unable to use --signal flag"@ + "\n\n"@ + stderr
    }
}

/// Rewrites a retried stop's stderr with the old-engine note.
pub fn old_docker_stderr(stderr: &str) -> (r: String)
    ensures
        r@ == spec_old_docker_stderr(stderr@),
        starts_with(r@, "old docker version: unable to use --signal flag"@),
{
    let mut out = String::new();
    out.append("old docker version: unable to use --signal flag");
    if stderr.unicode_len() > 0 {
        out.append("\n\n");
        out.append(stderr);
    }
    proof {
        let note = "old docker version: unable to use --signal flag"@;
        assert(out@.subrange(0, note.len() as int) =~= note);
    }
    out
}

/// The outcome of a stop (or stop-and-remove) given the first attempt's
/// log and, when the engine rejected the signal flag, the retry's log:
/// an engine that takes the flag answers with the first log untouched;
/// an old engine's retry answers with the retry's log, its stderr
/// prefixed by the note.
pub fn resolve_stop_attempts(first: Log, second: Option<Log>) -> (r: Log)
    requires
        contains_seq(first.stderr@, "unknown flag: --signal"@) <==> second is Some,
    ensures
        !contains_seq(first.stderr@, "unknown flag: --signal"@) ==> r == first,
        contains_seq(first.stderr@, "unknown flag: --signal"@) ==> {
            let retry = second->Some_0;
            &&& r.stderr@ == spec_old_docker_stderr(retry.stderr@)
            &&& starts_with(r.stderr@, "old docker version: unable to use --signal flag"@)
            &&& r.stage == retry.stage
            &&& r.command == retry.command
            &&& r.stdout == retry.stdout
            &&& r.success == retry.success
        },
{
    if needs_signal_retry(&first) {
        match second {
            Option::Some(retry) => {
                let stderr = old_docker_stderr(retry.stderr.as_str());
                Log {
                    stage: retry.stage,
                    command: retry.command,
                    stdout: retry.stdout,
                    stderr,
                    success: retry.success,
                    start_ts: retry.start_ts,
                    end_ts: retry.end_ts,
                }
            }
            Option::None => first,
        }
    } else {
        first
    }
}

/// A container as the host lists it: its name and its label keys.
#[derive(Debug)]
pub struct ContainerListItem {
    pub name: String,
    pub label_keys: Vec<String>,
}

/// The label that excludes a container from batch operations.
pub open spec fn skip_label() -> Seq<char> {
    "komodo.skip"@
}

/// The container carries the skip label.
pub open spec fn has_skip_label(c: ContainerListItem) -> bool {
    exists|k: int| 0 <= k < c.label_keys@.len() && (#[trigger] c.label_keys@[k])@ == skip_label()
}

/// The names of the containers a batch operation acts on: every listed
/// container without the skip label, in listing order.
pub open spec fn spec_batch_names(cs: Seq<ContainerListItem>) -> Seq<Seq<char>>
    decreases cs.len(),
{
    if cs.len() == 0 {
        Seq::empty()
    } else {
        let rest = spec_batch_names(cs.skip(1));
        if has_skip_label(cs[0]) {
            rest
        } else {
            seq![cs[0].name@] + rest
        }
    }
}

/// Selects the containers a batch operation acts on, skipping any with
/// the skip label, keeping listing order.
pub fn batch_names(cs: &Vec<ContainerListItem>) -> (r: Vec<String>)
    ensures
        r@.map_values(|n: String| n@) == spec_batch_names(cs@),
{
    let mut out: Vec<String> = Vec::new();
    let mut i: usize = 0;
    proof {
        assert(cs@.skip(0) =~= cs@);
        assert(out@.map_values(|n: String| n@) + spec_batch_names(cs@) =~= spec_batch_names(
            cs@,
        ));
    }
    while i < cs.len()
        invariant
            i <= cs@.len(),
            out@.map_values(|n: String| n@) + spec_batch_names(cs@.skip(i as int))
                == spec_batch_names(cs@),
        decreases cs@.len() - i,
    {
        let ghost tail = cs@.skip(i as int);
        let ghost pre = out@;
        let mut skip_this = false;
        let mut k: usize = 0;
        while k < cs[i].label_keys.len() && !skip_this
            invariant
                i < cs@.len(),
                k <= cs@[i as int].label_keys@.len(),
                skip_this ==> has_skip_label(cs@[i as int]),
                !skip_this ==> forall|m: int|
                    0 <= m < k ==> (#[trigger] cs@[i as int].label_keys@[m])@ != skip_label(),
            decreases cs@[i as int].label_keys@.len() - k,
        {
            if crate::text::str_eq(cs[i].label_keys[k].as_str(), "komodo.skip") {
                skip_this = true;
            }
            k += 1;
        }
        proof {
            assert(tail[0] == cs@[i as int]);
            assert(tail.skip(1) =~= cs@.skip(i + 1));
        }
        if !skip_this {
            let name = cs[i].name.clone();
            out.push(name);
            proof {
                assert(!has_skip_label(cs@[i as int]));
                assert(out@.map_values(|n: String| n@) =~= pre.map_values(|n: String| n@)
                    + seq![cs@[i as int].name@]);
            }
        }
        i += 1;
        proof {
            assert(out@.map_values(|n: String| n@) + spec_batch_names(cs@.skip(i as int))
                =~= pre.map_values(|n: String| n@) + spec_batch_names(tail));
        }
    }
    proof {
        assert(cs@.skip(cs@.len() as int) =~= Seq::<ContainerListItem>::empty());
        assert(out@.map_values(|n: String| n@) + spec_batch_names(
            cs@.skip(cs@.len() as int),
        ) =~= out@.map_values(|n: String| n@));
    }
    out
}

/// The ceiling on how many log lines one read may ask for.
pub open spec fn max_log_tail() -> int {
    5000
}

/// Clamp a requested tail to the ceiling.
pub fn clamp_tail(tail: u64) -> (r: u64)
    ensures
        r == if tail < 5000 {
            tail as int
        } else {
            5000
        },
{
    if tail < 5000 {
        tail
    } else {
        5000
    }
}

/// The container log command: the name, the clamped tail, and the
/// timestamp flag when asked for.
pub open spec fn spec_log_command(name: Seq<char>, tail: int, timestamps: bool) -> Seq<char> {
    "docker logs "@ + name + " --tail "@ + int_str(tail) + (if timestamps {
        " --timestamps"@
    } else {
        Seq::empty()
    })
}

/// Builds the container log command.
pub fn log_command(name: &str, tail: u64, timestamps: bool) -> (r: String)
    ensures
        r@ == spec_log_command(name@, tail as int, timestamps),
{
    let mut out = String::new();
    out.append("docker logs ");
    out.append(name);
    out.append(" --tail ");
    let ts = crate::text::u64_string(tail);
    out.append(ts.as_str());
    if timestamps {
        out.append(" --timestamps");
    }
    proof {
        assert(out@ =~= spec_log_command(name@, tail as int, timestamps));
    }
    out
}

/// How multiple search terms combine.
#[derive(Clone, Copy, PartialEq, Eq, Structural, Debug)]
pub enum SearchCombinator {
    And,
    Or,
}

/// `terms` joined by `sep`.
pub open spec fn joined(terms: Seq<Seq<char>>, sep: Seq<char>) -> Seq<char>
    decreases terms.len(),
{
    if terms.len() == 0 {
        Seq::empty()
    } else if terms.len() == 1 {
        terms[0]
    } else {
        terms[0] + sep + joined(terms.skip(1), sep)
    }
}

/// The grep invocation keyword, inverted or not.
pub open spec fn grep_word(invert: bool) -> Seq<char> {
    if invert {
        "grep -v '"@
    } else {
        "grep '"@
    }
}

/// The filter pipeline of a log search: terms that must all hold chain
/// one grep per term; terms where any suffices become one alternation.
pub open spec fn spec_grep_pipeline(
    terms: Seq<Seq<char>>,
    combinator: SearchCombinator,
    invert: bool,
) -> Seq<char> {
    match combinator {
        SearchCombinator::And => grep_word(invert) + joined(
            terms,
            seq!['\''] + " | "@ + grep_word(invert),
        ) + seq!['\''],
        SearchCombinator::Or => grep_word(invert) + joined(terms, "\\|"@) + seq!['\''],
    }
}

/// Joining one more term extends the joined text by the separator and
/// the term.
proof fn lemma_joined_step(terms: Seq<Seq<char>>, sep: Seq<char>, i: int)
    requires
        1 <= i < terms.len(),
    ensures
        joined(terms.take(i + 1), sep) == joined(terms.take(i), sep) + sep + terms[i],
    decreases i,
{
    let a = terms.take(i + 1);
    let b = terms.take(i);
    if i == 1 {
        assert(a.skip(1) =~= seq![terms[1]]);
        assert(a[0] == terms[0] && b[0] == terms[0]);
        assert(joined(a.skip(1), sep) == terms[1]);
        assert(b =~= seq![terms[0]]);
    } else {
        assert(a.skip(1) =~= terms.skip(1).take(i));
        assert(b.skip(1) =~= terms.skip(1).take(i - 1));
        lemma_joined_step(terms.skip(1), sep, i - 1);
        assert(terms.skip(1)[i - 1] == terms[i]);
        assert(a[0] == terms[0] && b[0] == terms[0]);
        assert(a.skip(1).len() >= 2 && b.skip(1).len() >= 1);
    }
}

/// Joins search terms with a separator.
fn join_terms(terms: &Vec<String>, sep: &str) -> (r: String)
    ensures
        r@ == joined(terms@.map_values(|t: String| t@), sep@),
{
    let ghost tview = terms@.map_values(|t: String| t@);
    let mut out = String::new();
    let mut i: usize = 0;
    if terms.len() == 0 {
        return out;
    }
    out.append(terms[0].as_str());
    i = 1;
    proof {
        assert(tview.take(1) =~= seq![tview[0]]);
        assert(out@ == joined(tview.take(1), sep@));
    }
    while i < terms.len()
        invariant
            tview == terms@.map_values(|t: String| t@),
            1 <= i <= terms@.len(),
            out@ == joined(tview.take(i as int), sep@),
        decreases terms@.len() - i,
    {
        proof {
            lemma_joined_step(tview, sep@, i as int);
        }
        out.append(sep);
        out.append(terms[i].as_str());
        i += 1;
    }
    proof {
        assert(tview.take(tview.len() as int) =~= tview);
    }
    out
}

/// Builds the filter pipeline of a log search.
pub fn grep_pipeline(terms: &Vec<String>, combinator: SearchCombinator, invert: bool) -> (r:
    String)
    ensures
        r@ == spec_grep_pipeline(terms@.map_values(|t: String| t@), combinator, invert),
{
    let mut out = String::new();
    if invert {
        out.append("grep -v '");
    } else {
        out.append("grep '");
    }
    match combinator {
        SearchCombinator::And => {
            let mut sep = String::new();
            sep.append("' | ");
            if invert {
                sep.append("grep -v '");
            } else {
                sep.append("grep '");
            }
            let ghost sepv = seq!['\''] + " | "@ + grep_word(invert);
            proof {
                reveal_strlit("' | ");
                reveal_strlit(" | ");
                reveal_strlit("'");
                assert(sep@ =~= sepv);
            }
            let body = join_terms(terms, sep.as_str());
            out.append(body.as_str());
        }
        SearchCombinator::Or => {
            let body = join_terms(terms, "\\|");
            proof {
                reveal_strlit("\\|");
            }
            out.append(body.as_str());
        }
    }
    out.append("'");
    proof {
        reveal_strlit("'");
        assert(out@ =~= spec_grep_pipeline(
            terms@.map_values(|t: String| t@),
            combinator,
            invert,
        ));
    }
    out
}

/// The log-search command: the capped log tail piped through the filter.
pub open spec fn spec_log_search_command(
    name: Seq<char>,
    terms: Seq<Seq<char>>,
    combinator: SearchCombinator,
    invert: bool,
    timestamps: bool,
) -> Seq<char> {
    "docker logs "@ + name + " --tail 5000"@ + (if timestamps {
        " --timestamps"@
    } else {
        Seq::empty()
    }) + " 2>&1 | "@ + spec_grep_pipeline(terms, combinator, invert)
}

/// Builds the log-search command.
pub fn log_search_command(
    name: &str,
    terms: &Vec<String>,
    combinator: SearchCombinator,
    invert: bool,
    timestamps: bool,
) -> (r: String)
    ensures
        r@ == spec_log_search_command(
            name@,
            terms@.map_values(|t: String| t@),
            combinator,
            invert,
            timestamps,
        ),
{
    let mut out = String::new();
    out.append("docker logs ");
    out.append(name);
    out.append(" --tail 5000");
    if timestamps {
        out.append(" --timestamps");
    }
    out.append(" 2>&1 | ");
    let pipeline = grep_pipeline(terms, combinator, invert);
    out.append(pipeline.as_str());
    proof {
        assert(out@ =~= spec_log_search_command(
            name@,
            terms@.map_values(|t: String| t@),
            combinator,
            invert,
            timestamps,
        ));
    }
    out
}

/// The prune command for stopped containers.
pub fn prune_containers_command() -> (r: String)
    ensures
        r@ == "docker container prune -f"@,
{
    "docker container prune -f".to_owned()
}

/// The command that renames a container.
pub open spec fn spec_rename_command(curr: Seq<char>, new_name: Seq<char>) -> Seq<char> {
    "docker rename "@ + curr + " "@ + new_name
}

/// Builds the rename command.
pub fn rename_command(curr: &str, new_name: &str) -> (r: String)
    ensures
        r@ == spec_rename_command(curr@, new_name@),
{
    let mut out = String::new();
    out.append("docker rename ");
    out.append(curr);
    out.append(" ");
    out.append(new_name);
    out
}

/// The command that creates a network, with a driver when one is named.
pub open spec fn spec_create_network_command(
    name: Seq<char>,
    driver: Option<Seq<char>>,
) -> Seq<char> {
    "docker network create "@ + (match driver {
        Option::Some(d) => "--driver "@ + d + " "@,
        Option::None => Seq::empty(),
    }) + name
}

/// Builds the network-create command.
pub fn create_network_command(name: &str, driver: &Option<String>) -> (r: String)
    ensures
        r@ == spec_create_network_command(
            name@,
            match driver {
                Option::Some(d) => Option::Some(d@),
                Option::None => Option::None,
            },
        ),
{
    let mut out = String::new();
    out.append("docker network create ");
    match driver {
        Option::Some(d) => {
            out.append("--driver ");
            out.append(d.as_str());
            out.append(" ");
        }
        Option::None => {}
    }
    out.append(name);
    proof {
        assert(out@ =~= spec_create_network_command(
            name@,
            match driver {
                Option::Some(d) => Option::Some(d@),
                Option::None => Option::None,
            },
        ));
    }
    out
}

/// The command that deletes a network.
pub fn delete_network_command(name: &str) -> (r: String)
    ensures
        r@ == "docker network rm "@ + name@,
{
    let mut out = String::new();
    out.append("docker network rm ");
    out.append(name);
    out
}

/// The prune command for unused networks.
pub fn prune_networks_command() -> (r: String)
    ensures
        r@ == "docker network prune -f"@,
{
    "docker network prune -f".to_owned()
}

} // verus!
