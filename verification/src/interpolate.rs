//! The variable/secret interpolator.
//!
//! Config text slots may hold `[[name]]` tokens, where a name is one or
//! more word characters. Expansion substitutes the named variable's value,
//! left to right, non-overlapping; a well-formed token whose name is not in
//! the map aborts the whole operation. Every substitution feeds two
//! replacer sets: one over all variables used, one over the secrets alone,
//! each mapping the substituted value back to a bracketed placeholder so
//! logs can be sanitised before anyone reads them.

use vstd::prelude::*;

use crate::text::{contains_seq, sanitized, str_eq};

verus! {

/// One entry of the vars-and-secrets map. Names are unique across
/// variables and secrets; secrets are flagged.
#[derive(Clone, Debug)]
pub struct VarEntry {
    pub name: String,
    pub value: String,
    pub secret: bool,
}

/// A sanitising substitution: every occurrence of `value` in a log is
/// replaced by `placeholder` before the log reaches a reader.
#[derive(Debug)]
pub struct Replacer {
    pub value: String,
    pub placeholder: String,
}

impl Clone for Replacer {
    /// A clone carries the same substitution.
    fn clone(&self) -> (res: Replacer)
        ensures
            res == *self,
    {
        Replacer { value: self.value.clone(), placeholder: self.placeholder.clone() }
    }
}

/// Interpolation failed on a well-formed token with this unknown name.
#[derive(Clone, Debug)]
pub struct UnknownVarError {
    pub name: String,
}

/// A name character: ASCII letter, digit, or underscore.
pub open spec fn is_word_char(c: char) -> bool {
    ||| (97 <= c as u32 && c as u32 <= 122)
    ||| (65 <= c as u32 && c as u32 <= 90)
    ||| (48 <= c as u32 && c as u32 <= 57)
    ||| c == '_'
}

/// Length of the maximal word-character prefix of `s`.
pub open spec fn word_run(s: Seq<char>) -> int
    decreases s.len(),
{
    if s.len() == 0 {
        0
    } else if is_word_char(s[0]) {
        1 + word_run(s.skip(1))
    } else {
        0
    }
}

/// `s` begins with a well-formed token `[[name]]`: the opener, a nonempty
/// word-character name, and the closer immediately after.
pub open spec fn head_token(s: Seq<char>) -> bool {
    let r = word_run(s.skip(2));
    &&& s.len() >= 4
    &&& s[0] == '['
    &&& s[1] == '['
    &&& r >= 1
    &&& 2 + r + 2 <= s.len()
    &&& s[2 + r] == ']'
    &&& s[2 + r + 1] == ']'
}

/// The name of the token `s` begins with.
pub open spec fn head_token_name(s: Seq<char>) -> Seq<char> {
    s.subrange(2, 2 + word_run(s.skip(2)))
}

/// Index of the first entry named `name`, or -1.
pub open spec fn lookup_idx(vars: Seq<VarEntry>, name: Seq<char>) -> int
    decreases vars.len(),
{
    if vars.len() == 0 {
        -1
    } else if vars[0].name@ == name {
        0
    } else {
        let r = lookup_idx(vars.skip(1), name);
        if r < 0 {
            -1
        } else {
            r + 1
        }
    }
}

/// The found index is in range and names the entry.
pub proof fn lemma_lookup_idx_valid(vars: Seq<VarEntry>, name: Seq<char>)
    ensures
        lookup_idx(vars, name) >= 0 ==> lookup_idx(vars, name) < vars.len()
            && vars[lookup_idx(vars, name)].name@ == name,
    decreases vars.len(),
{
    if vars.len() > 0 && vars[0].name@ != name {
        lemma_lookup_idx_valid(vars.skip(1), name);
    }
}

/// Every well-formed token in `s` names an entry of `vars`.
pub open spec fn interp_ok(s: Seq<char>, vars: Seq<VarEntry>) -> bool
    decreases s.len(),
{
    if head_token(s) {
        let r = word_run(s.skip(2));
        lookup_idx(vars, head_token_name(s)) >= 0 && interp_ok(s.skip(4 + r), vars)
    } else if s.len() == 0 {
        true
    } else {
        interp_ok(s.skip(1), vars)
    }
}

/// `s` with every well-formed token replaced by its entry's value. Only
/// meaningful when `interp_ok` holds: an unknown token aborts expansion.
pub open spec fn interp_text(s: Seq<char>, vars: Seq<VarEntry>) -> Seq<char>
    decreases s.len(),
{
    if head_token(s) {
        let r = word_run(s.skip(2));
        let idx = lookup_idx(vars, head_token_name(s));
        if idx >= 0 {
            vars[idx].value@ + interp_text(s.skip(4 + r), vars)
        } else {
            s
        }
    } else if s.len() == 0 {
        s
    } else {
        seq![s[0]] + interp_text(s.skip(1), vars)
    }
}

/// The indices of the entries some token of `s` substitutes.
pub open spec fn interp_used(s: Seq<char>, vars: Seq<VarEntry>) -> Set<int>
    decreases s.len(),
{
    if head_token(s) {
        let r = word_run(s.skip(2));
        let idx = lookup_idx(vars, head_token_name(s));
        if idx >= 0 {
            interp_used(s.skip(4 + r), vars).insert(idx)
        } else {
            Set::empty()
        }
    } else if s.len() == 0 {
        Set::empty()
    } else {
        interp_used(s.skip(1), vars)
    }
}

/// The name of the leftmost token that resolves to no entry. Meaningful
/// when `interp_ok` fails.
pub open spec fn first_unknown(s: Seq<char>, vars: Seq<VarEntry>) -> Seq<char>
    decreases s.len(),
{
    if head_token(s) {
        let r = word_run(s.skip(2));
        let idx = lookup_idx(vars, head_token_name(s));
        if idx >= 0 {
            first_unknown(s.skip(4 + r), vars)
        } else {
            head_token_name(s)
        }
    } else if s.len() == 0 {
        Seq::empty()
    } else {
        first_unknown(s.skip(1), vars)
    }
}

/// A run of word characters bounded by a non-word character (or the end)
/// is the maximal word run.
proof fn lemma_word_run_is(x: Seq<char>, r: int)
    requires
        0 <= r <= x.len(),
        forall|k: int| 0 <= k < r ==> is_word_char(#[trigger] x[k]),
        r == x.len() || !is_word_char(x[r]),
    ensures
        word_run(x) == r,
    decreases r,
{
    if r == 0 {
    } else {
        assert(is_word_char(x[0]));
        lemma_word_run_is(x.skip(1), r - 1);
    }
}

/// A name that matches no entry up to `idx` and matches at `idx` is found
/// there; one that matches nowhere is not found.
proof fn lemma_lookup_idx_is(vars: Seq<VarEntry>, name: Seq<char>, idx: int)
    requires
        0 <= idx <= vars.len(),
        forall|k: int| 0 <= k < idx ==> (#[trigger] vars[k].name)@ != name,
        idx < vars.len() ==> vars[idx].name@ == name,
    ensures
        idx < vars.len() ==> lookup_idx(vars, name) == idx,
        idx == vars.len() ==> lookup_idx(vars, name) == -1,
    decreases vars.len(),
{
    if vars.len() > 0 {
        if idx == 0 {
        } else {
            assert(vars[0].name@ != name);
            lemma_lookup_idx_is(vars.skip(1), name, idx - 1);
        }
    }
}

/// Looks `name` up in `vars`, returning the first index that matches.
fn lookup(vars: &Vec<VarEntry>, name: &str) -> (r: Option<usize>)
    ensures
        match r {
            Some(i) => lookup_idx(vars@, name@) == i as int,
            None => lookup_idx(vars@, name@) == -1,
        },
{
    let mut i: usize = 0;
    while i < vars.len()
        invariant
            i <= vars@.len(),
            forall|k: int| 0 <= k < i ==> (#[trigger] vars@[k].name)@ != name@,
        decreases vars@.len() - i,
    {
        if str_eq(vars[i].name.as_str(), name) {
            proof {
                lemma_lookup_idx_is(vars@, name@, i as int);
            }
            return Some(i);
        }
        i += 1;
    }
    proof {
        lemma_lookup_idx_is(vars@, name@, vars@.len() as int);
    }
    None
}

/// A word character, decided executably.
fn word_char(c: char) -> (r: bool)
    ensures
        r == is_word_char(c),
{
    let u = c as u32;
    (97 <= u && u <= 122) || (65 <= u && u <= 90) || (48 <= u && u <= 57) || c == '_'
}

/// Expand every `[[name]]` token of `s` from `vars`, left to right.
/// Returns the expanded text together with one flag per entry saying
/// whether some token substituted it; a well-formed token whose name is
/// unknown aborts with that name and it is the leftmost such.
pub fn interpolate(s: &str, vars: &Vec<VarEntry>) -> (r: Result<
    (String, Vec<bool>),
    UnknownVarError,
>)
    ensures
        r is Ok <==> interp_ok(s@, vars@),
        r matches Ok((t, used)) ==> t@ == interp_text(s@, vars@) && used@.len() == vars@.len()
            && forall|k: int|
            0 <= k < vars@.len() ==> used@[k] == interp_used(s@, vars@).contains(k),
        r matches Err(e) ==> e.name@ == first_unknown(s@, vars@),
{
    let n = s.unicode_len();
    let mut out = String::new();
    let mut used: Vec<bool> = Vec::new();
    let mut vi: usize = 0;
    while vi < vars.len()
        invariant
            used@.len() == vi,
            vi <= vars@.len(),
            forall|k: int| 0 <= k < vi ==> !used@[k],
        decreases vars@.len() - vi,
    {
        used.push(false);
        vi += 1;
    }
    let ghost mut acc: Set<int> = Set::empty();
    let mut i: usize = 0;
    proof {
        assert(s@.skip(0) =~= s@);
        assert(out@ + interp_text(s@, vars@) =~= interp_text(s@, vars@));
        assert(acc.union(interp_used(s@, vars@)) =~= interp_used(s@, vars@));
    }
    while i < n
        invariant
            n == s@.len(),
            i <= n,
            used@.len() == vars@.len(),
            interp_ok(s@, vars@) == interp_ok(s@.skip(i as int), vars@),
            !interp_ok(s@, vars@) ==> first_unknown(s@, vars@) == first_unknown(
                s@.skip(i as int),
                vars@,
            ),
            out@ + interp_text(s@.skip(i as int), vars@) == interp_text(s@, vars@),
            acc.union(interp_used(s@.skip(i as int), vars@)) == interp_used(s@, vars@),
            forall|k: int| 0 <= k < vars@.len() ==> used@[k] == acc.contains(k),
        decreases n - i,
    {
        let ghost tail = s@.skip(i as int);
        let ghost pre = out@;
        // recognise a token at the head of the remaining text
        let mut token_len: usize = 0;
        if s.get_char(i) == '[' && n - i > 1 && s.get_char(i + 1) == '[' {
            let mut j: usize = i + 2;
            while j < n && word_char(s.get_char(j))
                invariant
                    n == s@.len(),
                    i + 2 <= j <= n,
                    forall|k: int| i + 2 <= k < j ==> is_word_char(#[trigger] s@[k]),
                decreases n - j,
            {
                j += 1;
            }
            proof {
                assert forall|k: int| 0 <= k < j - i - 2 implies is_word_char(
                    #[trigger] tail.skip(2)[k],
                ) by {
                    assert(tail.skip(2)[k] == s@[i + 2 + k]);
                }
                if j < n {
                    assert(tail.skip(2)[j - i - 2] == s@[j as int]);
                }
                lemma_word_run_is(tail.skip(2), j - i - 2);
            }
            if j > i + 2 && n - j > 1 && s.get_char(j) == ']' && s.get_char(j + 1) == ']' {
                proof {
                    assert(tail[0] == s@[i as int]);
                    assert(tail[1] == s@[i + 1]);
                    assert(tail[2 + (j - i - 2)] == s@[j as int]);
                    assert(tail[2 + (j - i - 2) + 1] == s@[j + 1]);
                    assert(head_token(tail));
                }
                token_len = j + 2 - i;
            } else {
                proof {
                    if j > i + 2 {
                        if 2 + (j - i - 2) + 2 <= tail.len() {
                            assert(tail[2 + (j - i - 2)] == s@[j as int]);
                            assert(tail[2 + (j - i - 2) + 1] == s@[j + 1]);
                        }
                    }
                    assert(!head_token(tail));
                }
            }
        } else {
            proof {
                if head_token(tail) {
                    assert(tail[0] == s@[i as int]);
                    assert(tail[1] == s@[i + 1]);
                }
                assert(!head_token(tail));
            }
        }
        if token_len > 0 {
            let ghost r = word_run(tail.skip(2));
            let name = s.substring_char(i + 2, i + token_len - 2);
            proof {
                assert(name@ =~= head_token_name(tail));
            }
            match lookup(vars, name) {
                Some(idx) => {
                    proof {
                        lemma_lookup_idx_valid(vars@, name@);
                    }
                    let ghost acc0 = acc;
                    out.append(vars[idx].value.as_str());
                    used.set(idx, true);
                    proof {
                        acc = acc.insert(idx as int);
                    }
                    i += token_len;
                    proof {
                        assert(tail.skip(4 + r) =~= s@.skip(i as int));
                        assert(out@ + interp_text(s@.skip(i as int), vars@) =~= pre
                            + interp_text(tail, vars@));
                        assert(interp_used(tail, vars@) == interp_used(
                            s@.skip(i as int),
                            vars@,
                        ).insert(idx as int));
                        assert(acc.union(interp_used(s@.skip(i as int), vars@))
                            =~= acc0.union(interp_used(tail, vars@)));
                    }
                }
                None => {
                    proof {
                        assert(first_unknown(tail, vars@) == name@);
                    }
                    return Err(UnknownVarError { name: name.to_owned() });
                }
            }
        } else {
            let c = s.substring_char(i, i + 1);
            out.append(c);
            i += 1;
            proof {
                assert(tail.skip(1) =~= s@.skip(i as int));
                assert(c@ =~= seq![tail[0]]);
                assert(out@ + interp_text(s@.skip(i as int), vars@) =~= pre + interp_text(
                    tail,
                    vars@,
                ));
            }
        }
    }
    proof {
        assert(s@.skip(n as int) =~= Seq::<char>::empty());
        assert(out@ + interp_text(s@.skip(n as int), vars@) =~= out@);
        assert(acc.union(interp_used(s@.skip(n as int), vars@)) =~= acc);
    }
    Ok((out, used))
}

/// One flag per entry of `vars`, set exactly for the entries some token
/// of `s` substitutes.
pub open spec fn used_flags(s: Seq<char>, vars: Seq<VarEntry>) -> Seq<bool> {
    Seq::new(vars.len(), |k: int| interp_used(s, vars).contains(k))
}

/// Appends clones of `src`'s replacers to `dst`.
pub fn extend_replacers(dst: &mut Vec<Replacer>, src: &Vec<Replacer>)
    ensures
        final(dst)@ == old(dst)@ + src@,
{
    let mut i: usize = 0;
    proof {
        assert(dst@ =~= old(dst)@ + src@.take(0));
    }
    while i < src.len()
        invariant
            i <= src@.len(),
            dst@ == old(dst)@ + src@.take(i as int),
        decreases src@.len() - i,
    {
        let rep = src[i].clone();
        dst.push(rep);
        i += 1;
        proof {
            assert(dst@ =~= old(dst)@ + src@.take(i as int));
        }
    }
    proof {
        assert(src@.take(src@.len() as int) =~= src@);
    }
}

/// The placeholder that stands in for the value of the entry named `name`:
/// the name in single brackets.
pub open spec fn placeholder_of(name: Seq<char>) -> Seq<char> {
    seq!['['] + name + seq![']']
}

/// Builds the bracketed placeholder for `name`.
pub fn make_placeholder(name: &str) -> (r: String)
    ensures
        r@ == placeholder_of(name@),
{
    let mut out = String::new();
    out.append("[");
    out.append(name);
    out.append("]");
    proof {
        reveal_strlit("[");
        reveal_strlit("]");
        assert(out@ =~= placeholder_of(name@));
    }
    out
}

/// The replacer pairs owed for the used entries of `vars` from index `i`
/// on — every used entry when `secrets_only` is false, the used secrets
/// alone when it is true — as (value, placeholder), in entry order.
pub open spec fn replacers_from(
    vars: Seq<VarEntry>,
    used: Seq<bool>,
    secrets_only: bool,
    i: int,
) -> Seq<(Seq<char>, Seq<char>)>
    decreases vars.len() - i,
{
    if i < 0 || i >= vars.len() {
        Seq::empty()
    } else {
        let rest = replacers_from(vars, used, secrets_only, i + 1);
        if i < used.len() && used[i] && (vars[i].secret || !secrets_only) {
            seq![(vars[i].value@, placeholder_of(vars[i].name@))] + rest
        } else {
            rest
        }
    }
}

/// The (value, placeholder) pairs a replacer list denotes.
pub open spec fn replacer_pairs(reps: Seq<Replacer>) -> Seq<(Seq<char>, Seq<char>)> {
    reps.map_values(|rep: Replacer| (rep.value@, rep.placeholder@))
}

/// Builds the replacer list for the used entries of `vars`: all of them,
/// or the secrets alone.
pub fn build_replacers(vars: &Vec<VarEntry>, used: &Vec<bool>, secrets_only: bool) -> (r: Vec<
    Replacer,
>)
    requires
        used@.len() == vars@.len(),
    ensures
        replacer_pairs(r@) == replacers_from(vars@, used@, secrets_only, 0),
{
    let mut out: Vec<Replacer> = Vec::new();
    let mut i: usize = 0;
    while i < vars.len()
        invariant
            used@.len() == vars@.len(),
            i <= vars@.len(),
            replacer_pairs(out@) + replacers_from(vars@, used@, secrets_only, i as int)
                == replacers_from(vars@, used@, secrets_only, 0),
        decreases vars@.len() - i,
    {
        let ghost pre = out@;
        if used[i] && (vars[i].secret || !secrets_only) {
            let rep = Replacer {
                value: vars[i].value.clone(),
                placeholder: make_placeholder(vars[i].name.as_str()),
            };
            let ghost rpair = (rep.value@, rep.placeholder@);
            out.push(rep);
            proof {
                assert(rpair == (vars@[i as int].value@, placeholder_of(
                    vars@[i as int].name@,
                )));
                assert forall|k: int| 0 <= k < out@.len() implies #[trigger] replacer_pairs(
                    out@,
                )[k] == (replacer_pairs(pre) + seq![rpair])[k] by {
                    if k < pre.len() {
                        assert(out@[k] == pre[k]);
                    } else {
                        assert(out@[k] == out@.last());
                    }
                }
                assert(replacer_pairs(out@) =~= replacer_pairs(pre) + seq![rpair]);
                assert(replacer_pairs(out@) + replacers_from(
                    vars@,
                    used@,
                    secrets_only,
                    i + 1,
                ) =~= replacer_pairs(pre) + replacers_from(
                    vars@,
                    used@,
                    secrets_only,
                    i as int,
                ));
            }
        } else {
            proof {
                assert(replacers_from(vars@, used@, secrets_only, i as int)
                    == replacers_from(vars@, used@, secrets_only, i + 1));
            }
        }
        i += 1;
    }
    out
}

/// The text of every replacer in `reps` applied to `s` in order, each
/// replacing all occurrences of its value with its placeholder.
pub open spec fn applied_replacers(s: Seq<char>, reps: Seq<(Seq<char>, Seq<char>)>) -> Seq<char>
    decreases reps.len(),
{
    if reps.len() == 0 {
        s
    } else {
        applied_replacers(sanitized(s, reps[0].0, reps[0].1), reps.skip(1))
    }
}

/// Every replacer value is nonempty, so each substitution is meaningful.
pub open spec fn replacers_wf(reps: Seq<(Seq<char>, Seq<char>)>) -> bool {
    forall|k: int| 0 <= k < reps.len() ==> (#[trigger] reps[k]).0.len() >= 1
}

/// Applies each replacer of `reps` to `s`, in order.
pub fn apply_replacers(s: &str, reps: &Vec<Replacer>) -> (r: String)
    requires
        replacers_wf(replacer_pairs(reps@)),
    ensures
        r@ == applied_replacers(s@, replacer_pairs(reps@)),
{
    let ghost whole = replacer_pairs(reps@);
    let mut out = String::new();
    out.append(s);
    let mut i: usize = 0;
    proof {
        assert(out@ == s@);
        assert(whole.skip(0) =~= whole);
    }
    while i < reps.len()
        invariant
            whole == replacer_pairs(reps@),
            replacers_wf(whole),
            i <= reps@.len(),
            applied_replacers(out@, whole.skip(i as int)) == applied_replacers(s@, whole),
        decreases reps@.len() - i,
    {
        let ghost before = out@;
        proof {
            assert(whole[i as int] == (reps@[i as int].value@, reps@[i as int].placeholder@));
            assert(whole[i as int].0.len() >= 1);
        }
        let next = crate::text::replace_all(
            out.as_str(),
            reps[i].value.as_str(),
            reps[i].placeholder.as_str(),
        );
        out = next;
        i += 1;
        proof {
            assert(whole.skip(i - 1)[0] == whole[i - 1]);
            assert(out@ == sanitized(before, whole[i - 1].0, whole[i - 1].1));
            assert(whole.skip(i - 1).skip(1) =~= whole.skip(i as int));
            assert(applied_replacers(before, whole.skip(i - 1)) == applied_replacers(
                out@,
                whole.skip(i as int),
            ));
        }
    }
    proof {
        assert(whole.skip(reps@.len() as int) =~= Seq::<(Seq<char>, Seq<char>)>::empty());
    }
    out
}

/// The text of the update log appended after expansion: for each
/// substituted variable a (name, placeholder) pair, for each substituted
/// secret its name alone — never a value.
pub open spec fn interp_log_text(vars: Seq<VarEntry>, used: Seq<bool>, i: int) -> Seq<char>
    decreases vars.len() - i,
{
    if i < 0 || i >= vars.len() {
        Seq::empty()
    } else {
        let line = if i < used.len() && used[i] {
            if vars[i].secret {
                "secret: "@ + vars[i].name@ + "\n"@
            } else {
                "variable: "@ + vars[i].name@ + " -> "@ + placeholder_of(vars[i].name@)
                    + "\n"@
            }
        } else {
            Seq::empty()
        };
        line + interp_log_text(vars, used, i + 1)
    }
}

/// The log appended to an update after expansion, listing each
/// substituted variable with its placeholder and each substituted secret
/// by name. Values never appear: the log's text is a function of names
/// and flags alone.
pub fn interpolation_log(vars: &Vec<VarEntry>, used: &Vec<bool>, now: crate::update::Timestamp)
    -> (log: crate::update::Log)
    requires
        used@.len() == vars@.len(),
    ensures
        log.stage@ == "interpolate variables"@,
        log.stdout@ == interp_log_text(vars@, used@, 0),
        log.success,
        log.start_ts == now,
        log.end_ts == now,
{
    let mut out = String::new();
    let mut i: usize = 0;
    proof {
        assert(out@ + interp_log_text(vars@, used@, 0) =~= interp_log_text(vars@, used@, 0));
    }
    while i < vars.len()
        invariant
            used@.len() == vars@.len(),
            i <= vars@.len(),
            out@ + interp_log_text(vars@, used@, i as int) == interp_log_text(vars@, used@, 0),
        decreases vars@.len() - i,
    {
        let ghost pre = out@;
        if used[i] {
            if vars[i].secret {
                out.append("secret: ");
                out.append(vars[i].name.as_str());
            } else {
                out.append("variable: ");
                out.append(vars[i].name.as_str());
                out.append(" -> ");
                let ph = make_placeholder(vars[i].name.as_str());
                out.append(ph.as_str());
            }
            out.append("\n");
        }
        i += 1;
        proof {
            assert(out@ + interp_log_text(vars@, used@, i as int) =~= pre + interp_log_text(
                vars@,
                used@,
                i - 1,
            ));
        }
    }
    crate::update::Log::simple("interpolate variables", out, now)
}

/// The sanitiser's guarantee, over a whole replacer list: a value `w` that
/// some replacer replaces — or that never occurred to begin with — does
/// not occur in the output, provided `w` avoids every placeholder's
/// boundary characters and is part of no placeholder. In particular no
/// secret value survives into a sanitised log.
pub proof fn lemma_applied_replacers_free_of(
    s: Seq<char>,
    reps: Seq<(Seq<char>, Seq<char>)>,
    w: Seq<char>,
)
    requires
        w.len() >= 1,
        replacers_wf(reps),
        forall|k: int| 0 <= k < reps.len() ==> (#[trigger] reps[k]).1.len() >= 1,
        forall|k: int| 0 <= k < reps.len() ==> !contains_seq((#[trigger] reps[k]).1, w),
        forall|k: int, c: int|
            0 <= k < reps.len() && 0 <= c < w.len() ==> #[trigger] w[c] != (
            #[trigger] reps[k]).1[0],
        forall|k: int, c: int|
            0 <= k < reps.len() && 0 <= c < w.len() ==> #[trigger] w[c] != (
            #[trigger] reps[k]).1[(reps[k].1.len() - 1) as int],
        (exists|j: int| 0 <= j < reps.len() && (#[trigger] reps[j]).0 == w) || !contains_seq(
            s,
            w,
        ),
    ensures
        !contains_seq(applied_replacers(s, reps), w),
    decreases reps.len(),
{
    if reps.len() == 0 {
        let j = choose|j: int| 0 <= j < reps.len() && (#[trigger] reps[j]).0 == w;
        assert(!contains_seq(s, w));
    } else {
        let v = reps[0].0;
        let p = reps[0].1;
        let s1 = sanitized(s, v, p);
        if w == v || !contains_seq(s, w) {
            crate::text::lemma_sanitized_free_of(s, v, p, w);
            assert(!contains_seq(s1, w));
            lemma_applied_replacers_free_of(s1, reps.skip(1), w);
        } else {
            let j = choose|j: int| 0 <= j < reps.len() && (#[trigger] reps[j]).0 == w;
            assert(reps.skip(1)[j - 1].0 == w);
            lemma_applied_replacers_free_of(s1, reps.skip(1), w);
        }
    }
}

/// Every entry of the replacer list built from `vars` is the (value,
/// bracketed-name) pair of some used entry.
pub proof fn lemma_replacers_from_shape(
    vars: Seq<VarEntry>,
    used: Seq<bool>,
    secrets_only: bool,
    i: int,
    j: int,
)
    requires
        0 <= j < replacers_from(vars, used, secrets_only, i).len(),
    ensures
        exists|k: int|
            #![trigger vars[k]]
            i <= k < vars.len() && k < used.len() && used[k] && (vars[k].secret || !secrets_only)
                && replacers_from(vars, used, secrets_only, i)[j] == (
            vars[k].value@,
            placeholder_of(vars[k].name@),
            ),
    decreases vars.len() - i,
{
    if 0 <= i < vars.len() {
        let rest = replacers_from(vars, used, secrets_only, i + 1);
        if i < used.len() && used[i] && (vars[i].secret || !secrets_only) {
            if j == 0 {
                assert(replacers_from(vars, used, secrets_only, i)[j] == (
                    vars[i].value@,
                    placeholder_of(vars[i].name@),
                ));
            } else {
                lemma_replacers_from_shape(vars, used, secrets_only, i + 1, j - 1);
            }
        } else {
            lemma_replacers_from_shape(vars, used, secrets_only, i + 1, j);
        }
    }
}

/// A used entry contributes its (value, bracketed-name) pair to the
/// replacer list.
pub proof fn lemma_replacers_from_contains(
    vars: Seq<VarEntry>,
    used: Seq<bool>,
    secrets_only: bool,
    i: int,
    k: int,
)
    requires
        0 <= i <= k < vars.len(),
        k < used.len(),
        used[k],
        vars[k].secret || !secrets_only,
    ensures
        exists|j: int|
            0 <= j < replacers_from(vars, used, secrets_only, i).len()
                && #[trigger] replacers_from(vars, used, secrets_only, i)[j] == (
            vars[k].value@,
            placeholder_of(vars[k].name@),
            ),
    decreases k - i,
{
    let whole = replacers_from(vars, used, secrets_only, i);
    let rest = replacers_from(vars, used, secrets_only, i + 1);
    if i == k {
        assert(whole[0] == (vars[k].value@, placeholder_of(vars[k].name@)));
    } else {
        lemma_replacers_from_contains(vars, used, secrets_only, i + 1, k);
        let j0 = choose|j: int|
            0 <= j < rest.len() && #[trigger] rest[j] == (
                vars[k].value@,
                placeholder_of(vars[k].name@),
            );
        if i < used.len() && used[i] && (vars[i].secret || !secrets_only) {
            assert(whole[j0 + 1] == rest[j0]);
        } else {
            assert(whole[j0] == rest[j0]);
        }
    }
}

/// The secret-sanitising law: a secret the interpolator substituted does
/// not survive into a log sanitised with the secret replacers. It holds
/// for every secret value that is nonempty, contains neither square
/// bracket, and sits inside no substituted entry's bracketed name.
pub proof fn lemma_secret_absent_from_sanitised_log(
    s: Seq<char>,
    vars: Seq<VarEntry>,
    used: Seq<bool>,
    k: int,
)
    requires
        used.len() == vars.len(),
        0 <= k < vars.len(),
        used[k],
        vars[k].secret,
        vars[k].value@.len() >= 1,
        forall|c: int| 0 <= c < vars[k].value@.len() ==> #[trigger] vars[k].value@[c] != '[',
        forall|c: int| 0 <= c < vars[k].value@.len() ==> #[trigger] vars[k].value@[c] != ']',
        forall|m: int|
            0 <= m < vars.len() ==> vars[m].value@.len() >= 1,
        forall|m: int|
            0 <= m < vars.len() ==> !crate::text::contains_seq(
                placeholder_of((#[trigger] vars[m]).name@),
                vars[k].value@,
            ),
    ensures
        !contains_seq(applied_replacers(s, replacers_from(vars, used, true, 0)), vars[k].value@),
{
    let reps = replacers_from(vars, used, true, 0);
    let w = vars[k].value@;
    assert forall|j: int| 0 <= j < reps.len() implies (#[trigger] reps[j]).0.len() >= 1
        && reps[j].1.len() >= 1 && !contains_seq(reps[j].1, w) && reps[j].1[0] == '['
        && reps[j].1[reps[j].1.len() - 1] == ']' by {
        lemma_replacers_from_shape(vars, used, true, 0, j);
        let m = choose|m: int|
            #![trigger vars[m]]
            0 <= m < vars.len() && m < used.len() && used[m] && (vars[m].secret || false)
                && reps[j] == (vars[m].value@, placeholder_of(vars[m].name@));
        assert(reps[j].1 == placeholder_of(vars[m].name@));
        assert(reps[j].1[0] == '[');
        assert(reps[j].1[reps[j].1.len() - 1] == ']');
    }
    lemma_replacers_from_contains(vars, used, true, 0, k);
    assert(exists|j: int| 0 <= j < reps.len() && (#[trigger] reps[j]).0 == w) by {
        let j0 = choose|j: int|
            0 <= j < reps.len() && #[trigger] reps[j] == (
                vars[k].value@,
                placeholder_of(vars[k].name@),
            );
        assert(reps[j0].0 == w);
    }
    lemma_applied_replacers_free_of(s, reps, w);
}

} // verus!
