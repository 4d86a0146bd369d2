//! Batch target resolution: a pattern string selects resources by name
//! glob or tag selector.
//!
//! A pattern is a comma- or whitespace-separated list of items. An item
//! starting with `#` is a tag selector and matches the resources carrying
//! every tag it lists; any other item is a name glob where `*` matches any
//! run and `?` one character (a literal name is the degenerate glob).
//! Items OR together; the resolved set is deduplicated by resource id and
//! ordered by resource name.

use vstd::prelude::*;

verus! {

/// A separator between pattern items.
pub open spec fn is_sep(c: char) -> bool {
    c == ',' || c == ' ' || c == '\t' || c == '\n' || c == '\r'
}

/// Length of the maximal separator-free prefix of `s`.
pub open spec fn item_run(s: Seq<char>) -> int
    decreases s.len(),
{
    if s.len() == 0 {
        0
    } else if !is_sep(s[0]) {
        1 + item_run(s.skip(1))
    } else {
        0
    }
}

/// A maximal run has a length between one (its first character is no
/// separator) and the text's length.
proof fn lemma_item_run_bounds(s: Seq<char>)
    ensures
        0 <= item_run(s) <= s.len(),
        s.len() > 0 && !is_sep(s[0]) ==> item_run(s) >= 1,
    decreases s.len(),
{
    if s.len() > 0 && !is_sep(s[0]) {
        lemma_item_run_bounds(s.skip(1));
    }
}

/// The items of a pattern string: maximal separator-free runs, in order.
pub open spec fn split_items(s: Seq<char>) -> Seq<Seq<char>>
    decreases s.len(),
        via split_items_dec
{
    if s.len() == 0 {
        Seq::empty()
    } else if is_sep(s[0]) {
        split_items(s.skip(1))
    } else {
        seq![s.subrange(0, item_run(s))] + split_items(s.skip(item_run(s)))
    }
}

#[via_fn]
proof fn split_items_dec(s: Seq<char>) {
    lemma_item_run_bounds(s);
}

/// A separator-free run bounded by a separator (or the end) is maximal.
proof fn lemma_item_run_is(x: Seq<char>, r: int)
    requires
        0 <= r <= x.len(),
        forall|k: int| 0 <= k < r ==> !is_sep(#[trigger] x[k]),
        r == x.len() || is_sep(x[r]),
    ensures
        item_run(x) == r,
    decreases r,
{
    if r > 0 {
        lemma_item_run_is(x.skip(1), r - 1);
    }
}

/// A separator character, decided executably.
fn sep_char(c: char) -> (r: bool)
    ensures
        r == is_sep(c),
{
    c == ',' || c == ' ' || c == '\t' || c == '\n' || c == '\r'
}

/// Split a pattern string into its items.
pub fn split_pattern(s: &str) -> (r: Vec<String>)
    ensures
        r@.map_values(|it: String| it@) == split_items(s@),
{
    let n = s.unicode_len();
    let mut out: Vec<String> = Vec::new();
    let mut i: usize = 0;
    proof {
        assert(s@.skip(0) =~= s@);
        assert(out@.map_values(|it: String| it@) + split_items(s@) =~= split_items(s@));
    }
    while i < n
        invariant
            n == s@.len(),
            i <= n,
            out@.map_values(|it: String| it@) + split_items(s@.skip(i as int)) == split_items(
                s@,
            ),
        decreases n - i,
    {
        let ghost tail = s@.skip(i as int);
        let ghost pre = out@;
        if sep_char(s.get_char(i)) {
            i += 1;
            proof {
                assert(tail.skip(1) =~= s@.skip(i as int));
            }
        } else {
            let mut j: usize = i;
            while j < n && !sep_char(s.get_char(j))
                invariant
                    n == s@.len(),
                    i <= j <= n,
                    forall|k: int| i <= k < j ==> !is_sep(#[trigger] s@[k]),
                decreases n - j,
            {
                j += 1;
            }
            proof {
                assert forall|k: int| 0 <= k < j - i implies !is_sep(#[trigger] tail[k]) by {
                    assert(tail[k] == s@[i + k]);
                }
                if j < n {
                    assert(tail[j - i] == s@[j as int]);
                }
                lemma_item_run_is(tail, j - i);
            }
            let item = s.substring_char(i, j).to_owned();
            out.push(item);
            i = j;
            proof {
                assert(item@ =~= tail.subrange(0, item_run(tail)));
                assert(tail.skip(item_run(tail)) =~= s@.skip(i as int));
                assert(out@.map_values(|it: String| it@) =~= pre.map_values(|it: String| it@)
                    + seq![item@]);
                assert(out@.map_values(|it: String| it@) + split_items(s@.skip(i as int))
                    =~= pre.map_values(|it: String| it@) + split_items(tail));
            }
        }
    }
    proof {
        assert(s@.skip(n as int) =~= Seq::<char>::empty());
        assert(out@.map_values(|it: String| it@) + split_items(s@.skip(n as int)) =~= out@
            .map_values(|it: String| it@));
    }
    out
}

/// Glob matching: `*` matches any run of characters, `?` exactly one,
/// anything else itself.
pub open spec fn glob_match(p: Seq<char>, s: Seq<char>) -> bool
    decreases p.len(), s.len(),
{
    if p.len() == 0 {
        s.len() == 0
    } else if p[0] == '*' {
        glob_match(p.skip(1), s) || (s.len() > 0 && glob_match(p, s.skip(1)))
    } else if s.len() == 0 {
        false
    } else {
        (p[0] == '?' || p[0] == s[0]) && glob_match(p.skip(1), s.skip(1))
    }
}

/// Glob matching from positions `i` of the pattern and `j` of the name.
fn glob_match_at(p: &str, s: &str, i: usize, j: usize, pn: usize, sn: usize) -> (r: bool)
    requires
        pn == p@.len(),
        sn == s@.len(),
        i <= pn,
        j <= sn,
    ensures
        r == glob_match(p@.skip(i as int), s@.skip(j as int)),
    decreases pn - i, sn - j,
{
    let ghost pt = p@.skip(i as int);
    let ghost st = s@.skip(j as int);
    if i == pn {
        proof {
            assert(pt.len() == 0);
        }
        j == sn
    } else {
        let c = p.get_char(i);
        proof {
            assert(pt[0] == p@[i as int]);
            assert(pt.skip(1) =~= p@.skip(i + 1));
        }
        if c == '*' {
            if glob_match_at(p, s, i + 1, j, pn, sn) {
                true
            } else if j < sn {
                proof {
                    assert(st.skip(1) =~= s@.skip(j + 1));
                }
                glob_match_at(p, s, i, j + 1, pn, sn)
            } else {
                false
            }
        } else if j == sn {
            false
        } else {
            proof {
                assert(st[0] == s@[j as int]);
                assert(st.skip(1) =~= s@.skip(j + 1));
            }
            if c == '?' || c == s.get_char(j) {
                glob_match_at(p, s, i + 1, j + 1, pn, sn)
            } else {
                false
            }
        }
    }
}

/// Whether glob `p` matches the whole of `s`.
pub fn glob_matches(p: &str, s: &str) -> (r: bool)
    ensures
        r == glob_match(p@, s@),
{
    let pn = p.unicode_len();
    let sn = s.unicode_len();
    proof {
        assert(p@.skip(0) =~= p@);
        assert(s@.skip(0) =~= s@);
    }
    glob_match_at(p, s, 0, 0, pn, sn)
}

/// A resource as the batch resolver sees it: id, unique name, tags.
#[derive(Debug)]
pub struct TargetResource {
    pub id: String,
    pub name: String,
    pub tags: Vec<String>,
}

impl Clone for TargetResource {
    /// A clone carries the same id, name and tags.
    fn clone(&self) -> (res: TargetResource)
        ensures
            res.id == self.id,
            res.name == self.name,
            res.tags@ == self.tags@,
    {
        TargetResource {
            id: self.id.clone(),
            name: self.name.clone(),
            tags: crate::stack::clone_strings(&self.tags),
        }
    }
}

/// Two resource records carry the same data.
pub open spec fn same_target(a: TargetResource, b: TargetResource) -> bool {
    a.id == b.id && a.name == b.name && a.tags@ == b.tags@
}

/// The resource carries tag `t`.
pub open spec fn has_tag(r: TargetResource, t: Seq<char>) -> bool {
    exists|k: int| 0 <= k < r.tags@.len() && (#[trigger] r.tags@[k])@ == t
}

/// Length of the maximal `#`-free prefix of `s`.
pub open spec fn hash_run(s: Seq<char>) -> int
    decreases s.len(),
{
    if s.len() == 0 {
        0
    } else if s[0] != '#' {
        1 + hash_run(s.skip(1))
    } else {
        0
    }
}

/// A maximal `#`-free run has a length between one (its first character
/// is no `#`) and the text's length.
proof fn lemma_hash_run_bounds(s: Seq<char>)
    ensures
        0 <= hash_run(s) <= s.len(),
        s.len() > 0 && s[0] != '#' ==> hash_run(s) >= 1,
    decreases s.len(),
{
    if s.len() > 0 && s[0] != '#' {
        lemma_hash_run_bounds(s.skip(1));
    }
}

/// The tags a selector item lists: the `#`-separated runs after the
/// leading `#`.
pub open spec fn selector_tags(item: Seq<char>) -> Seq<Seq<char>>
    decreases item.len(),
        via selector_tags_dec
{
    if item.len() == 0 {
        Seq::empty()
    } else if item[0] == '#' {
        selector_tags(item.skip(1))
    } else {
        seq![item.subrange(0, hash_run(item))] + selector_tags(item.skip(hash_run(item)))
    }
}

#[via_fn]
proof fn selector_tags_dec(item: Seq<char>) {
    lemma_hash_run_bounds(item);
}

/// Whether the pattern item matches the resource: a `#` item demands
/// every tag it lists; any other item is a name glob.
pub open spec fn item_matches(item: Seq<char>, r: TargetResource) -> bool {
    if item.len() > 0 && item[0] == '#' {
        forall|k: int|
            0 <= k < selector_tags(item).len() ==> has_tag(r, #[trigger] selector_tags(item)[k])
    } else {
        glob_match(item, r.name@)
    }
}

/// Some item of the pattern matches the resource.
pub open spec fn any_item_matches(items: Seq<Seq<char>>, r: TargetResource) -> bool {
    exists|k: int| 0 <= k < items.len() && item_matches(#[trigger] items[k], r)
}

/// A `#`-free run bounded by a `#` (or the end) is maximal.
proof fn lemma_hash_run_is(x: Seq<char>, r: int)
    requires
        0 <= r <= x.len(),
        forall|k: int| 0 <= k < r ==> #[trigger] x[k] != '#',
        r == x.len() || x[r] == '#',
    ensures
        hash_run(x) == r,
    decreases r,
{
    if r > 0 {
        lemma_hash_run_is(x.skip(1), r - 1);
    }
}

/// The tags a selector item lists, split executably.
fn split_selector(item: &str) -> (r: Vec<String>)
    ensures
        r@.map_values(|t: String| t@) == selector_tags(item@),
{
    let n = item.unicode_len();
    let mut out: Vec<String> = Vec::new();
    let mut i: usize = 0;
    proof {
        assert(item@.skip(0) =~= item@);
        assert(out@.map_values(|t: String| t@) + selector_tags(item@) =~= selector_tags(
            item@,
        ));
    }
    while i < n
        invariant
            n == item@.len(),
            i <= n,
            out@.map_values(|t: String| t@) + selector_tags(item@.skip(i as int))
                == selector_tags(item@),
        decreases n - i,
    {
        let ghost tail = item@.skip(i as int);
        let ghost pre = out@;
        if item.get_char(i) == '#' {
            i += 1;
            proof {
                assert(tail.skip(1) =~= item@.skip(i as int));
            }
        } else {
            let mut j: usize = i;
            while j < n && item.get_char(j) != '#'
                invariant
                    n == item@.len(),
                    i <= j <= n,
                    forall|k: int| i <= k < j ==> #[trigger] item@[k] != '#',
                decreases n - j,
            {
                j += 1;
            }
            proof {
                assert forall|k: int| 0 <= k < j - i implies #[trigger] tail[k] != '#' by {
                    assert(tail[k] == item@[i + k]);
                }
                if j < n {
                    assert(tail[j - i] == item@[j as int]);
                }
                lemma_hash_run_is(tail, j - i);
            }
            let t = item.substring_char(i, j).to_owned();
            out.push(t);
            i = j;
            proof {
                assert(t@ =~= tail.subrange(0, hash_run(tail)));
                assert(tail.skip(hash_run(tail)) =~= item@.skip(i as int));
                assert(out@.map_values(|x: String| x@) =~= pre.map_values(|x: String| x@)
                    + seq![t@]);
                assert(out@.map_values(|x: String| x@) + selector_tags(item@.skip(i as int))
                    =~= pre.map_values(|x: String| x@) + selector_tags(tail));
            }
        }
    }
    proof {
        assert(item@.skip(n as int) =~= Seq::<char>::empty());
        assert(out@.map_values(|t: String| t@) + selector_tags(item@.skip(n as int)) =~= out@
            .map_values(|t: String| t@));
    }
    out
}

/// Whether the resource carries tag `t`, decided executably.
fn resource_has_tag(r: &TargetResource, t: &str) -> (b: bool)
    ensures
        b == has_tag(*r, t@),
{
    let mut k: usize = 0;
    while k < r.tags.len()
        invariant
            k <= r.tags@.len(),
            forall|m: int| 0 <= m < k ==> (#[trigger] r.tags@[m])@ != t@,
        decreases r.tags@.len() - k,
    {
        if crate::text::str_eq(r.tags[k].as_str(), t) {
            return true;
        }
        k += 1;
    }
    false
}

/// Whether the pattern item matches the resource, decided executably.
pub fn item_matches_exec(item: &str, r: &TargetResource) -> (b: bool)
    ensures
        b == item_matches(item@, *r),
{
    let n = item.unicode_len();
    if n > 0 && item.get_char(0) == '#' {
        let tags = split_selector(item);
        let ghost stags = selector_tags(item@);
        let mut k: usize = 0;
        while k < tags.len()
            invariant
                item@.len() > 0 && item@[0] == '#',
                tags@.map_values(|t: String| t@) == selector_tags(item@),
                k <= tags@.len(),
                forall|m: int| 0 <= m < k ==> has_tag(*r, #[trigger] selector_tags(item@)[m]),
            decreases tags@.len() - k,
        {
            proof {
                assert(tags@[k as int]@ == selector_tags(item@)[k as int]);
            }
            if !resource_has_tag(r, tags[k].as_str()) {
                proof {
                    assert(!has_tag(*r, selector_tags(item@)[k as int]));
                }
                return false;
            }
            k += 1;
        }
        true
    } else {
        glob_matches(item, r.name.as_str())
    }
}

/// Lexicographic order on character sequences, by code point.
pub open spec fn str_le(a: Seq<char>, b: Seq<char>) -> bool
    decreases a.len(),
{
    if a.len() == 0 {
        true
    } else if b.len() == 0 {
        false
    } else if (a[0] as u32) < (b[0] as u32) {
        true
    } else if (a[0] as u32) > (b[0] as u32) {
        false
    } else {
        str_le(a.skip(1), b.skip(1))
    }
}

/// The order is total: one direction always holds.
pub proof fn lemma_str_le_total(a: Seq<char>, b: Seq<char>)
    ensures
        str_le(a, b) || str_le(b, a),
    decreases a.len(),
{
    if a.len() > 0 && b.len() > 0 && a[0] as u32 == b[0] as u32 {
        lemma_str_le_total(a.skip(1), b.skip(1));
    }
}

/// The order is transitive.
pub proof fn lemma_str_le_trans(a: Seq<char>, b: Seq<char>, c: Seq<char>)
    requires
        str_le(a, b),
        str_le(b, c),
    ensures
        str_le(a, c),
    decreases a.len(),
{
    if a.len() > 0 && b.len() > 0 && c.len() > 0 && a[0] as u32 == b[0] as u32 && b[0] as u32
        == c[0] as u32 {
        lemma_str_le_trans(a.skip(1), b.skip(1), c.skip(1));
    }
}

/// Lexicographic order, decided executably.
pub fn str_le_exec(a: &str, b: &str) -> (r: bool)
    ensures
        r == str_le(a@, b@),
{
    let an = a.unicode_len();
    let bn = b.unicode_len();
    let mut i: usize = 0;
    proof {
        assert(a@.skip(0) =~= a@);
        assert(b@.skip(0) =~= b@);
    }
    while i < an && i < bn
        invariant
            an == a@.len(),
            bn == b@.len(),
            i <= an,
            i <= bn,
            str_le(a@, b@) == str_le(a@.skip(i as int), b@.skip(i as int)),
        decreases an - i,
    {
        let ca = a.get_char(i) as u32;
        let cb = b.get_char(i) as u32;
        let ghost at = a@.skip(i as int);
        let ghost bt = b@.skip(i as int);
        proof {
            assert(at[0] == a@[i as int]);
            assert(bt[0] == b@[i as int]);
            assert(at.skip(1) =~= a@.skip(i + 1));
            assert(bt.skip(1) =~= b@.skip(i + 1));
        }
        if ca < cb {
            return true;
        }
        if ca > cb {
            return false;
        }
        i += 1;
    }
    proof {
        if i >= an {
            assert(a@.skip(i as int).len() == 0);
        } else {
            assert(b@.skip(i as int).len() == 0);
            assert(a@.skip(i as int).len() > 0);
        }
    }
    an <= bn
}

/// Whether some item of the pattern matches `r`, decided executably.
pub fn any_item_matches_exec(items: &Vec<String>, r: &TargetResource) -> (b: bool)
    ensures
        b == any_item_matches(items@.map_values(|it: String| it@), *r),
{
    let ghost iview = items@.map_values(|it: String| it@);
    let mut k: usize = 0;
    while k < items.len()
        invariant
            iview == items@.map_values(|it: String| it@),
            k <= items@.len(),
            forall|m: int| 0 <= m < k ==> !item_matches(#[trigger] iview[m], *r),
        decreases items@.len() - k,
    {
        proof {
            assert(iview[k as int] == items@[k as int]@);
        }
        if item_matches_exec(items[k].as_str(), r) {
            return true;
        }
        k += 1;
    }
    false
}

/// Whether some entry of `out` already carries this id.
fn contains_id(out: &Vec<TargetResource>, id: &str) -> (b: bool)
    ensures
        b == exists|k: int| 0 <= k < out@.len() && (#[trigger] out@[k]).id@ == id@,
{
    let mut k: usize = 0;
    while k < out.len()
        invariant
            k <= out@.len(),
            forall|m: int| 0 <= m < k ==> (#[trigger] out@[m]).id@ != id@,
        decreases out@.len() - k,
    {
        if crate::text::str_eq(out[k].id.as_str(), id) {
            return true;
        }
        k += 1;
    }
    false
}

/// The output list is sorted by name.
pub open spec fn sorted_by_name(out: Seq<TargetResource>) -> bool {
    forall|k: int| 0 <= k < out.len() - 1 ==> str_le((#[trigger] out[k]).name@, out[k + 1].name@)
}

/// Every entry of `out` is a matched resource of `pool`.
pub open spec fn targets_sound(
    out: Seq<TargetResource>,
    pool: Seq<TargetResource>,
    items: Seq<Seq<char>>,
) -> bool {
    forall|k: int|
        0 <= k < out.len() ==> exists|j: int|
            0 <= j < pool.len() && same_target(#[trigger] out[k], pool[j]) && any_item_matches(
                items,
                pool[j],
            )
}

/// Every matched resource of `pool` is represented in `out` by its id.
pub open spec fn targets_complete(
    out: Seq<TargetResource>,
    pool: Seq<TargetResource>,
    items: Seq<Seq<char>>,
    upto: int,
) -> bool {
    forall|j: int|
        0 <= j < upto && any_item_matches(items, #[trigger] pool[j]) ==> exists|k: int|
            0 <= k < out.len() && (#[trigger] out[k]).id@ == pool[j].id@
}

/// Resolve a batch pattern against a pool of resources: the resources
/// some item matches, one per id (pool order decides which survives a
/// duplicate id), ordered by name.
pub fn resolve_targets(pattern: &str, pool: &Vec<TargetResource>) -> (r: Vec<TargetResource>)
    ensures
        sorted_by_name(r@),
        forall|k: int, m: int| 0 <= k < m < r@.len() ==> (#[trigger] r@[k]).id@ != (
        #[trigger] r@[m]).id@,
        targets_sound(r@, pool@, split_items(pattern@)),
        targets_complete(r@, pool@, split_items(pattern@), pool@.len() as int),
{
    let items = split_pattern(pattern);
    let ghost iview = split_items(pattern@);
    let mut out: Vec<TargetResource> = Vec::new();
    let mut j: usize = 0;
    while j < pool.len()
        invariant
            iview == split_items(pattern@),
            items@.map_values(|it: String| it@) == iview,
            j <= pool@.len(),
            sorted_by_name(out@),
            forall|k: int, m: int| 0 <= k < m < out@.len() ==> (#[trigger] out@[k]).id@ != (
            #[trigger] out@[m]).id@,
            targets_sound(out@, pool@, iview),
            targets_complete(out@, pool@, iview, j as int),
        decreases pool@.len() - j,
    {
        if any_item_matches_exec(&items, &pool[j]) && !contains_id(&out, pool[j].id.as_str()) {
            let ghost pre = out@;
            let new = pool[j].clone();
            let mut pos: usize = 0;
            while pos < out.len() && !str_le_exec(new.name.as_str(), out[pos].name.as_str())
                invariant
                    pos <= out@.len(),
                    forall|m: int| 0 <= m < pos ==> !str_le(new.name@, (#[trigger] out@[m]).name@),
                decreases out@.len() - pos,
            {
                pos += 1;
            }
            proof {
                assert forall|m: int| 0 <= m < pos implies str_le(
                    (#[trigger] out@[m]).name@,
                    new.name@,
                ) by {
                    lemma_str_le_total(new.name@, out@[m].name@);
                }
            }
            let ghost newt = new;
            out.insert(pos, new);
            proof {
                assert(out@[pos as int] == newt);
                assert forall|k: int| 0 <= k < out@.len() - 1 implies str_le(
                    (#[trigger] out@[k]).name@,
                    out@[k + 1].name@,
                ) by {
                    if k + 1 < pos {
                        assert(out@[k] == pre[k] && out@[k + 1] == pre[k + 1]);
                    } else if k + 1 == pos {
                        assert(out@[k] == pre[k]);
                    } else if k == pos {
                        if k + 1 <= out@.len() - 1 {
                            assert(out@[k + 1] == pre[k]);
                        }
                    } else {
                        assert(out@[k] == pre[k - 1] && out@[k + 1] == pre[k]);
                    }
                }
                // every old entry survives the insert, one slot later past
                // the insertion point
                assert forall|m: int| 0 <= m < pre.len() implies out@[if m < pos {
                    m
                } else {
                    m + 1
                }] == #[trigger] pre[m] by {}
                assert(same_target(newt, pool@[j as int]));
                assert forall|k: int| 0 <= k < out@.len() implies exists|jj: int|
                    0 <= jj < pool@.len() && same_target(#[trigger] out@[k], pool@[jj])
                        && any_item_matches(iview, pool@[jj]) by {
                    if k == pos {
                        assert(same_target(out@[k], pool@[j as int]) && any_item_matches(
                            iview,
                            pool@[j as int],
                        ));
                    } else {
                        let m = if k < pos { k } else { k - 1 };
                        assert(out@[k] == pre[m]);
                        assert(exists|jj: int|
                            0 <= jj < pool@.len() && same_target(#[trigger] pre[m], pool@[jj])
                                && any_item_matches(iview, pool@[jj]));
                    }
                }
                assert(targets_sound(out@, pool@, iview));
                assert forall|jj: int|
                    0 <= jj < j + 1 && any_item_matches(iview, #[trigger] pool@[jj])
                    implies exists|k: int|
                    0 <= k < out@.len() && (#[trigger] out@[k]).id@ == pool@[jj].id@ by {
                    if jj == j {
                        assert(out@[pos as int].id@ == pool@[jj].id@);
                    } else {
                        assert(exists|k: int|
                            0 <= k < pre.len() && (#[trigger] pre[k]).id@ == pool@[jj].id@);
                        let k0 = choose|k: int|
                            0 <= k < pre.len() && (#[trigger] pre[k]).id@ == pool@[jj].id@;
                        let k1: int = if k0 < pos {
                            k0
                        } else {
                            k0 + 1
                        };
                        assert(out@[k1] == pre[k0]);
                    }
                }
                assert(targets_complete(out@, pool@, iview, j + 1));
            }
        } else {
            proof {
                assert forall|jj: int|
                    0 <= jj < j + 1 && any_item_matches(iview, #[trigger] pool@[jj])
                    implies exists|k: int|
                    0 <= k < out@.len() && (#[trigger] out@[k]).id@ == pool@[jj].id@ by {}
                assert(targets_complete(out@, pool@, iview, j + 1));
            }
        }
        j += 1;
    }
    out
}

/// Adjacent order is global order: in a name-sorted list every earlier
/// entry's name precedes every later one's.
pub proof fn lemma_sorted_pairwise(out: Seq<TargetResource>, i: int, j: int)
    requires
        sorted_by_name(out),
        0 <= i <= j < out.len(),
    ensures
        str_le(out[i].name@, out[j].name@),
    decreases j - i,
{
    if i == j {
        lemma_str_le_total(out[i].name@, out[j].name@);
    } else {
        lemma_sorted_pairwise(out, i, j - 1);
        lemma_str_le_trans(out[i].name@, out[j - 1].name@, out[j].name@);
    }
}

} // verus!
