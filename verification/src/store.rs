//! The resource store: one collection per resource kind, keyed by id.
//!
//! Ids are opaque, unique, and never reused. Creating records a resource
//! under a fresh id; reading an id answers exactly what was last stored
//! under it; deleting removes the id, after which reads answer that the
//! resource is missing. Updating merges a partial config field by field:
//! a field the partial leaves out keeps its value, so the empty partial
//! changes nothing.

use vstd::prelude::*;

use crate::stack::{config_like, StackConfig, SystemCommand};

verus! {

/// A read or write named an id that no resource holds.
#[derive(Clone, Copy, PartialEq, Eq, Structural, Debug)]
pub struct ResourceMissingError;

/// One resource kind's collection: id to resource, each id held at most
/// once.
#[derive(Debug)]
pub struct ResourceStore<T> {
    pub entries: Vec<(String, T)>,
}

impl<T> ResourceStore<T> {
    /// Ids are unique.
    pub open spec fn wf(self) -> bool {
        forall|i: int, j: int|
            0 <= i < j < self.entries@.len() ==> self.entries@[i].0@ != self.entries@[j].0@
    }

    /// The resource stored under `id`, if any.
    pub open spec fn value_of(self, id: Seq<char>) -> Option<T> {
        if exists|i: int| 0 <= i < self.entries@.len() && self.entries@[i].0@ == id {
            Some(
                self.entries@[choose|i: int|
                    0 <= i < self.entries@.len() && self.entries@[i].0@ == id].1,
            )
        } else {
            None
        }
    }

    /// An empty collection.
    pub fn new() -> (r: ResourceStore<T>)
        ensures
            r.wf(),
            forall|id: Seq<char>| #[trigger] r.value_of(id) is None,
    {
        ResourceStore { entries: Vec::new() }
    }

    /// The index holding `id`, if any.
    fn find(&self, id: &str) -> (r: Option<usize>)
        requires
            self.wf(),
        ensures
            match r {
                Some(i) => i < self.entries@.len() && self.entries@[i as int].0@ == id@
                    && (self.value_of(id@) matches Some(v) && v == self.entries@[i as int].1),
                None => self.value_of(id@) is None,
            },
    {
        let mut i: usize = 0;
        while i < self.entries.len()
            invariant
                self.wf(),
                i <= self.entries@.len(),
                forall|j: int| 0 <= j < i ==> self.entries@[j].0@ != id@,
            decreases self.entries@.len() - i,
        {
            if crate::text::str_eq(self.entries[i].0.as_str(), id) {
                return Some(i);
            }
            i += 1;
        }
        None
    }

    /// Create: record `value` under the fresh id `id`. An id is never
    /// reused, so the id must not be held.
    pub fn create(&mut self, id: &String, value: T)
        requires
            old(self).wf(),
            old(self).value_of(id@) is None,
        ensures
            final(self).wf(),
            final(self).value_of(id@) matches Some(v) && v == value,
            forall|other: Seq<char>| other != id@
                ==> #[trigger] final(self).value_of(other) == old(self).value_of(other),
    {
        let ghost pre = *self;
        self.entries.push((id.clone(), value));
        proof {
            lemma_store_push(pre, *self, id@);
        }
    }

    /// Get: the resource under `id`, or missing. Reading what create
    /// just stored answers exactly the created resource.
    pub fn get(&self, id: &str) -> (r: Result<&T, ResourceMissingError>)
        requires
            self.wf(),
        ensures
            match r {
                Ok(v) => self.value_of(id@) matches Some(w) && w == *v,
                Err(_) => self.value_of(id@) is None,
            },
    {
        match self.find(id) {
            Some(i) => Ok(&self.entries[i].1),
            None => Err(ResourceMissingError),
        }
    }

    /// Replace the resource under `id`, failing when the id is missing.
    pub fn replace(&mut self, id: &str, value: T) -> (r: Result<(), ResourceMissingError>)
        requires
            old(self).wf(),
        ensures
            final(self).wf(),
            old(self).value_of(id@) is None ==> r is Err && *final(self) == *old(self),
            old(self).value_of(id@) is Some ==> r is Ok && (final(self).value_of(
                id@,
            ) matches Some(v) && v == value) && forall|other: Seq<char>| other != id@
                ==> #[trigger] final(self).value_of(other) == old(self).value_of(other),
    {
        match self.find(id) {
            Some(i) => {
                let k = self.entries[i].0.clone();
                let ghost pre = *self;
                self.entries.set(i, (k, value));
                proof {
                    lemma_store_update(pre, *self, i as int, id@);
                }
                Ok(())
            }
            None => Err(ResourceMissingError),
        }
    }

    /// Delete: remove the resource under `id` and hand it back; a later
    /// get of the id answers missing.
    pub fn delete(&mut self, id: &str) -> (r: Result<T, ResourceMissingError>)
        requires
            old(self).wf(),
        ensures
            final(self).wf(),
            old(self).value_of(id@) is None ==> r is Err && *final(self) == *old(self),
            old(self).value_of(id@) is Some ==> (r matches Ok(v) && old(self).value_of(id@)
                == Some(v)) && final(self).value_of(id@) is None && forall|other: Seq<char>|
                other != id@ ==> #[trigger] final(self).value_of(other) == old(self).value_of(
                other,
            ),
    {
        match self.find(id) {
            Some(i) => {
                let ghost pre = *self;
                let (_, value) = self.entries.remove(i);
                proof {
                    lemma_store_remove(pre, *self, i as int, id@);
                }
                Ok(value)
            }
            None => Err(ResourceMissingError),
        }
    }
}

/// After pushing a fresh id, `value_of` reads the pushed resource there
/// and is unchanged elsewhere.
proof fn lemma_store_push<T>(pre: ResourceStore<T>, post: ResourceStore<T>, id: Seq<char>)
    requires
        pre.wf(),
        forall|i: int| 0 <= i < pre.entries@.len() ==> pre.entries@[i].0@ != id,
        post.entries@ == pre.entries@.push(post.entries@.last()),
        post.entries@.last().0@ == id,
    ensures
        post.wf(),
        post.value_of(id) == Some(post.entries@.last().1),
        forall|other: Seq<char>| other != id
            ==> #[trigger] post.value_of(other) == pre.value_of(other),
{
    let n = pre.entries@.len() as int;
    assert forall|i: int, j: int| 0 <= i < j < post.entries@.len()
        implies post.entries@[i].0@ != post.entries@[j].0@ by {
        if j < n {
            assert(pre.entries@[i].0@ != pre.entries@[j].0@);
        } else {
            assert(post.entries@[j].0@ == id);
            assert(post.entries@[i] == pre.entries@[i]);
        }
    }
    assert(post.entries@[n].0@ == id);
    let w = choose|i: int| 0 <= i < post.entries@.len() && post.entries@[i].0@ == id;
    assert(w == n);
    assert forall|other: Seq<char>| other != id
        implies #[trigger] post.value_of(other) == pre.value_of(other) by {
        if exists|i: int| 0 <= i < pre.entries@.len() && pre.entries@[i].0@ == other {
            let i = choose|i: int| 0 <= i < pre.entries@.len() && pre.entries@[i].0@ == other;
            assert(post.entries@[i].0@ == other);
            let j = choose|j: int| 0 <= j < post.entries@.len() && post.entries@[j].0@ == other;
            assert(post.value_of(other) == Some(post.entries@[i].1));
            assert(pre.value_of(other) == Some(pre.entries@[i].1));
        } else {
            assert(forall|i: int|
                0 <= i < post.entries@.len() ==> #[trigger] post.entries@[i].0@ != other);
        }
    }
}

/// After replacing the resource at `k` (same id), `value_of` reads the
/// new resource there and is unchanged elsewhere.
proof fn lemma_store_update<T>(
    pre: ResourceStore<T>,
    post: ResourceStore<T>,
    k: int,
    id: Seq<char>,
)
    requires
        pre.wf(),
        0 <= k < pre.entries@.len(),
        post.entries@.len() == pre.entries@.len(),
        post.entries@[k].0@ == pre.entries@[k].0@,
        pre.entries@[k].0@ == id,
        forall|i: int| 0 <= i < pre.entries@.len() && i != k
            ==> post.entries@[i] == pre.entries@[i],
    ensures
        post.wf(),
        post.value_of(id) == Some(post.entries@[k].1),
        forall|other: Seq<char>| other != id
            ==> #[trigger] post.value_of(other) == pre.value_of(other),
{
    assert forall|i: int, j: int| 0 <= i < j < post.entries@.len()
        implies post.entries@[i].0@ != post.entries@[j].0@ by {
        assert(pre.entries@[i].0@ != pre.entries@[j].0@);
        assert(post.entries@[i].0@ == pre.entries@[i].0@);
        assert(post.entries@[j].0@ == pre.entries@[j].0@);
    }
    let w = choose|i: int| 0 <= i < post.entries@.len() && post.entries@[i].0@ == id;
    assert(w == k);
    assert forall|other: Seq<char>| other != id
        implies #[trigger] post.value_of(other) == pre.value_of(other) by {
        if exists|i: int| 0 <= i < pre.entries@.len() && pre.entries@[i].0@ == other {
            let i = choose|i: int| 0 <= i < pre.entries@.len() && pre.entries@[i].0@ == other;
            assert(i != k);
            assert(post.entries@[i].0@ == other);
            let j = choose|j: int| 0 <= j < post.entries@.len() && post.entries@[j].0@ == other;
            assert(j == i || post.entries@[j].0@ != post.entries@[i].0@);
            assert(post.value_of(other) == Some(post.entries@[i].1));
            assert(pre.value_of(other) == Some(pre.entries@[i].1));
        } else {
            assert(forall|i: int|
                0 <= i < post.entries@.len() ==> #[trigger] post.entries@[i].0@ != other);
        }
    }
}

/// After removing the entry at `k`, its id reads as missing and every
/// other id is unchanged.
proof fn lemma_store_remove<T>(
    pre: ResourceStore<T>,
    post: ResourceStore<T>,
    k: int,
    id: Seq<char>,
)
    requires
        pre.wf(),
        0 <= k < pre.entries@.len(),
        pre.entries@[k].0@ == id,
        post.entries@ == pre.entries@.remove(k),
    ensures
        post.wf(),
        post.value_of(id) is None,
        forall|other: Seq<char>| other != id
            ==> #[trigger] post.value_of(other) == pre.value_of(other),
{
    assert forall|i: int, j: int| 0 <= i < j < post.entries@.len()
        implies post.entries@[i].0@ != post.entries@[j].0@ by {
        let i0 = if i < k {
            i
        } else {
            i + 1
        };
        let j0 = if j < k {
            j
        } else {
            j + 1
        };
        assert(post.entries@[i] == pre.entries@[i0]);
        assert(post.entries@[j] == pre.entries@[j0]);
    }
    assert forall|i: int| 0 <= i < post.entries@.len()
        implies #[trigger] post.entries@[i].0@ != id by {
        let i0 = if i < k {
            i
        } else {
            i + 1
        };
        assert(post.entries@[i] == pre.entries@[i0]);
        assert(i0 != k);
        assert(pre.entries@[i0].0@ != pre.entries@[k].0@);
    }
    assert forall|other: Seq<char>| other != id
        implies #[trigger] post.value_of(other) == pre.value_of(other) by {
        if exists|i: int| 0 <= i < pre.entries@.len() && pre.entries@[i].0@ == other {
            let i0 = choose|i: int| 0 <= i < pre.entries@.len() && pre.entries@[i].0@ == other;
            assert(i0 != k);
            let i1 = if i0 < k {
                i0
            } else {
                i0 - 1
            };
            assert(post.entries@[i1] == pre.entries@[i0]);
            let j = choose|j: int| 0 <= j < post.entries@.len() && post.entries@[j].0@ == other;
            assert(j == i1 || post.entries@[j].0@ != post.entries@[i1].0@);
            assert(post.value_of(other) == Some(post.entries@[i1].1));
            assert(pre.value_of(other) == Some(pre.entries@[i0].1));
        } else {
            assert forall|i: int| 0 <= i < post.entries@.len()
                implies #[trigger] post.entries@[i].0@ != other by {
                let i0 = if i < k {
                    i
                } else {
                    i + 1
                };
                assert(post.entries@[i] == pre.entries@[i0]);
            }
        }
    }
}

/// A partial stack config: each field optionally overridden.
#[derive(Debug)]
pub struct PartialStackConfig {
    pub server_id: Option<String>,
    pub file_contents: Option<String>,
    pub environment: Option<String>,
    pub extra_args: Option<Vec<String>>,
    pub build_extra_args: Option<Vec<String>>,
    pub pre_deploy: Option<SystemCommand>,
    pub git_provider: Option<String>,
    pub git_account: Option<String>,
    pub git_https: Option<bool>,
    pub repo: Option<String>,
    pub branch: Option<String>,
    pub registry_provider: Option<String>,
    pub registry_account: Option<String>,
    pub skip_secret_interp: Option<bool>,
    pub project_name: Option<String>,
}

impl PartialStackConfig {
    /// A partial that sets nothing.
    pub open spec fn spec_empty(self) -> bool {
        &&& self.server_id is None
        &&& self.file_contents is None
        &&& self.environment is None
        &&& self.extra_args is None
        &&& self.build_extra_args is None
        &&& self.pre_deploy is None
        &&& self.git_provider is None
        &&& self.git_account is None
        &&& self.git_https is None
        &&& self.repo is None
        &&& self.branch is None
        &&& self.registry_provider is None
        &&& self.registry_account is None
        &&& self.skip_secret_interp is None
        &&& self.project_name is None
    }

    /// The partial that sets nothing.
    pub fn none() -> (r: PartialStackConfig)
        ensures
            r.spec_empty(),
    {
        PartialStackConfig {
            server_id: None,
            file_contents: None,
            environment: None,
            extra_args: None,
            build_extra_args: None,
            pre_deploy: None,
            git_provider: None,
            git_account: None,
            git_https: None,
            repo: None,
            branch: None,
            registry_provider: None,
            registry_account: None,
            skip_secret_interp: None,
            project_name: None,
        }
    }
}

/// Merge a partial config into a config: a field the partial sets is
/// overwritten, one it leaves out keeps its value — so the empty partial
/// is the identity.
pub fn apply_partial(config: &StackConfig, partial: &PartialStackConfig) -> (r: StackConfig)
    ensures
        r.server_id == (match partial.server_id {
            Some(v) => v,
            None => config.server_id,
        }),
        r.file_contents == (match partial.file_contents {
            Some(v) => v,
            None => config.file_contents,
        }),
        r.environment == (match partial.environment {
            Some(v) => v,
            None => config.environment,
        }),
        r.extra_args@ == (match partial.extra_args {
            Some(v) => v@,
            None => config.extra_args@,
        }),
        r.build_extra_args@ == (match partial.build_extra_args {
            Some(v) => v@,
            None => config.build_extra_args@,
        }),
        r.pre_deploy == (match partial.pre_deploy {
            Some(v) => v,
            None => config.pre_deploy,
        }),
        r.git_provider == (match partial.git_provider {
            Some(v) => v,
            None => config.git_provider,
        }),
        r.git_account == (match partial.git_account {
            Some(v) => v,
            None => config.git_account,
        }),
        r.git_https == (match partial.git_https {
            Some(v) => v,
            None => config.git_https,
        }),
        r.repo == (match partial.repo {
            Some(v) => v,
            None => config.repo,
        }),
        r.branch == (match partial.branch {
            Some(v) => v,
            None => config.branch,
        }),
        r.registry_provider == (match partial.registry_provider {
            Some(v) => v,
            None => config.registry_provider,
        }),
        r.registry_account == (match partial.registry_account {
            Some(v) => v,
            None => config.registry_account,
        }),
        r.skip_secret_interp == (match partial.skip_secret_interp {
            Some(v) => v,
            None => config.skip_secret_interp,
        }),
        r.project_name == (match partial.project_name {
            Some(v) => v,
            None => config.project_name,
        }),
        partial.spec_empty() ==> config_like(r, *config),
{
    StackConfig {
        server_id: pick_string(&partial.server_id, &config.server_id),
        file_contents: pick_string(&partial.file_contents, &config.file_contents),
        environment: pick_string(&partial.environment, &config.environment),
        extra_args: match &partial.extra_args {
            Option::Some(v) => crate::stack::clone_strings(v),
            Option::None => crate::stack::clone_strings(&config.extra_args),
        },
        build_extra_args: match &partial.build_extra_args {
            Option::Some(v) => crate::stack::clone_strings(v),
            Option::None => crate::stack::clone_strings(&config.build_extra_args),
        },
        pre_deploy: match &partial.pre_deploy {
            Option::Some(v) => v.clone(),
            Option::None => config.pre_deploy.clone(),
        },
        git_provider: pick_string(&partial.git_provider, &config.git_provider),
        git_account: pick_string(&partial.git_account, &config.git_account),
        git_https: match partial.git_https {
            Option::Some(v) => v,
            Option::None => config.git_https,
        },
        repo: pick_string(&partial.repo, &config.repo),
        branch: pick_string(&partial.branch, &config.branch),
        registry_provider: pick_string(&partial.registry_provider, &config.registry_provider),
        registry_account: pick_string(&partial.registry_account, &config.registry_account),
        skip_secret_interp: match partial.skip_secret_interp {
            Option::Some(v) => v,
            Option::None => config.skip_secret_interp,
        },
        project_name: pick_string(&partial.project_name, &config.project_name),
    }
}

/// The override when one is set, the base otherwise.
fn pick_string(over: &Option<String>, base: &String) -> (r: String)
    ensures
        r == (match over {
            Some(v) => v,
            None => base,
        }),
{
    match over {
        Option::Some(v) => v.clone(),
        Option::None => base.clone(),
    }
}

} // verus!
