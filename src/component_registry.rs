//! The registry of loaded components and its secondary index from tool
//! names to the components that export them.

use vstd::prelude::*;
use vstd::string::*;

use crate::policy::PolicyDocument;
use crate::text::str_eq;

verus! {

/// A component the registry holds.
#[derive(Debug, Clone)]
pub struct LoadedComponent {
    /// Component id.
    pub component_id: String,
    /// The reference it was loaded from.
    pub source: String,
    /// Names of the tools its schema declares.
    pub tools: Vec<String>,
    /// Its capability policy; none grants nothing.
    pub policy: Option<PolicyDocument>,
}

/// One entry of the tool index.
#[derive(Debug, Clone)]
pub struct IndexEntry {
    /// Tool name.
    pub tool: String,
    /// Id of a component that exports it.
    pub component_id: String,
}

/// Whether a load added a component or replaced one with the same id.
#[derive(Debug, Clone, Copy, PartialEq, Eq, Structural)]
pub enum LoadOutcome {
    New,
    Replaced,
}

/// Why a lookup failed.
#[derive(Debug, Clone, PartialEq, Eq)]
pub enum RegistryError {
    /// No component has this id.
    NotFound { component_id: String },
    /// No component exports this tool.
    ToolNotFound { name: String },
    /// Several components export this tool: their ids.
    Ambiguous { name: String, candidates: Vec<String> },
    /// The policy does not validate.
    PolicyValidation { error: crate::policy::PolicyError },
    /// Another source is registered under the same component id.
    AmbiguousComponentId { component_id: String, existing_source: String },
}

/// A component with the id of `c` but another source is registered.
pub open spec fn id_taken_by_other_source(cs: Seq<LoadedComponent>, c: LoadedComponent) -> bool {
    exists|i: int|
        0 <= i < cs.len() && (#[trigger] cs[i]).component_id@ == c.component_id@ && cs[i].source@
            != c.source@
}

/// One tool as the registry lists it.
#[derive(Debug, Clone, PartialEq, Eq)]
pub struct ListedTool {
    /// The component that exports it.
    pub component_id: String,
    /// Its name in the component's schema.
    pub name: String,
    /// The name it is listed under: its own, or `<component_id>/<name>` when
    /// another component declares the same name.
    pub listed_name: String,
}

/// Another component than the one at `i` declares `name`.
pub open spec fn declared_elsewhere(cs: Seq<LoadedComponent>, i: int, name: Seq<char>) -> bool {
    exists|j: int| 0 <= j < cs.len() && j != i && declares(#[trigger] cs[j], name)
}

/// The (component, tool) positions of all declared tools, component by
/// component, each in schema order, over the first `i` components.
pub open spec fn tool_positions(cs: Seq<LoadedComponent>, i: int) -> Seq<(int, int)>
    decreases i,
{
    if i <= 0 {
        Seq::empty()
    } else {
        tool_positions(cs, i - 1) + Seq::new(cs[i - 1].tools@.len(), |t: int| (i - 1, t))
    }
}

/// `l` lists the tool at position `(i, t)`.
pub open spec fn lists(cs: Seq<LoadedComponent>, i: int, t: int, l: ListedTool) -> bool {
    let name = cs[i].tools@[t]@;
    &&& l.component_id@ == cs[i].component_id@
    &&& l.name@ == name
    &&& l.listed_name@ == if declared_elsewhere(cs, i, name) {
        cs[i].component_id@ + "/"@ + name
    } else {
        name
    }
}

/// The components, unique by id, with the tool index.
pub struct ComponentRegistry {
    components: Vec<LoadedComponent>,
    index: Vec<IndexEntry>,
}

/// The component declares the tool `name`.
pub open spec fn declares(c: LoadedComponent, name: Seq<char>) -> bool {
    exists|t: int| 0 <= t < c.tools@.len() && (#[trigger] c.tools@[t])@ == name
}

/// Some component in `cs` has the id `id`.
pub open spec fn has_id(cs: Seq<LoadedComponent>, id: Seq<char>) -> bool {
    exists|i: int| 0 <= i < cs.len() && (#[trigger] cs[i]).component_id@ == id
}

/// The index maps `name` to `id`.
pub open spec fn indexed(idx: Seq<IndexEntry>, name: Seq<char>, id: Seq<char>) -> bool {
    exists|k: int| 0 <= k < idx.len() && (#[trigger] idx[k]).tool@ == name && idx[k].component_id@ == id
}

/// Ids are unique.
pub open spec fn ids_unique(cs: Seq<LoadedComponent>) -> bool {
    forall|i: int, j: int|
        0 <= i < cs.len() && 0 <= j < cs.len() && i != j ==> (#[trigger] cs[i]).component_id@
            != (#[trigger] cs[j]).component_id@
}

/// Tool index consistency: every declared tool of every component is in
/// the index under that component, and every index entry points at a
/// registered component that declares the tool.
pub open spec fn index_consistent(cs: Seq<LoadedComponent>, idx: Seq<IndexEntry>) -> bool {
    &&& forall|i: int, t: int|
        0 <= i < cs.len() && 0 <= t < cs[i].tools@.len() ==> indexed(
            idx,
            (#[trigger] cs[i].tools@[t])@,
            cs[i].component_id@,
        )
    &&& forall|k: int| 0 <= k < idx.len() ==> entry_backed(cs, #[trigger] idx[k])
}

/// Some component of `cs` has the entry's id and declares its tool.
pub open spec fn entry_backed(cs: Seq<LoadedComponent>, e: IndexEntry) -> bool {
    exists|i: int|
        0 <= i < cs.len() && (#[trigger] cs[i]).component_id@ == e.component_id@ && declares(
            cs[i],
            e.tool@,
        )
}

/// `t` indexes a declared tool of the component at `a`.
pub open spec fn valid_position(cs: Seq<LoadedComponent>, a: int, t: int) -> bool {
    0 <= a < cs.len() && 0 <= t < cs[a].tools@.len()
}

/// Positions are exactly the valid (component, tool) pairs among the first
/// `i` components.
pub proof fn lemma_tool_positions(cs: Seq<LoadedComponent>, i: int)
    requires
        0 <= i <= cs.len(),
    ensures
        forall|k: int|
            0 <= k < tool_positions(cs, i).len() ==> {
                let p = #[trigger] tool_positions(cs, i)[k];
                0 <= p.0 < i && 0 <= p.1 < cs[p.0].tools@.len()
            },
        forall|a: int, t: int|
            #[trigger] valid_position(cs, a, t) && a < i ==> exists|k: int|
                0 <= k < tool_positions(cs, i).len() && #[trigger] tool_positions(cs, i)[k] == (a, t),
    decreases i,
{
    if i > 0 {
        lemma_tool_positions(cs, i - 1);
        let prev = tool_positions(cs, i - 1);
        let cur = tool_positions(cs, i);
        let tail = Seq::new(cs[i - 1].tools@.len(), |t: int| (i - 1, t));
        assert(cur == prev + tail);
        assert forall|k: int| 0 <= k < cur.len() implies {
            let p = #[trigger] cur[k];
            0 <= p.0 < i && 0 <= p.1 < cs[p.0].tools@.len()
        } by {
            if k < prev.len() {
                assert(cur[k] == prev[k]);
            } else {
                assert(cur[k] == tail[k - prev.len()]);
            }
        }
        assert forall|a: int, t: int|
            #[trigger] valid_position(cs, a, t) && a < i implies exists|k: int|
            0 <= k < cur.len() && #[trigger] cur[k] == (a, t) by {
            if a < i - 1 {
                assert(valid_position(cs, a, t));
                let k = choose|k: int| 0 <= k < prev.len() && #[trigger] prev[k] == (a, t);
                assert(cur[k] == prev[k]);
            } else {
                assert(cur[prev.len() + t] == tail[t]);
            }
        }
    }
}

/// The ids of the components that declare `name`.
pub open spec fn providers(cs: Seq<LoadedComponent>, name: Seq<char>) -> Set<Seq<char>> {
    Set::new(
        |id: Seq<char>| exists|i: int| 0 <= i < cs.len() && (#[trigger] cs[i]).component_id@ == id && declares(cs[i], name),
    )
}

/// A copy of `v`.
pub fn copy_strings(v: &Vec<String>) -> (r: Vec<String>)
    ensures
        r@ == v@,
{
    let mut out: Vec<String> = Vec::new();
    let mut i: usize = 0;
    while i < v.len()
        invariant
            i <= v@.len(),
            out@ == v@.subrange(0, i as int),
        decreases v@.len() - i,
    {
        out.push(v[i].clone());
        i = i + 1;
        assert(out@ =~= v@.subrange(0, i as int));
    }
    assert(v@.subrange(0, v@.len() as int) =~= v@);
    out
}

impl ComponentRegistry {
    /// The registered components, in load order.
    pub closed spec fn components_spec(&self) -> Seq<LoadedComponent> {
        self.components@
    }

    /// The tool index.
    pub closed spec fn index_spec(&self) -> Seq<IndexEntry> {
        self.index@
    }

    /// Ids are unique and the tool index is consistent.
    pub closed spec fn wf(&self) -> bool {
        ids_unique(self.components@) && index_consistent(self.components@, self.index@)
    }

    /// An empty registry.
    pub fn new() -> (r: Self)
        ensures
            r.wf(),
            r.components_spec().len() == 0,
    {
        ComponentRegistry { components: Vec::new(), index: Vec::new() }
    }

    /// Number of registered components.
    pub fn len(&self) -> (r: usize)
        ensures
            r == self.components_spec().len(),
    {
        self.components.len()
    }

    fn position(&self, id: &str) -> (r: Option<usize>)
        ensures
            match r {
                Some(i) => i < self.components@.len() && self.components@[i as int].component_id@
                    == id@,
                None => !has_id(self.components@, id@),
            },
    {
        let mut i: usize = 0;
        while i < self.components.len()
            invariant
                i <= self.components@.len(),
                forall|j: int| 0 <= j < i ==> (#[trigger] self.components@[j]).component_id@ != id@,
            decreases self.components@.len() - i,
        {
            if str_eq(self.components[i].component_id.as_str(), id) {
                return Some(i);
            }
            i = i + 1;
        }
        None
    }

    /// Whether a component with this id is registered.
    pub fn contains(&self, id: &str) -> (r: bool)
        ensures
            r == has_id(self.components_spec(), id@),
    {
        self.position(id).is_some()
    }

    /// The ids of the registered components, in load order.
    pub fn list(&self) -> (r: Vec<String>)
        ensures
            r@.len() == self.components_spec().len(),
            forall|i: int|
                0 <= i < r@.len() ==> #[trigger] r@[i] == self.components_spec()[i].component_id,
    {
        let mut out: Vec<String> = Vec::new();
        let mut i: usize = 0;
        while i < self.components.len()
            invariant
                i <= self.components@.len(),
                out@.len() == i,
                forall|j: int| 0 <= j < i ==> #[trigger] out@[j] == self.components@[j].component_id,
            decreases self.components@.len() - i,
        {
            out.push(self.components[i].component_id.clone());
            i = i + 1;
        }
        out
    }

    /// The tool names that the component `id` declares.
    pub fn schema(&self, id: &str) -> (r: Result<Vec<String>, RegistryError>)
        ensures
            has_id(self.components_spec(), id@) <==> r is Ok,
            r matches Ok(tools) ==> exists|i: int|
                0 <= i < self.components_spec().len() && (#[trigger] self.components_spec()[i]).component_id@
                    == id@ && tools@ == self.components_spec()[i].tools@,
            r matches Err(e) ==> (e is NotFound && e->NotFound_component_id@ == id@),
    {
        match self.position(id) {
            Some(i) => {
                Ok(copy_strings(&self.components[i].tools))
            },
            None => Err(RegistryError::NotFound { component_id: String::from_str(id) }),
        }
    }

    /// Every declared tool, component by component in load order; a name
    /// that several components declare is listed as `<component_id>/<name>`.
    #[verifier::loop_isolation(false)]
    pub fn tools(&self) -> (r: Vec<ListedTool>)
        ensures
            r@.len() == tool_positions(self.components_spec(), self.components_spec().len() as int).len(),
            forall|k: int|
                0 <= k < r@.len() ==> {
                    let pos = tool_positions(
                        self.components_spec(),
                        self.components_spec().len() as int,
                    )[k];
                    lists(self.components_spec(), pos.0, pos.1, #[trigger] r@[k])
                },
            forall|k: int|
                0 <= k < r@.len() ==> valid_position(
                    self.components_spec(),
                    (#[trigger] tool_positions(
                        self.components_spec(),
                        self.components_spec().len() as int,
                    )[k]).0,
                    tool_positions(self.components_spec(), self.components_spec().len() as int)[k].1,
                ),
            forall|a: int, t: int|
                #[trigger] valid_position(self.components_spec(), a, t) ==> exists|k: int|
                    0 <= k < r@.len() && lists(self.components_spec(), a, t, #[trigger] r@[k]),
    {
        let ghost cs = self.components@;
        let n = self.components.len();
        let mut out: Vec<ListedTool> = Vec::new();
        let mut i: usize = 0;
        while i < n
            invariant
                n == cs.len(),
                i <= n,
                out@.len() == tool_positions(cs, i as int).len(),
                forall|k: int|
                    0 <= k < out@.len() ==> lists(
                        cs,
                        tool_positions(cs, i as int)[k].0,
                        tool_positions(cs, i as int)[k].1,
                        #[trigger] out@[k],
                    ),
            decreases n - i,
        {
            let c = &self.components[i];
            let ghost base = out@;
            let ghost before = tool_positions(cs, i as int);
            let mut t: usize = 0;
            while t < c.tools.len()
                invariant
                    n == cs.len(),
                    i < n,
                    *c == cs[i as int],
                    t <= c.tools@.len(),
                    out@.len() == before.len() + t,
                    forall|k: int| 0 <= k < before.len() ==> out@[k] == base[k],
                    forall|k: int|
                        0 <= k < t ==> lists(cs, i as int, k, #[trigger] out@[before.len() + k]),
                decreases c.tools@.len() - t,
            {
                let name = &c.tools[t];
                let mut elsewhere = false;
                let mut j: usize = 0;
                while j < n
                    invariant
                        n == cs.len(),
                        j <= n,
                        elsewhere == exists|jj: int|
                            0 <= jj < j && jj != i && declares(#[trigger] cs[jj], name@),
                    decreases n - j,
                {
                    if j != i && crate::middleware::contains_name(&self.components[j].tools, name.as_str()) {
                        elsewhere = true;
                        assert(crate::middleware::names_contain(cs[j as int].tools@, name@));
                        assert(declares(cs[j as int], name@));
                    } else if j != i {
                        assert(!declares(cs[j as int], name@)) by {
                            if declares(cs[j as int], name@) {
                                let w = choose|w: int| 0 <= w < cs[j as int].tools@.len() && (#[trigger] cs[j as int].tools@[w])@ == name@;
                                assert(cs[j as int].tools@[w]@ == name@);
                            }
                        }
                    }
                    j = j + 1;
                }
                let listed_name = if elsewhere {
                    let mut l = c.component_id.clone();
                    l.append("/");
                    l.append(name.as_str());
                    l
                } else {
                    name.clone()
                };
                out.push(ListedTool { component_id: c.component_id.clone(), name: name.clone(), listed_name });
                assert(lists(cs, i as int, t as int, out@[before.len() + t]));
                t = t + 1;
            }
            proof {
                let after = tool_positions(cs, i + 1 as int);
                assert(after == before + Seq::new(cs[i as int].tools@.len(), |t: int| (i as int, t)));
                assert forall|k: int| 0 <= k < out@.len() implies lists(
                    cs,
                    after[k].0,
                    after[k].1,
                    #[trigger] out@[k],
                ) by {
                    if k < before.len() {
                        assert(out@[k] == base[k]);
                        assert(after[k] == before[k]);
                    } else {
                        assert(after[k] == (i as int, k - before.len()));
                        assert(lists(cs, i as int, k - before.len(), out@[before.len() + (k - before.len())]));
                    }
                }
            }
            i = i + 1;
        }
        proof {
            assert(cs == self.components_spec());
            let n = cs.len() as int;
            let pos = tool_positions(cs, n);
            lemma_tool_positions(cs, n);
            assert forall|a: int, t: int| #[trigger] valid_position(self.components_spec(), a, t) implies exists|k: int|
                0 <= k < out@.len() && lists(self.components_spec(), a, t, #[trigger] out@[k]) by {
                assert(valid_position(cs, a, t));
                let k = choose|k: int| 0 <= k < pos.len() && #[trigger] pos[k] == (a, t);
                assert(lists(cs, pos[k].0, pos[k].1, out@[k]));
            }
        }
        out
    }

    /// The policy of the component `id`.
    pub fn policy(&self, id: &str) -> (r: Result<Option<&PolicyDocument>, RegistryError>)
        ensures
            has_id(self.components_spec(), id@) <==> r is Ok,
            r matches Ok(p) ==> exists|i: int|
                0 <= i < self.components_spec().len() && (#[trigger] self.components_spec()[i]).component_id@
                    == id@ && match self.components_spec()[i].policy {
                    Some(q) => p == Some(&q),
                    None => p is None,
                },
            r matches Err(e) ==> (e is NotFound && e->NotFound_component_id@ == id@),
    {
        match self.position(id) {
            Some(i) => Ok(self.components[i].policy.as_ref()),
            None => Err(RegistryError::NotFound { component_id: String::from_str(id) }),
        }
    }

    /// Validates `policy` and makes it the policy of the component `id`;
    /// on failure nothing changes.
    pub fn attach_policy(&mut self, id: &str, policy: PolicyDocument) -> (r: Result<(), RegistryError>)
        requires
            old(self).wf(),
        ensures
            final(self).wf(),
            r is Ok <==> (has_id(old(self).components_spec(), id@) && crate::policy::policy_error(policy) is None),
            !has_id(old(self).components_spec(), id@) ==> (r is Err && r->Err_0 is NotFound),
            has_id(old(self).components_spec(), id@) && crate::policy::policy_error(policy) is Some ==> r
                == Err::<(), RegistryError>(
                RegistryError::PolicyValidation { error: crate::policy::policy_error(policy)->0 },
            ),
            r is Err ==> final(self).components_spec() == old(self).components_spec(),
            final(self).components_spec().len() == old(self).components_spec().len(),
            forall|i: int|
                0 <= i < final(self).components_spec().len() ==> {
                    let a = #[trigger] final(self).components_spec()[i];
                    let b = old(self).components_spec()[i];
                    &&& a.component_id == b.component_id
                    &&& a.source == b.source
                    &&& a.tools == b.tools
                    &&& a.policy == if r is Ok && b.component_id@ == id@ {
                        Some(policy)
                    } else {
                        b.policy
                    }
                },
    {
        let p = match self.position(id) {
            Some(p) => p,
            None => {
                return Err(RegistryError::NotFound { component_id: String::from_str(id) });
            },
        };
        if let Err(e) = policy.validate() {
            return Err(RegistryError::PolicyValidation { error: e });
        }
        let ghost cs = self.components@;
        self.components[p].policy = Some(policy);
        proof {
            let ncs = self.components@;
            assert forall|i: int| 0 <= i < ncs.len() && i != p implies ncs[i] == cs[i] by {}
            assert forall|i: int| 0 <= i < ncs.len() && cs[i].component_id@ == id@ implies i == p by {
                if i != p {
                    assert(cs[i].component_id@ != cs[p as int].component_id@);
                }
            }
            assert(ids_unique(ncs)) by {
                assert forall|a: int, b: int|
                    0 <= a < ncs.len() && 0 <= b < ncs.len() && a != b implies (#[trigger] ncs[a]).component_id@
                    != (#[trigger] ncs[b]).component_id@ by {
                    assert(cs[a].component_id@ != cs[b].component_id@);
                }
            }
            assert forall|i: int, t: int|
                0 <= i < ncs.len() && 0 <= t < ncs[i].tools@.len() implies indexed(
                self.index@,
                (#[trigger] ncs[i].tools@[t])@,
                ncs[i].component_id@,
            ) by {
                assert(ncs[i].tools == cs[i].tools);
                assert(indexed(self.index@, (cs[i].tools@[t])@, cs[i].component_id@));
            }
            assert forall|k: int| 0 <= k < self.index@.len() implies entry_backed(ncs, #[trigger] self.index@[k]) by {
                assert(entry_backed(cs, self.index@[k]));
                let a = choose|a: int|
                    0 <= a < cs.len() && (#[trigger] cs[a]).component_id@ == self.index@[k].component_id@
                        && declares(cs[a], self.index@[k].tool@);
                assert(ncs[a].tools == cs[a].tools);
                assert(declares(ncs[a], self.index@[k].tool@));
            }
        }
        Ok(())
    }

    /// Removes the component `id` and its index entries.
    pub fn unload(&mut self, id: &str) -> (r: Result<(), RegistryError>)
        requires
            old(self).wf(),
        ensures
            final(self).wf(),
            r is Ok <==> has_id(old(self).components_spec(), id@),
            r matches Err(e) ==> (e is NotFound && e->NotFound_component_id@ == id@),
            r is Err ==> final(self).components_spec() == old(self).components_spec(),
            r is Ok ==> !has_id(final(self).components_spec(), id@),
            forall|c: LoadedComponent|
                c.component_id@ != id@ ==> (final(self).components_spec().contains(c)
                    <==> old(self).components_spec().contains(c)),
    {
        match self.position(id) {
            None => Err(RegistryError::NotFound { component_id: String::from_str(id) }),
            Some(p) => {
                self.remove_at(p);
                Ok(())
            },
        }
    }

    #[verifier::loop_isolation(false)]
    fn remove_at(&mut self, p: usize)
        requires
            old(self).wf(),
            p < old(self).components@.len(),
        ensures
            final(self).wf(),
            final(self).components@ == old(self).components@.remove(p as int),
            forall|c: LoadedComponent|
                c.component_id@ != old(self).components@[p as int].component_id@ ==> (
                final(self).components@.contains(c) <==> old(self).components@.contains(c)),
            !has_id(final(self).components@, old(self).components@[p as int].component_id@),
    {
        let ghost cs = self.components@;
        let ghost idx = self.index@;
        let ghost gone = cs[p as int].component_id@;
        let removed = self.components.remove(p);
        let ghost ncs = self.components@;
        assert(ncs =~= cs.remove(p as int));
        let mut kept: Vec<IndexEntry> = Vec::new();
        let ghost mut src: Seq<int> = Seq::empty();
        let mut i: usize = 0;
        while i < self.index.len()
            invariant
                self.index@ == idx,
                i <= idx.len(),
                src.len() == kept@.len(),
                forall|k: int|
                    0 <= k < kept@.len() ==> 0 <= #[trigger] src[k] < i && kept@[k] == idx[src[k]]
                        && idx[src[k]].component_id@ != gone,
                forall|j: int|
                    0 <= j < i && (#[trigger] idx[j]).component_id@ != gone ==> kept@.contains(idx[j]),
            decreases idx.len() - i,
        {
            let ghost before = kept@;
            if !str_eq(self.index[i].component_id.as_str(), removed.component_id.as_str()) {
                kept.push(self.index[i].clone_entry());
                proof {
                    src = src.push(i as int);
                }
                assert(kept@[before.len() as int] == idx[i as int]);
                assert forall|j: int|
                    0 <= j < i + 1 && (#[trigger] idx[j]).component_id@ != gone implies kept@.contains(idx[j]) by {
                    if j < i {
                        let m = choose|m: int| 0 <= m < before.len() && before[m] == idx[j];
                        assert(kept@[m] == idx[j]);
                    } else {
                        assert(kept@[before.len() as int] == idx[j]);
                    }
                }
            }
            i = i + 1;
        }
        self.index = kept;
        let ghost nidx = self.index@;
        assert(ids_unique(ncs)) by {
            assert forall|a: int, b: int|
                0 <= a < ncs.len() && 0 <= b < ncs.len() && a != b implies (#[trigger] ncs[a]).component_id@
                != (#[trigger] ncs[b]).component_id@ by {
                let a0 = if a < p { a } else { a + 1 };
                let b0 = if b < p { b } else { b + 1 };
                assert(ncs[a] == cs[a0] && ncs[b] == cs[b0]);
            }
        }
        assert forall|a: int, t: int|
            0 <= a < ncs.len() && 0 <= t < ncs[a].tools@.len() implies indexed(
            nidx,
            (#[trigger] ncs[a].tools@[t])@,
            ncs[a].component_id@,
        ) by {
            let a0 = if a < p { a } else { a + 1 };
            assert(ncs[a] == cs[a0]);
            assert(cs[a0].tools@[t] == ncs[a].tools@[t]);
            assert(indexed(idx, (cs[a0].tools@[t])@, cs[a0].component_id@));
            let k = choose|k: int|
                0 <= k < idx.len() && (#[trigger] idx[k]).tool@ == (cs[a0].tools@[t])@
                    && idx[k].component_id@ == cs[a0].component_id@;
            assert(cs[a0].component_id@ != gone);
            assert(nidx.contains(idx[k]));
            let m = choose|m: int| 0 <= m < nidx.len() && nidx[m] == idx[k];
            assert(nidx[m].tool@ == (ncs[a].tools@[t])@);
        }
        assert forall|c: LoadedComponent| c.component_id@ != gone implies (ncs.contains(c)
            <==> cs.contains(c)) by {
            if ncs.contains(c) {
                let a = choose|a: int| 0 <= a < ncs.len() && ncs[a] == c;
                let a0 = if a < p { a } else { a + 1 };
                assert(cs[a0] == c);
            }
            if cs.contains(c) {
                let a0 = choose|a0: int| 0 <= a0 < cs.len() && cs[a0] == c;
                assert(a0 != p);
                let a = if a0 < p { a0 } else { a0 - 1 };
                assert(ncs[a] == c);
            }
        }
        assert(!has_id(ncs, gone)) by {
            if has_id(ncs, gone) {
                let a = choose|a: int| 0 <= a < ncs.len() && (#[trigger] ncs[a]).component_id@ == gone;
                let a0 = if a < p { a } else { a + 1 };
                assert(cs[a0] == ncs[a]);
            }
        }
        assert forall|k: int| 0 <= k < nidx.len() implies entry_backed(ncs, #[trigger] nidx[k]) by {
            let j = src[k];
            assert(entry_backed(cs, idx[j]));
            let a0 = choose|a0: int|
                0 <= a0 < cs.len() && (#[trigger] cs[a0]).component_id@ == idx[j].component_id@
                    && declares(cs[a0], idx[j].tool@);
            assert(a0 != p);
            let a = if a0 < p { a0 } else { a0 - 1 };
            assert(ncs[a] == cs[a0]);
        }
        assert(index_consistent(ncs, nidx));
    }

    /// Registers `component` and indexes its tools. A component with the
    /// same id and source is replaced; one with the same id but another
    /// source makes the load fail, leaving the registry as it was.
    pub fn load(&mut self, component: LoadedComponent) -> (r: Result<LoadOutcome, RegistryError>)
        requires
            old(self).wf(),
        ensures
            final(self).wf(),
            r is Err <==> id_taken_by_other_source(old(self).components_spec(), component),
            r matches Err(e) ==> (e is AmbiguousComponentId && e->AmbiguousComponentId_component_id@
                == component.component_id@),
            r is Err ==> final(self).components_spec() == old(self).components_spec(),
            r is Ok ==> r->Ok_0 == (if has_id(old(self).components_spec(), component.component_id@) {
                LoadOutcome::Replaced
            } else {
                LoadOutcome::New
            }),
            r is Ok ==> final(self).components_spec().last() == component,
            r is Ok ==> forall|c: LoadedComponent|
                c.component_id@ != component.component_id@ ==> (
                final(self).components_spec().contains(c)
                    <==> old(self).components_spec().contains(c)),
            r is Ok ==> forall|i: int|
                0 <= i < final(self).components_spec().len() - 1 ==> (
                #[trigger] final(self).components_spec()[i]).component_id@ != component.component_id@,
    {
        let ghost cs0 = self.components@;
        let outcome = match self.position(component.component_id.as_str()) {
            Some(p) => {
                if !str_eq(self.components[p].source.as_str(), component.source.as_str()) {
                    return Err(
                        RegistryError::AmbiguousComponentId {
                            component_id: component.component_id.clone(),
                            existing_source: self.components[p].source.clone(),
                        },
                    );
                }
                proof {
                    assert forall|i: int|
                        0 <= i < cs0.len() && (#[trigger] cs0[i]).component_id@ == component.component_id@
                        implies cs0[i].source@ == component.source@ by {
                        if i != p {
                            assert(cs0[i].component_id@ != cs0[p as int].component_id@);
                        }
                    }
                }
                self.remove_at(p);
                LoadOutcome::Replaced
            },
            None => LoadOutcome::New,
        };
        let ghost cs1 = self.components@;
        self.append(component);
        proof {
            let cs2 = self.components@;
            assert forall|c: LoadedComponent| c.component_id@ != component.component_id@ implies (
            cs2.contains(c) <==> cs0.contains(c)) by {
                if cs2.contains(c) {
                    let a = choose|a: int| 0 <= a < cs2.len() && cs2[a] == c;
                    assert(a < cs1.len());
                    assert(cs1[a] == c);
                }
                if cs1.contains(c) {
                    let a = choose|a: int| 0 <= a < cs1.len() && cs1[a] == c;
                    assert(cs2[a] == c);
                }
            }
            assert forall|i: int| 0 <= i < cs2.len() - 1 implies (#[trigger] cs2[i]).component_id@
                != component.component_id@ by {
                assert(cs2[i] == cs1[i]);
            }
        }
        Ok(outcome)
    }

    #[verifier::loop_isolation(false)]
    fn append(&mut self, component: LoadedComponent)
        requires
            old(self).wf(),
            !has_id(old(self).components@, component.component_id@),
        ensures
            final(self).wf(),
            !has_id(old(self).components@, component.component_id@),
            final(self).components@ == old(self).components@.push(component),
    {
        let ghost cs = self.components@;
        let ghost idx0 = self.index@;
        let mut t: usize = 0;
        while t < component.tools.len()
            invariant
                self.components@ == cs,
                idx0.len() <= self.index@.len(),
                forall|k: int| 0 <= k < idx0.len() ==> self.index@[k] == idx0[k],
                t <= component.tools@.len(),
                forall|k: int|
                    idx0.len() <= k < self.index@.len() ==> (#[trigger] self.index@[k]).component_id
                        == component.component_id && declares(component, self.index@[k].tool@),
                forall|u: int|
                    0 <= u < t ==> indexed(
                        self.index@,
                        (#[trigger] component.tools@[u])@,
                        component.component_id@,
                    ),
            decreases component.tools@.len() - t,
        {
            let ghost before = self.index@;
            self.index.push(
                IndexEntry {
                    tool: component.tools[t].clone(),
                    component_id: component.component_id.clone(),
                },
            );
            assert(declares(component, component.tools@[t as int]@));
            assert forall|u: int| 0 <= u < t + 1 implies indexed(
                self.index@,
                (#[trigger] component.tools@[u])@,
                component.component_id@,
            ) by {
                if u < t {
                    let k = choose|k: int|
                        0 <= k < before.len() && (#[trigger] before[k]).tool@ == (component.tools@[u])@
                            && before[k].component_id@ == component.component_id@;
                    assert(self.index@[k] == before[k]);
                } else {
                    assert(self.index@[before.len() as int].tool@ == (component.tools@[u])@);
                }
            }
            t = t + 1;
        }
        let ghost idx1 = self.index@;
        self.components.push(component);
        let ghost ncs = self.components@;
        assert(ncs =~= cs.push(component));
        assert forall|a: int, tt: int|
            0 <= a < ncs.len() && 0 <= tt < ncs[a].tools@.len() implies indexed(
            idx1,
            (#[trigger] ncs[a].tools@[tt])@,
            ncs[a].component_id@,
        ) by {
            if a < cs.len() {
                assert(ncs[a] == cs[a]);
                let k = choose|k: int|
                    0 <= k < idx0.len() && (#[trigger] idx0[k]).tool@ == (cs[a].tools@[tt])@
                        && idx0[k].component_id@ == cs[a].component_id@;
                assert(idx1[k] == idx0[k]);
            }
        }
        assert forall|k: int| 0 <= k < idx1.len() implies entry_backed(ncs, #[trigger] idx1[k]) by {
            if k < idx0.len() {
                assert(idx1[k] == idx0[k]);
                assert(entry_backed(cs, idx0[k]));
                let a = choose|a: int|
                    0 <= a < cs.len() && (#[trigger] cs[a]).component_id@ == idx0[k].component_id@
                        && declares(cs[a], idx0[k].tool@);
                assert(ncs[a] == cs[a]);
            } else {
                assert(ncs[cs.len() as int] == component);
            }
        }
        assert(ids_unique(ncs)) by {
            assert forall|a: int, b: int|
                0 <= a < ncs.len() && 0 <= b < ncs.len() && a != b implies (#[trigger] ncs[a]).component_id@
                != (#[trigger] ncs[b]).component_id@ by {
                if a < cs.len() && b < cs.len() {
                    assert(ncs[a] == cs[a] && ncs[b] == cs[b]);
                } else if a < cs.len() {
                    assert(ncs[a] == cs[a]);
                } else if b < cs.len() {
                    assert(ncs[b] == cs[b]);
                }
            }
        }
    }

    /// The component that exports the tool `name`: its id when exactly one
    /// does, `ToolNotFound` when none does, `Ambiguous` with every candidate
    /// id (each once) when several do.
    #[verifier::loop_isolation(false)]
    pub fn component_for_tool(&self, name: &str) -> (r: Result<String, RegistryError>)
        requires
            self.wf(),
        ensures
            r matches Ok(id) ==> providers(self.components_spec(), name@) == set![id@],
            r matches Err(e) ==> (e is ToolNotFound || e is Ambiguous),
            r matches Err(RegistryError::ToolNotFound { name: n }) ==> n@ == name@ && providers(
                self.components_spec(),
                name@,
            ) == Set::<Seq<char>>::empty(),
            r matches Err(RegistryError::Ambiguous { name: n, candidates }) ==> n@ == name@
                && candidates@.len() >= 2 && distinct_views(candidates@) && forall|x: Seq<char>|
                providers(self.components_spec(), name@).contains(x) <==> holds_view(
                    candidates@,
                    x,
                ),
    {
        let ghost cs = self.components@;
        let ghost idx = self.index@;
        let mut out: Vec<String> = Vec::new();
        let ghost mut src: Seq<int> = Seq::empty();
        let mut i: usize = 0;
        while i < self.index.len()
            invariant
                i <= idx.len(),
                src.len() == out@.len(),
                distinct_views(out@),
                forall|m: int|
                    0 <= m < out@.len() ==> 0 <= #[trigger] src[m] < idx.len() && idx[src[m]].tool@
                        == name@ && idx[src[m]].component_id@ == out@[m]@,
                forall|k: int|
                    0 <= k < i && (#[trigger] idx[k]).tool@ == name@ ==> holds_view(
                        out@,
                        idx[k].component_id@,
                    ),
            decreases idx.len() - i,
        {
            let e = &self.index[i];
            if str_eq(e.tool.as_str(), name) {
                let mut seen = false;
                let mut m: usize = 0;
                while m < out.len()
                    invariant
                        m <= out@.len(),
                        seen == holds_view(out@.subrange(0, m as int), e.component_id@),
                    decreases out@.len() - m,
                {
                    if out[m] == e.component_id {
                        seen = true;
                        assert(out@.subrange(0, m + 1 as int)[m as int] == out@[m as int]);
                    } else {
                        assert forall|q: int| 0 <= q < m + 1 implies #[trigger] out@.subrange(0, m + 1 as int)[q]
                            == out@.subrange(0, m as int).push(out@[m as int])[q] by {}
                    }
                    proof {
                        if seen && !holds_view(out@.subrange(0, m as int), e.component_id@) {
                            assert(out@.subrange(0, m + 1 as int)[m as int]@ == e.component_id@);
                        }
                        if holds_view(out@.subrange(0, m + 1 as int), e.component_id@) {
                            let q = choose|q: int| 0 <= q < m + 1 && (#[trigger] out@.subrange(0, m + 1 as int)[q])@ == e.component_id@;
                            if q < m {
                                assert(out@.subrange(0, m as int)[q] == out@.subrange(0, m + 1 as int)[q]);
                            }
                        }
                        if holds_view(out@.subrange(0, m as int), e.component_id@) {
                            let q = choose|q: int| 0 <= q < m && (#[trigger] out@.subrange(0, m as int)[q])@ == e.component_id@;
                            assert(out@.subrange(0, m + 1 as int)[q] == out@.subrange(0, m as int)[q]);
                        }
                    }
                    m = m + 1;
                }
                assert(out@.subrange(0, out@.len() as int) =~= out@);
                if !seen {
                    let ghost before = out@;
                    out.push(e.component_id.clone());
                    proof {
                        src = src.push(i as int);
                        assert(out@[before.len() as int] == e.component_id);
                        assert forall|a: int, b: int|
                            0 <= a < out@.len() && 0 <= b < out@.len() && a != b implies (#[trigger] out@[a])@
                            != (#[trigger] out@[b])@ by {
                            if a < before.len() && b < before.len() {
                                assert(out@[a] == before[a] && out@[b] == before[b]);
                            } else if a < before.len() {
                                assert(out@[a] == before[a]);
                            } else if b < before.len() {
                                assert(out@[b] == before[b]);
                            }
                        }
                        assert forall|k: int|
                            0 <= k < i + 1 && (#[trigger] idx[k]).tool@ == name@ implies holds_view(
                                out@,
                                idx[k].component_id@,
                            ) by {
                            if k < i {
                                let q = choose|q: int| 0 <= q < before.len() && (#[trigger] before[q])@ == idx[k].component_id@;
                                assert(out@[q] == before[q]);
                            } else {
                                assert(out@[before.len() as int]@ == idx[k].component_id@);
                            }
                        }
                        assert forall|mm: int| 0 <= mm < out@.len() implies 0 <= #[trigger] src[mm] < idx.len() && idx[src[mm]].tool@
                            == name@ && idx[src[mm]].component_id@ == out@[mm]@ by {
                            if mm < before.len() {
                                assert(out@[mm] == before[mm]);
                            }
                        }
                    }
                }
            }
            i = i + 1;
        }
        proof {
            let prov = providers(cs, name@);
            assert forall|x: Seq<char>| prov.contains(x) <==> holds_view(out@, x) by {
                if prov.contains(x) {
                    let c = choose|c: int| 0 <= c < cs.len() && (#[trigger] cs[c]).component_id@ == x && declares(cs[c], name@);
                    let t = choose|t: int| 0 <= t < cs[c].tools@.len() && (#[trigger] cs[c].tools@[t])@ == name@;
                    assert(indexed(idx, (cs[c].tools@[t])@, cs[c].component_id@));
                    let k = choose|k: int| 0 <= k < idx.len() && (#[trigger] idx[k]).tool@ == (cs[c].tools@[t])@ && idx[k].component_id@ == cs[c].component_id@;
                    assert(idx[k].tool@ == name@);
                }
                if holds_view(out@, x) {
                    let mm = choose|mm: int| 0 <= mm < out@.len() && (#[trigger] out@[mm])@ == x;
                    let k = src[mm];
                    assert(entry_backed(cs, idx[k]));
                    let c = choose|c: int| 0 <= c < cs.len() && (#[trigger] cs[c]).component_id@ == idx[k].component_id@ && declares(cs[c], idx[k].tool@);
                    assert(cs[c].component_id@ == x);
                }
            }
            if out@.len() == 1 {
                assert(prov =~= set![out@[0]@]);
            }
            if out@.len() == 0 {
                assert(prov =~= Set::<Seq<char>>::empty());
            }
        }
        if out.len() == 0 {
            Err(RegistryError::ToolNotFound { name: String::from_str(name) })
        } else if out.len() == 1 {
            Ok(out[0].clone())
        } else {
            Err(RegistryError::Ambiguous { name: String::from_str(name), candidates: out })
        }
    }
}

/// Tool index consistency: in a registry, every tool that a registered
/// component's schema declares is in the index under that component, and
/// every index entry names a registered component that declares the tool.
pub proof fn lemma_tool_index_consistent(registry: &ComponentRegistry)
    requires
        registry.wf(),
    ensures
        forall|i: int, t: int|
            0 <= i < registry.components_spec().len() && 0 <= t
                < registry.components_spec()[i].tools@.len() ==> indexed(
                registry.index_spec(),
                (#[trigger] registry.components_spec()[i].tools@[t])@,
                registry.components_spec()[i].component_id@,
            ),
        forall|k: int|
            0 <= k < registry.index_spec().len() ==> has_id(
                registry.components_spec(),
                (#[trigger] registry.index_spec()[k]).component_id@,
            ) && entry_backed(registry.components_spec(), registry.index_spec()[k]),
{
    assert forall|k: int| 0 <= k < registry.index_spec().len() implies has_id(
        registry.components_spec(),
        (#[trigger] registry.index_spec()[k]).component_id@,
    ) by {
        assert(entry_backed(registry.components_spec(), registry.index_spec()[k]));
    }
}

/// The views in `s` are pairwise different.
pub open spec fn distinct_views(s: Seq<String>) -> bool {
    forall|a: int, b: int|
        0 <= a < s.len() && 0 <= b < s.len() && a != b ==> (#[trigger] s[a])@ != (#[trigger] s[b])@
}

/// Some string of `s` has the view `x`.
pub open spec fn holds_view(s: Seq<String>, x: Seq<char>) -> bool {
    exists|m: int| 0 <= m < s.len() && (#[trigger] s[m])@ == x
}

impl IndexEntry {
    fn clone_entry(&self) -> (r: IndexEntry)
        ensures
            r == *self,
    {
        IndexEntry { tool: self.tool.clone(), component_id: self.component_id.clone() }
    }
}

} // verus!
