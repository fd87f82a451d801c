//! The merged collection of per-plugin version requests. A toolset
//! starts empty and absorbs fragments from configuration sources; the
//! merge is a last-writer-wins replace per plugin, so merge order
//! encodes precedence: lowest first, highest last.
use vstd::prelude::*;
use vstd::string::*;

use crate::index_map::{index_map_get, index_map_insert, index_map_new, index_map_pairs,
    map_entries, map_order, no_entries};
use crate::tool_source::{ToolSource, ToolSourceV};
use crate::tool_version::{token_of, ToolVersion, ToolVersionV};
use crate::tool_version_list::{ToolVersionList, ToolVersionListV};

verus! {

/// A collection of version requests for various plugins, such as the
/// contents of one tool-versions file, or the merge of many.
pub struct Toolset {
    versions: indexmap::IndexMap<String, ToolVersionList, std::collections::hash_map::RandomState>,
    pub source: ToolSource,
}

/// Mathematical image of a `Toolset`: its entries, the first-seen order
/// of its plugin names, and its provenance.
#[verifier::ext_equal]
pub struct ToolsetV {
    pub entries: Map<Seq<char>, ToolVersionListV>,
    pub order: Seq<Seq<char>>,
    pub source: ToolSourceV,
}

impl View for Toolset {
    type V = ToolsetV;

    closed spec fn view(&self) -> ToolsetV {
        ToolsetV {
            entries: map_entries(self.versions),
            order: map_order(self.versions),
            source: self.source@,
        }
    }
}

/// What adding one version request does: append to the plugin's list,
/// or open a new list attributed to the toolset's own source.
pub open spec fn ts_add_version(t: ToolsetV, p: Seq<char>, v: ToolVersionV) -> ToolsetV {
    let list = if t.entries.contains_key(p) {
        t.entries[p]
    } else {
        ToolVersionListV { versions: Seq::empty(), source: t.source }
    };
    ToolsetV {
        entries: t.entries.insert(
            p,
            ToolVersionListV { versions: list.versions.push(v), source: list.source },
        ),
        order: if t.entries.contains_key(p) {
            t.order
        } else {
            t.order.push(p)
        },
        source: t.source,
    }
}

impl Toolset {
    /// An empty toolset attributed to `source`.
    pub fn new(source: ToolSource) -> (r: Self)
        ensures
            r@.entries == no_entries(),
            r@.order == Seq::<Seq<char>>::empty(),
            r@.source == source@,
    {
        Toolset { versions: index_map_new(), source }
    }

    /// Appends one version request to the plugin's list, creating the
    /// list (attributed to this toolset's source) if the plugin is new.
    pub fn add_version(&mut self, plugin: String, version: ToolVersion)
        ensures
            final(self)@ == ts_add_version(old(self)@, plugin@, version@),
    {
        let list = match index_map_get(&self.versions, &plugin) {
            Some(l) => {
                let mut l2 = l.clone();
                l2.add_version(version);
                l2
            },
            None => {
                let mut l2 = ToolVersionList::new(self.source.clone());
                l2.add_version(version);
                l2
            },
        };
        proof {
            let t = old(self)@;
            let listv = if t.entries.contains_key(plugin@) {
                t.entries[plugin@]
            } else {
                ToolVersionListV { versions: Seq::empty(), source: t.source }
            };
            assert(list@.versions =~= listv.versions.push(version@)) by {
                assert(list.versions@.map_values(|v: ToolVersion| v@) =~= listv.versions.push(
                    version@,
                ));
            }
        }
        index_map_insert(&mut self.versions, plugin, list);
        proof {
            assert(final(self)@ =~~= ts_add_version(old(self)@, plugin@, version@));
        }
    }

    /// The version list declared for `plugin`, if any.
    pub fn get<'a>(&'a self, plugin: &String) -> (r: Option<&'a ToolVersionList>)
        ensures
            match r {
                Some(l) => self@.entries.contains_key(plugin@) && l@ == self@.entries[plugin@],
                None => !self@.entries.contains_key(plugin@),
            },
    {
        index_map_get(&self.versions, plugin)
    }

    /// Law (merge precedence): merging `other` into this toolset
    /// replaces, for every plugin `other` declares, this toolset's list
    /// with `other`'s; a plugin only declared here is left untouched.
    pub fn merge(&mut self, other: &Toolset)
        ensures
            final(self)@.source == old(self)@.source,
            forall|k: Seq<char>|
                other@.entries.contains_key(k) ==> #[trigger] final(self)@.entries.contains_key(k)
                    && final(self)@.entries[k] == other@.entries[k],
            forall|k: Seq<char>|
                !other@.entries.contains_key(k) ==> ((#[trigger] final(self)@.entries.contains_key(
                    k,
                ) <==> old(self)@.entries.contains_key(k)) && (old(self)@.entries.contains_key(k)
                    ==> final(self)@.entries[k] == old(self)@.entries[k])),
            final(self)@.order == old(self)@.order + new_keys(other@.order, old(self)@.entries),
            final(self)@ == ts_merge(old(self)@, other@),
    {
        let pairs = index_map_pairs(&other.versions);
        let ghost oentries = map_entries(other.versions);
        let ghost oorder = map_order(other.versions);
        let ghost e0 = map_entries(self.versions);
        let ghost o0 = map_order(self.versions);
        let ghost psv = pairs@.map_values(|pr: (String, ToolVersionList)| (pr.0@, pr.1@));
        let mut i: usize = 0;
        while i < pairs.len()
            invariant
                self.source == old(self).source,
                0 <= i <= pairs@.len(),
                psv == pairs@.map_values(|pr: (String, ToolVersionList)| (pr.0@, pr.1@)),
                oentries == map_entries(other.versions),
                e0 == map_entries(old(self).versions),
                forall|j: int|
                    0 <= j < pairs@.len() ==> oentries.contains_key(#[trigger] pairs@[j].0@)
                        && pairs@[j].1@ == oentries[pairs@[j].0@],
                forall|j: int, j2: int|
                    0 <= j < j2 < pairs@.len() ==> pairs@[j].0@ != pairs@[j2].0@,
                forall|k: Seq<char>|
                    #[trigger] oentries.contains_key(k) ==> exists|j: int|
                        0 <= j < pairs@.len() && pairs@[j].0@ == k,
                oorder == map_order(other.versions),
                o0 == map_order(old(self).versions),
                pairs@.len() == oorder.len(),
                forall|j: int| 0 <= j < pairs@.len() ==> #[trigger] pairs@[j].0@ == oorder[j],
                map_entries(self.versions) == insert_all(e0, psv.take(i as int)),
                map_order(self.versions) == o0 + new_keys(oorder.take(i as int), e0),
            decreases pairs@.len() - i,
        {
            let key = pairs[i].0.clone();
            let value = pairs[i].1.clone();
            proof {
                assert(key@ == psv[i as int].0);
                assert(value@ == psv[i as int].1);
                assert(psv.take(i + 1).drop_last() =~= psv.take(i as int));
                assert(psv.take(i + 1).last() == psv[i as int]);
                assert(oorder.take(i + 1).drop_last() =~= oorder.take(i as int));
                assert(oorder.take(i + 1).last() == oorder[i as int]);
                // the key about to go in is new exactly when the original
                // toolset lacked it: it cannot repeat an earlier insert
                assert forall|j: int| 0 <= j < i implies #[trigger] psv[j].0 != key@ by {
                    assert(psv[j].0 == pairs@[j].0@);
                }
                assert(!(exists|j: int|
                    0 <= j < psv.take(i as int).len() && #[trigger] psv.take(i as int)[j].0
                        == key@)) by {
                    assert forall|j: int| 0 <= j < psv.take(i as int).len() implies #[trigger] psv.take(
                        i as int,
                    )[j].0 != key@ by {
                        assert(psv.take(i as int)[j] == psv[j]);
                    }
                }
                assert forall|j: int, j2: int| 0 <= j < j2 < psv.take(i as int).len()
                    implies #[trigger] psv.take(i as int)[j].0 != #[trigger] psv.take(
                    i as int,
                )[j2].0 by {
                    assert(psv.take(i as int)[j] == psv[j]);
                    assert(psv.take(i as int)[j2] == psv[j2]);
                    assert(psv[j].0 == pairs@[j].0@);
                    assert(psv[j2].0 == pairs@[j2].0@);
                }
                lemma_insert_all(e0, psv.take(i as int));
                assert(map_entries(self.versions).contains_key(key@) <==> e0.contains_key(key@));
            }
            index_map_insert(&mut self.versions, key, value);
            proof {
                assert(map_order(self.versions) =~= o0 + new_keys(oorder.take(i + 1), e0));
            }
            i = i + 1;
        }
        proof {
            assert(psv.take(psv.len() as int) =~= psv);
            assert(oorder.take(oorder.len() as int) =~= oorder);
            assert forall|j: int, j2: int| 0 <= j < j2 < psv.len() implies #[trigger] psv[j].0
                != #[trigger] psv[j2].0 by {
                assert(psv[j].0 == pairs@[j].0@);
                assert(psv[j2].0 == pairs@[j2].0@);
            }
            lemma_insert_all(e0, psv);
            let fin = map_entries(self.versions);
            assert(fin == insert_all(e0, psv));
            assert forall|k: Seq<char>| oentries.contains_key(k) implies #[trigger] fin.contains_key(
                k,
            ) && fin[k] == oentries[k] by {
                let j = choose|j: int| 0 <= j < pairs@.len() && pairs@[j].0@ == k;
                assert(psv[j].0 == k && psv[j].1 == oentries[k]);
                assert(fin.contains_key(psv[j].0) && fin[psv[j].0] == psv[j].1);
            }
            assert forall|k: Seq<char>| !oentries.contains_key(k) implies ((
            #[trigger] fin.contains_key(k) <==> e0.contains_key(k)) && (e0.contains_key(k)
                ==> fin[k] == e0[k])) by {
                assert forall|j: int| 0 <= j < psv.len() implies #[trigger] psv[j].0 != k by {
                    assert(psv[j].0 == pairs@[j].0@);
                    assert(oentries.contains_key(pairs@[j].0@));
                }
                assert(!(exists|j: int| 0 <= j < psv.len() && #[trigger] psv[j].0 == k));
                assert((insert_all(e0, psv).contains_key(k) <==> e0.contains_key(k)) && (
                e0.contains_key(k) ==> insert_all(e0, psv)[k] == e0[k]));
            }
            let merged = e0.union_prefer_right(oentries);
            assert(fin =~= merged) by {
                assert forall|k: Seq<char>| #[trigger] fin.contains_key(k)
                    <==> merged.contains_key(k) by {
                    if oentries.contains_key(k) {
                        assert(fin.contains_key(k));
                    }
                }
                assert forall|k: Seq<char>| #[trigger] merged.contains_key(k) implies fin[k]
                    == merged[k] by {
                    assert(fin.contains_key(k));
                    if oentries.contains_key(k) {
                        assert(fin[k] == oentries[k]);
                    } else {
                        assert(fin[k] == e0[k]);
                    }
                }
            }
            assert(self@ =~~= ts_merge(old(self)@, other@));
        }
    }
}

/// The map after inserting each of `ps`, in order.
pub open spec fn insert_all(
    base: Map<Seq<char>, ToolVersionListV>,
    ps: Seq<(Seq<char>, ToolVersionListV)>,
) -> Map<Seq<char>, ToolVersionListV>
    decreases ps.len(),
{
    if ps.len() == 0 {
        base
    } else {
        insert_all(base, ps.drop_last()).insert(ps.last().0, ps.last().1)
    }
}

/// When the inserted keys are distinct, each inserted pair is present
/// afterwards, and every other key is untouched.
pub proof fn lemma_insert_all(
    base: Map<Seq<char>, ToolVersionListV>,
    ps: Seq<(Seq<char>, ToolVersionListV)>,
)
    requires
        forall|j: int, j2: int| 0 <= j < j2 < ps.len() ==> ps[j].0 != ps[j2].0,
    ensures
        forall|j: int|
            0 <= j < ps.len() ==> insert_all(base, ps).contains_key(#[trigger] ps[j].0)
                && insert_all(base, ps)[ps[j].0] == ps[j].1,
        forall|k: Seq<char>|
            #![trigger insert_all(base, ps).contains_key(k)]
            !(exists|j: int| 0 <= j < ps.len() && #[trigger] ps[j].0 == k) ==> ((insert_all(
                base,
                ps,
            ).contains_key(k) <==> base.contains_key(k)) && (base.contains_key(k) ==> insert_all(
                base,
                ps,
            )[k] == base[k])),
    decreases ps.len(),
{
    if ps.len() > 0 {
        let prev = ps.drop_last();
        lemma_insert_all(base, prev);
        let m = insert_all(base, ps);
        let mp = insert_all(base, prev);
        assert forall|j: int| 0 <= j < ps.len() implies m.contains_key(#[trigger] ps[j].0)
            && m[ps[j].0] == ps[j].1 by {
            if j < ps.len() - 1 {
                assert(prev[j] == ps[j]);
                assert(mp.contains_key(ps[j].0) && mp[ps[j].0] == ps[j].1);
                assert(ps[j].0 != ps[ps.len() - 1].0);
            }
        }
        assert forall|k: Seq<char>| !(exists|j: int| 0 <= j < ps.len() && #[trigger] ps[j].0 == k)
            implies ((m.contains_key(k) <==> base.contains_key(k)) && (base.contains_key(k)
            ==> m[k] == base[k])) by {
            assert(ps[ps.len() - 1].0 != k);
            assert forall|j: int| 0 <= j < prev.len() implies #[trigger] prev[j].0 != k by {
                assert(prev[j] == ps[j]);
            }
            assert(!(exists|j: int| 0 <= j < prev.len() && #[trigger] prev[j].0 == k));
            assert((mp.contains_key(k) <==> base.contains_key(k)) && (base.contains_key(k)
                ==> mp[k] == base[k]));
            assert(m == mp.insert(ps[ps.len() - 1].0, ps[ps.len() - 1].1));
        }
    }
}

/// The keys of `ks` that `base` does not hold, in order.
pub open spec fn new_keys(ks: Seq<Seq<char>>, base: Map<Seq<char>, ToolVersionListV>) -> Seq<
    Seq<char>,
>
    decreases ks.len(),
{
    if ks.len() == 0 {
        Seq::empty()
    } else {
        let prev = new_keys(ks.drop_last(), base);
        if base.contains_key(ks.last()) {
            prev
        } else {
            prev.push(ks.last())
        }
    }
}

/// The merged toolset: `other`'s entries win per plugin, plugin names
/// new to this toolset are appended to the display order, and the
/// provenance is kept.
pub open spec fn ts_merge(a: ToolsetV, b: ToolsetV) -> ToolsetV {
    ToolsetV {
        entries: a.entries.union_prefer_right(b.entries),
        order: a.order + new_keys(b.order, a.entries),
        source: a.source,
    }
}

/// The tokens of a version list, separated by single spaces.
pub open spec fn join_tokens(vs: Seq<ToolVersionV>) -> Seq<char>
    decreases vs.len(),
{
    if vs.len() == 0 {
        Seq::<char>::empty()
    } else if vs.len() == 1 {
        token_of(vs[0])
    } else {
        join_tokens(vs.drop_last()) + " "@ + token_of(vs.last())
    }
}

/// One displayed toolset entry: the plugin name, a space, its tokens.
pub open spec fn entry_text(p: Seq<char>, l: ToolVersionListV) -> Seq<char> {
    p + " "@ + join_tokens(l.versions)
}

/// The displayed entries of the first `n` plugins, comma-separated.
pub open spec fn entries_text(t: ToolsetV, n: int) -> Seq<char>
    decreases n,
{
    if n <= 0 {
        Seq::<char>::empty()
    } else if n == 1 {
        entry_text(t.order[0], t.entries[t.order[0]])
    } else {
        entries_text(t, n - 1) + ", "@ + entry_text(t.order[n - 1], t.entries[t.order[n - 1]])
    }
}

/// The display form of a whole toolset.
pub open spec fn toolset_text(t: ToolsetV) -> Seq<char> {
    "Toolset: "@ + entries_text(t, t.order.len() as int)
}

impl Toolset {
    /// Renders the toolset for display: `Toolset: ` followed by each
    /// plugin with its tokens, entries separated by `, `.
    pub fn dump(&self) -> (r: String)
        ensures
            r@ == toolset_text(self@),
    {
        let pairs = index_map_pairs(&self.versions);
        let mut out = String::new();
        out.append("Toolset: ");
        proof {
            assert(out@ =~= "Toolset: "@ + entries_text(self@, 0));
        }
        let mut i: usize = 0;
        while i < pairs.len()
            invariant
                pairs@.len() == self@.order.len(),
                forall|j: int|
                    0 <= j < pairs@.len() ==> #[trigger] pairs@[j].0@ == self@.order[j]
                        && self@.entries.contains_key(pairs@[j].0@) && pairs@[j].1@
                        == self@.entries[pairs@[j].0@],
                0 <= i <= pairs@.len(),
                out@ == "Toolset: "@ + entries_text(self@, i as int),
            decreases pairs@.len() - i,
        {
            if i > 0 {
                out.append(", ");
            }
            out.append(pairs[i].0.as_str());
            out.append(" ");
            let versions = &pairs[i].1.versions;
            let ghost vsv = pairs@[i as int].1@.versions;
            let mut j: usize = 0;
            while j < versions.len()
                invariant
                    vsv == versions@.map_values(|v: ToolVersion| v@),
                    0 <= j <= versions@.len(),
                    out@ == "Toolset: "@ + entries_text(self@, i as int) + (if i > 0 {
                        ", "@
                    } else {
                        Seq::<char>::empty()
                    }) + pairs@[i as int].0@ + " "@ + join_tokens(vsv.take(j as int)),
                decreases versions@.len() - j,
            {
                if j > 0 {
                    out.append(" ");
                }
                let tok = versions[j].to_token();
                out.append(tok.as_str());
                proof {
                    assert(vsv.take(j + 1).drop_last() =~= vsv.take(j as int));
                    assert(vsv.take(j + 1).last() == vsv[j as int]);
                    assert(vsv[j as int] == versions@[j as int]@);
                }
                j = j + 1;
            }
            proof {
                assert(vsv.take(vsv.len() as int) =~= vsv);
                assert(entries_text(self@, i + 1) == if i == 0 {
                    entry_text(self@.order[0], self@.entries[self@.order[0]])
                } else {
                    entries_text(self@, i as int) + ", "@ + entry_text(
                        self@.order[i as int],
                        self@.entries[self@.order[i as int]],
                    )
                });
                assert(out@ =~= "Toolset: "@ + entries_text(self@, i + 1));
            }
            i = i + 1;
        }
        out
    }
}

} // verus!
