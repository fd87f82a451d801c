//! Configuration discovery: which files feed the toolset, in precedence
//! order, and the fan-in of the legacy filenames that installed plugins
//! contribute.
use vstd::prelude::*;
use vstd::string::*;

use crate::strutil::{chars_lt, contains_str, in_strs, str_eq, str_lt, strs};

verus! {

/// The views of a sequence of string pairs.
pub open spec fn pairs_view(s: Seq<(String, String)>) -> Seq<(Seq<char>, Seq<char>)> {
    s.map_values(|p: (String, String)| (p.0@, p.1@))
}

/// The `(filename, plugin)` claims of one plugin's answer.
pub open spec fn claims_of(plugin: Seq<char>, filenames: Seq<Seq<char>>) -> Seq<
    (Seq<char>, Seq<char>),
> {
    Seq::new(filenames.len(), |i: int| (filenames[i], plugin))
}

/// All claims of all answers, in answer order.
pub open spec fn all_claims(results: Seq<(Seq<char>, Seq<Seq<char>>)>) -> Seq<
    (Seq<char>, Seq<char>),
>
    decreases results.len(),
{
    if results.len() == 0 {
        Seq::empty()
    } else {
        all_claims(results.drop_last()) + claims_of(results.last().0, results.last().1)
    }
}

/// Index of the first table entry claiming filename `f`, or -1.
pub open spec fn claim_index(table: Seq<(Seq<char>, Seq<char>)>, f: Seq<char>) -> int
    decreases table.len(),
{
    if table.len() == 0 {
        -1
    } else if table[0].0 == f {
        0
    } else {
        let r = claim_index(table.skip(1), f);
        if r == -1 {
            -1
        } else {
            r + 1
        }
    }
}

pub proof fn lemma_claim_index_found(table: Seq<(Seq<char>, Seq<char>)>, f: Seq<char>, i: int)
    requires
        0 <= i < table.len(),
        table[i].0 == f,
        forall|j: int| 0 <= j < i ==> (#[trigger] table[j]).0 != f,
    ensures
        claim_index(table, f) == i,
    decreases i,
{
    if i == 0 {
    } else {
        assert(table.skip(1)[i - 1] == table[i]);
        assert(forall|j: int|
            0 <= j < i - 1 ==> #[trigger] table.skip(1)[j] == table[j + 1] && table.skip(1)[j].0
                != f);
        lemma_claim_index_found(table.skip(1), f, i - 1);
    }
}

pub proof fn lemma_claim_index_absent(table: Seq<(Seq<char>, Seq<char>)>, f: Seq<char>)
    requires
        forall|j: int| 0 <= j < table.len() ==> (#[trigger] table[j]).0 != f,
    ensures
        claim_index(table, f) == -1,
    decreases table.len(),
{
    if table.len() > 0 {
        assert(forall|j: int|
            0 <= j < table.len() - 1 ==> #[trigger] table.skip(1)[j] == table[j + 1] && table.skip(
                1,
            )[j].0 != f);
        lemma_claim_index_absent(table.skip(1), f);
    }
}

/// One claim folded into the table: a new filename is appended; for a
/// filename already claimed, the lexically least plugin name wins,
/// keeping the entry's position — a deterministic tie-break that does
/// not depend on the order in which plugins answered.
pub open spec fn claim_insert(
    table: Seq<(Seq<char>, Seq<char>)>,
    f: Seq<char>,
    p: Seq<char>,
) -> Seq<(Seq<char>, Seq<char>)> {
    let i = claim_index(table, f);
    if i == -1 {
        table.push((f, p))
    } else if chars_lt(p, table[i].1) {
        table.update(i, (f, p))
    } else {
        table
    }
}

/// The legacy filename table that a sequence of claims builds.
pub open spec fn legacy_table(claims: Seq<(Seq<char>, Seq<char>)>) -> Seq<(Seq<char>, Seq<char>)>
    decreases claims.len(),
{
    if claims.len() == 0 {
        Seq::empty()
    } else {
        claim_insert(legacy_table(claims.drop_last()), claims.last().0, claims.last().1)
    }
}

/// Index of the first table entry claiming filename `f`, if any.
fn find_claim(table: &Vec<(String, String)>, f: &str) -> (r: Option<usize>)
    ensures
        match r {
            Some(fi) => fi < table@.len() && pairs_view(table@)[fi as int].0 == f@ && claim_index(
                pairs_view(table@),
                f@,
            ) == fi,
            None => claim_index(pairs_view(table@), f@) == -1,
        },
{
    let ghost tv = pairs_view(table@);
    let mut k: usize = 0;
    while k < table.len()
        invariant
            tv == pairs_view(table@),
            0 <= k <= table@.len(),
            forall|l: int| 0 <= l < k ==> (#[trigger] tv[l]).0 != f@,
        decreases table@.len() - k,
    {
        proof {
            assert(tv[k as int] == (table@[k as int].0@, table@[k as int].1@));
        }
        if str_eq(table[k].0.as_str(), f) {
            proof {
                lemma_claim_index_found(tv, f@, k as int);
            }
            return Some(k);
        }
        k = k + 1;
    }
    proof {
        lemma_claim_index_absent(tv, f@);
    }
    None
}

/// Replaces the entry at `i`.
fn replace_at(table: &mut Vec<(String, String)>, i: usize, f: String, p: String)
    requires
        i < old(table)@.len(),
    ensures
        pairs_view(final(table)@) == pairs_view(old(table)@).update(i as int, (f@, p@)),
{
    let ghost before = table@;
    table.remove(i);
    table.insert(i, (f, p));
    proof {
        assert(pairs_view(table@) =~= pairs_view(before).update(i as int, (f@, p@)));
    }
}

/// Law (legacy discovery fan-in): merging the per-plugin legacy
/// filename answers yields, for every claimed filename, the lexically
/// least claiming plugin, in first-claim order; with legacy support
/// disabled the table is empty. Failed answers are dropped before this
/// step, so one plugin's failure never suppresses another's claims.
pub fn merge_legacy_filenames(enabled: bool, results: &Vec<(String, Vec<String>)>) -> (r: Vec<
    (String, String),
>)
    ensures
        !enabled ==> r@.len() == 0,
        enabled ==> pairs_view(r@) == legacy_table(
            all_claims(results@.map_values(|e: (String, Vec<String>)| (e.0@, strs(e.1@)))),
        ),
{
    let mut table: Vec<(String, String)> = Vec::new();
    if !enabled {
        return table;
    }
    let ghost rv = results@.map_values(|e: (String, Vec<String>)| (e.0@, strs(e.1@)));
    let mut i: usize = 0;
    proof {
        assert(pairs_view(table@) =~= legacy_table(all_claims(rv.take(0))));
    }
    while i < results.len()
        invariant
            rv == results@.map_values(|e: (String, Vec<String>)| (e.0@, strs(e.1@))),
            0 <= i <= results@.len(),
            pairs_view(table@) == legacy_table(all_claims(rv.take(i as int))),
        decreases results@.len() - i,
    {
        let plugin = &results[i].0;
        let filenames = &results[i].1;
        let ghost base = all_claims(rv.take(i as int));
        let ghost claims = claims_of(plugin@, strs(filenames@));
        proof {
            assert(rv[i as int] == (results@[i as int].0@, strs(results@[i as int].1@)));
            assert(rv.take(i + 1).drop_last() =~= rv.take(i as int));
            assert(rv.take(i + 1).last() == rv[i as int]);
            assert(all_claims(rv.take(i + 1)) == base + claims);
        }
        let mut j: usize = 0;
        while j < filenames.len()
            invariant
                claims == claims_of(plugin@, strs(filenames@)),
                0 <= j <= filenames@.len(),
                claims.len() == filenames@.len(),
                pairs_view(table@) == legacy_table(base + claims.take(j as int)),
            decreases filenames@.len() - j,
        {
            let f = &filenames[j];
            proof {
                assert(claims[j as int] == (strs(filenames@)[j as int], plugin@));
                assert(strs(filenames@)[j as int] == filenames@[j as int]@);
                assert((base + claims.take(j + 1)).drop_last() =~= base + claims.take(j as int));
                assert((base + claims.take(j + 1)).last() == claims[j as int]);
            }
            let ghost tv = pairs_view(table@);
            match find_claim(&table, f.as_str()) {
                Some(fi) => {
                    proof {
                        assert(tv[fi as int] == (table@[fi as int].0@, table@[fi as int].1@));
                    }
                    if str_lt(plugin.as_str(), table[fi].1.as_str()) {
                        replace_at(&mut table, fi, f.clone(), plugin.clone());
                    }
                },
                None => {
                    table.push((f.clone(), plugin.clone()));
                    proof {
                        assert(pairs_view(table@) =~= tv.push((f@, plugin@)));
                    }
                },
            }
            j = j + 1;
        }
        proof {
            assert(claims.take(claims.len() as int) =~= claims);
        }
        i = i + 1;
    }
    proof {
        assert(rv.take(rv.len() as int) =~= rv);
    }
    table
}

/// `dir` and `name` joined with a single separator.
pub open spec fn path_join(dir: Seq<char>, name: Seq<char>) -> Seq<char> {
    dir + "/"@ + name
}

/// The candidate files of one directory level: each name joined to the
/// directory, kept when such a file exists, in name order.
pub open spec fn level_files(
    dir: Seq<char>,
    names: Seq<Seq<char>>,
    existing: Seq<Seq<char>>,
) -> Seq<Seq<char>>
    decreases names.len(),
{
    if names.len() == 0 {
        Seq::empty()
    } else {
        level_files(dir, names.drop_last(), existing) + (if in_strs(
            existing,
            path_join(dir, names.last()),
        ) {
            seq![path_join(dir, names.last())]
        } else {
            Seq::empty()
        })
    }
}

/// The candidate files of the whole walk, closest directory first.
pub open spec fn walk_files(
    dirs: Seq<Seq<char>>,
    names: Seq<Seq<char>>,
    existing: Seq<Seq<char>>,
) -> Seq<Seq<char>>
    decreases dirs.len(),
{
    if dirs.len() == 0 {
        Seq::empty()
    } else {
        walk_files(dirs.drop_last(), names, existing) + level_files(dirs.last(), names, existing)
    }
}

/// `s` with every later repetition dropped: first occurrences survive,
/// in order.
pub open spec fn dedup(s: Seq<Seq<char>>) -> Seq<Seq<char>>
    decreases s.len(),
{
    if s.len() == 0 {
        Seq::empty()
    } else {
        let prev = dedup(s.drop_last());
        if in_strs(prev, s.last()) {
            prev
        } else {
            prev.push(s.last())
        }
    }
}

/// Removes duplicates, keeping the first occurrence of each path.
fn dedup_strings(v: &Vec<String>) -> (r: Vec<String>)
    ensures
        strs(r@) == dedup(strs(v@)),
{
    let mut r: Vec<String> = Vec::new();
    let mut i: usize = 0;
    proof {
        assert(strs(r@) =~= dedup(strs(v@).take(0)));
    }
    while i < v.len()
        invariant
            0 <= i <= v@.len(),
            strs(r@) == dedup(strs(v@).take(i as int)),
        decreases v@.len() - i,
    {
        proof {
            assert(strs(v@).take(i + 1).drop_last() =~= strs(v@).take(i as int));
            assert(strs(v@).take(i + 1).last() == strs(v@)[i as int]);
            assert(strs(v@)[i as int] == v@[i as int]@);
        }
        if !contains_str(&r, v[i].as_str()) {
            r.push(v[i].clone());
            proof {
                assert(strs(r@) =~= dedup(strs(v@).take(i + 1)));
            }
        }
        i = i + 1;
    }
    proof {
        assert(strs(v@).take(strs(v@).len() as int) =~= strs(v@));
    }
    r
}

/// The filenames looked for at each directory level: the legacy
/// filenames in reverse table order, then the canonical filename.
pub open spec fn level_names(legacy: Seq<(Seq<char>, Seq<char>)>, canonical: Seq<char>) -> Seq<
    Seq<char>,
> {
    Seq::new(legacy.len(), |l: int| legacy[legacy.len() - 1 - l].0).push(canonical)
}

/// Law (discovery determinism): the config files to parse are the
/// existing candidates of the upward walk, closest directory first and
/// within one level in `level_names` order, then the home config file
/// when present, first occurrences kept on de-duplication.
///
/// `dirs` is the walk from the current directory up to the root,
/// closest first; `existing` lists the paths that exist as files.
pub fn find_all_config_files(
    dirs: &Vec<String>,
    legacy: &Vec<(String, String)>,
    canonical_filename: &str,
    existing: &Vec<String>,
    home_config: &str,
    home_exists: bool,
) -> (r: Vec<String>)
    ensures
        strs(r@) == dedup(
            walk_files(
                strs(dirs@),
                level_names(pairs_view(legacy@), canonical_filename@),
                strs(existing@),
            ) + (if home_exists {
                seq![home_config@]
            } else {
                Seq::<Seq<char>>::empty()
            }),
        ),
{
    let ghost names_spec = level_names(pairs_view(legacy@), canonical_filename@);
    let mut names: Vec<String> = Vec::new();
    let mut i: usize = legacy.len();
    while i > 0
        invariant
            0 <= i <= legacy@.len(),
            names@.len() == legacy@.len() - i,
            forall|l: int|
                0 <= l < names@.len() ==> strs(names@)[l] == (#[trigger] pairs_view(
                    legacy@,
                )[legacy@.len() - 1 - l]).0,
        decreases i,
    {
        i = i - 1;
        names.push(legacy[i].0.clone());
        proof {
            assert(pairs_view(legacy@)[i as int] == (legacy@[i as int].0@, legacy@[i as int].1@));
            assert forall|l: int| 0 <= l < names@.len() implies strs(names@)[l]
                == (#[trigger] pairs_view(legacy@)[legacy@.len() - 1 - l]).0 by {
                assert(strs(names@)[l] == names@[l]@);
            }
        }
    }
    names.push(canonical_filename.to_owned());
    proof {
        assert(strs(names@) =~= names_spec) by {
            assert(forall|l: int|
                0 <= l < legacy@.len() ==> names_spec[l] == (#[trigger] pairs_view(
                    legacy@,
                )[legacy@.len() - 1 - l]).0);
            assert(forall|l: int| 0 <= l < names@.len() ==> strs(names@)[l] == names@[l]@);
        }
    }
    let mut cands: Vec<String> = Vec::new();
    let mut d: usize = 0;
    proof {
        assert(strs(cands@) =~= walk_files(strs(dirs@).take(0), names_spec, strs(existing@)));
    }
    while d < dirs.len()
        invariant
            strs(names@) == names_spec,
            0 <= d <= dirs@.len(),
            strs(cands@) == walk_files(strs(dirs@).take(d as int), names_spec, strs(existing@)),
        decreases dirs@.len() - d,
    {
        let dir = &dirs[d];
        let ghost sofar = strs(cands@);
        proof {
            assert(strs(dirs@).take(d + 1).drop_last() =~= strs(dirs@).take(d as int));
            assert(strs(dirs@).take(d + 1).last() == strs(dirs@)[d as int]);
            assert(strs(dirs@)[d as int] == dirs@[d as int]@);
        }
        let mut n: usize = 0;
        proof {
            assert(strs(cands@) =~= sofar + level_files(
                dir@,
                names_spec.take(0),
                strs(existing@),
            ));
        }
        while n < names.len()
            invariant
                strs(names@) == names_spec,
                0 <= n <= names@.len(),
                strs(cands@) == sofar + level_files(
                    dir@,
                    names_spec.take(n as int),
                    strs(existing@),
                ),
            decreases names@.len() - n,
        {
            proof {
                assert(names_spec.take(n + 1).drop_last() =~= names_spec.take(n as int));
                assert(names_spec.take(n + 1).last() == names_spec[n as int]);
                assert(names_spec[n as int] == names@[n as int]@);
            }
            let path = dir.clone().concat("/").concat(names[n].as_str());
            let ghost pv = path@;
            proof {
                assert(pv == path_join(dir@, names_spec[n as int]));
            }
            let ghost prev = strs(cands@);
            if contains_str(existing, path.as_str()) {
                cands.push(path);
                proof {
                    assert(level_files(dir@, names_spec.take(n + 1), strs(existing@))
                        == level_files(dir@, names_spec.take(n as int), strs(existing@))
                        + seq![pv]);
                    assert(strs(cands@) =~= prev.push(pv));
                    assert(strs(cands@) =~= sofar + level_files(
                        dir@,
                        names_spec.take(n + 1),
                        strs(existing@),
                    ));
                }
            } else {
                proof {
                    assert(strs(cands@) =~= sofar + level_files(
                        dir@,
                        names_spec.take(n + 1),
                        strs(existing@),
                    ));
                }
            }
            n = n + 1;
        }
        proof {
            assert(names_spec.take(names_spec.len() as int) =~= names_spec);
        }
        d = d + 1;
    }
    proof {
        assert(strs(dirs@).take(strs(dirs@).len() as int) =~= strs(dirs@));
    }
    if home_exists {
        cands.push(home_config.to_owned());
    }
    let ghost walked = walk_files(strs(dirs@), names_spec, strs(existing@));
    proof {
        if home_exists {
            assert(strs(cands@) =~= walked + seq![home_config@]);
        } else {
            assert(strs(cands@) =~= walked + Seq::<Seq<char>>::empty());
        }
    }
    dedup_strings(&cands)
}

} // verus!
