//! The canonical tool-versions file format: one line per plugin, the
//! plugin name first, then its version tokens; and the loading of a
//! whole stack of config files into one merged toolset.
use vstd::prelude::*;
use vstd::string::*;

use crate::index_map::no_entries;
use crate::strutil::{key_index, lemma_key_index_absent, lemma_key_index_found,
    split_char, split_on_char, str_eq, strs};
use crate::tool_source::{ToolSource, ToolSourceV};
use crate::tool_version::{parse_token, ToolVersion, ToolVersionV};
use crate::toolset::{ts_add_version, ts_merge, Toolset, ToolsetV};

verus! {

/// The views of parsed file entries.
pub open spec fn entries_view(s: Seq<(String, Vec<ToolVersion>)>) -> Seq<
    (Seq<char>, Seq<ToolVersionV>),
> {
    s.map_values(
        |e: (String, Vec<ToolVersion>)| (e.0@, e.1@.map_values(|v: ToolVersion| v@)),
    )
}

/// The tokens of one line with the empty pieces dropped, so that any
/// run of blanks separates tokens.
pub open spec fn drop_empty(ts: Seq<Seq<char>>) -> Seq<Seq<char>>
    decreases ts.len(),
{
    if ts.len() == 0 {
        Seq::empty()
    } else {
        let prev = drop_empty(ts.drop_last());
        if ts.last().len() > 0 {
            prev.push(ts.last())
        } else {
            prev
        }
    }
}

/// One line read as a plugin name and its version tokens; a blank line
/// contributes nothing.
pub open spec fn parse_line(line: Seq<char>) -> Option<(Seq<char>, Seq<ToolVersionV>)> {
    let toks = drop_empty(split_char(line, ' '));
    if toks.len() == 0 {
        None
    } else {
        Some((toks[0], toks.skip(1).map_values(|t: Seq<char>| parse_token(t))))
    }
}

/// The entries of a sequence of lines, in line order.
pub open spec fn parse_lines(lines: Seq<Seq<char>>) -> Seq<(Seq<char>, Seq<ToolVersionV>)>
    decreases lines.len(),
{
    if lines.len() == 0 {
        Seq::empty()
    } else {
        let prev = parse_lines(lines.drop_last());
        match parse_line(lines.last()) {
            Option::Some(e) => prev.push(e),
            Option::None => prev,
        }
    }
}

/// What a whole tool-versions file declares.
pub open spec fn parse_file_spec(content: Seq<char>) -> Seq<(Seq<char>, Seq<ToolVersionV>)> {
    parse_lines(split_char(content, '\n'))
}

/// Reads a tool-versions file: one plugin per line, its name first,
/// then its version tokens, blanks separating, blank lines skipped.
pub fn parse_tool_versions(content: &str) -> (r: Vec<(String, Vec<ToolVersion>)>)
    ensures
        entries_view(r@) == parse_file_spec(content@),
{
    let lines = split_on_char(content, '\n');
    let ghost glines = split_char(content@, '\n');
    let mut out: Vec<(String, Vec<ToolVersion>)> = Vec::new();
    let mut i: usize = 0;
    proof {
        assert(entries_view(out@) =~= parse_lines(glines.take(0)));
    }
    while i < lines.len()
        invariant
            strs(lines@) == glines,
            0 <= i <= lines@.len(),
            entries_view(out@) == parse_lines(glines.take(i as int)),
        decreases lines@.len() - i,
    {
        let line = &lines[i];
        proof {
            assert(glines.take(i + 1).drop_last() =~= glines.take(i as int));
            assert(glines.take(i + 1).last() == glines[i as int]);
            assert(glines[i as int] == lines@[i as int]@);
        }
        let toks = split_on_char(line.as_str(), ' ');
        let ghost gtoks = split_char(line@, ' ');
        let mut kept: Vec<String> = Vec::new();
        let mut j: usize = 0;
        proof {
            assert(strs(kept@) =~= drop_empty(gtoks.take(0)));
        }
        while j < toks.len()
            invariant
                strs(toks@) == gtoks,
                0 <= j <= toks@.len(),
                strs(kept@) == drop_empty(gtoks.take(j as int)),
            decreases toks@.len() - j,
        {
            proof {
                assert(gtoks.take(j + 1).drop_last() =~= gtoks.take(j as int));
                assert(gtoks.take(j + 1).last() == gtoks[j as int]);
                assert(gtoks[j as int] == toks@[j as int]@);
            }
            let ghost keptv = strs(kept@);
            if toks[j].as_str().unicode_len() > 0 {
                kept.push(toks[j].clone());
                proof {
                    assert(strs(kept@) =~= keptv.push(gtoks[j as int]));
                }
            }
            j = j + 1;
        }
        proof {
            assert(gtoks.take(gtoks.len() as int) =~= gtoks);
        }
        let ghost gkept = drop_empty(gtoks);
        if kept.len() > 0 {
            let plugin = kept[0].clone();
            let mut versions: Vec<ToolVersion> = Vec::new();
            let mut k: usize = 1;
            while k < kept.len()
                invariant
                    strs(kept@) == gkept,
                    1 <= k <= kept@.len(),
                    versions@.len() == k - 1,
                    forall|l: int|
                        0 <= l < versions@.len() ==> (#[trigger] versions@[l])@ == parse_token(
                            gkept[l + 1],
                        ),
                decreases kept@.len() - k,
            {
                proof {
                    assert(gkept[k as int] == kept@[k as int]@);
                }
                versions.push(ToolVersion::parse(kept[k].as_str()));
                k = k + 1;
            }
            let ghost entry = (gkept[0], gkept.skip(1).map_values(|t: Seq<char>| parse_token(t)));
            proof {
                assert(plugin@ == gkept[0]);
                assert(versions@.map_values(|v: ToolVersion| v@) =~= gkept.skip(1).map_values(
                    |t: Seq<char>| parse_token(t),
                )) by {
                    assert(forall|l: int|
                        0 <= l < gkept.len() - 1 ==> #[trigger] gkept.skip(1)[l] == gkept[l + 1]);
                }
            }
            let ghost outv = entries_view(out@);
            out.push((plugin, versions));
            proof {
                assert(parse_line(glines[i as int]) == Option::Some(entry));
                assert(entries_view(out@) =~= outv.push(entry));
                assert(entries_view(out@) =~= parse_lines(glines.take(i + 1)));
            }
        } else {
            proof {
                assert(parse_line(glines[i as int]) is None);
                assert(entries_view(out@) =~= parse_lines(glines.take(i + 1)));
            }
        }
        i = i + 1;
    }
    proof {
        assert(glines.take(glines.len() as int) =~= glines);
    }
    out
}

/// The empty toolset attributed to `source`.
pub open spec fn empty_toolset(source: ToolSourceV) -> ToolsetV {
    ToolsetV { entries: no_entries(), order: Seq::<Seq<char>>::empty(), source }
}

/// A toolset after one entry's versions are added, in order.
pub open spec fn ts_add_entry(t: ToolsetV, p: Seq<char>, vs: Seq<ToolVersionV>) -> ToolsetV
    decreases vs.len(),
{
    if vs.len() == 0 {
        t
    } else {
        ts_add_version(ts_add_entry(t, p, vs.drop_last()), p, vs.last())
    }
}

/// A toolset after a file's entries are added, in file order.
pub open spec fn ts_add_entries(t: ToolsetV, es: Seq<(Seq<char>, Seq<ToolVersionV>)>) -> ToolsetV
    decreases es.len(),
{
    if es.len() == 0 {
        t
    } else {
        ts_add_entry(ts_add_entries(t, es.drop_last()), es.last().0, es.last().1)
    }
}

/// The toolset fragment one file contributes.
pub open spec fn file_fragment(path: Seq<char>, content: Seq<char>) -> ToolsetV {
    ts_add_entries(
        empty_toolset(ToolSourceV::ToolVersionsFile(path)),
        parse_file_spec(content),
    )
}

/// Builds the toolset fragment of one file.
pub fn parse_file_toolset(path: &str, content: &str) -> (r: Toolset)
    ensures
        r@ == file_fragment(path@, content@),
{
    let entries = parse_tool_versions(content);
    let ghost ev = entries_view(entries@);
    let mut ts = Toolset::new(ToolSource::ToolVersionsFile(path.to_owned()));
    proof {
        assert(ts@ =~= empty_toolset(ToolSourceV::ToolVersionsFile(path@)));
        assert(ts@ == ts_add_entries(empty_toolset(ToolSourceV::ToolVersionsFile(path@)), ev.take(0)));
    }
    let ghost base = empty_toolset(ToolSourceV::ToolVersionsFile(path@));
    let mut i: usize = 0;
    while i < entries.len()
        invariant
            ev == entries_view(entries@),
            base == empty_toolset(ToolSourceV::ToolVersionsFile(path@)),
            0 <= i <= entries@.len(),
            ts@ == ts_add_entries(base, ev.take(i as int)),
        decreases entries@.len() - i,
    {
        let plugin = &entries[i].0;
        let versions = &entries[i].1;
        let ghost before = ts@;
        let ghost vsv = ev[i as int].1;
        proof {
            assert(ev[i as int] == (entries@[i as int].0@, entries@[i as int].1@.map_values(
                |v: ToolVersion| v@,
            )));
            assert(ev.take(i + 1).drop_last() =~= ev.take(i as int));
            assert(ev.take(i + 1).last() == ev[i as int]);
        }
        let mut j: usize = 0;
        while j < versions.len()
            invariant
                vsv == versions@.map_values(|v: ToolVersion| v@),
                0 <= j <= versions@.len(),
                ts@ == ts_add_entry(before, entries@[i as int].0@, vsv.take(j as int)),
                plugin@ == entries@[i as int].0@,
            decreases versions@.len() - j,
        {
            proof {
                assert(vsv.take(j + 1).drop_last() =~= vsv.take(j as int));
                assert(vsv.take(j + 1).last() == vsv[j as int]);
                assert(vsv[j as int] == versions@[j as int]@);
            }
            ts.add_version(plugin.clone(), versions[j].clone());
            j = j + 1;
        }
        proof {
            assert(vsv.take(vsv.len() as int) =~= vsv);
        }
        i = i + 1;
    }
    proof {
        assert(ev.take(ev.len() as int) =~= ev);
    }
    ts
}

/// The views of a stack of files, each a path and its contents.
pub open spec fn files_view(files: Seq<(String, String)>) -> Seq<(Seq<char>, Seq<char>)> {
    files.map_values(|f: (String, String)| (f.0@, f.1@))
}

/// The list declared for plugin `k` by the most specific file that
/// declares it, the files ordered most specific first.
pub open spec fn effective_entry(files: Seq<(Seq<char>, Seq<char>)>, k: Seq<char>) -> Option<
    crate::tool_version_list::ToolVersionListV,
>
    decreases files.len(),
{
    if files.len() == 0 {
        None
    } else {
        let frag = file_fragment(files[0].0, files[0].1);
        if frag.entries.contains_key(k) {
            Some(frag.entries[k])
        } else {
            effective_entry(files.skip(1), k)
        }
    }
}

/// The toolset a whole stack of files loads to: an empty toolset with
/// the files' fragments merged in, lowest precedence (the last file)
/// first, so the first file's declarations win.
pub open spec fn load_spec(files: Seq<(Seq<char>, Seq<char>)>) -> ToolsetV
    decreases files.len(),
{
    if files.len() == 0 {
        empty_toolset(ToolSourceV::Unset)
    } else {
        ts_merge(load_spec(files.skip(1)), file_fragment(files[0].0, files[0].1))
    }
}

/// Loads the whole stack of discovered config files into one toolset:
/// files ordered most specific first, each parsed into a fragment, the
/// fragments merged lowest precedence first so that for every plugin
/// the most specific declaration wins.
pub fn load_toolset(files: &Vec<(String, String)>) -> (r: Toolset)
    ensures
        r@ == load_spec(files_view(files@)),
        r@.source == ToolSourceV::Unset,
        forall|k: Seq<char>|
            match effective_entry(files_view(files@), k) {
                Option::Some(l) => #[trigger] r@.entries.contains_key(k) && r@.entries[k] == l,
                Option::None => !r@.entries.contains_key(k),
            },
{
    let ghost fv = files_view(files@);
    let mut acc = Toolset::new(ToolSource::Unset);
    let mut i: usize = files.len();
    proof {
        assert(fv.skip(fv.len() as int) =~= Seq::<(Seq<char>, Seq<char>)>::empty());
        assert(acc@ =~~= empty_toolset(ToolSourceV::Unset));
    }
    while i > 0
        invariant
            fv == files_view(files@),
            fv.len() == files@.len(),
            0 <= i <= files@.len(),
            acc@.source == ToolSourceV::Unset,
            acc@ == load_spec(fv.skip(i as int)),
            forall|k: Seq<char>|
                match effective_entry(fv.skip(i as int), k) {
                    Option::Some(l) => #[trigger] acc@.entries.contains_key(k) && acc@.entries[k]
                        == l,
                    Option::None => !acc@.entries.contains_key(k),
                },
        decreases i,
    {
        i = i - 1;
        let ghost accv = acc@;
        proof {
            assert(fv[i as int] == (files@[i as int].0@, files@[i as int].1@));
            assert(fv.skip(i as int)[0] == fv[i as int]);
            assert(fv.skip(i as int).skip(1) =~= fv.skip(i + 1));
        }
        let frag = parse_file_toolset(files[i].0.as_str(), files[i].1.as_str());
        acc.merge(&frag);
        proof {
            let fragv = file_fragment(fv[i as int].0, fv[i as int].1);
            assert(frag@ == fragv);
            assert(acc@ == ts_merge(accv, fragv));
            assert(acc@ == load_spec(fv.skip(i as int)));
            assert forall|k: Seq<char>|
                match effective_entry(fv.skip(i as int), k) {
                    Option::Some(l) => #[trigger] acc@.entries.contains_key(k) && acc@.entries[k]
                        == l,
                    Option::None => !acc@.entries.contains_key(k),
                } by {
                if fragv.entries.contains_key(k) {
                    assert(acc@.entries.contains_key(k) && acc@.entries[k] == fragv.entries[k]);
                } else {
                    assert(!frag@.entries.contains_key(k));
                    assert(acc@.entries.contains_key(k) <==> accv.entries.contains_key(k));
                    assert(accv.entries.contains_key(k) ==> acc@.entries[k] == accv.entries[k]);
                    assert(effective_entry(fv.skip(i as int), k) == effective_entry(
                        fv.skip(i + 1),
                        k,
                    ));
                }
            }
        }
    }
    proof {
        assert(fv.skip(0) =~= fv);
    }
    acc
}

/// The entries with every line of plugin `p` dropped.
pub open spec fn drop_plugin(
    es: Seq<(Seq<char>, Seq<ToolVersionV>)>,
    p: Seq<char>,
) -> Seq<(Seq<char>, Seq<ToolVersionV>)>
    decreases es.len(),
{
    if es.len() == 0 {
        Seq::empty()
    } else {
        let prev = drop_plugin(es.drop_last(), p);
        if es.last().0 == p {
            prev
        } else {
            prev.push(es.last())
        }
    }
}

/// The entries with plugin `p` declared as exactly `vs`: the first
/// line of `p` replaced in place, or a new line appended.
pub open spec fn set_plugin(
    es: Seq<(Seq<char>, Seq<ToolVersionV>)>,
    p: Seq<char>,
    vs: Seq<ToolVersionV>,
) -> Seq<(Seq<char>, Seq<ToolVersionV>)> {
    let i = key_index(es, p);
    if i == -1 {
        es.push((p, vs))
    } else {
        es.update(i, (p, vs))
    }
}

/// Clones a list of version requests.
fn clone_versions(vs: &Vec<ToolVersion>) -> (r: Vec<ToolVersion>)
    ensures
        r@ == vs@,
{
    let mut r: Vec<ToolVersion> = Vec::new();
    let mut i: usize = 0;
    while i < vs.len()
        invariant
            0 <= i <= vs@.len(),
            r@ == vs@.take(i as int),
        decreases vs@.len() - i,
    {
        r.push(vs[i].clone());
        proof {
            assert(r@ =~= vs@.take(i + 1));
        }
        i = i + 1;
    }
    proof {
        assert(vs@.take(vs@.len() as int) =~= vs@);
    }
    r
}

/// Removes every line of one plugin from a parsed file.
pub fn remove_entry(entries: &Vec<(String, Vec<ToolVersion>)>, plugin: &str) -> (r: Vec<
    (String, Vec<ToolVersion>),
>)
    ensures
        entries_view(r@) == drop_plugin(entries_view(entries@), plugin@),
{
    let ghost ev = entries_view(entries@);
    let mut r: Vec<(String, Vec<ToolVersion>)> = Vec::new();
    let mut i: usize = 0;
    proof {
        assert(entries_view(r@) =~= drop_plugin(ev.take(0), plugin@));
    }
    while i < entries.len()
        invariant
            ev == entries_view(entries@),
            0 <= i <= entries@.len(),
            entries_view(r@) == drop_plugin(ev.take(i as int), plugin@),
        decreases entries@.len() - i,
    {
        let ghost before = entries_view(r@);
        proof {
            assert(ev.take(i + 1).drop_last() =~= ev.take(i as int));
            assert(ev.take(i + 1).last() == ev[i as int]);
            assert(ev[i as int] == (entries@[i as int].0@, entries@[i as int].1@.map_values(
                |v: ToolVersion| v@,
            )));
        }
        if !str_eq(entries[i].0.as_str(), plugin) {
            r.push((entries[i].0.clone(), clone_versions(&entries[i].1)));
            proof {
                assert(entries_view(r@) =~= before.push(ev[i as int]));
            }
        }
        i = i + 1;
    }
    proof {
        assert(ev.take(ev.len() as int) =~= ev);
    }
    r
}

/// Index of the first line of plugin `p`, if any.
fn find_entry(entries: &Vec<(String, Vec<ToolVersion>)>, plugin: &str) -> (r: Option<usize>)
    ensures
        match r {
            Some(fi) => fi < entries@.len() && key_index(entries_view(entries@), plugin@)
                == fi,
            None => key_index(entries_view(entries@), plugin@) == -1,
        },
{
    let ghost ev = entries_view(entries@);
    let mut i: usize = 0;
    while i < entries.len()
        invariant
            ev == entries_view(entries@),
            0 <= i <= entries@.len(),
            forall|j: int| 0 <= j < i ==> (#[trigger] ev[j]).0 != plugin@,
        decreases entries@.len() - i,
    {
        proof {
            assert(ev[i as int] == (entries@[i as int].0@, entries@[i as int].1@.map_values(
                |v: ToolVersion| v@,
            )));
        }
        if str_eq(entries[i].0.as_str(), plugin) {
            proof {
                lemma_key_index_found(ev, plugin@, i as int);
            }
            return Some(i);
        }
        i = i + 1;
    }
    proof {
        lemma_key_index_absent(ev, plugin@);
    }
    None
}

/// Sets one plugin's declaration in a parsed file: the first line of
/// that plugin is replaced, or a new line is appended.
pub fn upsert_entry(
    entries: &Vec<(String, Vec<ToolVersion>)>,
    plugin: &str,
    versions: Vec<ToolVersion>,
) -> (r: Vec<(String, Vec<ToolVersion>)>)
    ensures
        entries_view(r@) == set_plugin(
            entries_view(entries@),
            plugin@,
            versions@.map_values(|v: ToolVersion| v@),
        ),
{
    let ghost ev = entries_view(entries@);
    let ghost vsv = versions@.map_values(|v: ToolVersion| v@);
    match find_entry(entries, plugin) {
        Some(fi) => {
            let ghost target = ev.update(fi as int, (plugin@, vsv));
            let mut r: Vec<(String, Vec<ToolVersion>)> = Vec::new();
            let mut j: usize = 0;
            proof {
                assert(entries_view(r@) =~= target.take(0));
            }
            while j < entries.len()
                invariant
                    ev == entries_view(entries@),
                    vsv == versions@.map_values(|v: ToolVersion| v@),
                    target == ev.update(fi as int, (plugin@, vsv)),
                    fi < entries@.len(),
                    0 <= j <= entries@.len(),
                    entries_view(r@) == target.take(j as int),
                decreases entries@.len() - j,
            {
                let ghost before = entries_view(r@);
                proof {
                    assert(target.take(j + 1).drop_last() =~= target.take(j as int));
                    assert(ev[j as int] == (entries@[j as int].0@, entries@[
                        j as int].1@.map_values(|v: ToolVersion| v@)));
                }
                if j == fi {
                    let cloned = clone_versions(&versions);
                    r.push((plugin.to_owned(), cloned));
                    proof {
                        assert(entries_view(r@) =~= before.push((plugin@, vsv)));
                        assert(target[j as int] == (plugin@, vsv));
                        assert(entries_view(r@) =~= target.take(j + 1));
                    }
                } else {
                    r.push((entries[j].0.clone(), clone_versions(&entries[j].1)));
                    proof {
                        assert(entries_view(r@) =~= before.push(ev[j as int]));
                        assert(target[j as int] == ev[j as int]);
                        assert(entries_view(r@) =~= target.take(j + 1));
                    }
                }
                j = j + 1;
            }
            proof {
                assert(target.take(target.len() as int) =~= target);
            }
            r
        },
        None => {
            let mut r: Vec<(String, Vec<ToolVersion>)> = Vec::new();
            let mut j: usize = 0;
            proof {
                assert(entries_view(r@) =~= ev.take(0));
            }
            while j < entries.len()
                invariant
                    ev == entries_view(entries@),
                    0 <= j <= entries@.len(),
                    entries_view(r@) == ev.take(j as int),
                decreases entries@.len() - j,
            {
                let ghost before = entries_view(r@);
                proof {
                    assert(ev.take(j + 1).drop_last() =~= ev.take(j as int));
                    assert(ev[j as int] == (entries@[j as int].0@, entries@[
                        j as int].1@.map_values(|v: ToolVersion| v@)));
                }
                r.push((entries[j].0.clone(), clone_versions(&entries[j].1)));
                proof {
                    assert(entries_view(r@) =~= before.push(ev[j as int]));
                    assert(entries_view(r@) =~= ev.take(j + 1));
                }
                j = j + 1;
            }
            let ghost before = entries_view(r@);
            r.push((plugin.to_owned(), versions));
            proof {
                assert(ev.take(ev.len() as int) =~= ev);
                assert(entries_view(r@) =~= before.push((plugin@, vsv)));
                assert(entries_view(r@) =~= ev.push((plugin@, vsv)));
            }
            r
        },
    }
}

} // verus!
