//! The file picker: which directory entries it lists and which match the
//! search.
use vstd::prelude::*;
use crate::chat::{to_lowercase, unicode_lowercase};
use crate::paths::{extension_of, path_extension};
use crate::text::{chars_of, contains, contains_exec, string_views};

verus! {

/// An entry of the file picker.
#[derive(Clone)]
pub enum FilePickerEntry {
    /// The parent directory.
    Parent,
    /// A subdirectory, by name.
    Dir(String),
    /// A file, by its path relative to the working directory.
    File(String),
}

/// A picker entry as the specifications see it.
pub enum EntryView {
    Parent,
    Dir(Seq<char>),
    File(Seq<char>),
}

impl FilePickerEntry {
    pub open spec fn view(&self) -> EntryView {
        match self {
            FilePickerEntry::Parent => EntryView::Parent,
            FilePickerEntry::Dir(n) => EntryView::Dir(n@),
            FilePickerEntry::File(f) => EntryView::File(f@),
        }
    }

    fn copy(&self) -> (r: FilePickerEntry)
        ensures
            r.view() == self.view(),
    {
        match self {
            FilePickerEntry::Parent => FilePickerEntry::Parent,
            FilePickerEntry::Dir(n) => FilePickerEntry::Dir(String::from_str(n.as_str())),
            FilePickerEntry::File(f) => FilePickerEntry::File(String::from_str(f.as_str())),
        }
    }
}

/// The views of a sequence of entries.
pub open spec fn entry_views(v: Seq<FilePickerEntry>) -> Seq<EntryView> {
    v.map_values(|e: FilePickerEntry| e.view())
}

/// What the picker is choosing a file for.
#[derive(Debug, Clone, Copy, PartialEq, Eq, Structural)]
pub enum FilePickerMode {
    /// Toggle pinned files.
    Pin,
    /// Load a saved chat.
    LoadChat,
}

/// A directory entry as read from the disk.
pub struct DirItem {
    pub name: String,
    pub is_dir: bool,
    /// The path relative to the working directory, when it lies inside it.
    pub rel: Option<String>,
}

/// Extensions of the files the picker offers (besides files without one).
pub open spec fn text_exts() -> Seq<Seq<char>> {
    seq![
        "txt"@, "md"@, "rs"@, "py"@, "js"@, "ts"@, "go"@, "c"@, "cpp"@, "h"@, "hpp"@, "java"@,
        "rb"@, "sh"@, "toml"@, "yaml"@, "yml"@, "json"@, "xml"@, "html"@, "css"@, "sql"@, "env"@,
        "dockerfile"@, "makefile"@, "lock"@, "log"@,
    ]
}

/// Hidden and build directories are never listed.
pub open spec fn listed_name(name: Seq<char>) -> bool {
    !(name.len() > 0 && name[0] == '.') && name != "target"@ && name != "node_modules"@
}

/// A file is offered: a text extension (in any case) or none.
pub open spec fn offered_file(name: Seq<char>) -> bool {
    let ext = match path_extension(name) {
        Some(e) => unicode_lowercase(e),
        None => unicode_lowercase(Seq::empty()),
    };
    text_exts().contains(ext) || ext.len() == 0
}

/// The picker's entries for a directory: the parent (below the working
/// directory), the listed subdirectories, then the offered files that lie
/// inside the working directory, each group in the order given.
pub open spec fn picker_view(at_root: bool, items: Seq<DirItem>) -> Seq<EntryView> {
    (if at_root { seq![] } else { seq![EntryView::Parent] }) + dirs_of(items) + files_of(items)
}

/// The listed subdirectories among `items`.
pub open spec fn dirs_of(items: Seq<DirItem>) -> Seq<EntryView>
    decreases items.len(),
{
    if items.len() == 0 {
        seq![]
    } else {
        let it = items.last();
        dirs_of(items.drop_last()) + if it.is_dir && listed_name(it.name@) {
            seq![EntryView::Dir(it.name@)]
        } else {
            seq![]
        }
    }
}

/// The offered files among `items`.
pub open spec fn files_of(items: Seq<DirItem>) -> Seq<EntryView>
    decreases items.len(),
{
    if items.len() == 0 {
        seq![]
    } else {
        let it = items.last();
        files_of(items.drop_last()) + if !it.is_dir && listed_name(it.name@) && offered_file(it.name@) {
            match it.rel {
                Some(r) => seq![EntryView::File(r@)],
                None => seq![],
            }
        } else {
            seq![]
        }
    }
}

fn listed_name_exec(name: &str) -> (b: bool)
    ensures
        b == listed_name(name@),
{
    let c = chars_of(name);
    if c.len() > 0 && c[0] == '.' {
        return false;
    }
    let t = chars_of("target");
    let m = chars_of("node_modules");
    !crate::text::chars_eq(c.as_slice(), t.as_slice()) && !crate::text::chars_eq(c.as_slice(), m.as_slice())
}

fn offered_file_exec(name: &str) -> (b: bool)
    ensures
        b == offered_file(name@),
{
    let ext = extension_of(name);
    let lower = match &ext {
        Some(e) => to_lowercase(e.as_str()),
        None => to_lowercase(""),
    };
    proof {
        assert(""@ =~= Seq::<char>::empty()) by {
            reveal_strlit("");
        }
    }
    let exts: [&str; 27] = [
        "txt", "md", "rs", "py", "js", "ts", "go", "c", "cpp", "h", "hpp", "java", "rb", "sh",
        "toml", "yaml", "yml", "json", "xml", "html", "css", "sql", "env", "dockerfile", "makefile",
        "lock", "log",
    ];
    assert(forall|j: int| 0 <= j < 27 ==> (#[trigger] exts@[j])@ == text_exts()[j]);
    let l = chars_of(lower.as_str());
    let ghost ext = match path_extension(name@) {
        Some(e) => unicode_lowercase(e),
        None => unicode_lowercase(Seq::empty()),
    };
    assert(lower@ == ext);
    let mut k: usize = 0;
    while k < 27
        invariant
            k <= 27,
            l@ == lower@,
            lower@ == ext,
            ext == (match path_extension(name@) {
                Some(e) => unicode_lowercase(e),
                None => unicode_lowercase(Seq::empty()),
            }),
            forall|j: int| 0 <= j < 27 ==> (#[trigger] exts@[j])@ == text_exts()[j],
            forall|j: int| 0 <= j < k ==> text_exts()[j] != lower@,
        decreases 27 - k,
    {
        let e = chars_of(exts[k]);
        if crate::text::chars_eq(l.as_slice(), e.as_slice()) {
            assert(text_exts()[k as int] == lower@);
            return true;
        }
        k += 1;
    }
    proof {
        if text_exts().contains(lower@) {
            let j = choose|j: int| 0 <= j < text_exts().len() && text_exts()[j] == lower@;
            assert(text_exts()[j] != lower@);
        }
    }
    l.len() == 0
}

/// The picker's entries for a directory read as `items`, where `at_root`
/// says whether it is the working directory itself.
pub fn picker_entries(at_root: bool, items: &Vec<DirItem>) -> (r: Vec<FilePickerEntry>)
    ensures
        entry_views(r@) == picker_view(at_root, items@),
{
    let mut dirs: Vec<FilePickerEntry> = Vec::new();
    let mut files: Vec<FilePickerEntry> = Vec::new();
    let mut i: usize = 0;
    while i < items.len()
        invariant
            i <= items@.len(),
            entry_views(dirs@) == dirs_of(items@.take(i as int)),
            entry_views(files@) == files_of(items@.take(i as int)),
        decreases items.len() - i,
    {
        let it = &items[i];
        assert(items@.take(i + 1).drop_last() =~= items@.take(i as int));
        assert(items@.take(i + 1).last() == items@[i as int]);
        let listed = listed_name_exec(it.name.as_str());
        if it.is_dir {
            if listed {
                let e = FilePickerEntry::Dir(String::from_str(it.name.as_str()));
                proof {
                    assert(entry_views(dirs@.push(e)) =~= entry_views(dirs@).push(e.view()));
                }
                dirs.push(e);
            } else {
                assert(entry_views(dirs@) + Seq::<EntryView>::empty() =~= entry_views(dirs@));
            }
            assert(entry_views(files@) + Seq::<EntryView>::empty() =~= entry_views(files@));
        } else {
            assert(entry_views(dirs@) + Seq::<EntryView>::empty() =~= entry_views(dirs@));
            let offered = listed && offered_file_exec(it.name.as_str());
            match &it.rel {
                Some(r) => {
                    if offered {
                        let e = FilePickerEntry::File(String::from_str(r.as_str()));
                        proof {
                            assert(entry_views(files@.push(e)) =~= entry_views(files@).push(e.view()));
                        }
                        files.push(e);
                    } else {
                        assert(entry_views(files@) + Seq::<EntryView>::empty() =~= entry_views(files@));
                    }
                },
                None => {
                    assert(entry_views(files@) + Seq::<EntryView>::empty() =~= entry_views(files@));
                },
            }
        }
        i += 1;
    }
    assert(items@.take(items@.len() as int) =~= items@);
    let mut r: Vec<FilePickerEntry> = Vec::new();
    if !at_root {
        r.push(FilePickerEntry::Parent);
    }
    let ghost head = entry_views(r@);
    assert(head =~= (if at_root { Seq::<EntryView>::empty() } else { seq![EntryView::Parent] }));
    let mut k: usize = 0;
    while k < dirs.len()
        invariant
            k <= dirs@.len(),
            entry_views(r@) == head + entry_views(dirs@).take(k as int),
        decreases dirs.len() - k,
    {
        let e = dirs[k].copy();
        proof {
            assert(entry_views(r@.push(e)) =~= entry_views(r@).push(e.view()));
            assert(entry_views(dirs@).take(k + 1) =~= entry_views(dirs@).take(k as int).push(dirs@[k as int].view()));
        }
        r.push(e);
        k += 1;
    }
    assert(entry_views(dirs@).take(dirs@.len() as int) =~= entry_views(dirs@));
    let ghost mid = entry_views(r@);
    let mut k: usize = 0;
    while k < files.len()
        invariant
            k <= files@.len(),
            entry_views(r@) == mid + entry_views(files@).take(k as int),
        decreases files.len() - k,
    {
        let e = files[k].copy();
        proof {
            assert(entry_views(r@.push(e)) =~= entry_views(r@).push(e.view()));
            assert(entry_views(files@).take(k + 1) =~= entry_views(files@).take(k as int).push(files@[k as int].view()));
        }
        r.push(e);
        k += 1;
    }
    assert(entry_views(files@).take(files@.len() as int) =~= entry_views(files@));
    r
}

/// The entry matches the lower-cased search `q`: by name for directories,
/// by path for files; the parent never matches.
pub open spec fn entry_matches(e: EntryView, q: Seq<char>) -> bool {
    match e {
        EntryView::Parent => false,
        EntryView::Dir(n) => contains(unicode_lowercase(n), q),
        EntryView::File(f) => contains(unicode_lowercase(f), q),
    }
}

/// Matching the search `query`, case-insensitively.
pub open spec fn query_pred(query: Seq<char>) -> spec_fn(EntryView) -> bool {
    |e: EntryView| entry_matches(e, unicode_lowercase(query))
}

/// The entries shown for the search `query`: all of them for an empty
/// search, else those matching it case-insensitively, in order.
pub open spec fn visible_view(entries: Seq<EntryView>, query: Seq<char>) -> Seq<EntryView> {
    if query.len() == 0 {
        entries
    } else {
        entries.filter(query_pred(query))
    }
}

/// The entries the picker shows for the search `query`.
pub fn visible_entries(entries: &Vec<FilePickerEntry>, query: &str) -> (r: Vec<FilePickerEntry>)
    ensures
        entry_views(r@) == visible_view(entry_views(entries@), query@),
{
    let mut r: Vec<FilePickerEntry> = Vec::new();
    let ghost ev = entry_views(entries@);
    if query.is_empty() {
        let mut k: usize = 0;
        while k < entries.len()
            invariant
                k <= entries@.len(),
                ev == entry_views(entries@),
                entry_views(r@) == ev.take(k as int),
            decreases entries.len() - k,
        {
            let e = entries[k].copy();
            proof {
                assert(entry_views(r@.push(e)) =~= entry_views(r@).push(e.view()));
                assert(ev.take(k + 1) =~= ev.take(k as int).push(entries@[k as int].view()));
            }
            r.push(e);
            k += 1;
        }
        assert(ev.take(entries@.len() as int) =~= ev);
        return r;
    }
    let q = to_lowercase(query);
    let qc = chars_of(q.as_str());
    let ghost pred = query_pred(query@);
    let mut k: usize = 0;
    while k < entries.len()
        invariant
            k <= entries@.len(),
            ev == entry_views(entries@),
            qc@ == unicode_lowercase(query@),
            pred == query_pred(query@),
            entry_views(r@) == ev.take(k as int).filter(pred),
        decreases entries.len() - k,
    {
        let e = &entries[k];
        let keep = match e {
            FilePickerEntry::Parent => false,
            FilePickerEntry::Dir(n) => {
                let l = to_lowercase(n.as_str());
                let lc = chars_of(l.as_str());
                contains_exec(lc.as_slice(), qc.as_slice())
            },
            FilePickerEntry::File(f) => {
                let l = to_lowercase(f.as_str());
                let lc = chars_of(l.as_str());
                contains_exec(lc.as_slice(), qc.as_slice())
            },
        };
        assert(keep == pred(ev[k as int]));
        proof {
            assert(ev.take(k + 1).drop_last() =~= ev.take(k as int));
            ev.take(k as int).lemma_filter_push(ev[k as int], pred);
            assert(ev.take(k + 1) =~= ev.take(k as int).push(ev[k as int]));
        }
        if keep {
            let c = e.copy();
            proof {
                assert(entry_views(r@.push(c)) =~= entry_views(r@).push(c.view()));
            }
            r.push(c);
        }
        k += 1;
    }
    assert(ev.take(entries@.len() as int) =~= ev);
    r
}

// ── the listing a server sends ────────────────────────────────────────────

/// Names and kinds as plain values.
pub open spec fn pair_views(v: Seq<(String, bool)>) -> Seq<(Seq<char>, bool)> {
    v.map_values(|p: (String, bool)| (p.0@, p.1))
}

/// The entries of `items` whose names are not hidden, as (name, is dir).
pub open spec fn shown_items(items: Seq<DirItem>) -> Seq<(Seq<char>, bool)>
    decreases items.len(),
{
    if items.len() == 0 {
        seq![]
    } else {
        let it = items.last();
        shown_items(items.drop_last()) + if crate::remote::hidden(it.name@) {
            seq![]
        } else {
            seq![(it.name@, it.is_dir)]
        }
    }
}

/// Sorted by name.
pub open spec fn sorted_by_name(s: Seq<(Seq<char>, bool)>) -> bool {
    forall|i: int, j: int| 0 <= i < j < s.len() ==> crate::tools::lex_le(#[trigger] s[i].0, #[trigger] s[j].0)
}

/// The listing of a directory a server sends a client: the entries whose
/// names are not hidden, sorted by name.
pub fn server_listing(items: &Vec<DirItem>) -> (r: Vec<(String, bool)>)
    ensures
        sorted_by_name(pair_views(r@)),
        pair_views(r@).to_multiset() == shown_items(items@).to_multiset(),
{
    let mut out: Vec<(String, bool)> = Vec::new();
    let mut i: usize = 0;
    assert(items@.take(0) =~= Seq::<DirItem>::empty());
    assert(pair_views(out@) =~= Seq::<(Seq<char>, bool)>::empty());
    assert(shown_items(Seq::<DirItem>::empty()) =~= Seq::<(Seq<char>, bool)>::empty());
    while i < items.len()
        invariant
            i <= items@.len(),
            sorted_by_name(pair_views(out@)),
            pair_views(out@).to_multiset() == shown_items(items@.take(i as int)).to_multiset(),
        decreases items.len() - i,
    {
        proof {
            assert(items@.take(i + 1).drop_last() =~= items@.take(i as int));
            assert(items@.take(i + 1).last() == items@[i as int]);
        }
        let name = &items[i].name;
        let nc = chars_of(name.as_str());
        if nc.len() > 0 && nc[0] == '.' {
            proof {
                assert(shown_items(items@.take(i + 1)) =~= shown_items(items@.take(i as int)));
            }
        } else {
            let x = (String::from_str(name.as_str()), items[i].is_dir);
            let ghost xv = (x.0@, x.1);
            let mut p: usize = 0;
            while p < out.len() && !crate::tools::lex_lt_exec(nc.as_slice(), chars_of(out[p].0.as_str()).as_slice())
                invariant
                    p <= out@.len(),
                    nc@ == x.0@,
                    forall|k: int| 0 <= k < p ==> !crate::tools::lex_lt(x.0@, #[trigger] pair_views(out@)[k].0),
                decreases out.len() - p,
            {
                assert(pair_views(out@)[p as int].0 == out@[p as int].0@);
                p += 1;
            }
            let ghost old_out = pair_views(out@);
            proof {
                if p < out@.len() {
                    assert(old_out[p as int].0 == out@[p as int].0@);
                }
            }
            out.insert(p, x);
            proof {
                let nw = pair_views(out@);
                assert(nw =~= old_out.insert(p as int, xv));
                assert forall|a: int, b: int| 0 <= a < b < nw.len() implies crate::tools::lex_le(
                    #[trigger] nw[a].0,
                    #[trigger] nw[b].0,
                ) by {
                    if b == p {
                        assert(!crate::tools::lex_lt(xv.0, old_out[a].0));
                        crate::tools::lemma_lex_total(xv.0, old_out[a].0);
                    } else if a == p {
                        assert(crate::tools::lex_le(old_out[p as int].0, old_out[b - 1].0));
                        if old_out[p as int].0 != old_out[b - 1].0 {
                            crate::tools::lemma_lex_trans(xv.0, old_out[p as int].0, old_out[b - 1].0);
                        }
                    } else {
                        let a0 = if a < p { a } else { a - 1 };
                        let b0 = if b < p { b } else { b - 1 };
                        assert(nw[a] == old_out[a0]);
                        assert(nw[b] == old_out[b0]);
                    }
                }
                vstd::seq_lib::to_multiset_insert(old_out, p as int, xv);
                assert(shown_items(items@.take(i + 1)) =~= shown_items(items@.take(i as int)).push(xv));
                vstd::seq_lib::to_multiset_build(shown_items(items@.take(i as int)), xv);
            }
        }
        i += 1;
    }
    assert(items@.take(items@.len() as int) =~= items@);
    out
}

} // verus!
