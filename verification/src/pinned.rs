//! Files pinned into the model's context, and the notes sent when they
//! change.
use vstd::prelude::*;
use crate::text::{chars_of, chars_eq, extend_chars, extend_str, string_from_chars, trim, trim_bounds};

verus! {

/// A file whose content is kept in the system prompt.
pub struct PinnedFile {
    /// The resolved path.
    pub path: String,
    /// The path shown in the interface, relative to the working directory.
    pub display: String,
    /// The content at the last snapshot.
    pub content: String,
    /// The modification time at the last snapshot, in nanoseconds since
    /// the epoch.
    pub mtime: Option<u64>,
    /// The modification time differs from the snapshot.
    pub changed: bool,
}

impl PinnedFile {
    /// Marks the file changed when its modification time differs from the
    /// snapshot.
    pub fn refresh_changed(&mut self, new_mtime: Option<u64>)
        ensures
            final(self).changed == (new_mtime != old(self).mtime),
            final(self).path == old(self).path,
            final(self).display == old(self).display,
            final(self).content == old(self).content,
            final(self).mtime == old(self).mtime,
    {
        self.changed = match (new_mtime, self.mtime) {
            (Some(a), Some(b)) => a != b,
            (None, None) => false,
            _ => true,
        };
    }

    /// Whether a fresh read (`new_mtime`, `new_content`) matches the
    /// snapshot, so no note is due.
    pub fn unchanged(&self, new_mtime: Option<u64>, new_content: &str) -> (b: bool)
        ensures
            b == (new_mtime == self.mtime && new_content@ == self.content@),
    {
        let same_time = match (new_mtime, self.mtime) {
            (Some(a), Some(b)) => a == b,
            (None, None) => true,
            _ => false,
        };
        if !same_time {
            return false;
        }
        let a = chars_of(new_content);
        let b = chars_of(self.content.as_str());
        chars_eq(a.as_slice(), b.as_slice())
    }
}

/// The note that tells the model a pinned file changed.
pub open spec fn change_text(display: Seq<char>, diff: Seq<char>) -> Seq<char> {
    "["@ + display + " changed since your last response]\n```diff\n"@ + trim(diff) + "\n```"@
}

/// The note for a pinned file `display` that changed by `diff`.
pub fn change_note(display: &str, diff: &str) -> (r: String)
    ensures
        r@ == change_text(display@, diff@),
{
    let mut v: Vec<char> = Vec::new();
    extend_str(&mut v, "[");
    extend_str(&mut v, display);
    extend_str(&mut v, " changed since your last response]\n```diff\n");
    let d = chars_of(diff);
    let (a, b) = trim_bounds(d.as_slice());
    extend_chars(&mut v, &d.as_slice()[a..b]);
    extend_str(&mut v, "\n```");
    assert(v@ =~= change_text(display@, diff@));
    string_from_chars(v.as_slice())
}

/// The displayed paths of the pinned files.
pub open spec fn displays(files: Seq<PinnedFile>) -> Seq<Seq<char>> {
    files.map_values(|f: PinnedFile| f.display@)
}

/// Whether a file with the displayed path `display` is pinned.
pub fn is_pinned(files: &Vec<PinnedFile>, display: &str) -> (b: bool)
    ensures
        b == displays(files@).contains(display@),
{
    let d = chars_of(display);
    let mut i: usize = 0;
    while i < files.len()
        invariant
            i <= files@.len(),
            d@ == display@,
            forall|j: int| 0 <= j < i ==> files@[j].display@ != display@,
        decreases files.len() - i,
    {
        let f = chars_of(files[i].display.as_str());
        if chars_eq(f.as_slice(), d.as_slice()) {
            assert(displays(files@)[i as int] == display@);
            return true;
        }
        i += 1;
    }
    proof {
        if displays(files@).contains(display@) {
            let k = choose|k: int| 0 <= k < displays(files@).len() && displays(files@)[k] == display@;
            assert(files@[k].display@ == display@);
        }
    }
    false
}

/// Unpins the file shown as `display`, keeping the others in order.
pub fn unpin(files: &mut Vec<PinnedFile>, display: &str)
    ensures
        final(files)@ == old(files)@.filter(|f: PinnedFile| f.display@ != display@),
{
    let d = chars_of(display);
    let ghost pred = |f: PinnedFile| f.display@ != display@;
    let ghost all = files@;
    let ghost mut j: int = 0;
    let mut i: usize = 0;
    assert(files@ =~= all.take(0).filter(pred) + all.skip(0)) by {
        reveal(Seq::filter);
    }
    while i < files.len()
        invariant
            d@ == display@,
            0 <= j <= all.len(),
            files@ == all.take(j).filter(pred) + all.skip(j),
            i == all.take(j).filter(pred).len(),
            pred == (|f: PinnedFile| f.display@ != display@),
        decreases all.len() - j,
    {
        let ghost kept = all.take(j).filter(pred);
        assert(files@[i as int] == all[j]);
        let fd = chars_of(files[i].display.as_str());
        let keep = !chars_eq(fd.as_slice(), d.as_slice());
        proof {
            assert(all.take(j + 1) =~= all.take(j).push(all[j]));
            all.take(j).lemma_filter_push(all[j], pred);
        }
        if keep {
            i += 1;
            proof {
                assert(files@ =~= all.take(j + 1).filter(pred) + all.skip(j + 1));
            }
        } else {
            files.remove(i);
            proof {
                assert(files@ =~= all.take(j + 1).filter(pred) + all.skip(j + 1));
            }
        }
        proof {
            j = j + 1;
        }
    }
    proof {
        assert(all.skip(j).len() == 0);
        assert(j == all.len());
        assert(all.take(j) =~= all);
        assert(files@ =~= all.filter(pred));
    }
}

/// The system prompt section listing the pinned files and their content.
pub open spec fn pinned_section(files: Seq<PinnedFile>) -> Seq<char>
    decreases files.len(),
{
    if files.len() == 0 {
        "## Pinned files\n\nThese files are always in context:"@
    } else {
        let f = files.last();
        pinned_section(files.drop_last()) + "\n\n<file_content path=\""@ + f.display@ + "\">\n"@
            + f.content@ + "\n</file_content>"@
    }
}

/// The system prompt section for the pinned files.
pub fn pinned_files_section(files: &Vec<PinnedFile>) -> (r: String)
    ensures
        r@ == pinned_section(files@),
{
    let mut v: Vec<char> = Vec::new();
    extend_str(&mut v, "## Pinned files\n\nThese files are always in context:");
    let mut i: usize = 0;
    assert(files@.take(0) =~= Seq::<PinnedFile>::empty());
    while i < files.len()
        invariant
            i <= files@.len(),
            v@ == pinned_section(files@.take(i as int)),
        decreases files.len() - i,
    {
        assert(files@.take(i + 1).drop_last() =~= files@.take(i as int));
        extend_str(&mut v, "\n\n<file_content path=\"");
        extend_str(&mut v, files[i].display.as_str());
        extend_str(&mut v, "\">\n");
        extend_str(&mut v, files[i].content.as_str());
        extend_str(&mut v, "\n</file_content>");
        i += 1;
    }
    assert(files@.take(files@.len() as int) =~= files@);
    string_from_chars(v.as_slice())
}

} // verus!
