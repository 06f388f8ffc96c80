use vstd::prelude::*;
use crate::config::{CmdArgs, criterion_of};
use crate::entry::{EntryMeta, File, made_from};
use crate::sort::{SortCriteria, lemma_sort_keeps_entries, sort_as, sort_by_criteria, sorted_as, sorted_by};

verus! {

/// The entries of one listing and the options that govern it.
pub struct Directory {
    pub paths: Vec<File>,
    pub args: CmdArgs,
}

/// The directory entries of `s`, in their order.
pub open spec fn dirs_of(s: Seq<File>) -> Seq<File>
    decreases s.len(),
{
    if s.len() == 0 {
        s
    } else if s.last().is_dir_spec() {
        dirs_of(s.drop_last()).push(s.last())
    } else {
        dirs_of(s.drop_last())
    }
}

/// The order of a listing after the sort pass: the directories alone,
/// sorted, in directories-only mode; else every entry sorted and, when asked,
/// reversed.
pub open spec fn sorted_listing(s: Seq<File>, a: CmdArgs) -> Seq<File> {
    if a.only_dir {
        sorted_by(dirs_of(s), criterion_of(a))
    } else {
        sorted_as(s, criterion_of(a), a.reverse)
    }
}

proof fn lemma_dirs_of_are_dirs(s: Seq<File>)
    ensures
        forall|i: int| 0 <= i < dirs_of(s).len() ==> (#[trigger] dirs_of(s)[i]).is_dir_spec(),
    decreases s.len(),
{
    if s.len() > 0 {
        let p = dirs_of(s.drop_last());
        lemma_dirs_of_are_dirs(s.drop_last());
        if s.last().is_dir_spec() {
            assert forall|i: int| 0 <= i < p.push(s.last()).len() implies (#[trigger] p.push(
                s.last(),
            )[i]).is_dir_spec() by {
                if i < p.len() {
                    assert(p.push(s.last())[i] == p[i]);
                }
            }
        }
    }
}

/// Directories-only mode keeps directories alone: every entry of its sorted
/// listing is a directory.
pub proof fn lemma_only_directories(s: Seq<File>, c: SortCriteria)
    ensures
        forall|i: int|
            0 <= i < sorted_by(dirs_of(s), c).len() ==> (#[trigger] sorted_by(dirs_of(s), c)[i]).is_dir_spec(),
{
    broadcast use vstd::seq_lib::to_multiset_contains;

    let d = dirs_of(s);
    let t = sorted_by(d, c);
    lemma_dirs_of_are_dirs(s);
    lemma_sort_keeps_entries(d, c);
    assert forall|i: int| 0 <= i < t.len() implies (#[trigger] t[i]).is_dir_spec() by {
        assert(t.contains(t[i]));
        assert(t.to_multiset().count(t[i]) > 0);
        assert(d.contains(t[i]));
    }
}

impl Directory {
    /// Builds the listing from one metadata snapshot per entry, in read order.
    pub fn new(entries: Vec<EntryMeta>, args: CmdArgs) -> (r: Directory)
        ensures
            r.paths@.len() == entries@.len(),
            forall|i: int| 0 <= i < entries@.len() ==> made_from(#[trigger] r.paths@[i], entries@[i]),
            r.args == args,
    {
        let ghost orig = entries@;
        let mut entries = entries;
        let n = entries.len();
        let mut paths: Vec<File> = Vec::new();
        let mut i: usize = 0;
        while i < n
            invariant
                n == orig.len(),
                i <= n,
                entries@ == orig.subrange(i as int, n as int),
                paths@.len() == i,
                forall|k: int| 0 <= k < i ==> made_from(#[trigger] paths@[k], orig[k]),
            decreases n - i,
        {
            let m = entries.remove(0);
            assert(entries@ =~= orig.subrange(i + 1, n as int));
            paths.push(File::new(m));
            i = i + 1;
        }
        Directory { paths, args }
    }

    /// Directories-only mode: keeps the directories, each part sorted by the
    /// criterion on its own, directories first.
    pub fn only_directory(&mut self)
        ensures
            final(self).paths@ == sorted_by(dirs_of(old(self).paths@), criterion_of(old(self).args)),
            final(self).args == old(self).args,
    {
        let c = self.args.criterion();
        let mut src: Vec<File> = Vec::new();
        std::mem::swap(&mut self.paths, &mut src);
        let ghost orig = src@;
        let n = src.len();
        let mut directories: Vec<File> = Vec::new();
        let mut newer: Vec<File> = Vec::new();
        let mut i: usize = 0;
        while i < n
            invariant
                n == orig.len(),
                i <= n,
                src@ == orig.subrange(i as int, n as int),
                directories@ == dirs_of(orig.subrange(0, i as int)),
                newer@.len() == 0,
            decreases n - i,
        {
            let f = src.remove(0);
            assert(src@ =~= orig.subrange(i + 1, n as int));
            assert(orig.subrange(0, i + 1).drop_last() =~= orig.subrange(0, i as int));
            if f.is_dir() {
                directories.push(f);
            }
            i = i + 1;
        }
        assert(orig.subrange(0, n as int) =~= orig);
        sort_by_criteria(&mut directories, c);
        sort_by_criteria(&mut newer, c);
        directories.append(&mut newer);
        assert(directories@ =~= sorted_by(dirs_of(orig), c));
        self.paths = directories;
    }

    /// Sorts every entry by the criterion, reversing afterwards when asked.
    pub fn sort_paths(&mut self)
        ensures
            final(self).paths@ == sorted_as(old(self).paths@, criterion_of(old(self).args), old(self).args.reverse),
            final(self).args == old(self).args,
    {
        let c = self.args.criterion();
        let rev = self.args.reverse;
        sort_as(&mut self.paths, c, rev);
    }

    /// The sort pass of the listing.
    pub fn sort(&mut self)
        ensures
            final(self).paths@ == sorted_listing(old(self).paths@, old(self).args),
            final(self).args == old(self).args,
    {
        if self.args.only_dir {
            self.only_directory();
        } else {
            self.sort_paths();
        }
    }
}

} // verus!
