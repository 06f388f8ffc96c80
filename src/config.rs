use vstd::prelude::*;
use crate::sort::{SortCriteria, get_sort_type};

verus! {

/// The validated options of one listing run.
pub struct CmdArgs {
    /// The directory or file to list.
    pub dir: String,
    /// Show entries that begin with `.`, except `.` and `..`.
    pub almost_all_entries: bool,
    /// Show every entry, including those that begin with `.`.
    pub all_entries: bool,
    pub author: bool,
    /// Sort by creation time; in long form, show it.
    pub created: bool,
    /// List directories only.
    pub only_dir: bool,
    pub no_sort_f: bool,
    pub human: bool,
    pub inode: bool,
    /// Long form: one detailed row per entry.
    pub long: bool,
    /// Comma-separated names.
    pub comma: bool,
    /// Sort by name.
    pub name: bool,
    /// Quote each name.
    pub quote: bool,
    /// Reverse the sorted listing.
    pub reverse: bool,
    pub recur: bool,
    /// Show the size before each name.
    pub display_size: bool,
    /// Sort by byte size.
    pub size: bool,
    /// Sort by modification time; in long form, show it.
    pub modified: bool,
    /// One name per line.
    pub one: bool,
    pub no_sort: bool,
    /// Template for rendering timestamps.
    pub time_style: String,
    /// Sort by access time.
    pub accessed: bool,
    /// Criterion given by word: `name`, `time` or `size` select that order.
    pub sort: String,
}

/// Whether the name order is asked for, by flag or by word.
pub open spec fn wants_name(a: CmdArgs) -> bool {
    a.name || a.sort@ == seq!['n', 'a', 'm', 'e']
}

/// Whether the modification-time order is asked for, by flag or by word.
pub open spec fn wants_modified(a: CmdArgs) -> bool {
    a.modified || a.sort@ == seq!['t', 'i', 'm', 'e']
}

/// Whether the size order is asked for, by flag or by word.
pub open spec fn wants_size(a: CmdArgs) -> bool {
    a.size || a.sort@ == seq!['s', 'i', 'z', 'e']
}

/// The criterion that the options select: the first asked for in the
/// order name, created, modified, accessed, size.
pub open spec fn criterion_of(a: CmdArgs) -> SortCriteria {
    if wants_name(a) {
        SortCriteria::Name
    } else if a.created {
        SortCriteria::Created
    } else if wants_modified(a) {
        SortCriteria::Modified
    } else if a.accessed {
        SortCriteria::Accessed
    } else if wants_size(a) {
        SortCriteria::Size
    } else {
        SortCriteria::Not
    }
}

impl CmdArgs {
    /// The default options for listing `dir`: no flag set, the
    /// `%Y-%m-%d %H:%M:%S` time template and the `create` sort word.
    pub fn new(dir: String) -> (r: CmdArgs)
        ensures
            r.dir == dir,
            r.time_style@ == "%Y-%m-%d %H:%M:%S"@,
            r.sort@ == "create"@,
            !r.almost_all_entries && !r.all_entries && !r.author && !r.created && !r.only_dir,
            !r.no_sort_f && !r.human && !r.inode && !r.long && !r.comma && !r.name && !r.quote,
            !r.reverse && !r.recur && !r.display_size && !r.size && !r.modified && !r.one,
            !r.no_sort && !r.accessed,
    {
        CmdArgs {
            dir,
            almost_all_entries: false,
            all_entries: false,
            author: false,
            created: false,
            only_dir: false,
            no_sort_f: false,
            human: false,
            inode: false,
            long: false,
            comma: false,
            name: false,
            quote: false,
            reverse: false,
            recur: false,
            display_size: false,
            size: false,
            modified: false,
            one: false,
            no_sort: false,
            time_style: String::from_str("%Y-%m-%d %H:%M:%S"),
            accessed: false,
            sort: String::from_str("create"),
        }
    }

    /// Selects the sort criterion: the first set flag in the order name,
    /// created, modified, accessed, size.
    pub fn criterion(&self) -> (r: SortCriteria)
        ensures
            r == criterion_of(*self),
    {
        proof {
            reveal_strlit("name");
            reveal_strlit("time");
            reveal_strlit("size");
        }
        let name_word = String::from_str("name");
        let time_word = String::from_str("time");
        let size_word = String::from_str("size");
        assert(name_word@ =~= seq!['n', 'a', 'm', 'e']);
        assert(time_word@ =~= seq!['t', 'i', 'm', 'e']);
        assert(size_word@ =~= seq!['s', 'i', 'z', 'e']);
        let by_name = self.name || self.sort == name_word;
        let by_time = self.modified || self.sort == time_word;
        let by_size = self.size || self.sort == size_word;
        let flags = [by_name, self.created, by_time, self.accessed, by_size];
        assert(flags@[0] == by_name && flags@[2] == by_time && flags@[4] == by_size);
        get_sort_type(flags)
    }
}

} // verus!
