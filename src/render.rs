use vstd::prelude::*;
use crate::config::CmdArgs;
use crate::entry::File;
use crate::listing::Directory;

verus! {

/// The leading-dot filter: a name that begins with `.` is shown only under
/// "all", or under "almost all" when it is neither `.` nor `..`.
pub open spec fn visible(name: Seq<char>, a: CmdArgs) -> bool {
    ||| name.len() == 0
    ||| name[0] != '.'
    ||| a.all_entries
    ||| (a.almost_all_entries && name != seq!['.'] && name != seq!['.', '.'])
}

/// The short rendering of an entry, in the precedence size-annotated,
/// quoted, one per line, comma-joined, bare name; empty when filtered out.
pub open spec fn short_text(f: File, a: CmdArgs) -> Seq<char> {
    if !visible(f.name@, a) {
        Seq::empty()
    } else if a.display_size {
        f.size@ + seq![' '] + f.name@
    } else if a.quote {
        seq!['"'] + f.name@ + seq!['"']
    } else if a.one {
        seq!['\n'] + f.name@
    } else if a.comma {
        f.name@ + seq![',', ' ']
    } else {
        f.name@
    }
}

/// The timestamp that long form shows: created, else modified, else accessed.
pub open spec fn shown_time(f: File, a: CmdArgs) -> Seq<char> {
    if a.created {
        f.created@
    } else if a.modified {
        f.modified@
    } else {
        f.accessed@
    }
}

/// The long-form row of an entry: permissions, size, user, group, time and
/// name, ended by a newline; empty when filtered out.
pub open spec fn long_text(f: File, a: CmdArgs) -> Seq<char> {
    if !visible(f.name@, a) {
        Seq::empty()
    } else {
        f.perms@ + seq![' '] + f.size@ + seq![' '] + f.user@ + seq![' ', ' '] + f.group@
            + shown_time(f, a) + seq![' '] + f.name@ + seq!['\n']
    }
}

/// One entry's part of a whole listing.
pub open spec fn item_text(f: File, a: CmdArgs) -> Seq<char> {
    if a.long {
        long_text(f, a)
    } else {
        short_text(f, a) + seq![' ']
    }
}

/// The text of a whole listing: the entries' parts, in order.
pub open spec fn listing_text(s: Seq<File>, a: CmdArgs) -> Seq<char>
    decreases s.len(),
{
    if s.len() == 0 {
        Seq::empty()
    } else {
        listing_text(s.drop_last(), a) + item_text(s.last(), a)
    }
}

/// Whether the leading-dot filter lets `name` through.
pub fn is_visible(name: &String, a: &CmdArgs) -> (r: bool)
    ensures
        r == visible(name@, *a),
{
    let n = name.as_str();
    let len = n.unicode_len();
    if len == 0 || n.get_char(0) != '.' || a.all_entries {
        return true;
    }
    if !a.almost_all_entries {
        return false;
    }
    let is_dot = len == 1;
    let is_dot_dot = len == 2 && n.get_char(1) == '.';
    assert(is_dot ==> n@ =~= seq!['.']);
    assert(is_dot_dot ==> n@ =~= seq!['.', '.']);
    !is_dot && !is_dot_dot
}

impl File {
    /// The short rendering of the entry under the options.
    pub fn render(&self, a: &CmdArgs) -> (r: String)
        ensures
            r@ == short_text(*self, *a),
    {
        if !is_visible(&self.name, a) {
            return String::new();
        }
        let name = self.name.as_str();
        if a.display_size {
            proof { reveal_strlit(" "); }
            self.size.clone().concat(" ").concat(name)
        } else if a.quote {
            proof { reveal_strlit("\""); }
            String::from_str("\"").concat(name).concat("\"")
        } else if a.one {
            proof { reveal_strlit("\n"); }
            String::from_str("\n").concat(name)
        } else if a.comma {
            proof { reveal_strlit(", "); }
            self.name.clone().concat(", ")
        } else {
            self.name.clone()
        }
    }

    /// The long-form row of the entry under the options.
    pub fn render_long(&self, a: &CmdArgs) -> (r: String)
        ensures
            r@ == long_text(*self, *a),
    {
        if !is_visible(&self.name, a) {
            return String::new();
        }
        let time = if a.created {
            self.created.as_str()
        } else if a.modified {
            self.modified.as_str()
        } else {
            self.accessed.as_str()
        };
        proof {
            reveal_strlit(" ");
            reveal_strlit("  ");
            reveal_strlit("\n");
        }
        let r = self.perms.clone().concat(" ").concat(self.size.as_str()).concat(" ").concat(
            self.user.as_str(),
        ).concat("  ").concat(self.group.as_str()).concat(time).concat(" ").concat(
            self.name.as_str(),
        ).concat("\n");
        assert(r@ =~= long_text(*self, *a));
        r
    }
}

impl Directory {
    /// The text of the whole listing: long-form rows, or short renderings
    /// each followed by a blank.
    pub fn render(&self) -> (r: String)
        ensures
            r@ == listing_text(self.paths@, self.args),
    {
        let n = self.paths.len();
        let mut r = String::new();
        let mut i: usize = 0;
        while i < n
            invariant
                n == self.paths@.len(),
                i <= n,
                r@ == listing_text(self.paths@.subrange(0, i as int), self.args),
            decreases n - i,
        {
            let ghost prev = r@;
            let part = if self.args.long {
                self.paths[i].render_long(&self.args)
            } else {
                proof { reveal_strlit(" "); }
                self.paths[i].render(&self.args).concat(" ")
            };
            r = r.concat(part.as_str());
            assert(self.paths@.subrange(0, i + 1).drop_last() =~= self.paths@.subrange(0, i as int));
            i = i + 1;
        }
        assert(self.paths@.subrange(0, n as int) =~= self.paths@);
        r
    }
}

/// The leading-dot filter: a dot name renders as empty text unless "all" is
/// set, or "almost all" is set and the name is neither `.` nor `..`; under
/// "all" every name renders.
pub proof fn lemma_leading_dot_filter(f: File, a: CmdArgs)
    ensures
        f.name@.len() > 0 && f.name@[0] == '.' && !a.all_entries && !a.almost_all_entries
            ==> short_text(f, a) == Seq::<char>::empty() && long_text(f, a) == Seq::<char>::empty(),
        a.all_entries ==> short_text(f, a).len() >= f.name@.len(),
        a.almost_all_entries && f.name@ != seq!['.'] && f.name@ != seq!['.', '.'] ==> visible(f.name@, a),
        a.almost_all_entries && !a.all_entries && (f.name@ == seq!['.'] || f.name@ == seq!['.', '.'])
            ==> short_text(f, a) == Seq::<char>::empty(),
{
}

} // verus!
