use vstd::prelude::*;
use crate::config::{CmdArgs, criterion_of};
use crate::entry::File;
use crate::sort::{SortCriteria, lemma_sorted_in_order, lemma_sorted_len, lemma_sorted_numeric, num_key, sorted_by};
use crate::text::seq_lt;
use crate::listing::{Directory, sorted_listing};
use crate::text::{spaces, spaces_text};

verus! {

/// The larger of two widths.
pub open spec fn max_nat(a: nat, b: nat) -> nat {
    if a >= b {
        a
    } else {
        b
    }
}

/// Widest group name of the listing, in characters.
pub open spec fn group_width(s: Seq<File>) -> nat
    decreases s.len(),
{
    if s.len() == 0 {
        0
    } else {
        max_nat(group_width(s.drop_last()), s.last().group@.len())
    }
}

/// Widest user name of the listing, in characters.
pub open spec fn user_width(s: Seq<File>) -> nat
    decreases s.len(),
{
    if s.len() == 0 {
        0
    } else {
        max_nat(user_width(s.drop_last()), s.last().user@.len())
    }
}

/// Widest size text of the listing, in characters.
pub open spec fn size_width(s: Seq<File>) -> nat
    decreases s.len(),
{
    if s.len() == 0 {
        0
    } else {
        max_nat(size_width(s.drop_last()), s.last().size@.len())
    }
}

/// `x` left-justified in a field one wider than `w`.
pub open spec fn pad_after(x: Seq<char>, w: nat) -> Seq<char> {
    x + spaces((w - x.len()) as nat) + seq![' ']
}

/// `x` right-justified in a field one wider than `w`.
pub open spec fn pad_before(x: Seq<char>, w: nat) -> Seq<char> {
    seq![' '] + spaces((w - x.len()) as nat) + x
}

/// `b` is `a` with its group, user and size columns padded to the widths given.
pub open spec fn padded(a: File, b: File, gw: nat, uw: nat, sw: nat) -> bool {
    &&& b.group@ == pad_after(a.group@, gw)
    &&& b.user@ == pad_after(a.user@, uw)
    &&& b.size@ == pad_before(a.size@, sw)
    &&& b.path == a.path
    &&& b.name == a.name
    &&& b.name_key == a.name_key
    &&& b.file_type == a.file_type
    &&& b.modified == a.modified
    &&& b.accessed == a.accessed
    &&& b.created == a.created
    &&& b.perms == a.perms
    &&& b.size_bytes == a.size_bytes
    &&& b.created_ns == a.created_ns
    &&& b.modified_ns == a.modified_ns
    &&& b.accessed_ns == a.accessed_ns
}

/// `t` is `s` with every entry padded to the widths of `s`.
pub open spec fn columns_formatted(s: Seq<File>, t: Seq<File>) -> bool {
    &&& t.len() == s.len()
    &&& forall|i: int|
        0 <= i < s.len() ==> padded(s[i], #[trigger] t[i], group_width(s), user_width(s), size_width(s))
}

proof fn lemma_widths_bound(s: Seq<File>, i: int)
    requires
        0 <= i < s.len(),
    ensures
        s[i].group@.len() <= group_width(s),
        s[i].user@.len() <= user_width(s),
        s[i].size@.len() <= size_width(s),
    decreases s.len(),
{
    if i < s.len() - 1 {
        lemma_widths_bound(s.drop_last(), i);
    }
}

/// Column alignment: after padding, every row's group, user and size field
/// has the width of the widest value plus one separating blank.
pub proof fn lemma_columns_aligned(s: Seq<File>, t: Seq<File>)
    requires
        columns_formatted(s, t),
    ensures
        forall|i: int| 0 <= i < t.len() ==> (#[trigger] t[i]).group@.len() == group_width(s) + 1,
        forall|i: int| 0 <= i < t.len() ==> (#[trigger] t[i]).user@.len() == user_width(s) + 1,
        forall|i: int| 0 <= i < t.len() ==> (#[trigger] t[i]).size@.len() == size_width(s) + 1,
{
    assert forall|i: int| 0 <= i < t.len() implies (#[trigger] t[i]).group@.len() == group_width(s) + 1
        && t[i].user@.len() == user_width(s) + 1 && t[i].size@.len() == size_width(s) + 1 by {
        lemma_widths_bound(s, i);
        assert(padded(s[i], t[i], group_width(s), user_width(s), size_width(s)));
    }
}

/// Pads `x` on the right to one more than `w` characters.
fn pad_after_text(x: String, w: usize) -> (r: String)
    requires
        x@.len() <= w,
    ensures
        r@ == pad_after(x@, w as nat),
{
    let n = x.as_str().unicode_len();
    let sp = spaces_text(w - n);
    proof { reveal_strlit(" "); }
    let r = x.concat(sp.as_str()).concat(" ");
    r
}

/// Pads `x` on the left to one more than `w` characters.
fn pad_before_text(x: String, w: usize) -> (r: String)
    requires
        x@.len() <= w,
    ensures
        r@ == pad_before(x@, w as nat),
{
    let n = x.as_str().unicode_len();
    let sp = spaces_text(w - n);
    proof { reveal_strlit(" "); }
    let r = String::from_str(" ").concat(sp.as_str()).concat(x.as_str());
    r
}

/// After `setup` under the name order (no reverse, not directories-only),
/// every entry is still there and the lowercased names are in order.
pub proof fn lemma_name_listing(s: Seq<File>, a: CmdArgs, t: Seq<File>)
    requires
        criterion_of(a) == SortCriteria::Name,
        !a.only_dir,
        !a.reverse,
        columns_formatted(sorted_listing(s, a), t),
    ensures
        t.len() == s.len(),
        forall|i: int, j: int|
            0 <= i < j < t.len() ==> !seq_lt((#[trigger] t[j]).name_key@, (#[trigger] t[i]).name_key@),
{
    let r = sorted_by(s, SortCriteria::Name);
    lemma_sorted_len(s, SortCriteria::Name);
    lemma_sorted_in_order(s, SortCriteria::Name);
    assert forall|i: int, j: int| 0 <= i < j < t.len() implies !seq_lt(
        (#[trigger] t[j]).name_key@,
        (#[trigger] t[i]).name_key@,
    ) by {
        assert(padded(r[i], t[i], group_width(r), user_width(r), size_width(r)));
        assert(padded(r[j], t[j], group_width(r), user_width(r), size_width(r)));
        assert(!seq_lt(r[j].name_key@, r[i].name_key@));
    }
}

/// After `setup` under the size order (no reverse, not directories-only),
/// every entry is still there, the rows ascend in raw byte size, and the
/// group, user and size fields have one width across the rows.
pub proof fn lemma_size_listing(s: Seq<File>, a: CmdArgs, t: Seq<File>)
    requires
        criterion_of(a) == SortCriteria::Size,
        !a.only_dir,
        !a.reverse,
        columns_formatted(sorted_listing(s, a), t),
    ensures
        t.len() == s.len(),
        forall|i: int, j: int| 0 <= i < j < t.len() ==> (#[trigger] t[i]).size_bytes <= (#[trigger] t[j]).size_bytes,
        forall|i: int, j: int|
            0 <= i < t.len() && 0 <= j < t.len() ==> (#[trigger] t[i]).group@.len() == (#[trigger] t[j]).group@.len()
                && t[i].user@.len() == t[j].user@.len() && t[i].size@.len() == t[j].size@.len(),
{
    let r = sorted_by(s, SortCriteria::Size);
    lemma_sorted_len(s, SortCriteria::Size);
    lemma_sorted_numeric(s, SortCriteria::Size);
    lemma_columns_aligned(r, t);
    assert forall|i: int, j: int| 0 <= i < j < t.len() implies (#[trigger] t[i]).size_bytes <= (#[trigger] t[j]).size_bytes by {
        assert(padded(r[i], t[i], group_width(r), user_width(r), size_width(r)));
        assert(padded(r[j], t[j], group_width(r), user_width(r), size_width(r)));
        assert(num_key(r[i], SortCriteria::Size) <= num_key(r[j], SortCriteria::Size));
    }
}

impl Directory {
    /// Pads the group, user and size columns so that they align across the
    /// listing: group and user on the right, size on the left.
    pub fn format_output(&mut self)
        ensures
            columns_formatted(old(self).paths@, final(self).paths@),
            final(self).args == old(self).args,
    {
        let mut src: Vec<File> = Vec::new();
        std::mem::swap(&mut self.paths, &mut src);
        let ghost orig = src@;
        let n = src.len();
        let mut group: usize = 0;
        let mut user: usize = 0;
        let mut size: usize = 0;
        let mut i: usize = 0;
        while i < n
            invariant
                n == orig.len(),
                src@ == orig,
                i <= n,
                group == group_width(orig.subrange(0, i as int)),
                user == user_width(orig.subrange(0, i as int)),
                size == size_width(orig.subrange(0, i as int)),
            decreases n - i,
        {
            assert(orig.subrange(0, i + 1).drop_last() =~= orig.subrange(0, i as int));
            let g = src[i].group.as_str().unicode_len();
            let u = src[i].user.as_str().unicode_len();
            let s = src[i].size.as_str().unicode_len();
            if g > group {
                group = g;
            }
            if u > user {
                user = u;
            }
            if s > size {
                size = s;
            }
            i = i + 1;
        }
        assert(orig.subrange(0, n as int) =~= orig);
        let mut out: Vec<File> = Vec::new();
        let mut j: usize = 0;
        while j < n
            invariant
                n == orig.len(),
                j <= n,
                src@ == orig.subrange(j as int, n as int),
                group == group_width(orig),
                user == user_width(orig),
                size == size_width(orig),
                out@.len() == j,
                forall|k: int| 0 <= k < j ==> padded(orig[k], #[trigger] out@[k], group_width(orig), user_width(orig), size_width(orig)),
            decreases n - j,
        {
            let f = src.remove(0);
            assert(src@ =~= orig.subrange(j + 1, n as int));
            proof {
                lemma_widths_bound(orig, j as int);
            }
            let File {
                path,
                name,
                name_key,
                file_type,
                group: g,
                user: u,
                modified,
                accessed,
                created,
                size: s,
                perms,
                size_bytes,
                created_ns,
                modified_ns,
                accessed_ns,
            } = f;
            let padded_file = File {
                path,
                name,
                name_key,
                file_type,
                group: pad_after_text(g, group),
                user: pad_after_text(u, user),
                modified,
                accessed,
                created,
                size: pad_before_text(s, size),
                perms,
                size_bytes,
                created_ns,
                modified_ns,
                accessed_ns,
            };
            out.push(padded_file);
            j = j + 1;
        }
        self.paths = out;
    }

    /// Sorts the listing, then aligns its columns.
    pub fn setup(&mut self)
        ensures
            columns_formatted(sorted_listing(old(self).paths@, old(self).args), final(self).paths@),
            final(self).args == old(self).args,
    {
        self.sort();
        self.format_output();
    }
}

} // verus!
