use vstd::prelude::*;
use crate::entry::File;
use crate::text::{chars_lt, seq_lt};

verus! {

/// The single attribute that orders a listing.
#[derive(Clone, Copy, Debug, PartialEq, Eq, Structural)]
pub enum SortCriteria {
    Name,
    Created,
    Modified,
    Accessed,
    Size,
    Not,
}

/// The criterion of the first set flag, in the order name, created,
/// modified, accessed, size; `Not` when none is set.
pub open spec fn sort_type_of(flags: [bool; 5]) -> SortCriteria {
    if flags@[0] {
        SortCriteria::Name
    } else if flags@[1] {
        SortCriteria::Created
    } else if flags@[2] {
        SortCriteria::Modified
    } else if flags@[3] {
        SortCriteria::Accessed
    } else if flags@[4] {
        SortCriteria::Size
    } else {
        SortCriteria::Not
    }
}

/// Picks the criterion: the first set flag wins.
pub fn get_sort_type(sort_type: [bool; 5]) -> (r: SortCriteria)
    ensures
        r == sort_type_of(sort_type),
{
    if sort_type[0] {
        SortCriteria::Name
    } else if sort_type[1] {
        SortCriteria::Created
    } else if sort_type[2] {
        SortCriteria::Modified
    } else if sort_type[3] {
        SortCriteria::Accessed
    } else if sort_type[4] {
        SortCriteria::Size
    } else {
        SortCriteria::Not
    }
}

/// Whether `a` sorts strictly before `b` under the criterion: lowercased
/// names, raw timestamps (access time on both sides for `Accessed`) or raw
/// byte sizes; nothing sorts before anything under `Not`.
pub open spec fn key_lt(a: File, b: File, c: SortCriteria) -> bool {
    match c {
        SortCriteria::Name => seq_lt(a.name_key@, b.name_key@),
        SortCriteria::Created => a.created_ns < b.created_ns,
        SortCriteria::Modified => a.modified_ns < b.modified_ns,
        SortCriteria::Accessed => a.accessed_ns < b.accessed_ns,
        SortCriteria::Size => a.size_bytes < b.size_bytes,
        SortCriteria::Not => false,
    }
}

/// Inserts `x` after every element that does not sort strictly after it.
pub open spec fn insert_sorted(s: Seq<File>, x: File, c: SortCriteria) -> Seq<File>
    decreases s.len(),
{
    if s.len() == 0 {
        seq![x]
    } else if key_lt(x, s.last(), c) {
        insert_sorted(s.drop_last(), x, c).push(s.last())
    } else {
        s.push(x)
    }
}

/// The stable sort of `s` by the criterion: equal keys keep their input order.
pub open spec fn sorted_by(s: Seq<File>, c: SortCriteria) -> Seq<File>
    decreases s.len(),
{
    if s.len() == 0 {
        s
    } else {
        insert_sorted(sorted_by(s.drop_last(), c), s.last(), c)
    }
}

/// The result of a sort pass, reversed afterwards when `reverse` is set.
pub open spec fn sorted_as(s: Seq<File>, c: SortCriteria, reverse: bool) -> Seq<File> {
    if reverse {
        sorted_by(s, c).reverse()
    } else {
        sorted_by(s, c)
    }
}

/// The numeric key of the time and size criteria.
pub open spec fn num_key(f: File, c: SortCriteria) -> int {
    match c {
        SortCriteria::Created => f.created_ns as int,
        SortCriteria::Modified => f.modified_ns as int,
        SortCriteria::Accessed => f.accessed_ns as int,
        SortCriteria::Size => f.size_bytes as int,
        _ => 0,
    }
}

/// Whether the criterion compares raw numbers.
pub open spec fn is_numeric(c: SortCriteria) -> bool {
    c != SortCriteria::Name && c != SortCriteria::Not
}

/// Whether `s` is in ascending order of the numeric key.
pub open spec fn ascending(s: Seq<File>, c: SortCriteria) -> bool {
    forall|i: int, j: int| 0 <= i < j < s.len() ==> num_key(#[trigger] s[i], c) <= num_key(#[trigger] s[j], c)
}

proof fn lemma_insert_bound(s: Seq<File>, x: File, c: SortCriteria, b: int)
    requires
        is_numeric(c),
        forall|k: int| 0 <= k < s.len() ==> num_key(#[trigger] s[k], c) <= b,
        num_key(x, c) <= b,
    ensures
        insert_sorted(s, x, c).len() == s.len() + 1,
        forall|k: int| 0 <= k < s.len() + 1 ==> num_key(#[trigger] insert_sorted(s, x, c)[k], c) <= b,
    decreases s.len(),
{
    if s.len() > 0 && key_lt(x, s.last(), c) {
        lemma_insert_bound(s.drop_last(), x, c, b);
    }
}

proof fn lemma_insert_ascending(s: Seq<File>, x: File, c: SortCriteria)
    requires
        is_numeric(c),
        ascending(s, c),
    ensures
        ascending(insert_sorted(s, x, c), c),
    decreases s.len(),
{
    if s.len() > 0 {
        let l = s.last();
        if key_lt(x, l, c) {
            let t = s.drop_last();
            lemma_insert_ascending(t, x, c);
            lemma_insert_bound(t, x, c, num_key(l, c));
        } else {
            let r = s.push(x);
            assert forall|i: int, j: int| 0 <= i < j < r.len() implies num_key(#[trigger] r[i], c) <= num_key(#[trigger] r[j], c) by {
                if j == s.len() {
                    if i < s.len() - 1 {
                        assert(num_key(s[i], c) <= num_key(s[s.len() - 1], c));
                    }
                }
            }
        }
    }
}

/// Under a time or size criterion the sorted sequence is ascending in the
/// raw number (timestamp or byte count), whatever its rendered text says.
pub proof fn lemma_sorted_numeric(s: Seq<File>, c: SortCriteria)
    requires
        is_numeric(c),
    ensures
        ascending(sorted_by(s, c), c),
        sorted_by(s, c).len() == s.len(),
    decreases s.len(),
{
    if s.len() > 0 {
        lemma_sorted_numeric(s.drop_last(), c);
        lemma_insert_ascending(sorted_by(s.drop_last(), c), s.last(), c);
        lemma_sorted_len(s, c);
    }
}

/// The size order compares raw byte counts: in every size-sorted listing an
/// entry with fewer bytes never follows one with more.
pub proof fn lemma_size_order_by_bytes(s: Seq<File>)
    ensures
        forall|i: int, j: int|
            0 <= i < j < sorted_by(s, SortCriteria::Size).len() ==> (#[trigger] sorted_by(s, SortCriteria::Size)[i]).size_bytes
                <= (#[trigger] sorted_by(s, SortCriteria::Size)[j]).size_bytes,
{
    lemma_sorted_numeric(s, SortCriteria::Size);
}

/// Reversal is a pass after the sort: the reversed listing is exactly the
/// mirror of the forward listing under the same criterion.
pub proof fn lemma_reverse_is_post_pass(s: Seq<File>, c: SortCriteria)
    ensures
        sorted_as(s, c, true) == sorted_as(s, c, false).reverse(),
        sorted_as(s, c, true).len() == s.len(),
        forall|i: int|
            0 <= i < s.len() ==> #[trigger] sorted_as(s, c, true)[i] == sorted_by(s, c)[s.len() - 1 - i],
{
    lemma_sorted_len(s, c);
}

proof fn lemma_insert_keeps_entries(s: Seq<File>, x: File, c: SortCriteria)
    ensures
        insert_sorted(s, x, c).to_multiset() == s.to_multiset().insert(x),
    decreases s.len(),
{
    broadcast use vstd::seq_lib::to_multiset_build;
    broadcast use vstd::multiset::group_multiset_axioms;

    if s.len() == 0 {
        assert(s =~= Seq::<File>::empty());
        assert(seq![x] =~= s.push(x));
        assert(s.push(x).to_multiset() =~= s.to_multiset().insert(x));
    } else if key_lt(x, s.last(), c) {
        let t = s.drop_last();
        lemma_insert_keeps_entries(t, x, c);
        let u = insert_sorted(t, x, c);
        assert(u.push(s.last()).to_multiset() =~= u.to_multiset().insert(s.last()));
        assert(t.push(s.last()) =~= s);
        assert(t.push(s.last()).to_multiset() =~= t.to_multiset().insert(s.last()));
        assert(s.to_multiset().insert(x) =~= t.to_multiset().insert(x).insert(s.last()));
    } else {
        assert(s.push(x).to_multiset() =~= s.to_multiset().insert(x));
    }
}

/// Sorting neither loses nor duplicates an entry: the sorted listing holds
/// exactly the entries of the input, each as often.
pub proof fn lemma_sort_keeps_entries(s: Seq<File>, c: SortCriteria)
    ensures
        sorted_by(s, c).to_multiset() == s.to_multiset(),
    decreases s.len(),
{
    broadcast use vstd::seq_lib::to_multiset_build;

    if s.len() > 0 {
        lemma_sort_keeps_entries(s.drop_last(), c);
        lemma_insert_keeps_entries(sorted_by(s.drop_last(), c), s.last(), c);
        assert(s.drop_last().push(s.last()) =~= s);
    }
}

/// Without a criterion the listing order is kept.
pub proof fn lemma_no_sort_keeps_order(s: Seq<File>)
    ensures
        sorted_by(s, SortCriteria::Not) == s,
    decreases s.len(),
{
    if s.len() > 0 {
        lemma_no_sort_keeps_order(s.drop_last());
        assert(s.drop_last().push(s.last()) =~= s);
    }
}

/// Sorting keeps the number of entries.
pub proof fn lemma_sorted_len(s: Seq<File>, c: SortCriteria)
    ensures
        sorted_by(s, c).len() == s.len(),
    decreases s.len(),
{
    if s.len() > 0 {
        lemma_sorted_len(s.drop_last(), c);
        lemma_insert_len(sorted_by(s.drop_last(), c), s.last(), c);
    }
}

proof fn lemma_insert_len(s: Seq<File>, x: File, c: SortCriteria)
    ensures
        insert_sorted(s, x, c).len() == s.len() + 1,
    decreases s.len(),
{
    if s.len() > 0 && key_lt(x, s.last(), c) {
        lemma_insert_len(s.drop_last(), x, c);
    }
}

/// Whether `s` is in order under the criterion: no entry sorts strictly
/// before an entry ahead of it.
pub open spec fn in_order(s: Seq<File>, c: SortCriteria) -> bool {
    forall|i: int, j: int| 0 <= i < j < s.len() ==> !key_lt(#[trigger] s[j], #[trigger] s[i], c)
}

/// Whether two entries have equal keys under the criterion.
pub open spec fn same_key(a: File, b: File, c: SortCriteria) -> bool {
    !key_lt(a, b, c) && !key_lt(b, a, c)
}

/// The entries of `s` whose key equals that of `k`, in their order.
pub open spec fn key_class(s: Seq<File>, k: File, c: SortCriteria) -> Seq<File>
    decreases s.len(),
{
    if s.len() == 0 {
        s
    } else if same_key(s.last(), k, c) {
        key_class(s.drop_last(), k, c).push(s.last())
    } else {
        key_class(s.drop_last(), k, c)
    }
}

proof fn lemma_key_lt_irreflexive(a: File, c: SortCriteria)
    ensures
        !key_lt(a, a, c),
{
    if c == SortCriteria::Name {
        crate::text::lemma_seq_lt_irreflexive(a.name_key@);
    }
}

proof fn lemma_key_lt_transitive(a: File, b: File, d: File, c: SortCriteria)
    requires
        key_lt(a, b, c),
        key_lt(b, d, c),
    ensures
        key_lt(a, d, c),
{
    if c == SortCriteria::Name {
        crate::text::lemma_seq_lt_transitive(a.name_key@, b.name_key@, d.name_key@);
    }
}

/// "Does not sort after" is transitive.
proof fn lemma_key_le_transitive(a: File, b: File, d: File, c: SortCriteria)
    requires
        !key_lt(b, a, c),
        !key_lt(d, b, c),
    ensures
        !key_lt(d, a, c),
{
    if c == SortCriteria::Name {
        let (ka, kb, kd) = (a.name_key@, b.name_key@, d.name_key@);
        if ka != kb {
            crate::text::lemma_seq_lt_total(ka, kb);
        }
        if kb != kd {
            crate::text::lemma_seq_lt_total(kb, kd);
        }
        if seq_lt(kd, ka) {
            if ka != kb && kb != kd {
                crate::text::lemma_seq_lt_transitive(ka, kb, kd);
            }
            if ka != kd {
                crate::text::lemma_seq_lt_transitive(ka, kd, ka);
            }
            crate::text::lemma_seq_lt_irreflexive(ka);
        }
    }
}

proof fn lemma_insert_le_bound(s: Seq<File>, x: File, c: SortCriteria, b: File)
    requires
        forall|k: int| 0 <= k < s.len() ==> !key_lt(b, #[trigger] s[k], c),
        !key_lt(b, x, c),
    ensures
        insert_sorted(s, x, c).len() == s.len() + 1,
        forall|k: int| 0 <= k < s.len() + 1 ==> !key_lt(b, #[trigger] insert_sorted(s, x, c)[k], c),
    decreases s.len(),
{
    if s.len() > 0 && key_lt(x, s.last(), c) {
        lemma_insert_le_bound(s.drop_last(), x, c, b);
    }
}

proof fn lemma_insert_in_order(s: Seq<File>, x: File, c: SortCriteria)
    requires
        in_order(s, c),
    ensures
        in_order(insert_sorted(s, x, c), c),
    decreases s.len(),
{
    if s.len() > 0 {
        let l = s.last();
        if key_lt(x, l, c) {
            let t = s.drop_last();
            lemma_insert_in_order(t, x, c);
            if key_lt(l, x, c) {
                lemma_key_lt_transitive(x, l, x, c);
                lemma_key_lt_irreflexive(x, c);
            }
            lemma_insert_le_bound(t, x, c, l);
        } else {
            let r = s.push(x);
            assert forall|i: int, j: int| 0 <= i < j < r.len() implies !key_lt(#[trigger] r[j], #[trigger] r[i], c) by {
                if j == s.len() && i < s.len() - 1 {
                    lemma_key_le_transitive(s[i], l, x, c);
                }
            }
        }
    }
}

/// The sorted sequence is in order under its criterion; for names, no
/// lowercased name is followed by one that sorts strictly before it.
pub proof fn lemma_sorted_in_order(s: Seq<File>, c: SortCriteria)
    ensures
        in_order(sorted_by(s, c), c),
        c == SortCriteria::Name ==> forall|i: int, j: int|
            0 <= i < j < sorted_by(s, c).len() ==> !seq_lt(
                (#[trigger] sorted_by(s, c)[j]).name_key@,
                (#[trigger] sorted_by(s, c)[i]).name_key@,
            ),
    decreases s.len(),
{
    if s.len() > 0 {
        lemma_sorted_in_order(s.drop_last(), c);
        lemma_insert_in_order(sorted_by(s.drop_last(), c), s.last(), c);
    }
    if c == SortCriteria::Name {
        let r = sorted_by(s, c);
        assert forall|i: int, j: int| 0 <= i < j < r.len() implies !seq_lt(
            (#[trigger] r[j]).name_key@,
            (#[trigger] r[i]).name_key@,
        ) by {
            assert(!key_lt(r[j], r[i], c));
        }
    }
}

proof fn lemma_insert_key_class(s: Seq<File>, x: File, k: File, c: SortCriteria)
    ensures
        key_class(insert_sorted(s, x, c), k, c) == if same_key(x, k, c) {
            key_class(s, k, c).push(x)
        } else {
            key_class(s, k, c)
        },
    decreases s.len(),
{
    if s.len() == 0 {
        assert(seq![x] =~= s.push(x));
        assert(seq![x].drop_last() =~= s);
    } else if key_lt(x, s.last(), c) {
        let t = s.drop_last();
        let l = s.last();
        lemma_insert_key_class(t, x, k, c);
        let u = insert_sorted(t, x, c);
        assert(u.push(l).drop_last() =~= u);
        if same_key(x, k, c) && same_key(l, k, c) {
            lemma_key_le_transitive(l, k, x, c);
        }
    } else {
        assert(s.push(x).drop_last() =~= s);
    }
}

/// Sorting is stable: the entries that share a key come out in the order
/// they went in.
pub proof fn lemma_sort_stable(s: Seq<File>, k: File, c: SortCriteria)
    ensures
        key_class(sorted_by(s, c), k, c) == key_class(s, k, c),
    decreases s.len(),
{
    if s.len() > 0 {
        lemma_sort_stable(s.drop_last(), k, c);
        lemma_insert_key_class(sorted_by(s.drop_last(), c), s.last(), k, c);
    }
}

/// Executable form of `key_lt`.
pub fn entry_lt(a: &File, b: &File, c: SortCriteria) -> (r: bool)
    ensures
        r == key_lt(*a, *b, c),
{
    match c {
        SortCriteria::Name => chars_lt(&a.name_key, &b.name_key),
        SortCriteria::Created => a.created_ns < b.created_ns,
        SortCriteria::Modified => a.modified_ns < b.modified_ns,
        SortCriteria::Accessed => a.accessed_ns < b.accessed_ns,
        SortCriteria::Size => a.size_bytes < b.size_bytes,
        SortCriteria::Not => false,
    }
}

proof fn lemma_insert_at(s: Seq<File>, x: File, c: SortCriteria, pos: int)
    requires
        0 <= pos <= s.len(),
        forall|k: int| pos <= k < s.len() ==> key_lt(x, #[trigger] s[k], c),
        pos > 0 ==> !key_lt(x, s[pos - 1], c),
    ensures
        insert_sorted(s, x, c) == s.insert(pos, x),
    decreases s.len(),
{
    if s.len() == 0 {
        assert(s.insert(pos, x) =~= seq![x]);
    } else if pos == s.len() {
        assert(s.insert(pos, x) =~= s.push(x));
    } else {
        assert(key_lt(x, s[s.len() - 1], c));
        let t = s.drop_last();
        assert forall|k: int| pos <= k < t.len() implies key_lt(x, #[trigger] t[k], c) by {
            assert(t[k] == s[k]);
        }
        lemma_insert_at(t, x, c, pos);
        assert(t.insert(pos, x).push(s.last()) =~= s.insert(pos, x));
    }
}

/// Sorts stably by the criterion, in place.
pub fn sort_by_criteria(files: &mut Vec<File>, c: SortCriteria)
    ensures
        final(files)@ == sorted_by(old(files)@, c),
{
    let ghost orig = files@;
    let n = files.len();
    let mut out: Vec<File> = Vec::new();
    let mut i: usize = 0;
    while i < n
        invariant
            n == orig.len(),
            i <= n,
            files@ == orig.subrange(i as int, n as int),
            out@ == sorted_by(orig.subrange(0, i as int), c),
        decreases n - i,
    {
        let x = files.remove(0);
        assert(x == orig[i as int]);
        assert(files@ =~= orig.subrange(i + 1, n as int));
        let mut pos = out.len();
        while pos > 0 && entry_lt(&x, &out[pos - 1], c)
            invariant
                pos <= out@.len(),
                forall|k: int| pos <= k < out@.len() ==> key_lt(x, #[trigger] out@[k], c),
            decreases pos,
        {
            pos = pos - 1;
        }
        proof {
            lemma_insert_at(out@, x, c, pos as int);
            assert(orig.subrange(0, i + 1).drop_last() =~= orig.subrange(0, i as int));
        }
        out.insert(pos, x);
        i = i + 1;
    }
    assert(orig.subrange(0, n as int) =~= orig);
    *files = out;
}

/// Reverses the entries in place.
pub fn reverse_files(files: &mut Vec<File>)
    ensures
        final(files)@ == old(files)@.reverse(),
{
    let ghost orig = files@;
    let mut out: Vec<File> = Vec::new();
    while files.len() > 0
        invariant
            files@ == orig.subrange(0, files@.len() as int),
            out@.len() + files@.len() == orig.len(),
            forall|k: int|
                0 <= k < out@.len() ==> #[trigger] out@[k] == orig[orig.len() - 1 - k],
        decreases files@.len(),
    {
        let x = files.pop().unwrap();
        out.push(x);
    }
    assert(out@ =~= orig.reverse());
    *files = out;
}

/// Sorts by the criterion, then reverses the whole sequence when asked.
pub fn sort_as(files: &mut Vec<File>, c: SortCriteria, reverse: bool)
    ensures
        final(files)@ == sorted_as(old(files)@, c, reverse),
{
    sort_by_criteria(files, c);
    if reverse {
        reverse_files(files);
    }
}

/// Sorts by lowercased name.
pub fn name_sort(dir: &mut Vec<File>)
    ensures
        final(dir)@ == sorted_by(old(dir)@, SortCriteria::Name),
{
    sort_by_criteria(dir, SortCriteria::Name)
}

/// Sorts by creation time.
pub fn create_sort(dir: &mut Vec<File>)
    ensures
        final(dir)@ == sorted_by(old(dir)@, SortCriteria::Created),
{
    sort_by_criteria(dir, SortCriteria::Created)
}

/// Sorts by modification time.
pub fn modified_sort(dir: &mut Vec<File>)
    ensures
        final(dir)@ == sorted_by(old(dir)@, SortCriteria::Modified),
{
    sort_by_criteria(dir, SortCriteria::Modified)
}

/// Sorts by access time.
pub fn accessed_sort(dir: &mut Vec<File>)
    ensures
        final(dir)@ == sorted_by(old(dir)@, SortCriteria::Accessed),
{
    sort_by_criteria(dir, SortCriteria::Accessed)
}

/// Sorts by byte size.
pub fn size_sort(dir: &mut Vec<File>)
    ensures
        final(dir)@ == sorted_by(old(dir)@, SortCriteria::Size),
{
    sort_by_criteria(dir, SortCriteria::Size)
}

} // verus!
