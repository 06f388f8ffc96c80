use vstd::prelude::*;

verus! {

/// Structural category of a filesystem entry.
#[derive(Clone, Copy, Debug, PartialEq, Eq, Structural)]
pub enum PathDetails {
    Directory,
    Symlink,
    Path,
    Pipe,
    CharDevice,
    BlockDevice,
    Socket,
}

/// The independent link-aware predicates that the OS reports for an entry.
#[derive(Clone, Copy, Debug, PartialEq, Eq, Structural)]
pub struct KindFlags {
    pub is_dir: bool,
    pub is_symlink: bool,
    pub is_fifo: bool,
    pub is_char_device: bool,
    pub is_block_device: bool,
    pub is_socket: bool,
}

/// `Seq` holding `k` when `b` holds, empty otherwise.
pub open spec fn tag_if(b: bool, k: PathDetails) -> Seq<PathDetails> {
    if b {
        seq![k]
    } else {
        Seq::empty()
    }
}

/// Whether any structural predicate matches.
pub open spec fn any_structural(f: KindFlags) -> bool {
    f.is_dir || f.is_symlink || f.is_fifo || f.is_char_device || f.is_block_device || f.is_socket
}

/// Every matching category, in the fixed order directory, symlink, pipe,
/// char device, block device, socket; `Path` alone when none matches.
pub open spec fn classify(f: KindFlags) -> Seq<PathDetails> {
    if any_structural(f) {
        tag_if(f.is_dir, PathDetails::Directory) + tag_if(f.is_symlink, PathDetails::Symlink)
            + tag_if(f.is_fifo, PathDetails::Pipe) + tag_if(
            f.is_char_device,
            PathDetails::CharDevice,
        ) + tag_if(f.is_block_device, PathDetails::BlockDevice) + tag_if(
            f.is_socket,
            PathDetails::Socket,
        )
    } else {
        seq![PathDetails::Path]
    }
}

/// The one-character type glyph of a category.
pub open spec fn glyph(k: PathDetails) -> char {
    match k {
        PathDetails::Directory => 'd',
        PathDetails::Symlink => 'l',
        PathDetails::CharDevice => 'c',
        PathDetails::BlockDevice => 'b',
        PathDetails::Socket => 's',
        _ => '-',
    }
}

impl PathDetails {
    /// Collects every category that the predicates give, falling back to `Path`.
    pub fn new(flags: &KindFlags) -> (r: Vec<PathDetails>)
        ensures
            r@ == classify(*flags),
    {
        let mut r: Vec<PathDetails> = Vec::new();
        if flags.is_dir {
            r.push(PathDetails::Directory);
        }
        if flags.is_symlink {
            r.push(PathDetails::Symlink);
        }
        if flags.is_fifo {
            r.push(PathDetails::Pipe);
        }
        if flags.is_char_device {
            r.push(PathDetails::CharDevice);
        }
        if flags.is_block_device {
            r.push(PathDetails::BlockDevice);
        }
        if flags.is_socket {
            r.push(PathDetails::Socket);
        }
        if r.len() == 0 {
            r.push(PathDetails::Path);
        }
        assert(r@ =~= classify(*flags));
        r
    }

    /// The type glyph used as the first character of a permission string.
    pub fn type_to_char_map(&self) -> (r: char)
        ensures
            r == glyph(*self),
    {
        match self {
            PathDetails::Directory => 'd',
            PathDetails::Symlink => 'l',
            PathDetails::CharDevice => 'c',
            PathDetails::BlockDevice => 'b',
            PathDetails::Socket => 's',
            _ => '-',
        }
    }
}

/// Classification is never empty, and it holds the fallback `Path` tag,
/// exactly once, precisely when no structural predicate matches.
pub proof fn lemma_classify_fallback(f: KindFlags)
    ensures
        classify(f).len() > 0,
        classify(f).contains(PathDetails::Path) <==> !any_structural(f),
        !any_structural(f) ==> classify(f) == seq![PathDetails::Path],
{
    let s = classify(f);
    if any_structural(f) {
        assert forall|i: int| 0 <= i < s.len() implies s[i] != PathDetails::Path by {
        }
    } else {
        assert(s[0] == PathDetails::Path);
    }
}

} // verus!
