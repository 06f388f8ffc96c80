use vstd::prelude::*;
use crate::kind::{KindFlags, PathDetails, classify};
use crate::perms::{get_perms, perms_text};
use crate::size::{get_size, conventional_size};
use crate::text::{lower_of, lowercase_chars};

verus! {

/// One metadata snapshot of a path, as the OS reported it.
pub struct EntryMeta {
    /// The path as given or as read from its directory.
    pub path: String,
    /// The final component of the path.
    pub name: String,
    pub flags: KindFlags,
    /// Owner name, when the user ID resolved to one.
    pub user_name: Option<String>,
    /// Group name, when the group ID resolved to one.
    pub group_name: Option<String>,
    /// The permission bits of the mode.
    pub mode: u16,
    pub size: u64,
    /// Timestamps in nanoseconds since the Unix epoch.
    pub created_ns: i128,
    pub modified_ns: i128,
    pub accessed_ns: i128,
    /// The timestamps rendered with the configured time format.
    pub created_text: String,
    pub modified_text: String,
    pub accessed_text: String,
}

/// One filesystem entry: its raw metadata for sorting and its display strings.
pub struct File {
    pub path: String,
    pub name: String,
    /// Lowercased characters of `name`, the key of the name order.
    pub name_key: Vec<char>,
    pub file_type: Vec<PathDetails>,
    pub group: String,
    pub user: String,
    pub modified: String,
    pub accessed: String,
    pub created: String,
    pub size: String,
    pub perms: String,
    pub size_bytes: u64,
    pub created_ns: i128,
    pub modified_ns: i128,
    pub accessed_ns: i128,
}

/// A resolved name, or a single blank when the ID did not resolve.
pub open spec fn name_or_blank(n: Option<String>) -> Seq<char> {
    match n {
        Some(s) => s@,
        None => seq![' '],
    }
}

/// Display name of an owner or group: the resolved name, or a single blank.
pub fn get_user(resolved: Option<String>) -> (r: String)
    ensures
        r@ == name_or_blank(resolved),
{
    match resolved {
        Some(s) => s,
        None => {
            proof { reveal_strlit(" "); }
            String::from_str(" ")
        },
    }
}

/// `f` is the entry that the snapshot `m` gives.
pub open spec fn made_from(f: File, m: EntryMeta) -> bool {
    &&& f.path@ == m.path@
    &&& f.name@ == m.name@
    &&& f.name_key@ == lower_of(m.name@)
    &&& f.file_type@ == classify(m.flags)
    &&& f.group@ == name_or_blank(m.group_name)
    &&& f.user@ == name_or_blank(m.user_name)
    &&& f.modified@ == m.modified_text@
    &&& f.accessed@ == m.accessed_text@
    &&& f.created@ == m.created_text@
    &&& f.size@ == conventional_size(m.size)
    &&& f.perms@ == perms_text(classify(m.flags), m.mode)
    &&& f.size_bytes == m.size
    &&& f.created_ns == m.created_ns
    &&& f.modified_ns == m.modified_ns
    &&& f.accessed_ns == m.accessed_ns
}

impl File {
    /// Whether the entry is a directory (its first category is `Directory`).
    pub open spec fn is_dir_spec(&self) -> bool {
        self.file_type@.len() > 0 && self.file_type@[0] == PathDetails::Directory
    }

    pub fn is_dir(&self) -> (r: bool)
        ensures
            r == self.is_dir_spec(),
    {
        self.file_type.len() > 0 && self.file_type[0] == PathDetails::Directory
    }

    /// Builds an entry from a metadata snapshot, rendering every display string once.
    pub fn new(meta: EntryMeta) -> (r: File)
        ensures
            made_from(r, meta),
    {
        let file_type = PathDetails::new(&meta.flags);
        proof {
            crate::kind::lemma_classify_fallback(meta.flags);
        }
        let perms = get_perms(&file_type, meta.mode);
        let name_key = lowercase_chars(meta.name.as_str());
        File {
            path: meta.path,
            name: meta.name,
            name_key,
            file_type,
            group: get_user(meta.group_name),
            user: get_user(meta.user_name),
            modified: meta.modified_text,
            accessed: meta.accessed_text,
            created: meta.created_text,
            size: get_size(meta.size),
            perms,
            size_bytes: meta.size,
            created_ns: meta.created_ns,
            modified_ns: meta.modified_ns,
            accessed_ns: meta.accessed_ns,
        }
    }
}

} // verus!
