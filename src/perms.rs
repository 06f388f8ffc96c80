use vstd::prelude::*;
use crate::kind::{PathDetails, glyph};

verus! {

/// Owner read bit.
pub const S_IRUSR: u16 = 0o400;
/// Owner write bit.
pub const S_IWUSR: u16 = 0o200;
/// Owner execute bit.
pub const S_IXUSR: u16 = 0o100;
/// Group read bit.
pub const S_IRGRP: u16 = 0o040;
/// Group write bit.
pub const S_IWGRP: u16 = 0o020;
/// Group execute bit.
pub const S_IXGRP: u16 = 0o010;
/// Other read bit.
pub const S_IROTH: u16 = 0o004;
/// Other write bit.
pub const S_IWOTH: u16 = 0o002;
/// Other execute bit.
pub const S_IXOTH: u16 = 0o001;

/// `c` when the flag is set, `-` otherwise.
pub open spec fn flag_char(set: bool, c: char) -> char {
    if set {
        c
    } else {
        '-'
    }
}

/// The three-character `rwx` text for one permission class.
pub open spec fn triad(mode: u16, read: u16, write: u16, execute: u16) -> Seq<char> {
    seq![
        flag_char(mode & read != 0, 'r'),
        flag_char(mode & write != 0, 'w'),
        flag_char(mode & execute != 0, 'x'),
    ]
}

/// Type glyph of the first category, then user, group and other triads.
pub open spec fn perms_text(kinds: Seq<PathDetails>, mode: u16) -> Seq<char> {
    seq![glyph(kinds[0])] + triad(mode, S_IRUSR, S_IWUSR, S_IXUSR) + triad(
        mode,
        S_IRGRP,
        S_IWGRP,
        S_IXGRP,
    ) + triad(mode, S_IROTH, S_IWOTH, S_IXOTH)
}

/// Renders one permission class as `rwx`, with `-` for each bit not set.
pub fn mode_to_output_map(mode: u16, read: u16, write: u16, execute: u16) -> (r: String)
    ensures
        r@ == triad(mode, read, write, execute),
{
    let rd = mode & read != 0;
    let wr = mode & write != 0;
    let ex = mode & execute != 0;
    let r = if !rd && !wr && !ex {
        proof { reveal_strlit("---"); }
        String::from_str("---")
    } else if rd && !wr && !ex {
        proof { reveal_strlit("r--"); }
        String::from_str("r--")
    } else if !rd && wr && !ex {
        proof { reveal_strlit("-w-"); }
        String::from_str("-w-")
    } else if !rd && !wr && ex {
        proof { reveal_strlit("--x"); }
        String::from_str("--x")
    } else if rd && !wr && ex {
        proof { reveal_strlit("r-x"); }
        String::from_str("r-x")
    } else if rd && wr && !ex {
        proof { reveal_strlit("rw-"); }
        String::from_str("rw-")
    } else if !rd && wr && ex {
        proof { reveal_strlit("-wx"); }
        String::from_str("-wx")
    } else {
        proof { reveal_strlit("rwx"); }
        String::from_str("rwx")
    };
    assert(r@ =~= triad(mode, read, write, execute));
    r
}

/// The ten-character permission string: the type glyph of the first
/// recorded category followed by the user, group and other triads.
pub fn get_perms(kinds: &Vec<PathDetails>, mode: u16) -> (r: String)
    requires
        kinds@.len() > 0,
    ensures
        r@ == perms_text(kinds@, mode),
        r@.len() == 10,
{
    let g = kinds[0].type_to_char_map();
    let gs = glyph_text(g);
    let user = mode_to_output_map(mode, S_IRUSR, S_IWUSR, S_IXUSR);
    let group = mode_to_output_map(mode, S_IRGRP, S_IWGRP, S_IXGRP);
    let other = mode_to_output_map(mode, S_IROTH, S_IWOTH, S_IXOTH);
    let r = gs.concat(user.as_str()).concat(group.as_str()).concat(other.as_str());
    assert(r@ =~= perms_text(kinds@, mode));
    r
}

/// A one-character string holding a type glyph.
fn glyph_text(c: char) -> (r: String)
    requires
        c == 'd' || c == 'l' || c == 'c' || c == 'b' || c == 's' || c == '-',
    ensures
        r@ == seq![c],
{
    if c == 'd' {
        proof { reveal_strlit("d"); }
        String::from_str("d")
    } else if c == 'l' {
        proof { reveal_strlit("l"); }
        String::from_str("l")
    } else if c == 'c' {
        proof { reveal_strlit("c"); }
        String::from_str("c")
    } else if c == 'b' {
        proof { reveal_strlit("b"); }
        String::from_str("b")
    } else if c == 's' {
        proof { reveal_strlit("s"); }
        String::from_str("s")
    } else {
        proof { reveal_strlit("-"); }
        String::from_str("-")
    }
}

} // verus!
