use vstd::prelude::*;
use humansize::FileSize;

verus! {

/// What humansize's `file_size` gives for a byte count under its
/// `CONVENTIONAL` options (base 1024, decimal-style unit names).
pub uninterp spec fn conventional_size(bytes: u64) -> Seq<char>;

/// Relies on `<u64 as humansize::FileSize>::file_size` with
/// `file_size_opts::CONVENTIONAL`, which returns `Ok` for every unsigned value.
#[verifier::external_body]
fn conventional_text(bytes: u64) -> (r: String)
    ensures
        r@ == conventional_size(bytes),
{
    bytes.file_size(humansize::file_size_opts::CONVENTIONAL).unwrap()
}

/// Human-readable size text of a byte count.
pub fn get_size(bytes: u64) -> (r: String)
    ensures
        r@ == conventional_size(bytes),
{
    conventional_text(bytes)
}

} // verus!
