//! Sizes used when reading documents: header reads and the pool of ZIP handles.
use vstd::prelude::*;

verus! {

/// Bytes read from the start of a page for a fast look at its metadata.
pub const METADATA_HEADER_SIZE: usize = 8_192;

/// Bytes read from the start of the first page when the fast look found nothing.
pub const INITIAL_METADATA_DEEP_HEADER_SIZE: usize = 131_072;

/// Most ZIP handles kept open for one archive.
pub const ZIP_HANDLE_POOL_MAX: usize = 16;

/// Entry count from which an archive gets more than one handle.
pub const ZIP_HANDLE_POOL_EXPAND_ENTRY_THRESHOLD: usize = 256;

/// `num_cpus::get`: the number of logical cores this process may use.
/// Claimed: at least 1, as the crate documents; the value depends on the machine.
#[verifier::external_body]
fn logical_cpus() -> (r: usize)
    ensures
        r >= 1,
{
    num_cpus::get()
}

/// Handles for an archive of `entry_count` entries on a machine with `cpus` cores: one for
/// a small archive; for a large one, two per core, at least 1 and at most 16.
pub open spec fn pool_size(entry_count: int, cpus: int) -> int {
    if entry_count >= ZIP_HANDLE_POOL_EXPAND_ENTRY_THRESHOLD {
        let doubled = if 2 * cpus > usize::MAX { usize::MAX as int } else { 2 * cpus };
        if doubled < 1 {
            1
        } else if doubled > ZIP_HANDLE_POOL_MAX {
            ZIP_HANDLE_POOL_MAX as int
        } else {
            doubled
        }
    } else {
        1
    }
}

/// The number of ZIP handles for an archive of `entry_count` entries and `cpus` cores.
pub fn handle_pool_size(entry_count: usize, cpus: usize) -> (r: usize)
    ensures
        r == pool_size(entry_count as int, cpus as int),
        1 <= r <= ZIP_HANDLE_POOL_MAX,
{
    if entry_count >= ZIP_HANDLE_POOL_EXPAND_ENTRY_THRESHOLD {
        let doubled: usize = if cpus > usize::MAX / 2 {
            usize::MAX
        } else {
            cpus * 2
        };
        if doubled < 1 {
            1
        } else if doubled > ZIP_HANDLE_POOL_MAX {
            ZIP_HANDLE_POOL_MAX
        } else {
            doubled
        }
    } else {
        1
    }
}

/// The number of ZIP handles for an archive of `entry_count` entries on this machine.
pub fn zip_handle_pool_size(entry_count: usize) -> (r: usize)
    ensures
        exists|cpus: int| cpus >= 1 && r == pool_size(entry_count as int, cpus),
        1 <= r <= ZIP_HANDLE_POOL_MAX,
        entry_count < ZIP_HANDLE_POOL_EXPAND_ENTRY_THRESHOLD ==> r == 1,
{
    let cpus = logical_cpus();
    handle_pool_size(entry_count, cpus)
}

} // verus!
