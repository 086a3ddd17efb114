//! Where snapshots are written: one file per snapshot, named by the second
//! at which it was taken.

use vstd::prelude::*;

use crate::utils::text::{append_decimal, decimal};

verus! {

/// The file of the snapshot taken at second `ts` under `base`:
/// `<base>/snapshot-<ts>.bin`.
pub open spec fn snapshot_file(base: Seq<char>, ts: nat) -> Seq<char> {
    base + seq!['/', 's', 'n', 'a', 'p', 's', 'h', 'o', 't', '-'] + decimal(ts) + seq![
        '.',
        'b',
        'i',
        'n',
    ]
}

/// The path a snapshot taken at second `ts` is saved to.
pub fn snapshot_path(base_path: &str, ts: u64) -> (path: String)
    ensures
        path@ == snapshot_file(base_path@, ts as nat),
{
    proof {
        reveal_strlit("/snapshot-");
        reveal_strlit(".bin");
    }
    let mut path = base_path.to_owned();
    path.append("/snapshot-");
    append_decimal(&mut path, ts);
    path.append(".bin");
    assert(path@ =~= snapshot_file(base_path@, ts as nat));
    path
}

} // verus!
