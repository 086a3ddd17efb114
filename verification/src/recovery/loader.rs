use vstd::prelude::*;

use crate::utils::text::{lines_of, text_lines};

verus! {

/// What recovery found on disk: the latest snapshot, if any, and the lines
/// of the write-ahead log.
pub struct LoadedState {
    pub snapshot: Option<Vec<u8>>,
    pub wal_entries: Vec<String>,
}

/// Where recovery reads from.
pub struct Loader {
    pub snapshot_path: String,
    pub wal_path: String,
}

impl Loader {
    pub fn new(snapshot_path: &str, wal_path: &str) -> (l: Self)
        ensures
            l.snapshot_path@ == snapshot_path@,
            l.wal_path@ == wal_path@,
    {
        Loader { snapshot_path: snapshot_path.to_owned(), wal_path: wal_path.to_owned() }
    }

    /// The state that loading yields from what was read: the snapshot bytes
    /// as they are, and the lines of the log text (none when the log could
    /// not be read).
    pub fn loaded_state(snapshot: Option<Vec<u8>>, wal_text: Option<&str>) -> (st: LoadedState)
        ensures
            st.snapshot == snapshot,
            match wal_text {
                Some(t) => {
                    &&& st.wal_entries@.len() == lines_of(t@).len()
                    &&& forall|i: int| 0 <= i < st.wal_entries@.len() ==> #[trigger] st.wal_entries@[i]@ == lines_of(t@)[i]
                },
                None => st.wal_entries@.len() == 0,
            },
    {
        let wal_entries = match wal_text {
            Some(t) => text_lines(t),
            None => Vec::new(),
        };
        LoadedState { snapshot, wal_entries }
    }
}

} // verus!
