//! The manifest file: which snapshot and which write-ahead log make up the
//! durable state, written as `snapshot=<path>` and `wal=<path>` lines.

use vstd::prelude::*;

use crate::utils::text::{
    has_prefix, lemma_lines_of_first, lemma_lines_of_single, lemma_without_absent,
    lemma_without_prefix, lines_of, occurs_in, remove_all, starts_with, text_lines, without,
};

verus! {

/// The key of the snapshot line.
pub open spec fn snapshot_key() -> Seq<char> {
    seq!['s', 'n', 'a', 'p', 's', 'h', 'o', 't', '=']
}

/// The key of the log line.
pub open spec fn wal_key() -> Seq<char> {
    seq!['w', 'a', 'l', '=']
}

/// The text of a manifest: the snapshot line (with an empty value when
/// there is no snapshot), a newline, and the log line.
pub open spec fn manifest_text(snapshot: Option<Seq<char>>, wal: Seq<char>) -> Seq<char> {
    snapshot_key() + (match snapshot {
        Some(s) => s,
        None => Seq::<char>::empty(),
    }) + seq!['\n'] + wal_key() + wal
}

/// What one line of a manifest does to the snapshot and log read so far:
/// a snapshot line with a non-empty value sets the snapshot, a log line sets
/// the log, any other line is skipped. The key is taken out of the value
/// wherever it occurs.
pub open spec fn read_line(st: (Option<Seq<char>>, Seq<char>), line: Seq<char>) -> (
    Option<Seq<char>>,
    Seq<char>,
) {
    if starts_with(line, snapshot_key()) {
        let v = without(line, snapshot_key());
        if v.len() == 0 {
            st
        } else {
            (Some(v), st.1)
        }
    } else if starts_with(line, wal_key()) {
        (st.0, without(line, wal_key()))
    } else {
        st
    }
}

/// The snapshot and log named by a sequence of lines, read in order from no
/// snapshot and an empty log.
pub open spec fn read_lines(lines: Seq<Seq<char>>) -> (Option<Seq<char>>, Seq<char>)
    decreases lines.len(),
{
    if lines.len() == 0 {
        (None, Seq::<char>::empty())
    } else {
        read_line(read_lines(lines.drop_last()), lines.last())
    }
}

/// The snapshot and log named by the text of a manifest.
pub open spec fn manifest_of_text(t: Seq<char>) -> (Option<Seq<char>>, Seq<char>) {
    read_lines(lines_of(t))
}

/// Which snapshot and which write-ahead log make up the durable state.
pub struct Manifest {
    pub current_snapshot: Option<String>,
    pub wal_path: String,
}

impl Manifest {
    /// The snapshot path, as characters.
    pub open spec fn snapshot_view(&self) -> Option<Seq<char>> {
        match self.current_snapshot {
            Some(s) => Some(s@),
            None => None,
        }
    }

    /// A manifest with no snapshot yet.
    pub fn new(wal_path: &str) -> (m: Self)
        ensures
            m.current_snapshot is None,
            m.wal_path@ == wal_path@,
    {
        Manifest { current_snapshot: None, wal_path: wal_path.to_owned() }
    }

    /// The text that saving the manifest writes.
    pub fn render(&self) -> (t: String)
        ensures
            t@ == manifest_text(self.snapshot_view(), self.wal_path@),
    {
        proof {
            reveal_strlit("snapshot=");
            reveal_strlit("\nwal=");
        }
        let mut t = "snapshot=".to_owned();
        match &self.current_snapshot {
            Some(s) => t.append(s.as_str()),
            None => {},
        }
        t.append("\nwal=");
        t.append(self.wal_path.as_str());
        assert(seq!['\n'] + wal_key() =~= "\nwal="@);
        assert(t@ =~= manifest_text(self.snapshot_view(), self.wal_path@));
        t
    }

    /// The manifest that a saved text names.
    pub fn parse(content: &str) -> (m: Self)
        ensures
            (m.snapshot_view(), m.wal_path@) == manifest_of_text(content@),
    {
        proof {
            reveal_strlit("snapshot=");
            reveal_strlit("wal=");
        }
        let lines = text_lines(content);
        let ghost all = lines_of(content@);
        let mut snapshot: Option<String> = None;
        let mut wal = String::new();
        let mut i: usize = 0;
        while i < lines.len()
            invariant
                i <= lines@.len(),
                lines@.len() == all.len(),
                forall|k: int| 0 <= k < lines@.len() ==> #[trigger] lines@[k]@ == all[k],
                "snapshot="@ == snapshot_key(),
                "wal="@ == wal_key(),
                (match snapshot {
                    Some(s) => Some(s@),
                    None => None,
                }, wal@) == read_lines(all.take(i as int)),
            decreases lines@.len() - i,
        {
            let line = lines[i].as_str();
            assert(all.take(i + 1).drop_last() =~= all.take(i as int));
            assert(all.take(i + 1).last() == line@);
            if has_prefix(line, "snapshot=") {
                let v = remove_all(line, "snapshot=");
                if !v.as_str().is_empty() {
                    snapshot = Some(v);
                }
            } else if has_prefix(line, "wal=") {
                wal = remove_all(line, "wal=");
            }
            i = i + 1;
        }
        assert(all.take(lines@.len() as int) =~= all);
        Manifest { current_snapshot: snapshot, wal_path: wal }
    }
}

/// What is saved is read back: parsing the text of a manifest gives the same
/// snapshot and log, for paths that hold no line break and no key, and for a
/// snapshot path that is not empty and does not end in a carriage return.
pub proof fn law_parse_reads_back_render(snapshot: Option<Seq<char>>, wal: Seq<char>)
    requires
        !wal.contains('\n'),
        !occurs_in(wal_key(), wal),
        snapshot matches Some(s) ==> {
            &&& s.len() > 0
            &&& !s.contains('\n')
            &&& s.last() != '\r'
            &&& !occurs_in(snapshot_key(), s)
        },
    ensures
        manifest_of_text(manifest_text(snapshot, wal)) == (snapshot, wal),
{
    let s = match snapshot {
        Some(s) => s,
        None => Seq::<char>::empty(),
    };
    let first = snapshot_key() + s;
    let second = wal_key() + wal;
    assert(manifest_text(snapshot, wal) =~= first + seq!['\n'] + second);
    assert(!first.contains('\n')) by {
        if first.contains('\n') {
            let k = choose|k: int| 0 <= k < first.len() && first[k] == '\n';
            if k >= 9 {
                assert(s[k - 9] == '\n');
            }
        }
    }
    assert(first.last() != '\r') by {
        if s.len() > 0 {
            assert(first.last() == s.last());
        }
    }
    lemma_lines_of_first(first, second);
    assert(!second.contains('\n')) by {
        if second.contains('\n') {
            let k = choose|k: int| 0 <= k < second.len() && second[k] == '\n';
            if k >= 4 {
                assert(wal[k - 4] == '\n');
            }
        }
    }
    lemma_lines_of_single(second);
    let lines = seq![first, second];
    assert(lines_of(manifest_text(snapshot, wal)) =~= lines);
    assert(lines.drop_last() =~= seq![first]);
    assert(seq![first].drop_last() =~= Seq::<Seq<char>>::empty());
    assert(first.subrange(0, 9) =~= snapshot_key());
    lemma_without_prefix(snapshot_key(), s);
    if snapshot is Some {
        lemma_without_absent(s, snapshot_key());
    } else {
        assert(without(s, snapshot_key()) =~= s);
    }
    assert(starts_with(first, snapshot_key()));
    assert(without(first, snapshot_key()) == s);
    assert(seq![first].last() == first);
    assert(read_lines(Seq::<Seq<char>>::empty()) == (None::<Seq<char>>, Seq::<char>::empty()));
    assert(read_lines(seq![first]) == (snapshot, Seq::<char>::empty()));
    assert(!starts_with(second, snapshot_key())) by {
        if second.len() >= 9 {
            assert(second.subrange(0, 9)[0] == second[0]);
            assert(snapshot_key()[0] == 's');
        }
    }
    assert(second.subrange(0, 4) =~= wal_key());
    lemma_without_prefix(wal_key(), wal);
    lemma_without_absent(wal, wal_key());
}

} // verus!
