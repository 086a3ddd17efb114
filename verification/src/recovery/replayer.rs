use vstd::prelude::*;

use crate::domain::matching::MatchingEngine;
use crate::shared::command::Command;
use crate::shared::event::EventEnvelope;
use crate::kernel::log_writer::command_tag;
use crate::utils::text::{has_prefix, starts_with};

verus! {

/// Whether a log line records a command: it starts with `CMD`.
pub open spec fn is_command_line(line: Seq<char>) -> bool {
    starts_with(line, command_tag())
}

fn starts_with_cmd(line: &String) -> (b: bool)
    ensures
        b == is_command_line(line@),
{
    proof {
        reveal_strlit("CMD");
    }
    assert("CMD"@ =~= command_tag());
    has_prefix(line.as_str(), "CMD")
}

/// Rebuilds engine state from write-ahead log lines.
pub struct Replayer;

impl Replayer {
    /// Re-applies every command line that parses. No line format is
    /// recognised yet, so the engine is left as it was.
    pub fn replay(engine: &mut MatchingEngine, wal_entries: Vec<String>)
        ensures
            final(engine).book.bid_levels() == old(engine).book.bid_levels(),
            final(engine).book.ask_levels() == old(engine).book.ask_levels(),
    {
        let mut i: usize = 0;
        while i < wal_entries.len()
            invariant
                i <= wal_entries.len(),
                engine.book.bid_levels() == old(engine).book.bid_levels(),
                engine.book.ask_levels() == old(engine).book.ask_levels(),
            decreases wal_entries.len() - i,
        {
            let entry = &wal_entries[i];
            if starts_with_cmd(entry) {
                if let Some(cmd) = Self::parse_command(entry) {
                    engine.process_replay(cmd);
                }
            }
            i = i + 1;
        }
    }

    /// Reads a command back from a log line; no format is recognised yet.
    fn parse_command(_line: &String) -> (r: Option<Command>)
        ensures
            r is None,
    {
        None
    }

    /// Reads an event back from a log line; no format is recognised yet.
    #[allow(dead_code)]
    fn parse_event(_line: &String) -> (r: Option<EventEnvelope>)
        ensures
            r is None,
    {
        None
    }
}

} // verus!
