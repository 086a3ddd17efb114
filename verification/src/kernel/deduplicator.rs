use std::collections::HashSet;
use vstd::prelude::*;

use crate::shared::command::{command_key, Command};

verus! {

/// `HashSet::contains` on a set of command ids: whether an id with the same
/// characters is in the set.
#[verifier::external_body]
fn seen_contains(seen: &HashSet<String>, id: &String) -> (b: bool)
    ensures
        b == seen@.map(|s: String| s@).contains(id@),
{
    seen.contains(id)
}

/// `HashSet::insert` on a set of command ids: the set afterwards also holds
/// `id`.
#[verifier::external_body]
fn seen_insert(seen: &mut HashSet<String>, id: String)
    ensures
        final(seen)@.map(|s: String| s@) == old(seen)@.map(|s: String| s@).insert(id@),
{
    seen.insert(id);
}

/// Remembers the idempotency keys of the commands already handled, so that a
/// command delivered twice is executed once.
pub struct Deduplicator {
    seen: HashSet<String>,
}

impl Deduplicator {
    /// The keys seen so far.
    pub closed spec fn seen_keys(&self) -> Set<Seq<char>> {
        self.seen@.map(|s: String| s@)
    }

    pub fn new() -> (d: Self)
        ensures
            d.seen_keys() == Set::<Seq<char>>::empty(),
    {
        let d = Deduplicator { seen: HashSet::new() };
        assert(d.seen_keys() =~= Set::<Seq<char>>::empty());
        d
    }

    /// Whether the command's key was seen before; the key is remembered
    /// either way.
    pub fn already_seen(&mut self, command: &Command) -> (dup: bool)
        ensures
            dup == old(self).seen_keys().contains(command_key(*command)),
            final(self).seen_keys() == old(self).seen_keys().insert(command_key(*command)),
    {
        let id = Self::extract_id(command);
        if seen_contains(&self.seen, &id) {
            assert(self.seen_keys().insert(command_key(*command)) =~= self.seen_keys());
            return true;
        }
        seen_insert(&mut self.seen, id);
        false
    }

    fn extract_id(command: &Command) -> (id: String)
        ensures
            id@ == command_key(*command),
    {
        match command {
            Command::NewOrder(c) => c.command_id.clone(),
            Command::CancelOrder(c) => c.command_id.clone(),
        }
    }
}

/// Once a command has been checked, any later command with the same key is
/// reported as a duplicate.
pub proof fn law_second_delivery_is_duplicate(before: Deduplicator, after: Deduplicator, first: Command, again: Command)
    requires
        after.seen_keys() == before.seen_keys().insert(command_key(first)),
        command_key(again) == command_key(first),
    ensures
        after.seen_keys().contains(command_key(again)),
{
}

/// Checking a command leaves the verdict on every other key unchanged.
pub proof fn law_other_keys_unaffected(before: Deduplicator, after: Deduplicator, checked: Command, other: Seq<char>)
    requires
        after.seen_keys() == before.seen_keys().insert(command_key(checked)),
        other != command_key(checked),
    ensures
        after.seen_keys().contains(other) == before.seen_keys().contains(other),
{
}

/// Commands with different command ids are independent: checking one does
/// not make the other a duplicate.
pub proof fn law_distinct_ids_are_independent(before: Deduplicator, after: Deduplicator, first: Command, second: Command)
    requires
        after.seen_keys() == before.seen_keys().insert(command_key(first)),
        !before.seen_keys().contains(command_key(second)),
        (match first {
            Command::NewOrder(c) => c.command_id@,
            Command::CancelOrder(c) => c.command_id@,
        }) != (match second {
            Command::NewOrder(c) => c.command_id@,
            Command::CancelOrder(c) => c.command_id@,
        }),
    ensures
        !after.seen_keys().contains(command_key(second)),
{
}

} // verus!
