use vstd::prelude::*;

use super::deduplicator::Deduplicator;
use super::sequencer::Sequencer;
use crate::domain::matching::{command_applied, command_events, MatchingEngine};
use crate::shared::command::{command_key, Command};
use crate::shared::event::EventEnvelope;
use crate::shared::types::CommandSeq;
use crate::utils::time::now;

verus! {

/// What the engine decided for one command: the sequence number it is
/// logged under and the events it gave, in emission order, each already
/// numbered and stamped.
pub struct Decision {
    pub command_seq: CommandSeq,
    pub envelopes: Vec<EventEnvelope>,
}

/// The engine's state: it takes commands one at a time, in total order,
/// and decides deterministically (but for time stamps) what each yields.
/// Logging the decision and emitting the events is the caller's part.
pub struct Engine {
    pub sequencer: Sequencer,
    pub dedup: Deduplicator,
    pub matching: MatchingEngine,
}

impl Engine {
    /// Every command that got a number had a key not seen before, and every
    /// key seen got a number: the count of numbered commands is the count of
    /// distinct keys.
    pub open spec fn numbered_once_per_key(&self) -> bool {
        &&& self.dedup.seen_keys().finite()
        &&& self.sequencer.command_seq == self.dedup.seen_keys().len()
    }

    pub fn new() -> (e: Self)
        ensures
            e.numbered_once_per_key(),
            e.sequencer.command_seq == 0,
            e.sequencer.event_seq == 0,
            e.sequencer.trade_seq == 0,
            e.dedup.seen_keys() == Set::<Seq<char>>::empty(),
            e.matching.book.bid_levels() == Map::<u64, Seq<crate::domain::order::Order>>::empty(),
            e.matching.book.ask_levels() == Map::<u64, Seq<crate::domain::order::Order>>::empty(),
    {
        Engine { sequencer: Sequencer::new(), dedup: Deduplicator::new(), matching: MatchingEngine::new() }
    }

    /// Accepts one command: a command whose key was seen before is skipped
    /// (`None`); otherwise its key is marked seen and it gets the next
    /// command number, under which the caller logs it before applying it.
    pub fn accept(&mut self, command: &Command) -> (r: Option<CommandSeq>)
        requires
            old(self).sequencer.command_seq < u64::MAX,
        ensures
            old(self).numbered_once_per_key() ==> final(self).numbered_once_per_key(),
            final(self).dedup.seen_keys() == old(self).dedup.seen_keys().insert(command_key(*command)),
            final(self).matching == old(self).matching,
            final(self).sequencer.event_seq == old(self).sequencer.event_seq,
            final(self).sequencer.trade_seq == old(self).sequencer.trade_seq,
            old(self).dedup.seen_keys().contains(command_key(*command)) ==> r is None
                && final(self).sequencer == old(self).sequencer,
            !old(self).dedup.seen_keys().contains(command_key(*command)) ==> r == Some(
                (old(self).sequencer.command_seq + 1) as CommandSeq,
            ) && final(self).sequencer.command_seq == old(self).sequencer.command_seq + 1,
    {
        if self.dedup.already_seen(command) {
            return None;
        }
        Some(self.sequencer.next_command_seq())
    }

    /// Applies an accepted command to the book; each resulting event gets
    /// the next event number, the command's number and a time stamp.
    pub fn apply(&mut self, command_seq: CommandSeq, command: Command) -> (envelopes: Vec<EventEnvelope>)
        requires
            old(self).sequencer.event_seq < u64::MAX,
        ensures
            final(self).dedup == old(self).dedup,
            final(self).sequencer.command_seq == old(self).sequencer.command_seq,
            final(self).sequencer.trade_seq == old(self).sequencer.trade_seq,
            command_applied(old(self).matching.book, final(self).matching.book, command),
            ({
                let events = command_events(command);
                &&& envelopes@.len() == events.len()
                &&& final(self).sequencer.event_seq == old(self).sequencer.event_seq + events.len()
                &&& forall|i: int|
                    0 <= i < events.len() ==> {
                        &&& #[trigger] envelopes@[i].event == events[i]
                        &&& envelopes@[i].event_seq == old(self).sequencer.event_seq + 1 + i
                        &&& envelopes@[i].command_seq == command_seq
                    }
            }),
    {
        let ghost events_spec = command_events(command);
        let ghost cmd = command;
        let ghost book0 = old(self).matching.book;
        let mut events = self.matching.process(command_seq, command);
        let mut envelopes: Vec<EventEnvelope> = Vec::new();
        let ghost seq0 = self.sequencer.event_seq;
        while events.len() > 0
            invariant
                self.dedup == old(self).dedup,
                command_applied(book0, self.matching.book, cmd),
                self.sequencer.command_seq == old(self).sequencer.command_seq,
                self.sequencer.trade_seq == old(self).sequencer.trade_seq,
                events_spec.len() <= 1,
                envelopes@.len() + events@.len() == events_spec.len(),
                events@ == events_spec.subrange(envelopes@.len() as int, events_spec.len() as int),
                self.sequencer.event_seq == seq0 + envelopes@.len(),
                seq0 < u64::MAX,
                forall|i: int|
                    0 <= i < envelopes@.len() ==> {
                        &&& #[trigger] envelopes@[i].event == events_spec[i]
                        &&& envelopes@[i].event_seq == seq0 + 1 + i
                        &&& envelopes@[i].command_seq == command_seq
                    },
            decreases events@.len(),
        {
            let event = events.remove(0);
            let event_seq = self.sequencer.next_event_seq();
            let envelope = EventEnvelope { event_seq, command_seq, timestamp: now(), event };
            envelopes.push(envelope);
        }
        envelopes
    }

    /// Handles one command: a command whose key was seen before is skipped
    /// (`None`); otherwise it gets the next command number, is applied to
    /// the book, and each resulting event gets the next event number.
    pub fn handle(&mut self, command: Command) -> (r: Option<Decision>)
        requires
            old(self).sequencer.command_seq < u64::MAX,
            old(self).sequencer.event_seq < u64::MAX,
        ensures
            old(self).numbered_once_per_key() ==> final(self).numbered_once_per_key(),
            final(self).dedup.seen_keys() == old(self).dedup.seen_keys().insert(command_key(command)),
            final(self).sequencer.trade_seq == old(self).sequencer.trade_seq,
            old(self).dedup.seen_keys().contains(command_key(command)) ==> {
                &&& r is None
                &&& final(self).sequencer == old(self).sequencer
                &&& final(self).matching.book.bid_levels() == old(self).matching.book.bid_levels()
                &&& final(self).matching.book.ask_levels() == old(self).matching.book.ask_levels()
            },
            !old(self).dedup.seen_keys().contains(command_key(command)) ==> (r matches Some(d) && {
                let events = command_events(command);
                &&& d.command_seq == old(self).sequencer.command_seq + 1
                &&& final(self).sequencer.command_seq == d.command_seq
                &&& command_applied(old(self).matching.book, final(self).matching.book, command)
                &&& d.envelopes@.len() == events.len()
                &&& final(self).sequencer.event_seq == old(self).sequencer.event_seq + events.len()
                &&& forall|i: int|
                    0 <= i < events.len() ==> {
                        &&& #[trigger] d.envelopes@[i].event == events[i]
                        &&& d.envelopes@[i].event_seq == old(self).sequencer.event_seq + 1 + i
                        &&& d.envelopes@[i].command_seq == d.command_seq
                    }
            }),
    {
        match self.accept(&command) {
            None => None,
            Some(command_seq) => {
                let envelopes = self.apply(command_seq, command);
                Some(Decision { command_seq, envelopes })
            },
        }
    }
}

} // verus!
