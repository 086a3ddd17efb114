use vstd::prelude::*;

verus! {

/// Clock of the engine: hands out strictly increasing sequence numbers for
/// commands, events and trades, each counter independent of the others.
pub struct Sequencer {
    pub command_seq: u64,
    pub event_seq: u64,
    pub trade_seq: u64,
}

impl Sequencer {
    pub fn new() -> (s: Self)
        ensures
            s.command_seq == 0,
            s.event_seq == 0,
            s.trade_seq == 0,
    {
        Sequencer { command_seq: 0, event_seq: 0, trade_seq: 0 }
    }

    /// Advances the command counter and returns its new value.
    pub fn next_command_seq(&mut self) -> (seq: u64)
        requires
            old(self).command_seq < u64::MAX,
        ensures
            seq == old(self).command_seq + 1,
            final(self).command_seq == seq,
            final(self).event_seq == old(self).event_seq,
            final(self).trade_seq == old(self).trade_seq,
    {
        self.command_seq = self.command_seq + 1;
        self.command_seq
    }

    /// Advances the event counter and returns its new value.
    pub fn next_event_seq(&mut self) -> (seq: u64)
        requires
            old(self).event_seq < u64::MAX,
        ensures
            seq == old(self).event_seq + 1,
            final(self).event_seq == seq,
            final(self).command_seq == old(self).command_seq,
            final(self).trade_seq == old(self).trade_seq,
    {
        self.event_seq = self.event_seq + 1;
        self.event_seq
    }

    /// Advances the trade counter and returns its new value.
    pub fn next_trade_seq(&mut self) -> (seq: u64)
        requires
            old(self).trade_seq < u64::MAX,
        ensures
            seq == old(self).trade_seq + 1,
            final(self).trade_seq == seq,
            final(self).command_seq == old(self).command_seq,
            final(self).event_seq == old(self).event_seq,
    {
        self.trade_seq = self.trade_seq + 1;
        self.trade_seq
    }
}

/// Numbers handed out by successive calls strictly increase: a call after
/// one that returned `first` returns more than `first`.
pub proof fn law_successive_numbers_increase(counter_before: u64, first: u64, second: u64)
    requires
        first == counter_before + 1,
        second == first + 1,
    ensures
        counter_before < first < second,
{
}

} // verus!
