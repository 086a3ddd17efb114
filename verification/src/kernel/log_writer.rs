//! The lines of the engine's append-only log: `CMD|<seq>|<command>` for a
//! command and `EVT|<seq>|<event>` for an event, each ended by a newline.

use vstd::prelude::*;

use crate::shared::types::{CommandSeq, EventSeq};
use crate::utils::text::{append_decimal, decimal, lemma_decimal_digits, lemma_lines_of_first, lines_of, starts_with};

verus! {

/// The tag of command lines.
pub open spec fn command_tag() -> Seq<char> {
    seq!['C', 'M', 'D']
}

/// The tag of event lines.
pub open spec fn event_tag() -> Seq<char> {
    seq!['E', 'V', 'T']
}

/// A log record without its final newline: tag, number and body, joined by
/// `|`.
pub open spec fn record(tag: Seq<char>, seq: nat, body: Seq<char>) -> Seq<char> {
    tag + seq!['|'] + decimal(seq) + seq!['|'] + body
}

/// A log line: the record and a newline.
pub open spec fn log_line(tag: Seq<char>, seq: nat, body: Seq<char>) -> Seq<char> {
    record(tag, seq, body) + seq!['\n']
}

/// Appends `|<seq>|<body>` and the final newline.
fn append_rest(t: &mut String, seq: u64, body: &str)
    ensures
        final(t)@ == old(t)@ + seq!['|'] + decimal(seq as nat) + seq!['|'] + body@ + seq!['\n'],
{
    proof {
        reveal_strlit("|");
        reveal_strlit("\n");
    }
    t.append("|");
    append_decimal(t, seq);
    t.append("|");
    t.append(body);
    t.append("\n");
    assert(final(t)@ =~= old(t)@ + seq!['|'] + decimal(seq as nat) + seq!['|'] + body@ + seq!['\n']);
}

/// The log line of a command, given the command's number and its printed
/// form.
pub fn command_line(seq: CommandSeq, body: &str) -> (line: String)
    ensures
        line@ == log_line(command_tag(), seq as nat, body@),
{
    proof {
        reveal_strlit("CMD");
    }
    let mut t = "CMD".to_owned();
    assert(t@ =~= command_tag());
    append_rest(&mut t, seq, body);
    assert(t@ =~= log_line(command_tag(), seq as nat, body@));
    t
}

/// The log line of an event, given the event's number and its printed form.
pub fn event_line(seq: EventSeq, body: &str) -> (line: String)
    ensures
        line@ == log_line(event_tag(), seq as nat, body@),
{
    proof {
        reveal_strlit("EVT");
    }
    let mut t = "EVT".to_owned();
    assert(t@ =~= event_tag());
    append_rest(&mut t, seq, body);
    assert(t@ =~= log_line(event_tag(), seq as nat, body@));
    t
}

/// A command record starts with the command tag, and an event record does
/// not.
pub proof fn law_only_command_records_carry_the_command_tag(seq: nat, body: Seq<char>)
    ensures
        starts_with(record(command_tag(), seq, body), command_tag()),
        !starts_with(record(event_tag(), seq, body), command_tag()),
{
    assert(record(command_tag(), seq, body).subrange(0, 3) =~= command_tag());
    assert(record(event_tag(), seq, body).subrange(0, 3)[0] == 'E');
}

/// The lines of the records, each followed by a newline.
pub open spec fn log_text(records: Seq<Seq<char>>) -> Seq<char>
    decreases records.len(),
{
    if records.len() == 0 {
        Seq::<char>::empty()
    } else {
        records[0] + seq!['\n'] + log_text(records.subrange(1, records.len() as int))
    }
}

/// What the log reads back: the text of appended lines splits into the same
/// records, in the order they were appended, when no record holds a line
/// break or ends in a carriage return.
pub proof fn law_log_reads_back_in_order(records: Seq<Seq<char>>)
    requires
        forall|i: int| 0 <= i < records.len() ==> !(#[trigger] records[i]).contains('\n'),
        forall|i: int|
            0 <= i < records.len() && records[i].len() > 0 ==> (#[trigger] records[i]).last() != '\r',
    ensures
        lines_of(log_text(records)) == records,
    decreases records.len(),
{
    if records.len() > 0 {
        let rest = records.subrange(1, records.len() as int);
        assert forall|i: int| 0 <= i < rest.len() implies !(#[trigger] rest[i]).contains('\n') by {
            assert(rest[i] == records[i + 1]);
        }
        assert forall|i: int| 0 <= i < rest.len() && rest[i].len() > 0 implies (#[trigger] rest[i]).last() != '\r' by {
            assert(rest[i] == records[i + 1]);
        }
        law_log_reads_back_in_order(rest);
        assert(!records[0].contains('\n'));
        lemma_lines_of_first(records[0], log_text(rest));
        assert(seq![records[0]] + rest =~= records);
    } else {
        assert(lines_of(Seq::<char>::empty()) =~= records);
    }
}

/// A record whose body holds no line break and does not end in a carriage
/// return holds none either.
pub proof fn lemma_record_single_line(tag: Seq<char>, seq: nat, body: Seq<char>)
    requires
        !tag.contains('\n'),
        !body.contains('\n'),
        body.len() > 0 ==> body.last() != '\r',
    ensures
        !record(tag, seq, body).contains('\n'),
        record(tag, seq, body).last() != '\r',
{
    lemma_decimal_digits(seq);
    let r = record(tag, seq, body);
    let d = decimal(seq);
    assert(!r.contains('\n')) by {
        if r.contains('\n') {
            let k = choose|k: int| 0 <= k < r.len() && r[k] == '\n';
            if k < tag.len() {
                assert(tag[k] == '\n');
            } else if k == tag.len() {
            } else if k < tag.len() + 1 + d.len() {
                assert(d[k - tag.len() - 1] == '\n');
            } else if k == tag.len() + 1 + d.len() {
            } else {
                assert(body[k - tag.len() - 2 - d.len()] == '\n');
            }
        }
    }
    if body.len() > 0 {
        assert(r.last() == body.last());
    }
}

} // verus!
