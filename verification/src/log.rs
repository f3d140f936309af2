//! The lines of the diagnostic log.
use crate::naming::{chrono_format, Moment};
use crate::text::joined;
use vstd::prelude::*;
use vstd::string::StringExecFns;

verus! {

/// A message as it stands in the log.
pub open spec fn logged(moment: Moment, millisecond: nat, message: Seq<char>) -> Seq<char> {
    (moment.clock(millisecond).push(' ') + message).push('\n')
}

/// The line of the log for a message: when it was written, to the millisecond, and the message.
pub fn log_line(moment: Moment, millisecond: u32, message: &str) -> (line: String)
    requires
        moment.exists_in_calendar(),
        millisecond < 1000,
    ensures
        line@ == moment.clock(millisecond as nat) + seq![' '] + message@ + seq!['\n'],
        line@ == logged(moment, millisecond as nat, message@),
{
    proof {
        reveal_strlit(" ");
        reveal_strlit("\n");
    }
    match chrono_format(moment, millisecond, "%Y-%m-%d %H:%M:%S%.3f") {
        Some(clock) => {
            let mut line: String = joined(clock.as_str(), " ");
            line.append(message);
            line.append("\n");
            assert(line@ =~= moment.clock(millisecond as nat) + seq![' '] + message@ + seq!['\n']);
            assert(line@ =~= logged(moment, millisecond as nat, message@));
            line
        },
        None => vstd::pervasive::unreached(),
    }
}

/// A line of the log is the clock, a space, the whole message and the end of the line.
pub proof fn law_lines_hold_the_whole_message(moment: Moment, millisecond: nat, message: Seq<char>)
    ensures
        ({
            let line = logged(moment, millisecond, message);
            let clock = moment.clock(millisecond);
            &&& line.len() == clock.len() + message.len() + 2
            &&& line.take(clock.len() as int) == clock
            &&& line[clock.len() as int] == ' '
            &&& line.subrange(clock.len() as int + 1, line.len() - 1) == message
            &&& line.last() == '\n'
        }),
{
    let line = logged(moment, millisecond, message);
    let clock = moment.clock(millisecond);
    assert(line.take(clock.len() as int) =~= clock);
    assert(line.subrange(clock.len() as int + 1, line.len() - 1) =~= message);
}

} // verus!
