//! Log lines in one consistent style: `[HH:MM:SS] [LEVEL]  message`.

use vstd::prelude::*;
use vstd::string::*;

verus! {

/// Severity of a log line.
#[derive(Clone, Copy, Debug, PartialEq, Eq, Structural)]
pub enum Level {
    Info,
    Success,
    Warn,
    Error,
    Action,
}

impl Level {
    /// The five-character tag that a log line shows for this level.
    pub open spec fn tag_text(self) -> Seq<char> {
        match self {
            Level::Info => "INFO "@,
            Level::Success => "OK   "@,
            Level::Warn => "WARN "@,
            Level::Error => "ERROR"@,
            Level::Action => "-->  "@,
        }
    }

    /// Returns the tag of this level.
    pub fn tag(self) -> (res: &'static str)
        ensures
            res@ == self.tag_text(),
    {
        match self {
            Level::Info => "INFO ",
            Level::Success => "OK   ",
            Level::Warn => "WARN ",
            Level::Error => "ERROR",
            Level::Action => "-->  ",
        }
    }
}

/// A log line: the time and the tag in brackets, two spaces, the message, a line feed.
pub open spec fn line(time: Seq<char>, tag: Seq<char>, message: Seq<char>) -> Seq<char> {
    "["@ + time + "] ["@ + tag + "]  "@ + message + "\n"@
}

fn tagged_line(timestamp: &str, tag: &str, message: &str) -> (res: String)
    ensures
        res@ == line(timestamp@, tag@, message@),
{
    let mut res = "[".to_owned();
    res.append(timestamp);
    res.append("] [");
    res.append(tag);
    res.append("]  ");
    res.append(message);
    res.append("\n");
    res
}

/// The log line of a message at this level and time.
pub fn emit(timestamp: &str, level: Level, message: &str) -> (res: String)
    ensures
        res@ == line(timestamp@, level.tag_text(), message@),
{
    tagged_line(timestamp, level.tag(), message)
}

/// The log line of a trading event.
pub fn log_trading_event(timestamp: &str, event: &str) -> (res: String)
    ensures
        res@ == line(timestamp@, "EVENT"@, event@),
{
    tagged_line(timestamp, "EVENT", event)
}

/// A line of the trading history: the moment in brackets, a space, the event, a line feed.
pub fn history_line(timestamp: &str, event: &str) -> (res: String)
    ensures
        res@ == "["@ + timestamp@ + "] "@ + event@ + "\n"@,
{
    let mut res = "[".to_owned();
    res.append(timestamp);
    res.append("] ");
    res.append(event);
    res.append("\n");
    res
}

/// A log line shows the time and the tag of its level in brackets, then its message; the tags
/// are five characters each.
pub proof fn law_how_a_log_line_looks(time: Seq<char>, tag: Seq<char>, message: Seq<char>)
    ensures
        line(time, tag, message) == "["@ + time + "] ["@ + tag + "]  "@ + message + "\n"@,
        Level::Info.tag_text() == "INFO "@,
        Level::Success.tag_text() == "OK   "@,
        Level::Warn.tag_text() == "WARN "@,
        Level::Error.tag_text() == "ERROR"@,
        Level::Action.tag_text() == "-->  "@,
{
}

} // verus!
