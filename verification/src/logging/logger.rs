//! A named handle on the log channel, and the rendering of one log line.

use crate::channel::deliver;
use crate::logging::common::{foreground_code, reset_code, ConsoleColor, LogItem, LogItemType};
use crate::text::with_error_text;
use std::sync::mpsc::Sender;
use vstd::prelude::*;
use vstd::string::StringExecFns;

verus! {

/// A named handle on the log channel.
pub struct Logger {
    name: String,
    sender: Sender<LogItem>,
}

/// What `log` answers once the channel has accepted or refused the item.
pub open spec fn log_outcome(accepted: bool) -> Result<(), Seq<char>> {
    if accepted {
        Ok(())
    } else {
        Err("Could not write to log."@)
    }
}

impl Logger {
    /// The name that this logger stamps on its items.
    pub closed spec fn name(&self) -> Seq<char> {
        self.name@
    }

    /// The sending end on which this logger sends.
    pub closed spec fn channel(&self) -> Sender<LogItem> {
        self.sender
    }

    /// A logger that sends on `sender` under `name`.
    pub fn create(name: String, sender: Sender<LogItem>) -> (logger: Logger)
        ensures
            logger.name() == name@,
            logger.channel() == sender,
    {
        Logger { name, sender }
    }

    /// A logger on the same channel under another name.
    pub fn create_from(&self, name: String) -> (logger: Logger)
        ensures
            logger.name() == name@,
    {
        Logger { name, sender: self.sender.clone() }
    }

    /// The answer to a log call, given whether the channel took the item.
    pub fn outcome(accepted: bool) -> (result: Result<(), &'static str>)
        ensures
            with_error_text(result) == log_outcome(accepted),
    {
        if accepted {
            Ok(())
        } else {
            Err("Could not write to log.")
        }
    }

    /// Hands `item` to the log channel. Whether the channel takes it depends
    /// on its receiver alone; the answer is `outcome` of that.
    pub fn log(&self, item: LogItem) -> (result: Result<(), &'static str>)
        ensures
            exists|accepted: bool| with_error_text(result) == #[trigger] log_outcome(accepted),
    {
        let accepted = deliver(&self.sender, item);
        let result = Logger::outcome(accepted);
        assert(with_error_text(result) == log_outcome(accepted));
        result
    }

    /// Logs `message` under this logger's name at the information level.
    pub fn log_info(&self, message: String) -> (result: Result<(), &'static str>)
        ensures
            exists|accepted: bool| with_error_text(result) == #[trigger] log_outcome(accepted),
    {
        self.log(LogItem::info(self.name.clone(), message))
    }

    /// Logs `message` under this logger's name at the success level.
    pub fn log_success(&self, message: String) -> (result: Result<(), &'static str>)
        ensures
            exists|accepted: bool| with_error_text(result) == #[trigger] log_outcome(accepted),
    {
        self.log(LogItem::success(self.name.clone(), message))
    }

    /// Logs `message` under this logger's name at the error level.
    pub fn log_error(&self, message: String) -> (result: Result<(), &'static str>)
        ensures
            exists|accepted: bool| with_error_text(result) == #[trigger] log_outcome(accepted),
    {
        self.log(LogItem::error(self.name.clone(), message))
    }

    /// Logs `message` under this logger's name at the warning level.
    pub fn log_warning(&self, message: String) -> (result: Result<(), &'static str>)
        ensures
            exists|accepted: bool| with_error_text(result) == #[trigger] log_outcome(accepted),
    {
        self.log(LogItem::warning(self.name.clone(), message))
    }

    /// Logs `message` under this logger's name at the debug level.
    pub fn log_debug(&self, message: String) -> (result: Result<(), &'static str>)
        ensures
            exists|accepted: bool| with_error_text(result) == #[trigger] log_outcome(accepted),
    {
        self.log(LogItem::debug(self.name.clone(), message))
    }
}

/// The handle from which the stages get their loggers.
pub struct Log {
    sender: Sender<LogItem>,
}

impl Log {
    /// The sending end of the log channel.
    pub closed spec fn channel(&self) -> Sender<LogItem> {
        self.sender
    }

    /// A handle on the log channel that `sender` feeds.
    pub fn attach(sender: Sender<LogItem>) -> (log: Log)
        ensures
            log.channel() == sender,
    {
        Log { sender }
    }

    /// A logger on this log's channel under `name`.
    pub fn get_logger(&self, name: String) -> (logger: Logger)
        ensures
            logger.name() == name@,
    {
        Logger { name, sender: self.sender.clone() }
    }

    /// The two items with which a log announces itself.
    pub fn announce(&self) {
        let _ = deliver(
            &self.sender,
            LogItem::info(String::from_str("Logger"), String::from_str("Starting log")),
        );
        let _ = deliver(
            &self.sender,
            LogItem::success(String::from_str("Log"), String::from_str("Log started")),
        );
    }
}

/// The colour in which a level is printed.
pub open spec fn level_color(item_type: LogItemType) -> ConsoleColor {
    match item_type {
        LogItemType::Information => ConsoleColor::WhiteBright,
        LogItemType::Success => ConsoleColor::Green,
        LogItemType::Error => ConsoleColor::Red,
        LogItemType::Warning => ConsoleColor::Yellow,
        LogItemType::Trace => ConsoleColor::BlackBright,
        LogItemType::Debug => ConsoleColor::Magenta,
    }
}

/// The six-character tag under which a level is printed.
pub open spec fn level_tag(item_type: LogItemType) -> Seq<char> {
    match item_type {
        LogItemType::Information => "info  "@,
        LogItemType::Success => "ok    "@,
        LogItemType::Error => "error "@,
        LogItemType::Warning => "warn  "@,
        LogItemType::Trace => "debug "@,
        LogItemType::Debug => "trace "@,
    }
}

/// One printed log line: the level's colour, the bracketed time and tag, the
/// sender and the message, a line end, and the colour reset.
pub open spec fn rendered_line(timestamp: Seq<char>, item: crate::logging::common::LogItemView) -> Seq<
    char,
> {
    foreground_code(level_color(item.item_type)) + "["@ + timestamp + " "@ + level_tag(
        item.item_type,
    ) + "] "@ + item.from + " - "@ + item.message + "\n"@ + reset_code()
}

/// The colour and tag of a level.
pub fn level_style(item_type: LogItemType) -> (style: (ConsoleColor, &'static str))
    ensures
        style.0 == level_color(item_type),
        style.1@ == level_tag(item_type),
{
    match item_type {
        LogItemType::Information => (ConsoleColor::WhiteBright, "info  "),
        LogItemType::Success => (ConsoleColor::Green, "ok    "),
        LogItemType::Error => (ConsoleColor::Red, "error "),
        LogItemType::Warning => (ConsoleColor::Yellow, "warn  "),
        LogItemType::Trace => (ConsoleColor::BlackBright, "debug "),
        LogItemType::Debug => (ConsoleColor::Magenta, "trace "),
    }
}

/// `chrono::Utc::now`, written as date and time of day to the millisecond.
/// The text depends on the clock alone, so nothing is promised of it. The
/// call fails only on a machine whose clock stands before 1970.
#[verifier::external_body]
fn timestamp() -> (text: String) {
    chrono::Utc::now().format("%F %H:%M:%S%.3f").to_string()
}

/// The text to print for `item`, stamped with the current time.
pub fn render_now(item: &LogItem) -> (line: String)
    ensures
        exists|stamp: Seq<char>| line@ == #[trigger] rendered_line(stamp, item@),
{
    let stamp = timestamp();
    let line = render(stamp.as_str(), item);
    assert(line@ == rendered_line(stamp@, item@));
    line
}

/// The text to print for `item`, stamped with `timestamp`.
pub fn render(timestamp: &str, item: &LogItem) -> (line: String)
    ensures
        line@ == rendered_line(timestamp@, item@),
{
    let (color, tag) = level_style(item.item_type);
    let mut line = String::from_str(color.get_foreground_color());
    line.append("[");
    line.append(timestamp);
    line.append(" ");
    line.append(tag);
    line.append("] ");
    line.append(item.from.as_str());
    line.append(" - ");
    line.append(item.message.as_str());
    line.append("\n");
    line.append(ConsoleColor::reset_color());
    line
}

} // verus!
