//! What a log line holds and how its level is coloured.

use vstd::prelude::*;

verus! {

/// One entry for the log: who says it, what is said, and at which level.
#[derive(Clone, Debug, PartialEq, Eq)]
pub struct LogItem {
    pub from: String,
    pub message: String,
    pub item_type: LogItemType,
}

/// The levels of the log.
#[derive(Clone, Copy, Debug, PartialEq, Eq, Structural)]
pub enum LogItemType {
    Information,
    Success,
    Error,
    Warning,
    Trace,
    Debug,
}

/// The sixteen console colours.
#[derive(Clone, Copy, Debug, PartialEq, Eq, Structural)]
pub enum ConsoleColor {
    Black,
    BlackBright,
    Red,
    RedBright,
    Green,
    GreenBright,
    Yellow,
    YellowBright,
    Blue,
    BlueBright,
    Magenta,
    MagentaBright,
    Cyan,
    CyanBright,
    White,
    WhiteBright,
}

/// A log item with its text as characters.
pub struct LogItemView {
    pub from: Seq<char>,
    pub message: Seq<char>,
    pub item_type: LogItemType,
}

impl View for LogItem {
    type V = LogItemView;

    open spec fn view(&self) -> LogItemView {
        LogItemView { from: self.from@, message: self.message@, item_type: self.item_type }
    }
}

/// A log item of the given level.
pub fn create_item(from: String, message: String, item_type: LogItemType) -> (item: LogItem)
    ensures
        item@ == (LogItemView { from: from@, message: message@, item_type }),
{
    LogItem { from, message, item_type }
}

impl LogItem {
    /// A log item of the given level.
    pub fn create(from: String, message: String, item_type: LogItemType) -> (item: LogItem)
        ensures
            item@ == (LogItemView { from: from@, message: message@, item_type }),
    {
        LogItem { from, message, item_type }
    }

    /// An item at the information level.
    pub fn info(from: String, message: String) -> (item: LogItem)
        ensures
            item@ == (LogItemView {
                from: from@,
                message: message@,
                item_type: LogItemType::Information,
            }),
    {
        LogItem::create(from, message, LogItemType::Information)
    }

    /// An item at the success level.
    pub fn success(from: String, message: String) -> (item: LogItem)
        ensures
            item@ == (LogItemView {
                from: from@,
                message: message@,
                item_type: LogItemType::Success,
            }),
    {
        LogItem::create(from, message, LogItemType::Success)
    }

    /// An item at the error level.
    pub fn error(from: String, message: String) -> (item: LogItem)
        ensures
            item@ == (LogItemView {
                from: from@,
                message: message@,
                item_type: LogItemType::Error,
            }),
    {
        LogItem::create(from, message, LogItemType::Error)
    }

    /// An item at the warning level.
    pub fn warning(from: String, message: String) -> (item: LogItem)
        ensures
            item@ == (LogItemView {
                from: from@,
                message: message@,
                item_type: LogItemType::Warning,
            }),
    {
        LogItem::create(from, message, LogItemType::Warning)
    }

    /// An item at the trace level.
    pub fn trace(from: String, message: String) -> (item: LogItem)
        ensures
            item@ == (LogItemView {
                from: from@,
                message: message@,
                item_type: LogItemType::Trace,
            }),
    {
        LogItem::create(from, message, LogItemType::Trace)
    }

    /// An item at the debug level.
    pub fn debug(from: String, message: String) -> (item: LogItem)
        ensures
            item@ == (LogItemView {
                from: from@,
                message: message@,
                item_type: LogItemType::Debug,
            }),
    {
        LogItem::create(from, message, LogItemType::Debug)
    }
}

/// The escape sequence that switches the console's text to `color`.
pub open spec fn foreground_code(color: ConsoleColor) -> Seq<char> {
    match color {
        ConsoleColor::Black => "\x1B[30m"@,
        ConsoleColor::BlackBright => "\x1B[30;1m"@,
        ConsoleColor::Red => "\x1B[31m"@,
        ConsoleColor::RedBright => "\x1B[31;1m"@,
        ConsoleColor::Green => "\x1B[32m"@,
        ConsoleColor::GreenBright => "\x1B[32;1m"@,
        ConsoleColor::Yellow => "\x1B[33m"@,
        ConsoleColor::YellowBright => "\x1B[33;1m"@,
        ConsoleColor::Blue => "\x1B[34m"@,
        ConsoleColor::BlueBright => "\x1B[34;1m"@,
        ConsoleColor::Magenta => "\x1B[35m"@,
        ConsoleColor::MagentaBright => "\x1B[35;1m"@,
        ConsoleColor::Cyan => "\x1B[36m"@,
        ConsoleColor::CyanBright => "\x1B[36m;1m"@,
        ConsoleColor::White => "\x1B[37m"@,
        ConsoleColor::WhiteBright => "\x1B[37;1m"@,
    }
}

/// The escape sequence that switches the console's background to `color`.
pub open spec fn background_code(color: ConsoleColor) -> Seq<char> {
    match color {
        ConsoleColor::Black => "\x1B[40m"@,
        ConsoleColor::BlackBright => "\x1B[40;1m"@,
        ConsoleColor::Red => "\x1B[41m"@,
        ConsoleColor::RedBright => "\x1B[41;1m"@,
        ConsoleColor::Green => "\x1B[42m"@,
        ConsoleColor::GreenBright => "\x1B[42;1m"@,
        ConsoleColor::Yellow => "\x1B[43m"@,
        ConsoleColor::YellowBright => "\x1B[43;1m"@,
        ConsoleColor::Blue => "\x1B[44m"@,
        ConsoleColor::BlueBright => "\x1B[44;1m"@,
        ConsoleColor::Magenta => "\x1B[45m"@,
        ConsoleColor::MagentaBright => "\x1B[45;1m"@,
        ConsoleColor::Cyan => "\x1B[46m"@,
        ConsoleColor::CyanBright => "\x1B[46m;1m"@,
        ConsoleColor::White => "\x1B[47m"@,
        ConsoleColor::WhiteBright => "\x1B[47;1m"@,
    }
}

/// The escape sequence that restores the console's default colours.
pub open spec fn reset_code() -> Seq<char> {
    "\x1B[0m"@
}

impl ConsoleColor {
    /// The escape sequence that sets this colour for the text.
    pub fn get_foreground_color(&self) -> (code: &'static str)
        ensures
            code@ == foreground_code(*self),
    {
        match self {
            ConsoleColor::Black => "\x1B[30m",
            ConsoleColor::BlackBright => "\x1B[30;1m",
            ConsoleColor::Red => "\x1B[31m",
            ConsoleColor::RedBright => "\x1B[31;1m",
            ConsoleColor::Green => "\x1B[32m",
            ConsoleColor::GreenBright => "\x1B[32;1m",
            ConsoleColor::Yellow => "\x1B[33m",
            ConsoleColor::YellowBright => "\x1B[33;1m",
            ConsoleColor::Blue => "\x1B[34m",
            ConsoleColor::BlueBright => "\x1B[34;1m",
            ConsoleColor::Magenta => "\x1B[35m",
            ConsoleColor::MagentaBright => "\x1B[35;1m",
            ConsoleColor::Cyan => "\x1B[36m",
            ConsoleColor::CyanBright => "\x1B[36m;1m",
            ConsoleColor::White => "\x1B[37m",
            ConsoleColor::WhiteBright => "\x1B[37;1m",
        }
    }

    /// The escape sequence that sets this colour for the background.
    pub fn get_background_color(&self) -> (code: &'static str)
        ensures
            code@ == background_code(*self),
    {
        match self {
            ConsoleColor::Black => "\x1B[40m",
            ConsoleColor::BlackBright => "\x1B[40;1m",
            ConsoleColor::Red => "\x1B[41m",
            ConsoleColor::RedBright => "\x1B[41;1m",
            ConsoleColor::Green => "\x1B[42m",
            ConsoleColor::GreenBright => "\x1B[42;1m",
            ConsoleColor::Yellow => "\x1B[43m",
            ConsoleColor::YellowBright => "\x1B[43;1m",
            ConsoleColor::Blue => "\x1B[44m",
            ConsoleColor::BlueBright => "\x1B[44;1m",
            ConsoleColor::Magenta => "\x1B[45m",
            ConsoleColor::MagentaBright => "\x1B[45;1m",
            ConsoleColor::Cyan => "\x1B[46m",
            ConsoleColor::CyanBright => "\x1B[46m;1m",
            ConsoleColor::White => "\x1B[47m",
            ConsoleColor::WhiteBright => "\x1B[47;1m",
        }
    }

    /// The sequence that undoes any colour set before.
    pub fn reset_color() -> (code: &'static str)
        ensures
            code@ == reset_code(),
    {
        "\x1B[0m"
    }
}

} // verus!
