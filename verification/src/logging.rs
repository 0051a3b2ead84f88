//! Log records, the lines that are printed for them, and the handle through
//! which a component hands its records to the logger.

use std::sync::mpsc::Sender;
use vstd::prelude::*;
use vstd::string::*;

verus! {

/// How much a record matters.
#[derive(Clone, Copy, Debug, PartialEq, Eq, Structural)]
pub enum LogItemType {
    Information,
    Success,
    Error,
    Warning,
    Debug,
}

/// The colours of a terminal.
#[derive(Clone, Copy, Debug, PartialEq, Eq, Structural)]
pub enum ConsoleColor {
    Black,
    BlackBright,
    Red,
    RedBright,
    Green,
    GreenBright,
    Yellow,
    YellowBright,
    Blue,
    BlueBright,
    Magenta,
    MagentaBright,
    Cyan,
    CyanBright,
    White,
    WhiteBright,
}

/// A record for the log: who says it, what is said, and how much it matters.
#[derive(Debug)]
pub struct LogItem {
    pub from: String,
    pub message: String,
    pub item_type: LogItemType,
}

/// The model of a record.
pub struct LogRecord {
    pub from: Seq<char>,
    pub message: Seq<char>,
    pub item_type: LogItemType,
}

impl View for LogItem {
    type V = LogRecord;

    open spec fn view(&self) -> LogRecord {
        LogRecord { from: self.from@, message: self.message@, item_type: self.item_type }
    }
}

/// The digit that stands for a colour in an escape sequence: 0 to 7 for
/// black, red, green, yellow, blue, magenta, cyan and white, the bright
/// colours having the digits of the plain ones.
pub open spec fn color_digit(color: ConsoleColor) -> char {
    match color {
        ConsoleColor::Black | ConsoleColor::BlackBright => '0',
        ConsoleColor::Red | ConsoleColor::RedBright => '1',
        ConsoleColor::Green | ConsoleColor::GreenBright => '2',
        ConsoleColor::Yellow | ConsoleColor::YellowBright => '3',
        ConsoleColor::Blue | ConsoleColor::BlueBright => '4',
        ConsoleColor::Magenta | ConsoleColor::MagentaBright => '5',
        ConsoleColor::Cyan | ConsoleColor::CyanBright => '6',
        ConsoleColor::White | ConsoleColor::WhiteBright => '7',
    }
}

/// Whether a colour is one of the bright ones.
pub open spec fn is_bright(color: ConsoleColor) -> bool {
    match color {
        ConsoleColor::BlackBright
        | ConsoleColor::RedBright
        | ConsoleColor::GreenBright
        | ConsoleColor::YellowBright
        | ConsoleColor::BlueBright
        | ConsoleColor::MagentaBright
        | ConsoleColor::CyanBright
        | ConsoleColor::WhiteBright => true,
        _ => false,
    }
}

/// The escape sequence that sets a colour: `ESC [`, the digit of the layer
/// (3 for the foreground, 4 for the background), the digit of the colour,
/// and `m`; for a bright colour `;1` stands before the `m`.
pub open spec fn color_code(layer: char, color: ConsoleColor) -> Seq<char> {
    seq!['\x1B', '[', layer, color_digit(color)] + if is_bright(color) {
        seq![';', '1', 'm']
    } else {
        seq!['m']
    }
}

/// The escape sequence that sets the foreground to a colour.
pub open spec fn foreground(color: ConsoleColor) -> Seq<char> {
    color_code('3', color)
}

/// The escape sequence that sets the background to a colour.
pub open spec fn background(color: ConsoleColor) -> Seq<char> {
    color_code('4', color)
}

/// The colour in which records of a level are printed.
pub open spec fn level_color(level: LogItemType) -> ConsoleColor {
    match level {
        LogItemType::Information => ConsoleColor::White,
        LogItemType::Success => ConsoleColor::Green,
        LogItemType::Error => ConsoleColor::Red,
        LogItemType::Warning => ConsoleColor::Yellow,
        LogItemType::Debug => ConsoleColor::MagentaBright,
    }
}

/// The name under which records of a level are printed, six characters wide.
pub open spec fn level_name(level: LogItemType) -> Seq<char> {
    match level {
        LogItemType::Information => "info  "@,
        LogItemType::Success => "ok    "@,
        LogItemType::Error => "error "@,
        LogItemType::Warning => "warn  "@,
        LogItemType::Debug => "debug "@,
    }
}

/// What is written to the terminal for a record at the time `timestamp`: the
/// colour of its level, the line `[timestamp level] from message`, and the
/// sequence that puts the colours back.
pub open spec fn printed(record: LogRecord, timestamp: Seq<char>) -> Seq<char> {
    foreground(level_color(record.item_type)) + "["@ + timestamp + " "@ + level_name(
        record.item_type,
    ) + "] "@ + record.from + " "@ + record.message + "\n"@ + "\x1B[0m"@
}

/// `chrono::Utc::now`, written by `format` with the pattern
/// `%F %H:%M:%S%.3f`: the present day and time, to the millisecond. The
/// contract says nothing of the text, which differs from call to call.
#[verifier::external_body]
fn timestamp() -> String {
    chrono::Utc::now().format("%F %H:%M:%S%.3f").to_string()
}

impl ConsoleColor {
    /// The escape sequence that sets the foreground to this colour.
    pub fn get_foreground_color(&self) -> (code: &'static str)
        ensures
            code@ == foreground(*self),
    {
        let code = match self {
            ConsoleColor::Black => "\x1B[30m",
            ConsoleColor::BlackBright => "\x1B[30;1m",
            ConsoleColor::Red => "\x1B[31m",
            ConsoleColor::RedBright => "\x1B[31;1m",
            ConsoleColor::Green => "\x1B[32m",
            ConsoleColor::GreenBright => "\x1B[32;1m",
            ConsoleColor::Yellow => "\x1B[33m",
            ConsoleColor::YellowBright => "\x1B[33;1m",
            ConsoleColor::Blue => "\x1B[34m",
            ConsoleColor::BlueBright => "\x1B[34;1m",
            ConsoleColor::Magenta => "\x1B[35m",
            ConsoleColor::MagentaBright => "\x1B[35;1m",
            ConsoleColor::Cyan => "\x1B[36m",
            ConsoleColor::CyanBright => "\x1B[36;1m",
            ConsoleColor::White => "\x1B[37m",
            ConsoleColor::WhiteBright => "\x1B[37;1m",
        };
        proof {
            reveal_strlit("\x1B[30m");
            reveal_strlit("\x1B[30;1m");
            reveal_strlit("\x1B[31m");
            reveal_strlit("\x1B[31;1m");
            reveal_strlit("\x1B[32m");
            reveal_strlit("\x1B[32;1m");
            reveal_strlit("\x1B[33m");
            reveal_strlit("\x1B[33;1m");
            reveal_strlit("\x1B[34m");
            reveal_strlit("\x1B[34;1m");
            reveal_strlit("\x1B[35m");
            reveal_strlit("\x1B[35;1m");
            reveal_strlit("\x1B[36m");
            reveal_strlit("\x1B[36;1m");
            reveal_strlit("\x1B[37m");
            reveal_strlit("\x1B[37;1m");
            assert(code@ =~= foreground(*self));
        }
        code
    }

    /// The escape sequence that sets the background to this colour.
    pub fn get_background_color(&self) -> (code: &'static str)
        ensures
            code@ == background(*self),
    {
        let code = match self {
            ConsoleColor::Black => "\x1B[40m",
            ConsoleColor::BlackBright => "\x1B[40;1m",
            ConsoleColor::Red => "\x1B[41m",
            ConsoleColor::RedBright => "\x1B[41;1m",
            ConsoleColor::Green => "\x1B[42m",
            ConsoleColor::GreenBright => "\x1B[42;1m",
            ConsoleColor::Yellow => "\x1B[43m",
            ConsoleColor::YellowBright => "\x1B[43;1m",
            ConsoleColor::Blue => "\x1B[44m",
            ConsoleColor::BlueBright => "\x1B[44;1m",
            ConsoleColor::Magenta => "\x1B[45m",
            ConsoleColor::MagentaBright => "\x1B[45;1m",
            ConsoleColor::Cyan => "\x1B[46m",
            ConsoleColor::CyanBright => "\x1B[46;1m",
            ConsoleColor::White => "\x1B[47m",
            ConsoleColor::WhiteBright => "\x1B[47;1m",
        };
        proof {
            reveal_strlit("\x1B[40m");
            reveal_strlit("\x1B[40;1m");
            reveal_strlit("\x1B[41m");
            reveal_strlit("\x1B[41;1m");
            reveal_strlit("\x1B[42m");
            reveal_strlit("\x1B[42;1m");
            reveal_strlit("\x1B[43m");
            reveal_strlit("\x1B[43;1m");
            reveal_strlit("\x1B[44m");
            reveal_strlit("\x1B[44;1m");
            reveal_strlit("\x1B[45m");
            reveal_strlit("\x1B[45;1m");
            reveal_strlit("\x1B[46m");
            reveal_strlit("\x1B[46;1m");
            reveal_strlit("\x1B[47m");
            reveal_strlit("\x1B[47;1m");
            assert(code@ =~= background(*self));
        }
        code
    }

    /// The escape sequence that puts the colours back.
    pub fn reset_code() -> (code: &'static str)
        ensures
            code@ == "\x1B[0m"@,
    {
        "\x1B[0m"
    }
}

impl LogItemType {
    /// The colour in which records of this level are printed.
    pub fn color(&self) -> (color: ConsoleColor)
        ensures
            color == level_color(*self),
    {
        match self {
            LogItemType::Information => ConsoleColor::White,
            LogItemType::Success => ConsoleColor::Green,
            LogItemType::Error => ConsoleColor::Red,
            LogItemType::Warning => ConsoleColor::Yellow,
            LogItemType::Debug => ConsoleColor::MagentaBright,
        }
    }

    /// The name under which records of this level are printed.
    pub fn name(&self) -> (name: &'static str)
        ensures
            name@ == level_name(*self),
    {
        match self {
            LogItemType::Information => "info  ",
            LogItemType::Success => "ok    ",
            LogItemType::Error => "error ",
            LogItemType::Warning => "warn  ",
            LogItemType::Debug => "debug ",
        }
    }
}

impl LogItem {
    /// A record at the level `Information`.
    pub fn info(from: String, message: String) -> (item: LogItem)
        ensures
            item == (LogItem { from, message, item_type: LogItemType::Information }),
    {
        LogItem::create_item(from, message, LogItemType::Information)
    }

    /// A record at the level `Success`.
    pub fn success(from: String, message: String) -> (item: LogItem)
        ensures
            item == (LogItem { from, message, item_type: LogItemType::Success }),
    {
        LogItem::create_item(from, message, LogItemType::Success)
    }

    /// A record at the level `Error`.
    pub fn error(from: String, message: String) -> (item: LogItem)
        ensures
            item == (LogItem { from, message, item_type: LogItemType::Error }),
    {
        LogItem::create_item(from, message, LogItemType::Error)
    }

    /// A record at the level `Warning`.
    pub fn warning(from: String, message: String) -> (item: LogItem)
        ensures
            item == (LogItem { from, message, item_type: LogItemType::Warning }),
    {
        LogItem::create_item(from, message, LogItemType::Warning)
    }

    /// A record at the level `Debug`.
    pub fn debug(from: String, message: String) -> (item: LogItem)
        ensures
            item == (LogItem { from, message, item_type: LogItemType::Debug }),
    {
        LogItem::create_item(from, message, LogItemType::Debug)
    }

    /// A record at the given level.
    pub fn create_item(from: String, message: String, item_type: LogItemType) -> (item: LogItem)
        ensures
            item == (LogItem { from, message, item_type }),
    {
        LogItem { from, message, item_type }
    }

    /// What is written to the terminal for this record at the time
    /// `timestamp`.
    pub fn render(&self, timestamp: &str) -> (text: String)
        ensures
            text@ == printed(self@, timestamp@),
    {
        let mut text = String::new();
        text.append(self.item_type.color().get_foreground_color());
        text.append("[");
        text.append(timestamp);
        text.append(" ");
        text.append(self.item_type.name());
        text.append("] ");
        text.append(self.from.as_str());
        text.append(" ");
        text.append(self.message.as_str());
        text.append("\n");
        text.append(ConsoleColor::reset_code());
        assert(text@ =~= printed(self@, timestamp@));
        text
    }

    /// What is written to the terminal for this record now.
    pub fn print(&self) -> (text: String)
        ensures
            exists|timestamp: Seq<char>| text@ == printed(self@, timestamp),
    {
        let now = timestamp();
        let text = self.render(now.as_str());
        assert(text@ == printed(self@, now@));
        text
    }
}

/// The sending end of a channel of the standard library, carried as it is.
#[verifier::external_type_specification]
#[verifier::external_body]
#[verifier::reject_recursive_types(T)]
pub struct ExSender<T>(Sender<T>);

/// `Sender::clone`: another handle to the same channel. The contract says
/// nothing of it.
pub assume_specification<T>[ <Sender<T> as Clone>::clone ](sender: &Sender<T>) -> Sender<T>;

/// `std::sync::mpsc::Sender::send`: hands `item` to the receiving end of the
/// channel, and says whether that end was still there to take it. The
/// contract says nothing of the answer, which depends on the receiver.
#[verifier::external_body]
fn send_item(sender: &Sender<LogItem>, item: LogItem) -> (sent: bool) {
    sender.send(item).is_ok()
}

/// The handle through which a component hands its records to the logger.
#[derive(Clone)]
pub struct Logger {
    sender: Sender<LogItem>,
}

impl Logger {
    /// The sending end through which the handle hands its records on.
    pub closed spec fn channel(&self) -> Sender<LogItem> {
        self.sender
    }

    /// A handle that sends into the channel of `sender`.
    pub fn create(sender: Sender<LogItem>) -> (logger: Logger)
        ensures
            logger.channel() == sender,
    {
        Logger { sender }
    }

    /// What `log` answers for a record that was taken, and for one that was
    /// not because the logger is gone.
    pub fn sent(taken: bool) -> (answer: Result<(), &'static str>)
        ensures
            taken ==> answer is Ok,
            !taken ==> answer == Err::<(), &'static str>("Could not write to log."),
    {
        if taken {
            Ok(())
        } else {
            Err("Could not write to log.")
        }
    }

    /// Hands `item` to the logger. The only error is that the logger is
    /// gone.
    pub fn log(&self, item: LogItem) -> (answer: Result<(), &'static str>)
        ensures
            answer is Err ==> answer == Err::<(), &'static str>("Could not write to log."),
    {
        Logger::sent(send_item(&self.sender, item))
    }

    /// Hands a record at the level `Information` to the logger.
    pub fn log_info(&self, from: String, message: String) -> (answer: Result<(), &'static str>)
        ensures
            answer is Err ==> answer == Err::<(), &'static str>("Could not write to log."),
    {
        self.log(LogItem::info(from, message))
    }

    /// Hands a record at the level `Success` to the logger.
    pub fn log_success(&self, from: String, message: String) -> (answer: Result<(), &'static str>)
        ensures
            answer is Err ==> answer == Err::<(), &'static str>("Could not write to log."),
    {
        self.log(LogItem::success(from, message))
    }

    /// Hands a record at the level `Error` to the logger.
    pub fn log_error(&self, from: String, message: String) -> (answer: Result<(), &'static str>)
        ensures
            answer is Err ==> answer == Err::<(), &'static str>("Could not write to log."),
    {
        self.log(LogItem::error(from, message))
    }

    /// Hands a record at the level `Warning` to the logger.
    pub fn log_warning(&self, from: String, message: String) -> (answer: Result<(), &'static str>)
        ensures
            answer is Err ==> answer == Err::<(), &'static str>("Could not write to log."),
    {
        self.log(LogItem::warning(from, message))
    }

    /// Hands a record at the level `Debug` to the logger.
    pub fn log_debug(&self, from: String, message: String) -> (answer: Result<(), &'static str>)
        ensures
            answer is Err ==> answer == Err::<(), &'static str>("Could not write to log."),
    {
        self.log(LogItem::debug(from, message))
    }
}

} // verus!
