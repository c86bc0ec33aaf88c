use node_controller::logging::common::{create_item, ConsoleColor, LogItem, LogItemType};
use node_controller::logging::logger::{level_style, render, render_now, Log, Logger};
use std::sync::mpsc::channel;

#[test]
fn items_carry_their_level() {
    let make = |build: fn(String, String) -> LogItem| build("a".to_string(), "b".to_string());
    assert_eq!(make(LogItem::info).item_type, LogItemType::Information);
    assert_eq!(make(LogItem::success).item_type, LogItemType::Success);
    assert_eq!(make(LogItem::error).item_type, LogItemType::Error);
    assert_eq!(make(LogItem::warning).item_type, LogItemType::Warning);
    assert_eq!(make(LogItem::trace).item_type, LogItemType::Trace);
    assert_eq!(make(LogItem::debug).item_type, LogItemType::Debug);
    let item = LogItem::create("from".to_string(), "text".to_string(), LogItemType::Warning);
    assert_eq!(item, create_item("from".to_string(), "text".to_string(), LogItemType::Warning));
    assert_eq!(item.from, "from");
    assert_eq!(item.message, "text");
}

#[test]
fn colors_have_their_escape_codes() {
    assert_eq!(ConsoleColor::Black.get_foreground_color(), "\x1B[30m");
    assert_eq!(ConsoleColor::RedBright.get_foreground_color(), "\x1B[31;1m");
    assert_eq!(ConsoleColor::CyanBright.get_foreground_color(), "\x1B[36m;1m");
    assert_eq!(ConsoleColor::WhiteBright.get_foreground_color(), "\x1B[37;1m");
    assert_eq!(ConsoleColor::Black.get_background_color(), "\x1B[40m");
    assert_eq!(ConsoleColor::Green.get_background_color(), "\x1B[42m");
    assert_eq!(ConsoleColor::CyanBright.get_background_color(), "\x1B[46m;1m");
    assert_eq!(ConsoleColor::White.get_background_color(), "\x1B[47m");
    assert_eq!(ConsoleColor::reset_color(), "\x1B[0m");
}

#[test]
fn levels_have_their_style() {
    assert_eq!(level_style(LogItemType::Information), (ConsoleColor::WhiteBright, "info  "));
    assert_eq!(level_style(LogItemType::Success), (ConsoleColor::Green, "ok    "));
    assert_eq!(level_style(LogItemType::Error), (ConsoleColor::Red, "error "));
    assert_eq!(level_style(LogItemType::Warning), (ConsoleColor::Yellow, "warn  "));
    assert_eq!(level_style(LogItemType::Trace), (ConsoleColor::BlackBright, "debug "));
    assert_eq!(level_style(LogItemType::Debug), (ConsoleColor::Magenta, "trace "));
}

#[test]
fn line_is_rendered_in_the_level_color() {
    let item = LogItem::error("worker_1".to_string(), "Job failed".to_string());
    assert_eq!(
        render("2024-05-01 10:00:00.123", &item),
        "\x1B[31m[2024-05-01 10:00:00.123 error ] worker_1 - Job failed\n\x1B[0m"
    );
}

#[test]
fn logger_stamps_its_name_on_each_item() {
    let (sender, receiver) = channel();
    let logger = Logger::create("first".to_string(), sender);
    assert_eq!(logger.log_info("i".to_string()), Ok(()));
    assert_eq!(logger.log_success("s".to_string()), Ok(()));
    assert_eq!(logger.log_error("e".to_string()), Ok(()));
    assert_eq!(logger.log_warning("w".to_string()), Ok(()));
    assert_eq!(logger.log_debug("d".to_string()), Ok(()));
    let second = logger.create_from("second".to_string());
    assert_eq!(second.log(LogItem::trace("third".to_string(), "t".to_string())), Ok(()));
    assert_eq!(second.log_info("x".to_string()), Ok(()));
    let items: Vec<LogItem> = receiver.try_iter().collect();
    let expected = vec![
        LogItem::info("first".to_string(), "i".to_string()),
        LogItem::success("first".to_string(), "s".to_string()),
        LogItem::error("first".to_string(), "e".to_string()),
        LogItem::warning("first".to_string(), "w".to_string()),
        LogItem::debug("first".to_string(), "d".to_string()),
        LogItem::trace("third".to_string(), "t".to_string()),
        LogItem::info("second".to_string(), "x".to_string()),
    ];
    assert_eq!(items, expected);
}

#[test]
fn logging_to_a_closed_channel_is_an_error() {
    let (sender, receiver) = channel();
    let logger = Logger::create("lost".to_string(), sender);
    drop(receiver);
    assert_eq!(logger.log_info("x".to_string()), Err("Could not write to log."));
    assert_eq!(
        logger.log(LogItem::debug("a".to_string(), "b".to_string())),
        Err("Could not write to log.")
    );
    assert_eq!(Logger::outcome(true), Ok(()));
    assert_eq!(Logger::outcome(false), Err("Could not write to log."));
}

#[test]
fn log_hands_out_loggers_on_its_channel() {
    let (sender, receiver) = channel();
    let log = Log::attach(sender);
    log.announce();
    let logger = log.get_logger("event-loop".to_string());
    logger.log_info("Starting".to_string()).unwrap();
    let items: Vec<LogItem> = receiver.try_iter().collect();
    assert_eq!(
        items,
        vec![
            LogItem::info("Logger".to_string(), "Starting log".to_string()),
            LogItem::success("Log".to_string(), "Log started".to_string()),
            LogItem::info("event-loop".to_string(), "Starting".to_string()),
        ]
    );
}

#[test]
fn line_is_stamped_with_the_current_time() {
    let item = LogItem::success("Log".to_string(), "Log started".to_string());
    let line = render_now(&item);
    assert!(line.starts_with("\x1B[32m["));
    assert!(line.ends_with(" ok    ] Log - Log started\n\x1B[0m"));
    let stamp = &line["\x1B[32m[".len()..line.len() - " ok    ] Log - Log started\n\x1B[0m".len()];
    assert_eq!(stamp.len(), "2024-05-01 10:00:00.123".len());
    assert_eq!(render(stamp, &item), line);
}
