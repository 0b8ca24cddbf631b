use polymarket_arbitrage_bot::logger::{emit, history_line, Level};
use polymarket_arbitrage_bot::log_trading_event;

#[test]
fn log_lines_carry_time_tag_and_message() {
    assert_eq!(emit("12:34:56", Level::Info, "hello"), "[12:34:56] [INFO ]  hello\n");
    assert_eq!(emit("12:34:56", Level::Success, ""), "[12:34:56] [OK   ]  \n");
    assert_eq!(emit("00:00:00", Level::Warn, "w"), "[00:00:00] [WARN ]  w\n");
    assert_eq!(emit("00:00:00", Level::Error, "e"), "[00:00:00] [ERROR]  e\n");
    assert_eq!(emit("00:00:00", Level::Action, "a"), "[00:00:00] [-->  ]  a\n");
    assert_eq!(log_trading_event("01:02:03", "BUY"), "[01:02:03] [EVENT]  BUY\n");
}

#[test]
fn history_lines_carry_the_moment_and_the_event() {
    assert_eq!(history_line("2025-01-01T00:00:00Z", "BUY"), "[2025-01-01T00:00:00Z] BUY\n");
}
