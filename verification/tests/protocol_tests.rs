use yowl::diff::TextTracker;
use yowl::ipc::{handle_command, parse_command, Command};
use yowl::state::{escape_text, poll_response, start_response, stop_response};
use yowl::text::format_usize;

#[test]
fn test_handle_command_basic() {
    assert_eq!(handle_command("PING"), "PONG");
    assert_eq!(handle_command("START"), "OK");
    assert_eq!(handle_command("STOP"), "OK");
}

#[test]
fn test_handle_command_case_insensitive() {
    assert_eq!(handle_command("ping"), "PONG");
    assert_eq!(handle_command("Ping"), "PONG");
    assert_eq!(handle_command("start"), "OK");
    assert_eq!(handle_command("sToP"), "OK");
}

#[test]
fn test_handle_command_first_word_only() {
    assert_eq!(handle_command("PING now please"), "PONG");
    assert_eq!(handle_command("FLY me"), "ERROR unknown command: FLY");
}

#[test]
fn test_handle_command_unknown() {
    assert_eq!(handle_command("NOPE"), "ERROR unknown command: NOPE");
    assert_eq!(handle_command(""), "ERROR unknown command: ");
    assert_eq!(handle_command("PINGPONG"), "ERROR unknown command: PINGPONG");
}

#[test]
fn test_parse_command() {
    assert_eq!(parse_command("PING"), Command::Ping);
    assert_eq!(parse_command("poll"), Command::Poll);
    assert_eq!(parse_command("Shutdown"), Command::Shutdown);
    assert_eq!(parse_command("START now"), Command::Start);
    assert_eq!(parse_command("stop"), Command::Stop);
    assert_eq!(parse_command("HELLO"), Command::Unknown);
    assert_eq!(parse_command(""), Command::Unknown);
}

#[test]
fn test_session_responses() {
    assert_eq!(start_response(false), "OK");
    assert_eq!(start_response(true), "ERROR already recording");
    assert_eq!(stop_response(true), "OK");
    assert_eq!(stop_response(false), "ERROR not recording");
}

#[test]
fn test_poll_idle() {
    let mut tracker = TextTracker::new();
    assert_eq!(poll_response(false, "anything", &mut tracker), "IDLE:");
    // the tracker is untouched while idle
    assert_eq!(tracker.full_text(), "");
}

#[test]
fn test_poll_recording() {
    let mut tracker = TextTracker::new();
    // empty snapshot: a no-op edit, tracker untouched
    assert_eq!(poll_response(true, "", &mut tracker), "RECORDING:0:");
    // first text: pure append
    assert_eq!(poll_response(true, "Hello", &mut tracker), "RECORDING:0:Hello");
    // same snapshot again: no edit
    assert_eq!(poll_response(true, "Hello", &mut tracker), "RECORDING:0:");
    // revision: one backspace, two characters appended
    tracker.reset();
    poll_response(true, "Helo", &mut tracker);
    assert_eq!(poll_response(true, "Hello", &mut tracker), "RECORDING:1:lo");
}

#[test]
fn test_poll_escapes_newlines() {
    let mut tracker = TextTracker::new();
    assert_eq!(
        poll_response(true, "line one\nline two", &mut tracker),
        "RECORDING:0:line one line two"
    );
}

#[test]
fn test_escape_text() {
    assert_eq!(escape_text("a\nb\nc"), "a b c");
    assert_eq!(escape_text("plain"), "plain");
    assert_eq!(escape_text(""), "");
}

#[test]
fn test_format_usize() {
    assert_eq!(format_usize(0), "0");
    assert_eq!(format_usize(7), "7");
    assert_eq!(format_usize(10), "10");
    assert_eq!(format_usize(90210), "90210");
    assert_eq!(format_usize(usize::MAX).parse::<usize>().unwrap(), usize::MAX);
}
