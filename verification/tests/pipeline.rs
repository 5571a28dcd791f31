//! End-to-end tests of the filter pipeline: echo cancellation, prompt
//! synchronization, and batch dispatch.

use nmcu::commandline::CommandLine;
use nmcu::echostrip::EchoStrip;
use nmcu::eventloop::{process_batch, HandlerError, Recieve, Response, SessionEvent};
use nmcu::list::List;
use nmcu::synch::{ends_with, response_endline, Synch};

const LIST_SCRIPT: &[u8] = b"for k,v in pairs(file.list()) do print(k..\"\\031\"..v) end\n";
const PROBE: &[u8] = b";\r\n";

#[test]
fn test_ends_with() {
    assert!(ends_with(b"abcdefg", b"efg"));
    assert!(!ends_with(b"abcdefg", b"efh"));
    assert!(!ends_with(b"defg", b"abcdefg"));
}

#[test]
fn ends_with_edge_cases() {
    assert!(ends_with(b"", b""));
    assert!(ends_with(b"x", b""));
    assert!(ends_with(b"\r\n> ", b"\r\n> "));
    assert!(!ends_with(b"", b"x"));
}

#[test]
fn response_constructors() {
    let r = Response::none();
    assert!(r.stdout.is_none() && r.serial.is_none() && !r.terminate);
    let r = Response::to_stdout(b"out".to_vec());
    assert_eq!(r.stdout.as_deref(), Some(&b"out"[..]));
    assert!(r.serial.is_none() && !r.terminate);
    let r = Response::to_serial(b"ser".to_vec());
    assert_eq!(r.serial.as_deref(), Some(&b"ser"[..]));
    assert!(r.stdout.is_none() && !r.terminate);
    let r = Response::terminate();
    assert!(r.stdout.is_none() && r.serial.is_none() && r.terminate);
}

#[test]
fn response_endline_is_probe() {
    let r = response_endline();
    assert_eq!(r.serial.as_deref(), Some(PROBE));
    assert!(r.stdout.is_none() && !r.terminate);
}

#[test]
fn echo_strip_full_match_then_passthrough() {
    // A payload beginning with exactly the sent line's bytes is stripped to
    // its remainder; the reference is consumed, so a second payload passes
    // through unmodified.
    let mut filter = EchoStrip::new(CommandLine::new());
    let sent = filter.recieve_stdin(b"abc\n".to_vec()).unwrap();
    assert_eq!(sent.serial.as_deref(), Some(&b"abc\n"[..]));

    let r = filter.recieve_serial(b"abc\nrest".to_vec()).unwrap();
    assert_eq!(r.stdout.as_deref(), Some(&b"rest"[..]));

    let r = filter.recieve_serial(b"abc\nrest".to_vec()).unwrap();
    assert_eq!(r.stdout.as_deref(), Some(&b"abc\nrest"[..]));
}

#[test]
fn echo_strip_crlf_tie_break() {
    // Sending "abc\n" and receiving "abc\r\n" is a full match: the bare \n
    // went out, the device echoed \r\n.
    let mut filter = EchoStrip::new(CommandLine::new());
    filter.recieve_stdin(b"abc\n".to_vec()).unwrap();
    let r = filter.recieve_serial(b"abc\r\n".to_vec()).unwrap();
    assert_eq!(r.stdout.as_deref(), Some(&b""[..]));
}

#[test]
fn echo_strip_no_spurious_match() {
    // A payload that shares no prefix with the sent line is forwarded
    // unmodified.
    let mut filter = EchoStrip::new(CommandLine::new());
    filter.recieve_stdin(b"abc\n".to_vec()).unwrap();
    let r = filter.recieve_serial(b"xyz".to_vec()).unwrap();
    assert_eq!(r.stdout.as_deref(), Some(&b"xyz"[..]));
}

#[test]
fn echo_strip_partial_echo() {
    // A payload that is only part of the echo is consumed entirely.
    let mut filter = EchoStrip::new(CommandLine::new());
    filter.recieve_stdin(b"abc\n".to_vec()).unwrap();
    let r = filter.recieve_serial(b"ab".to_vec()).unwrap();
    assert_eq!(r.stdout.as_deref(), Some(&b""[..]));
}

#[test]
fn echo_strip_empty_payload() {
    let mut filter = EchoStrip::new(CommandLine::new());
    filter.recieve_stdin(b"abc\n".to_vec()).unwrap();
    let r = filter.recieve_serial(Vec::new()).unwrap();
    assert_eq!(r.stdout.as_deref(), Some(&b""[..]));
}

#[test]
fn echo_strip_save_response_caches_serial_bytes() {
    let mut filter = EchoStrip::new(CommandLine::new());
    filter.save_response(&Response::to_serial(b"ping\n".to_vec()));
    assert_eq!(&filter.last_line, b"ping\n");
    // A response without remote-bound bytes leaves the cache alone.
    filter.save_response(&Response::none());
    assert_eq!(&filter.last_line, b"ping\n");
}

#[test]
fn echo_strip_try_save_response_passes_result_through() {
    let mut filter = EchoStrip::new(CommandLine::new());
    let r = filter.try_save_response(Ok(Response::to_serial(b"q\n".to_vec())));
    assert_eq!(r.unwrap().serial.as_deref(), Some(&b"q\n"[..]));
    assert_eq!(&filter.last_line, b"q\n");
}

#[test]
fn end_to_end_console_line() {
    // Console line "print(1+1)\n" goes to the remote verbatim and is cached;
    // the remote echoes it with \r\n and appends its output; the echo is
    // stripped (through the tie-break) and the genuine output is forwarded.
    let mut filter = EchoStrip::new(CommandLine::new());
    let sent = filter.recieve_stdin(b"print(1+1)\n".to_vec()).unwrap();
    assert_eq!(sent.serial.as_deref(), Some(&b"print(1+1)\n"[..]));

    let r = filter.recieve_serial(b"print(1+1)\r\n2\r\n\r\n> ".to_vec()).unwrap();
    assert_eq!(r.stdout.as_deref(), Some(&b"2\r\n\r\n> "[..]));
}

#[test]
fn synch_probes_until_first_prompt() {
    // While unsynchronized, every payload without the trailing prompt marker
    // is answered with the probe and the wrapped stage stays untouched; the
    // first prompt-terminated payload triggers exactly one startup call on
    // the wrapped stage (observable here as the listing script going out).
    let mut filter = Synch::new(List::new(false));
    for payload in [&b"garbage"[..], b"lua 5.1", b"\r\n>", b"> "] {
        let r = filter.recieve_serial(payload.to_vec()).unwrap();
        assert_eq!(r.serial.as_deref(), Some(PROBE));
        assert!(r.stdout.is_none() && !r.terminate);
    }
    let r = filter.recieve_serial(b"NodeMCU\r\n> ".to_vec()).unwrap();
    assert_eq!(r.serial.as_deref(), Some(LIST_SCRIPT));
}

#[test]
fn synch_holds_response_until_prompt() {
    // Once a request is outstanding, a reply without the trailing prompt is
    // computed but held back behind a probe; the next prompt-terminated
    // payload releases it verbatim.
    let mut filter = Synch::new(List::new(false));
    let r = filter.recieve_serial(b"\r\n> ".to_vec()).unwrap();
    assert_eq!(r.serial.as_deref(), Some(LIST_SCRIPT));

    // The listing reply arrives without the prompt: the terminate response
    // the List stage computed is withheld; a probe goes out instead.
    let r = filter.recieve_serial(b"init.lua\x1f79".to_vec()).unwrap();
    assert_eq!(r.serial.as_deref(), Some(PROBE));
    assert!(!r.terminate);

    // Still no prompt: another probe.
    let r = filter.recieve_serial(b"more bytes".to_vec()).unwrap();
    assert_eq!(r.serial.as_deref(), Some(PROBE));
    assert!(!r.terminate);

    // The prompt reappears: the held response is released.
    let r = filter.recieve_serial(b"\r\n> ".to_vec()).unwrap();
    assert!(r.terminate);
    assert!(r.stdout.is_none() && r.serial.is_none());
}

#[test]
fn synch_startup_probes_when_unsynchronized() {
    let mut filter = Synch::new(CommandLine::new());
    let r = filter.startup();
    assert_eq!(r.serial.as_deref(), Some(PROBE));
}

#[test]
fn synch_passes_traffic_when_idle() {
    // Synchronized with nothing outstanding, payloads reach the wrapped
    // stage whether or not they end in the prompt.
    let mut filter = Synch::new(CommandLine::new());
    let r = filter.recieve_serial(b"\r\n> ".to_vec()).unwrap();
    // CommandLine's startup does nothing, so nothing is outstanding.
    assert!(r.stdout.is_none() && r.serial.is_none() && !r.terminate);

    let r = filter.recieve_serial(b"2\r\n\r\n> ".to_vec()).unwrap();
    assert_eq!(r.stdout.as_deref(), Some(&b"2\r\n\r\n> "[..]));
}

#[test]
fn synch_rejects_console_lines() {
    let mut filter = Synch::new(CommandLine::new());
    let r = filter.recieve_stdin(b"anything\n".to_vec());
    assert!(matches!(r, Err(HandlerError::UnsupportedConsoleLine)));
}

#[test]
fn batch_processes_events_in_order() {
    let mut handler = CommandLine::new();
    let events = vec![
        SessionEvent::Serial(b"one".to_vec()),
        SessionEvent::Stdin(b"two\n".to_vec()),
    ];
    let out = process_batch(&mut handler, events);
    assert_eq!(out.written.len(), 2);
    assert_eq!(out.written[0].stdout.as_deref(), Some(&b"one"[..]));
    assert_eq!(out.written[1].serial.as_deref(), Some(&b"two\n"[..]));
    assert!(!out.terminated);
    assert!(out.failure.is_none());
}

#[test]
fn batch_stops_at_terminate() {
    // A response with the terminate flag ends the batch: its response is
    // flushed, later queued events are not dispatched.
    let mut handler = List::new(false);
    let events = vec![
        SessionEvent::Serial(b"listing".to_vec()),
        SessionEvent::Serial(b"never dispatched".to_vec()),
    ];
    let out = process_batch(&mut handler, events);
    assert_eq!(out.written.len(), 1);
    assert!(out.written[0].terminate);
    assert!(out.terminated);
    assert!(out.failure.is_none());
}

#[test]
fn batch_stops_at_failure() {
    // A failing dispatch ends the batch at once; earlier responses are kept,
    // the failed event contributes none.
    let mut handler = Synch::new(CommandLine::new());
    let events = vec![
        SessionEvent::Serial(b"noise".to_vec()),
        SessionEvent::Stdin(b"line\n".to_vec()),
        SessionEvent::Serial(b"never dispatched".to_vec()),
    ];
    let out = process_batch(&mut handler, events);
    assert_eq!(out.written.len(), 1);
    assert_eq!(out.written[0].serial.as_deref(), Some(PROBE));
    assert!(!out.terminated);
    assert_eq!(out.failure, Some(HandlerError::UnsupportedConsoleLine));
}

#[test]
fn list_startup_sends_script_and_first_reply_terminates() {
    let mut stage = List::new(true);
    assert!(stage.long_mode);
    let r = stage.startup();
    assert_eq!(r.serial.as_deref(), Some(LIST_SCRIPT));
    let r = stage.recieve_serial(b"anything".to_vec()).unwrap();
    assert!(r.terminate);
}

#[test]
fn command_line_echoes_both_ways() {
    let mut stage = CommandLine::new();
    let r = stage.recieve_stdin(b"print(7)\n".to_vec()).unwrap();
    assert_eq!(r.serial.as_deref(), Some(&b"print(7)\n"[..]));
    assert!(r.stdout.is_none());
    let r = stage.recieve_serial(b"7\r\n".to_vec()).unwrap();
    assert_eq!(r.stdout.as_deref(), Some(&b"7\r\n"[..]));
    assert!(r.serial.is_none());
    let r = stage.startup();
    assert!(r.stdout.is_none() && r.serial.is_none() && !r.terminate);
    let r = stage.shutdown();
    assert!(r.stdout.is_none() && r.serial.is_none() && !r.terminate);
}

#[test]
fn shutdown_delegates_through_filters() {
    let mut filter = Synch::new(EchoStrip::new(CommandLine::new()));
    let r = filter.shutdown();
    assert!(r.stdout.is_none() && r.serial.is_none() && !r.terminate);
}
