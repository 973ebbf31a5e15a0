use pico_lte_proxy::engine::{
    bringup_command, close_line, command_line, decide, has_terminal_marker, is_quiescent,
    open_line, send_line, upstream_text, Action, Arrival, CollectPolicy, Command, Engine,
    EnginePolicy, Event, Observation, Phase, RetryPolicy, BRINGUP_COMMANDS, BULK_READ,
    TOKEN_READ,
};
use pico_lte_proxy::message::{Diagnostic, ProxyRequest};

/// One action in words, for comparison.
fn show(action: &Action) -> String {
    match action {
        Action::Write(text) => format!("write {:?}", String::from_utf8_lossy(text.as_bytes())),
        Action::Read { timeout_ms, capacity } => format!("read {} {}", timeout_ms, capacity),
        Action::Sleep { ms } => format!("sleep {}", ms),
        Action::AwaitRequest => "await".to_string(),
        Action::Finish(result) => format!("finish {} {:?}", result.succeeded(), result.payload()),
    }
}

/// An engine that has been brought up, with `Done` for every outcome.
fn ready(policy: EnginePolicy) -> Engine {
    let (mut engine, mut action) = Engine::power_on(policy);
    for _ in 0..100 {
        if let Action::AwaitRequest = action {
            return engine;
        }
        action = engine.step(Event::Done);
    }
    panic!("bring-up did not end");
}

/// A policy without pauses, with `attempts` reads for every token and
/// `reads` reads of the response.
fn brisk(attempts: u32, reads: u32, quiet_reads: u32) -> EnginePolicy {
    let retry = RetryPolicy { max_attempts: attempts, timeout_ms: 5, delay_ms: 0 };
    EnginePolicy {
        boot_settle_ms: 0,
        probe_pause_ms: 0,
        probe_timeout_ms: 5,
        drain_settle_ms: 0,
        drain_timeout_ms: 5,
        open: retry,
        connect_settle_ms: 0,
        prompt: retry,
        send_settle_ms: 0,
        confirm: retry,
        collect: CollectPolicy { max_reads: reads, timeout_ms: 5, quiet_reads },
        close_settle_ms: 0,
    }
}

/// Feeds `script` to `engine` and returns the actions in words.
fn play(engine: &mut Engine, script: &[Event]) -> Vec<String> {
    let mut shown = Vec::new();
    for event in script {
        let event = match event {
            Event::Done => Event::Done,
            Event::Data(chunk) => Event::Data(chunk),
            Event::ReadFailed => Event::ReadFailed,
            Event::TimedOut => Event::TimedOut,
        };
        shown.push(show(&engine.step(event)));
    }
    shown
}

/// An engine that collects the response of a request, with a brisk policy.
fn collecting(reads: u32, quiet_reads: u32) -> Engine {
    let mut engine = ready(brisk(1, reads, quiet_reads));
    let first = engine.fetch(ProxyRequest::new("h", "/")).ok().unwrap();
    assert_eq!(show(&first), "read 5 256");
    let shown = play(
        &mut engine,
        &[
            Event::TimedOut,
            Event::Done,
            Event::Data(b"+QIOPEN: 0,0"),
            Event::Done,
            Event::Data(b">"),
            Event::Done,
            Event::Data(b"SEND OK"),
        ],
    );
    assert_eq!(shown.last().unwrap(), "read 5 512");
    assert_eq!(engine.phase(), Phase::Collect { left: reads, quiet: 0 });
    engine
}

#[test]
fn standard_policy_values() {
    let policy = EnginePolicy::standard();
    assert_eq!(policy.boot_settle_ms, 2000);
    assert_eq!(policy.probe_pause_ms, 100);
    assert_eq!(policy.probe_timeout_ms, 2000);
    assert_eq!(policy.drain_settle_ms, 500);
    assert_eq!(policy.drain_timeout_ms, 100);
    assert_eq!(policy.open, RetryPolicy { max_attempts: 20, timeout_ms: 500, delay_ms: 500 });
    assert_eq!(policy.connect_settle_ms, 1000);
    assert_eq!(policy.prompt, RetryPolicy { max_attempts: 1, timeout_ms: 5000, delay_ms: 500 });
    assert_eq!(policy.send_settle_ms, 500);
    assert_eq!(policy.confirm, RetryPolicy { max_attempts: 10, timeout_ms: 500, delay_ms: 100 });
    assert_eq!(policy.collect, CollectPolicy { max_reads: 60, timeout_ms: 500, quiet_reads: 6 });
    assert_eq!(policy.close_settle_ms, 500);
    assert_eq!(TOKEN_READ, 256);
    assert_eq!(BULK_READ, 512);
    assert_eq!(BRINGUP_COMMANDS, 8);
}

#[test]
fn bring_up_commands_in_order() {
    let expected: [(&str, u32); 8] = [
        ("AT", 500),
        ("AT+CPIN?", 500),
        ("AT+CREG?", 500),
        ("AT+CGATT=1", 1000),
        ("AT+QICSGP=1,1,\"CTNET\"", 500),
        ("AT+QIACT=1", 2000),
        ("AT+QIACT?", 500),
        ("AT+QIDNSCFG=1,\"114.114.114.114\",\"8.8.8.8\"", 500),
    ];
    for (index, command) in expected.iter().enumerate() {
        assert_eq!(bringup_command(index), *command);
    }
}

#[test]
fn bring_up_dialogue() {
    let (mut engine, first) = Engine::power_on(EnginePolicy::standard());
    assert_eq!(show(&first), "sleep 2000");
    assert_eq!(engine.phase(), Phase::BootSettle);
    assert!(!engine.is_ready());
    let mut shown = Vec::new();
    for round in 0..8 {
        shown.push(show(&engine.step(Event::Done)));
        shown.push(show(&engine.step(Event::Done)));
        shown.push(show(&engine.step(Event::Done)));
        let reply = match round % 4 {
            0 => Event::Data(b"OK\r\n"),
            1 => Event::TimedOut,
            2 => Event::ReadFailed,
            _ => Event::Data(b"ERROR\r\n"),
        };
        shown.push(show(&engine.step(reply)));
    }
    let lines = [
        ("AT", 500),
        ("AT+CPIN?", 500),
        ("AT+CREG?", 500),
        ("AT+CGATT=1", 1000),
        ("AT+QICSGP=1,1,\"CTNET\"", 500),
        ("AT+QIACT=1", 2000),
        ("AT+QIACT?", 500),
        ("AT+QIDNSCFG=1,\"114.114.114.114\",\"8.8.8.8\"", 500),
    ];
    let mut expected = Vec::new();
    for (line, rest) in lines {
        expected.push(format!("write {:?}", format!("{}\r\n", line)));
        expected.push("sleep 100".to_string());
        expected.push("read 2000 512".to_string());
        expected.push(format!("sleep {}", rest));
    }
    assert_eq!(shown, expected);
    assert!(!engine.is_ready());
    assert_eq!(show(&engine.step(Event::Done)), "await");
    assert!(engine.is_ready());
    assert_eq!(show(&engine.step(Event::Done)), "await");
    assert_eq!(engine.phase(), Phase::Ready);
}

#[test]
fn bring_up_without_pauses() {
    let (mut engine, first) = Engine::power_on(brisk(1, 1, 0));
    assert_eq!(show(&first), "write \"AT\\r\\n\"");
    assert_eq!(show(&engine.step(Event::Done)), "read 5 512");
    assert_eq!(show(&engine.step(Event::TimedOut)), "sleep 500");
    assert_eq!(show(&engine.step(Event::Done)), "write \"AT+CPIN?\\r\\n\"");
}

#[test]
fn command_bytes() {
    assert_eq!(command_line("AT+CREG?").as_bytes(), b"AT+CREG?\r\n");
    assert_eq!(command_line("").as_bytes(), b"\r\n");
    let request = ProxyRequest::new("example.com", "/");
    assert_eq!(
        open_line(&request).as_bytes(),
        b"AT+QIOPEN=1,0,\"TCP\",\"example.com\",80,0,1\r\n"
    );
    let nowhere = ProxyRequest::new("", "/");
    assert_eq!(open_line(&nowhere).as_bytes(), b"AT+QIOPEN=1,0,\"TCP\",\"\",80,0,1\r\n");
    assert_eq!(send_line(0).as_bytes(), b"AT+QISEND=0,0\r\n");
    assert_eq!(send_line(87).as_bytes(), b"AT+QISEND=0,87\r\n");
    assert_eq!(send_line(267).as_bytes(), b"AT+QISEND=0,267\r\n");
    assert_eq!(
        send_line(usize::MAX).as_str(),
        format!("AT+QISEND=0,{}\r\n", usize::MAX)
    );
    assert_eq!(close_line().as_bytes(), b"AT+QICLOSE=0\r\n");
}

#[test]
fn command_line_at_the_capacity() {
    let command = "c".repeat(254);
    assert_eq!(command_line(&command).as_str(), format!("{}\r\n", command));
    assert_eq!(command_line(&command).len(), 256);
    let command = "c".repeat(255);
    assert_eq!(command_line(&command).as_str(), command);
    let command = "c".repeat(256);
    assert_eq!(command_line(&command).as_str(), command);
    let command = "c".repeat(257);
    assert_eq!(command_line(&command).as_str(), "\r\n");
}

#[test]
fn command_lengths_at_the_extremes() {
    let longest = ProxyRequest::new(&"h".repeat(64), &"p".repeat(128));
    assert_eq!(open_line(&longest).len(), 95);
    assert_eq!(upstream_text(&longest).len(), 267);
    assert_eq!(send_line(upstream_text(&longest).len()).len(), 17);
    assert_eq!(close_line().len(), 14);
    let shortest = ProxyRequest::new("", "");
    assert_eq!(open_line(&shortest).len(), 31);
    assert_eq!(upstream_text(&shortest).len(), 75);
    assert_eq!(send_line(upstream_text(&shortest).len()).as_bytes(), b"AT+QISEND=0,75\r\n");
    for index in 0..8 {
        let (command, _) = bringup_command(index);
        assert_eq!(command_line(command).as_str(), format!("{}\r\n", command));
        assert!(command_line(command).len() <= 43);
    }
}

#[test]
fn upstream_request_bytes() {
    let request = ProxyRequest::new("example.com", "/page");
    assert_eq!(
        upstream_text(&request).as_bytes(),
        b"GET /page HTTP/1.1\r\nHost: example.com\r\nConnection: close\r\nUser-Agent: PicoLTE-Proxy/1.0\r\n\r\n"
    );
    assert_eq!(upstream_text(&request).len(), 91);
    let longest = ProxyRequest::new(&"h".repeat(64), &"p".repeat(128));
    assert_eq!(upstream_text(&longest).len(), 267);
}

#[test]
fn fetch_that_succeeds() {
    let mut engine = ready(EnginePolicy::standard());
    let first = engine.fetch(ProxyRequest::new("example.com", "/page")).ok().unwrap();
    assert_eq!(show(&first), "sleep 500");
    assert_eq!(engine.phase(), Phase::DrainSettle);
    let shown = play(
        &mut engine,
        &[
            Event::Done,
            Event::Data(b"stale"),
            Event::ReadFailed,
            Event::TimedOut,
            Event::Done,
            Event::Done,
            Event::TimedOut,
            Event::Done,
            Event::Data(b"\r\n+QIOPEN: 0,0\r\n"),
            Event::Done,
            Event::Done,
            Event::Done,
            Event::Data(b"\r\n> "),
            Event::Done,
            Event::Done,
            Event::TimedOut,
            Event::Done,
            Event::Data(b"\r\nSEND OK\r\n"),
            Event::Data(b"HTTP/1.1 200 OK\r\n\r\n<html>"),
            Event::TimedOut,
            Event::Data(b"hi</html>"),
            Event::Done,
            Event::Done,
        ],
    );
    let expected = [
        "read 100 256",
        "read 100 256",
        "read 100 256",
        "write \"AT+QIOPEN=1,0,\\\"TCP\\\",\\\"example.com\\\",80,0,1\\r\\n\"",
        "sleep 500",
        "read 500 256",
        "sleep 500",
        "read 500 256",
        "sleep 1000",
        "write \"AT+QISEND=0,91\\r\\n\"",
        "sleep 500",
        "read 5000 256",
        "write \"GET /page HTTP/1.1\\r\\nHost: example.com\\r\\nConnection: close\\r\\nUser-Agent: PicoLTE-Proxy/1.0\\r\\n\\r\\n\"",
        "sleep 500",
        "read 500 256",
        "sleep 100",
        "read 500 256",
        "read 500 512",
        "read 500 512",
        "read 500 512",
        "write \"AT+QICLOSE=0\\r\\n\"",
        "sleep 500",
        "finish true \"HTTP/1.1 200 OK\\r\\n\\r\\n<html>hi</html>\"",
    ];
    assert_eq!(shown, expected);
    assert!(engine.is_ready());
}

#[test]
fn open_token_never_seen() {
    let mut engine = ready(EnginePolicy::standard());
    let _ = engine.fetch(ProxyRequest::new("example.com", "/")).ok().unwrap();
    let _ = play(&mut engine, &[Event::Done, Event::TimedOut]);
    assert_eq!(engine.phase(), Phase::OpenWrite);
    let mut shown = vec![show(&engine.step(Event::Done))];
    for attempt in 0..20 {
        shown.push(show(&engine.step(Event::Done)));
        let reply = match attempt % 4 {
            0 => Event::TimedOut,
            1 => Event::Data(b"+QIOPEN: 0,563\r\n"),
            2 => Event::ReadFailed,
            _ => Event::Data(b"\xff+QIOPEN: 0,0"),
        };
        shown.push(show(&engine.step(reply)));
    }
    let mut expected = Vec::new();
    for _ in 0..20 {
        expected.push("sleep 500".to_string());
        expected.push("read 500 256".to_string());
    }
    expected.push("finish false \"TCP connection failed\"".to_string());
    assert_eq!(shown, expected);
    assert!(engine.is_ready());
}

#[test]
fn open_token_on_the_last_attempt() {
    let mut engine = ready(brisk(3, 1, 0));
    let _ = engine.fetch(ProxyRequest::new("h", "/")).ok().unwrap();
    let shown = play(
        &mut engine,
        &[
            Event::TimedOut,
            Event::Done,
            Event::TimedOut,
            Event::TimedOut,
            Event::Data(b"+QIOPEN: 0,0"),
        ],
    );
    assert_eq!(
        shown,
        [
            "write \"AT+QIOPEN=1,0,\\\"TCP\\\",\\\"h\\\",80,0,1\\r\\n\"",
            "read 5 256",
            "read 5 256",
            "read 5 256",
            "write \"AT+QISEND=0,77\\r\\n\"",
        ]
    );
}

#[test]
fn open_without_attempts_fails_at_once() {
    let mut engine = ready(brisk(0, 1, 0));
    let _ = engine.fetch(ProxyRequest::new("h", "/")).ok().unwrap();
    let shown = play(&mut engine, &[Event::TimedOut, Event::Done]);
    assert_eq!(shown[1], "finish false \"TCP connection failed\"");
}

#[test]
fn send_prompt_never_seen() {
    let mut engine = ready(EnginePolicy::standard());
    let _ = engine.fetch(ProxyRequest::new("example.com", "/")).ok().unwrap();
    let shown = play(
        &mut engine,
        &[
            Event::Done,
            Event::TimedOut,
            Event::Done,
            Event::Done,
            Event::Data(b"+QIOPEN: 0,0"),
            Event::Done,
            Event::Done,
            Event::Done,
            Event::Data(b"ERROR\r\n"),
            Event::Done,
        ],
    );
    assert_eq!(
        shown[6..],
        [
            "sleep 500",
            "read 5000 256",
            "write \"AT+QICLOSE=0\\r\\n\"",
            "finish false \"No send prompt\"",
        ]
    );
    assert!(engine.is_ready());
}

#[test]
fn send_acknowledgement_never_seen() {
    let mut engine = ready(EnginePolicy::standard());
    let _ = engine.fetch(ProxyRequest::new("example.com", "/")).ok().unwrap();
    let _ = play(
        &mut engine,
        &[
            Event::Done,
            Event::TimedOut,
            Event::Done,
            Event::Done,
            Event::Data(b"+QIOPEN: 0,0"),
            Event::Done,
            Event::Done,
            Event::Done,
            Event::Data(b">"),
            Event::Done,
        ],
    );
    assert_eq!(engine.phase(), Phase::SendSettle);
    let mut shown = vec![show(&engine.step(Event::Done))];
    for _ in 0..10 {
        shown.push(show(&engine.step(Event::Data(b"SEND FAIL"))));
        shown.push(show(&engine.step(Event::Done)));
    }
    let mut expected = Vec::new();
    for _ in 0..10 {
        expected.push("read 500 256".to_string());
        expected.push("sleep 100".to_string());
    }
    expected.push("read 500 512".to_string());
    assert_eq!(shown, expected);
    assert_eq!(engine.phase(), Phase::Collect { left: 60, quiet: 0 });
}

#[test]
fn drain_goes_on_until_a_read_times_out() {
    let mut engine = ready(brisk(1, 1, 0));
    let first = engine.fetch(ProxyRequest::new("h", "/")).ok().unwrap();
    assert_eq!(show(&first), "read 5 256");
    for _ in 0..500 {
        assert_eq!(show(&engine.step(Event::Data(b"+QIOPEN: 0,0"))), "read 5 256");
        assert_eq!(show(&engine.step(Event::ReadFailed)), "read 5 256");
        assert_eq!(show(&engine.step(Event::Done)), "read 5 256");
    }
    assert_eq!(engine.phase(), Phase::Draining);
    assert!(show(&engine.step(Event::TimedOut)).starts_with("write \"AT+QIOPEN"));
}

#[test]
fn collection_ends_with_a_terminal_marker() {
    let mut engine = collecting(60, 6);
    assert_eq!(show(&engine.step(Event::Data(b"<HTML>x</HT"))), "read 5 512");
    assert_eq!(show(&engine.step(Event::Data(b"ML>rest"))), "write \"AT+QICLOSE=0\\r\\n\"");
    assert_eq!(show(&engine.step(Event::Done)), "finish true \"<HTML>x</HTML>rest\"");
}

#[test]
fn collection_ends_when_the_line_is_quiet() {
    let mut engine = collecting(60, 6);
    for _ in 0..10 {
        assert_eq!(show(&engine.step(Event::TimedOut)), "read 5 512");
    }
    assert_eq!(show(&engine.step(Event::Data(b"partial"))), "read 5 512");
    assert_eq!(engine.phase(), Phase::Collect { left: 49, quiet: 0 });
    for quiet in 1..=6 {
        let event = if quiet % 2 == 0 { Event::TimedOut } else { Event::ReadFailed };
        assert_eq!(show(&engine.step(event)), "read 5 512");
        assert_eq!(engine.phase(), Phase::Collect { left: 49 - quiet, quiet });
    }
    assert_eq!(show(&engine.step(Event::TimedOut)), "write \"AT+QICLOSE=0\\r\\n\"");
    assert_eq!(show(&engine.step(Event::Done)), "finish true \"partial\"");
}

#[test]
fn text_resets_the_quiet_count() {
    let mut engine = collecting(60, 2);
    let _ = engine.step(Event::Data(b"a"));
    let _ = engine.step(Event::TimedOut);
    let _ = engine.step(Event::TimedOut);
    assert_eq!(engine.phase(), Phase::Collect { left: 57, quiet: 2 });
    let _ = engine.step(Event::Data(b""));
    assert_eq!(engine.phase(), Phase::Collect { left: 56, quiet: 0 });
    let _ = engine.step(Event::TimedOut);
    let _ = engine.step(Event::Data(b"\xc3"));
    assert_eq!(engine.phase(), Phase::Collect { left: 54, quiet: 1 });
    let _ = engine.step(Event::TimedOut);
    assert_eq!(show(&engine.step(Event::TimedOut)), "write \"AT+QICLOSE=0\\r\\n\"");
    assert_eq!(show(&engine.step(Event::Done)), "finish true \"a\"");
}

#[test]
fn collection_ends_with_its_last_read() {
    let mut engine = collecting(3, 6);
    assert_eq!(show(&engine.step(Event::TimedOut)), "read 5 512");
    assert_eq!(show(&engine.step(Event::Data(b"x"))), "read 5 512");
    assert_eq!(show(&engine.step(Event::Data(b"y"))), "write \"AT+QICLOSE=0\\r\\n\"");
    assert_eq!(show(&engine.step(Event::Done)), "finish true \"xy\"");
}

#[test]
fn collection_without_data_ends_with_its_last_read() {
    let mut engine = collecting(60, 6);
    for _ in 0..59 {
        assert_eq!(show(&engine.step(Event::TimedOut)), "read 5 512");
    }
    assert_eq!(show(&engine.step(Event::TimedOut)), "write \"AT+QICLOSE=0\\r\\n\"");
    assert_eq!(show(&engine.step(Event::Done)), "finish true \"\"");
}

#[test]
fn collection_without_reads_closes_at_once() {
    let mut engine = ready(brisk(1, 0, 0));
    let _ = engine.fetch(ProxyRequest::new("h", "/")).ok().unwrap();
    let shown = play(
        &mut engine,
        &[
            Event::TimedOut,
            Event::Done,
            Event::Data(b"+QIOPEN: 0,0"),
            Event::Done,
            Event::Data(b">"),
            Event::Done,
            Event::Data(b"SEND OK"),
            Event::Done,
        ],
    );
    assert_eq!(shown[6..], ["write \"AT+QICLOSE=0\\r\\n\"", "finish true \"\""]);
}

#[test]
fn transcript_takes_chunks_whole_or_not_at_all() {
    let mut engine = collecting(60, 6);
    let block = [b'a'; 512];
    for _ in 0..15 {
        let _ = engine.step(Event::Data(&block));
    }
    let _ = engine.step(Event::Data(&block[..511]));
    let _ = engine.step(Event::Data(b"bb"));
    let _ = engine.step(Event::Data(b"c"));
    let _ = engine.step(Event::Data(b"d"));
    for _ in 0..6 {
        let _ = engine.step(Event::TimedOut);
    }
    assert_eq!(show(&engine.step(Event::TimedOut)), "write \"AT+QICLOSE=0\\r\\n\"");
    match engine.step(Event::Done) {
        Action::Finish(result) => {
            assert!(result.succeeded());
            assert_eq!(result.payload().len(), 8192);
            assert_eq!(result.payload(), format!("{}c", "a".repeat(8191)));
        },
        other => panic!("{}", show(&other)),
    }
}

#[test]
fn transcript_starts_empty_for_every_fetch() {
    let mut engine = collecting(2, 0);
    let _ = engine.step(Event::Data(b"first"));
    let _ = engine.step(Event::TimedOut);
    assert_eq!(show(&engine.step(Event::Done)), "finish true \"first\"");
    let _ = engine.fetch(ProxyRequest::new("h", "/")).ok().unwrap();
    let shown = play(
        &mut engine,
        &[
            Event::TimedOut,
            Event::Done,
            Event::Data(b"+QIOPEN: 0,0"),
            Event::Done,
            Event::Data(b">"),
            Event::Done,
            Event::Data(b"SEND OK"),
            Event::TimedOut,
            Event::TimedOut,
            Event::Done,
        ],
    );
    assert_eq!(shown.last().unwrap(), "finish true \"\"");
}

#[test]
fn text_outside_the_collection_is_not_kept() {
    let mut engine = ready(brisk(2, 1, 0));
    let _ = engine.fetch(ProxyRequest::new("h", "/")).ok().unwrap();
    let shown = play(
        &mut engine,
        &[
            Event::Data(b"stale</html>"),
            Event::TimedOut,
            Event::Done,
            Event::Data(b"noise"),
            Event::Data(b"+QIOPEN: 0,0 extra"),
            Event::Done,
            Event::Data(b"> prompt"),
            Event::Done,
            Event::Data(b"SEND OK tail"),
            Event::TimedOut,
            Event::Done,
        ],
    );
    assert_eq!(shown.last().unwrap(), "finish true \"\"");
}

#[test]
fn garbled_bytes_carry_no_token() {
    let mut engine = ready(brisk(2, 1, 0));
    let _ = engine.fetch(ProxyRequest::new("h", "/")).ok().unwrap();
    let shown = play(
        &mut engine,
        &[Event::TimedOut, Event::Done, Event::Data(b"+QIOPEN: 0,0\xff"), Event::Data(b"\x80")],
    );
    assert_eq!(shown[2], "read 5 256");
    assert_eq!(shown[3], "finish false \"TCP connection failed\"");
}

#[test]
fn busy_engine_hands_the_request_back() {
    let (mut engine, _) = Engine::power_on(EnginePolicy::standard());
    let back = engine.fetch(ProxyRequest::new("early.example", "/a")).err().unwrap();
    assert_eq!(back.host(), "early.example");
    assert_eq!(back.path(), "/a");
    assert_eq!(engine.phase(), Phase::BootSettle);
    let mut engine = ready(EnginePolicy::standard());
    let _ = engine.fetch(ProxyRequest::new("one.example", "/")).ok().unwrap();
    let back = engine.fetch(ProxyRequest::new("two.example", "/b")).err().unwrap();
    assert_eq!(back.host(), "two.example");
    assert_eq!(engine.phase(), Phase::DrainSettle);
    let shown = play(&mut engine, &[Event::Done, Event::TimedOut]);
    assert!(shown[1].contains("one.example"));
}

#[test]
fn engine_keeps_its_policy() {
    let policy = brisk(4, 5, 6);
    let engine = ready(policy);
    assert_eq!(engine.policy(), policy);
}

#[test]
fn terminal_markers() {
    assert!(has_terminal_marker(b"<html>x</html>"));
    assert!(has_terminal_marker(b"x</HTML>y"));
    assert!(!has_terminal_marker(b"x</Html>y"));
    assert!(!has_terminal_marker(b"<html>"));
    assert!(!has_terminal_marker(b"</htm"));
    assert!(!has_terminal_marker(b""));
}

#[test]
fn quiescence() {
    assert!(is_quiescent(7, true, 6));
    assert!(!is_quiescent(6, true, 6));
    assert!(!is_quiescent(7, false, 6));
    assert!(!is_quiescent(0, true, 0));
    assert!(is_quiescent(1, true, 0));
    assert!(!is_quiescent(u32::MAX, true, u32::MAX));
}

#[test]
fn decisions_of_the_collecting_step() {
    let policy = EnginePolicy::standard();
    let silent = Observation { arrival: Arrival::Silent, token: false, marker: false, holding: true };
    assert_eq!(
        decide(Phase::Collect { left: 10, quiet: 5 }, &policy, silent),
        (Phase::Collect { left: 9, quiet: 6 }, Command::Read { timeout_ms: 500, capacity: 512 })
    );
    assert_eq!(
        decide(Phase::Collect { left: 10, quiet: 6 }, &policy, silent),
        (Phase::CloseWrite, Command::WriteClose)
    );
    let empty = Observation { holding: false, ..silent };
    assert_eq!(
        decide(Phase::Collect { left: 10, quiet: 6 }, &policy, empty),
        (Phase::Collect { left: 9, quiet: 7 }, Command::Read { timeout_ms: 500, capacity: 512 })
    );
    assert_eq!(
        decide(Phase::Collect { left: 10, quiet: u32::MAX }, &policy, empty),
        (
            Phase::Collect { left: 9, quiet: u32::MAX },
            Command::Read { timeout_ms: 500, capacity: 512 }
        )
    );
    assert_eq!(
        decide(Phase::Collect { left: 1, quiet: 0 }, &policy, empty),
        (Phase::CloseWrite, Command::WriteClose)
    );
    assert_eq!(
        decide(Phase::Collect { left: 0, quiet: 0 }, &policy, empty),
        (Phase::CloseWrite, Command::WriteClose)
    );
    let marked = Observation { arrival: Arrival::Text, token: false, marker: true, holding: true };
    assert_eq!(
        decide(Phase::Collect { left: 10, quiet: 3 }, &policy, marked),
        (Phase::CloseWrite, Command::WriteClose)
    );
    let garbled = Observation { arrival: Arrival::Garbled, ..marked };
    assert_eq!(
        decide(Phase::Collect { left: 10, quiet: 3 }, &policy, garbled),
        (Phase::Collect { left: 9, quiet: 3 }, Command::Read { timeout_ms: 500, capacity: 512 })
    );
}

#[test]
fn decisions_when_nothing_is_left() {
    let policy = EnginePolicy::standard();
    let miss = Observation { arrival: Arrival::Silent, token: false, marker: false, holding: false };
    assert_eq!(
        decide(Phase::OpenRead { left: 0 }, &policy, miss),
        (Phase::Ready, Command::Fail(Diagnostic::ConnectionFailed))
    );
    assert_eq!(
        decide(Phase::OpenRead { left: 1 }, &policy, miss),
        (Phase::Ready, Command::Fail(Diagnostic::ConnectionFailed))
    );
    assert_eq!(
        decide(Phase::OpenRead { left: 2 }, &policy, miss),
        (Phase::OpenPause { left: 1 }, Command::Sleep { ms: 500 })
    );
    assert_eq!(
        decide(Phase::PromptRead { left: 1 }, &policy, miss),
        (Phase::AbortClose, Command::WriteClose)
    );
    assert_eq!(
        decide(Phase::AbortClose, &policy, miss),
        (Phase::Ready, Command::Fail(Diagnostic::NoSendPrompt))
    );
    assert_eq!(
        decide(Phase::ConfirmPause { left: 0 }, &policy, miss),
        (Phase::Collect { left: 60, quiet: 0 }, Command::Read { timeout_ms: 500, capacity: 512 })
    );
    assert_eq!(
        decide(Phase::BootRest { index: 7 }, &policy, miss),
        (Phase::Ready, Command::AwaitRequest)
    );
    assert_eq!(
        decide(Phase::BootRest { index: usize::MAX }, &policy, miss),
        (Phase::Ready, Command::AwaitRequest)
    );
    assert_eq!(decide(Phase::CloseSettle, &policy, miss), (Phase::Ready, Command::Deliver));
}
