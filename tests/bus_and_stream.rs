use ht::alis::{decode_leb128, Theme};
use ht::cli::{Size, SizeError};
use ht::session::{build_session, Event, Received, Session};
use ht::startup::{startup_step, StartupAction, StartupEvent, StartupPhase};
use ht::stream::{
    AlisState, AsciinemaServerStreamer, Frame, StreamError, StreamProtocol, StreamerConfig,
    UnknownProtocol,
};

fn drain(session: &Session, stream: &mut ht::session::EventStream) -> Vec<Received> {
    let mut out = Vec::new();
    loop {
        match session.recv(stream) {
            Received::Pending => break,
            Received::Closed => {
                out.push(Received::Closed);
                break;
            }
            r => out.push(r),
        }
    }
    out
}

#[test]
fn subscriber_sees_init_first_then_events_in_order() {
    let mut session = Session::new(80, 24, 0, 1_000);
    session.set_screen("SCREEN".to_string(), "text".to_string());
    let mut stream = session.subscribe(1_500);
    session.output("a".to_string(), 2_000);
    session.marker("m".to_string(), 3_000);
    session.exit(0, 4_000);
    session.output("after".to_string(), 5_000);
    let got = drain(&session, &mut stream);
    assert_eq!(got.len(), 5);
    match &got[0] {
        Received::Event(Event::Init(t, 80, 24, 0, seq, text)) => {
            assert_eq!(*t, 500);
            assert_eq!(seq, "SCREEN");
            assert_eq!(text, "text");
        }
        other => panic!("expected Init, got {:?}", other),
    }
    assert!(matches!(&got[1], Received::Event(Event::Output(1_000, d)) if d == "a"));
    assert!(matches!(&got[2], Received::Event(Event::Marker(2_000, l)) if l == "m"));
    assert!(matches!(&got[3], Received::Event(Event::Exit(3_000, 0))));
    assert!(matches!(&got[4], Received::Closed));
}

#[test]
fn late_subscriber_gets_init_not_earlier_output() {
    let mut session = Session::new(80, 24, 42, 0);
    for i in 0..3 {
        session.output(format!("out{}", i), i);
    }
    session.set_screen("CURRENT".to_string(), "view".to_string());
    let mut stream = session.subscribe(10);
    match session.recv(&mut stream) {
        Received::Event(Event::Init(_, 80, 24, 42, seq, _)) => assert_eq!(seq, "CURRENT"),
        other => panic!("expected Init, got {:?}", other),
    }
    assert!(matches!(session.recv(&mut stream), Received::Pending));
}

#[test]
fn slow_consumer_is_told_what_it_missed() {
    let mut session = Session::with_capacity(80, 24, 0, 0, 1024);
    let mut stream = session.subscribe(0);
    for i in 0..2000u64 {
        session.output(format!("{}", i), i);
    }
    let mut observed = 0u64;
    let mut lagged = 0u64;
    let mut lag_signals = 0;
    for r in drain(&session, &mut stream) {
        match r {
            Received::Event(Event::Init(..)) => {}
            Received::Event(_) => observed += 1,
            Received::Lagged(n) => {
                assert!(n > 0);
                lagged += n;
                lag_signals += 1;
            }
            _ => {}
        }
    }
    assert!(lag_signals >= 1);
    assert_eq!(observed + lagged, 2000);
    assert_eq!(lagged, 976);
}

#[test]
fn times_never_go_back() {
    let mut session = Session::new(80, 24, 0, 100);
    let mut stream = session.subscribe(100);
    session.output("a".to_string(), 500);
    session.output("b".to_string(), 50);
    session.resize(100, 30, 700);
    assert_eq!(session.cols(), 100);
    assert_eq!(session.rows(), 30);
    let mut last = 0;
    for r in drain(&session, &mut stream) {
        if let Received::Event(e) = r {
            let t = match e {
                Event::Init(t, ..) | Event::Output(t, _) | Event::Resize(t, ..) => t,
                _ => unreachable!(),
            };
            assert!(t >= last);
            last = t;
        }
    }
    assert_eq!(last, 600);
}

#[test]
fn snapshot_and_input_are_published() {
    let mut session = build_session(&Size::new(10, 5), 7, 0);
    assert_eq!(session.pid(), 7);
    session.set_pid(99);
    assert_eq!(session.pid(), 99);
    session.set_screen(String::new(), "hello".to_string());
    let mut stream = session.subscribe(0);
    session.snapshot(1);
    session.input("ls\n".to_string(), 2);
    let got = drain(&session, &mut stream);
    assert!(matches!(&got[0], Received::Event(Event::Init(0, 10, 5, 99, ..))));
    assert!(matches!(&got[1], Received::Event(Event::Snapshot(1, 10, 5, t)) if t == "hello"));
    assert!(matches!(&got[2], Received::Event(Event::Input(2, d)) if d == "ls\n"));
}

#[test]
fn size_parsing() {
    assert_eq!(Size::parse("120x40"), Ok(Size::new(120, 40)));
    assert_eq!(Size::parse("+80x24"), Ok(Size::new(80, 24)));
    assert_eq!(Size::parse("0x65535"), Ok(Size::new(0, 65535)));
    assert_eq!(Size::parse("80by24"), Err(SizeError::Format));
    assert_eq!(Size::parse("x24"), Err(SizeError::Cols));
    assert_eq!(Size::parse("65536x24"), Err(SizeError::Cols));
    assert_eq!(Size::parse("80x"), Err(SizeError::Rows));
    assert_eq!(Size::parse("80x24x1"), Err(SizeError::Rows));
    assert_eq!(Size::parse("8a0x24"), Err(SizeError::Cols));
    let size = Size::parse("132x43").unwrap();
    assert_eq!(size.cols(), 132);
    assert_eq!(size.rows(), 43);
    assert_eq!(size.to_text(), "132x43");
}

#[test]
fn protocol_names() {
    assert_eq!(StreamProtocol::parse("alis"), Ok(StreamProtocol::Alis));
    assert_eq!(StreamProtocol::parse("v3"), Ok(StreamProtocol::AsciicastV3));
    assert_eq!(StreamProtocol::parse("v2"), Err(UnknownProtocol));
    assert_eq!(StreamProtocol::Alis.subprotocol(), "v1.alis");
    assert_eq!(StreamProtocol::AsciicastV3.subprotocol(), "v3.asciicast");
}

fn streamer_config(protocol: StreamProtocol, theme: Option<Theme>) -> StreamerConfig {
    StreamerConfig {
        server_url: "https://example.org".to_string(),
        install_id: Some("id".to_string()),
        install_id_path: None,
        title: Some("demo".to_string()),
        visibility: None,
        protocol,
        capture_input: false,
        theme,
        term_type: None,
    }
}

fn binary(frames: Vec<Frame>) -> Vec<u8> {
    assert_eq!(frames.len(), 1);
    match frames.into_iter().next().unwrap() {
        Frame::Binary(b) => b,
        Frame::Text(t) => panic!("unexpected text frame {}", t),
    }
}

#[test]
fn alis_stream_ids_count_from_one() {
    let mut streamer = AsciinemaServerStreamer::new(streamer_config(StreamProtocol::Alis, None));
    let opening = streamer.opening_frames();
    assert_eq!(opening.len(), 1);
    assert!(matches!(&opening[0], Frame::Binary(b) if b == b"ALiS\x01"));
    let init = binary(streamer.encode_event(Event::Init(0, 80, 24, 1, "S".to_string(), String::new()), 100, 0).unwrap());
    assert_eq!(&init[..6], &[0x01, 0x00, 0x00, 0x50, 0x18, 0x00]);
    assert_eq!(&init[6..], &[0x01, b'S']);
    let mut ids = Vec::new();
    let mut rels = Vec::new();
    let events = vec![
        Event::Output(0, "a".to_string()),
        Event::Input(0, "secret".to_string()),
        Event::Resize(0, 100, 30),
        Event::Snapshot(0, 1, 1, String::new()),
        Event::Marker(0, "m".to_string()),
        Event::Exit(0, 0),
    ];
    let mut now = 100;
    for ev in events {
        now += 250;
        let frames = streamer.encode_event(ev, now, 0).unwrap();
        if let Some(Frame::Binary(b)) = frames.into_iter().next() {
            let (id, used) = decode_leb128(&b[1..]).unwrap();
            let (rel, _) = decode_leb128(&b[1 + used..]).unwrap();
            rels.push(rel);
            ids.push(id);
        }
    }
    assert_eq!(ids, vec![1, 2, 3, 4]);
    // Skipped events send nothing, so the time runs on to the next frame.
    assert_eq!(rels, vec![250, 500, 500, 250]);
}

#[test]
fn alis_output_frame_after_init() {
    let mut state = AlisState::new();
    let init = state.convert(Event::Init(0, 80, 24, 1, "xy".to_string(), String::new()), 1000, None, false).unwrap().unwrap();
    assert_eq!(init, vec![0x01, 0x00, 0x00, 0x50, 0x18, 0x00, 0x02, b'x', b'y']);
    let out = state.convert(Event::Output(0, "hello".to_string()), 1300, None, false).unwrap().unwrap();
    assert_eq!(out, vec![0x6F, 0x01, 0xAC, 0x02, 0x05, b'h', b'e', b'l', b'l', b'o']);
    assert_eq!(state.calculate_rel_time_micros(1250), 0);
    assert_eq!(state.calculate_rel_time_micros(1400), 150);
}

#[test]
fn alis_stream_reports_bad_theme() {
    let theme = Theme { fg: "#fff".to_string(), bg: "#000000".to_string(), palette: vec!["#000000".to_string()] };
    let mut streamer = AsciinemaServerStreamer::new(streamer_config(StreamProtocol::Alis, Some(theme)));
    let r = streamer.encode_event(Event::Init(0, 80, 24, 1, String::new(), String::new()), 0, 0);
    assert!(matches!(r, Err(StreamError::Color(_))));
}

#[test]
fn v3_stream_sends_header_and_lines() {
    let theme = Theme {
        fg: "#ffffff".to_string(),
        bg: "#000000".to_string(),
        palette: vec!["#111111".to_string(), "#222222".to_string()],
    };
    let mut streamer = AsciinemaServerStreamer::new(streamer_config(StreamProtocol::AsciicastV3, Some(theme)));
    assert!(streamer.opening_frames().is_empty());
    let mut texts = Vec::new();
    for (ev, now) in vec![
        (Event::Init(0, 80, 24, 1, "INIT".to_string(), String::new()), 0u64),
        (Event::Output(0, "hi".to_string()), 2_000_000),
        (Event::Exit(0, 1), 2_500_000),
    ] {
        for f in streamer.encode_event(ev, now, 99).unwrap() {
            match f {
                Frame::Text(t) => texts.push(t),
                Frame::Binary(_) => panic!("binary frame in a v3 stream"),
            }
        }
    }
    assert_eq!(
        texts,
        vec![
            r##"{"version":3,"term":{"cols":80,"rows":24,"theme":{"fg":"#ffffff","bg":"#000000","palette":"#111111:#222222"}},"timestamp":99,"title":"demo"}"##.to_string(),
            r#"[0.0,"o","hi"]"#.to_string(),
            r#"[0.5,"x",1]"#.to_string(),
        ]
    );
}

#[test]
fn startup_spawns_only_after_accept() {
    let (p, a) = startup_step(StartupPhase::AwaitingClient, StartupEvent::Ready);
    assert_eq!((p, a), (StartupPhase::AwaitingClient, StartupAction::Wait));
    let (p, a) = startup_step(p, StartupEvent::ClientRequested);
    assert_eq!((p, a), (StartupPhase::AwaitingReady, StartupAction::AcceptClient));
    let (p, a) = startup_step(p, StartupEvent::Ready);
    assert_eq!((p, a), (StartupPhase::Running, StartupAction::SpawnPty));
    let (p, a) = startup_step(p, StartupEvent::Ready);
    assert_eq!((p, a), (StartupPhase::Running, StartupAction::Wait));
    let (p, a) = startup_step(StartupPhase::AwaitingReady, StartupEvent::ReadyDropped);
    assert_eq!((p, a), (StartupPhase::Failed, StartupAction::Abort));
    let (p, a) = startup_step(StartupPhase::AwaitingClient, StartupEvent::ClientChannelClosed);
    assert_eq!((p, a), (StartupPhase::Failed, StartupAction::Abort));
}

#[test]
fn closing_ends_streams_without_an_exit_event() {
    let mut session = Session::new(80, 24, 0, 0);
    let mut stream = session.subscribe(0);
    session.output("a".to_string(), 1);
    session.close();
    session.output("ignored".to_string(), 2);
    let got = drain(&session, &mut stream);
    assert_eq!(got.len(), 3);
    assert!(matches!(&got[1], Received::Event(Event::Output(1, d)) if d == "a"));
    assert!(matches!(&got[2], Received::Closed));
}

#[test]
fn fresh_subscriber_is_not_lagged() {
    let mut session = Session::with_capacity(80, 24, 0, 0, 2);
    for i in 0..5u64 {
        session.output(format!("{}", i), i);
    }
    let mut stream = session.subscribe(10);
    assert!(matches!(session.recv(&mut stream), Received::Event(Event::Init(..))));
    session.output("next".to_string(), 11);
    assert!(matches!(session.recv(&mut stream), Received::Event(Event::Output(11, d)) if d == "next"));
}
