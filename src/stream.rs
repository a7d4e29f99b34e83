//! Live streaming of a session: the per-subscriber state that turns events
//! into ALiS frames or asciicast v3 lines, and the configuration of a stream
//! to an asciinema server.
use crate::alis::{
    alis_magic, magic_bytes,
    encode_exit, encode_init, encode_input, encode_marker, encode_output, encode_resize,
    frame_head, leb128, string_frame, theme_bytes, unsigned_status, ColorError, Theme,
};
use crate::asciicast::{recorder_step, AsciicastV3Recorder, RecorderConfig, RecorderState, ThemeConfig};
use crate::session::Event;
use vstd::prelude::*;
use vstd::string::StringExecFns;

verus! {

/// Why an event could not be encoded for a stream.
#[derive(Debug, Clone, Copy, PartialEq, Eq)]
pub enum StreamError {
    /// A theme color did not parse.
    Color(ColorError),
    /// Every 64-bit event id has been used.
    IdsExhausted,
}

/// Where an ALiS stream stands: the id of the last event sent and when it
/// was sent, in microseconds.
pub struct AlisPosition {
    pub event_id: u64,
    pub last_event_time: Option<u64>,
}

/// Microseconds since the last frame, or 0 for the first one.
pub open spec fn rel_time_for(last: Option<u64>, now: u64) -> u64 {
    match last {
        Some(l) => if now >= l {
            (now - l) as u64
        } else {
            0
        },
        None => 0,
    }
}

/// What an event does to an ALiS stream: the position after it, and the
/// frame it sends, if any. Init sends the last id and no time; every other
/// frame takes the next id and the time since the frame before it.
pub open spec fn alis_step(
    pos: AlisPosition,
    ev: Event,
    now: u64,
    theme: Option<Theme>,
    capture_input: bool,
) -> (AlisPosition, Result<Option<Seq<u8>>, StreamError>) {
    let id = (pos.event_id + 1) as nat;
    let next = AlisPosition { event_id: (pos.event_id + 1) as u64, last_event_time: Some(now) };
    let rel = rel_time_for(pos.last_event_time, now) as nat;
    let sends = match ev {
        Event::Init(..) => false,
        Event::Snapshot(..) => false,
        Event::Input(..) => capture_input,
        _ => true,
    };
    match ev {
        Event::Init(_, cols, rows, _, init_seq, _) => (
            AlisPosition { event_id: pos.event_id, last_event_time: Some(now) },
            match theme_bytes(theme) {
                Ok(tb) => Ok(
                    Some(
                        frame_head(0x01, pos.event_id as nat, 0) + leb128(cols as nat) + leb128(
                            rows as nat,
                        ) + tb + string_frame(init_seq@),
                    ),
                ),
                Err(e) => Err(StreamError::Color(e)),
            },
        ),
        _ => if !sends {
            (pos, Ok(None))
        } else if pos.event_id == u64::MAX {
            (pos, Err(StreamError::IdsExhausted))
        } else {
            (
                next,
                Ok(
                    Some(
                        match ev {
                            Event::Output(_, d) => frame_head(0x6F, id, rel) + string_frame(d@),
                            Event::Input(_, d) => frame_head(0x69, id, rel) + string_frame(d@),
                            Event::Resize(_, c, r) => frame_head(0x72, id, rel) + leb128(c as nat)
                                + leb128(r as nat),
                            Event::Marker(_, l) => frame_head(0x6D, id, rel) + string_frame(l@),
                            Event::Exit(_, s) => frame_head(0x78, id, rel) + leb128(
                                unsigned_status(s),
                            ),
                            _ => Seq::empty(),
                        },
                    ),
                ),
            )
        },
    }
}

/// The ids of the frames other than Init that a run of events sends, each
/// event with its time.
pub open spec fn alis_run_ids(
    pos: AlisPosition,
    evs: Seq<(Event, u64)>,
    theme: Option<Theme>,
    capture_input: bool,
) -> Seq<nat>
    decreases evs.len(),
{
    if evs.len() == 0 {
        Seq::empty()
    } else {
        let (next, out) = alis_step(pos, evs[0].0, evs[0].1, theme, capture_input);
        (if !(evs[0].0 is Init) && out matches Ok(Some(_)) {
            seq![next.event_id as nat]
        } else {
            Seq::<nat>::empty()
        }) + alis_run_ids(next, evs.drop_first(), theme, capture_input)
    }
}

/// One subscriber's ALiS encoder.
pub struct AlisState {
    event_id: u64,
    last_event_time: Option<u64>,
    start_time: u64,
}

impl AlisState {
    pub closed spec fn position(&self) -> AlisPosition {
        AlisPosition { event_id: self.event_id, last_event_time: self.last_event_time }
    }

    /// A fresh encoder: no event sent yet.
    pub fn new() -> (r: AlisState)
        ensures
            r.position() == (AlisPosition { event_id: 0, last_event_time: None }),
    {
        AlisState { event_id: 0, last_event_time: None, start_time: 0 }
    }

    /// Microseconds since the last frame (0 for the first), and `now`
    /// becomes the time of the last frame.
    pub fn calculate_rel_time_micros(&mut self, now: u64) -> (r: u64)
        ensures
            r == rel_time_for(old(self).position().last_event_time, now),
            final(self).position() == (AlisPosition {
                event_id: old(self).position().event_id,
                last_event_time: Some(now),
            }),
    {
        let micros: u64 = match self.last_event_time {
            Some(last) => if now >= last {
                now - last
            } else {
                0
            },
            None => 0,
        };
        self.last_event_time = Some(now);
        micros
    }

    fn next_id(&mut self) -> (r: Result<u64, StreamError>)
        ensures
            match r {
                Ok(id) => old(self).position().event_id < u64::MAX && id == old(self).position().event_id
                    + 1 && final(self).position() == (AlisPosition {
                    event_id: id,
                    last_event_time: old(self).position().last_event_time,
                }),
                Err(e) => old(self).position().event_id == u64::MAX && e == StreamError::IdsExhausted
                    && final(self).position() == old(self).position(),
            },
    {
        if self.event_id == u64::MAX {
            Err(StreamError::IdsExhausted)
        } else {
            self.event_id = self.event_id + 1;
            Ok(self.event_id)
        }
    }

    /// Turns an event seen at `now` into its frame, if it has one.
    pub fn convert(
        &mut self,
        event: Event,
        now: u64,
        theme: Option<&Theme>,
        capture_input: bool,
    ) -> (r: Result<Option<Vec<u8>>, StreamError>)
        ensures
            ({
                let (pos, out) = alis_step(
                    old(self).position(),
                    event,
                    now,
                    match theme {
                        Some(t) => Some(*t),
                        None => None,
                    },
                    capture_input,
                );
                &&& final(self).position() == pos
                &&& match r {
                    Ok(Some(v)) => out == Ok::<Option<Seq<u8>>, StreamError>(Some(v@)),
                    Ok(None) => out == Ok::<Option<Seq<u8>>, StreamError>(None),
                    Err(e) => out == Err::<Option<Seq<u8>>, StreamError>(e),
                }
            }),
    {
        match event {
            Event::Init(_, cols, rows, _, init_seq, _) => {
                self.start_time = now;
                self.last_event_time = Some(now);
                return match encode_init(self.event_id, 0, cols, rows, theme, init_seq.as_str()) {
                    Ok(bytes) => Ok(Some(bytes)),
                    Err(e) => Err(StreamError::Color(e)),
                };
            },
            Event::Snapshot(..) => {
                return Ok(None);
            },
            Event::Input(..) => {
                if !capture_input {
                    return Ok(None);
                }
            },
            _ => {},
        }
        let id = match self.next_id() {
            Ok(id) => id,
            Err(e) => return Err(e),
        };
        let rel_time = self.calculate_rel_time_micros(now);
        let bytes = match event {
            Event::Output(_, data) => encode_output(id, rel_time, data.as_str()),
            Event::Input(_, data) => encode_input(id, rel_time, data.as_str()),
            Event::Resize(_, cols, rows) => encode_resize(id, rel_time, cols, rows),
            Event::Marker(_, label) => encode_marker(id, rel_time, label.as_str()),
            Event::Exit(_, status) => encode_exit(id, rel_time, status),
            _ => Vec::new(),
        };
        Ok(Some(bytes))
    }
}

/// Within an ALiS stream that starts fresh, the frames after Init carry the
/// ids 1, 2, 3, ... in order.
pub proof fn lemma_alis_ids_count_from_one(
    evs: Seq<(Event, u64)>,
    theme: Option<Theme>,
    capture_input: bool,
    last_event_time: Option<u64>,
)
    ensures
        ({
            let ids = alis_run_ids(
                AlisPosition { event_id: 0, last_event_time },
                evs,
                theme,
                capture_input,
            );
            forall|i: int| 0 <= i < ids.len() ==> #[trigger] ids[i] == i + 1
        }),
{
    lemma_alis_ids_from(AlisPosition { event_id: 0, last_event_time }, evs, theme, capture_input);
}

/// The frames after Init carry consecutive ids, from the one after the last
/// sent.
pub proof fn lemma_alis_ids_from(
    pos: AlisPosition,
    evs: Seq<(Event, u64)>,
    theme: Option<Theme>,
    capture_input: bool,
)
    ensures
        ({
            let ids = alis_run_ids(pos, evs, theme, capture_input);
            forall|i: int| 0 <= i < ids.len() ==> #[trigger] ids[i] == pos.event_id + i + 1
        }),
    decreases evs.len(),
{
    if evs.len() > 0 {
        let (next, out) = alis_step(pos, evs[0].0, evs[0].1, theme, capture_input);
        lemma_alis_ids_from(next, evs.drop_first(), theme, capture_input);
        let rest = alis_run_ids(next, evs.drop_first(), theme, capture_input);
        let sent = !(evs[0].0 is Init) && out matches Ok(Some(_));
        if sent {
            assert(next.event_id == pos.event_id + 1);
        } else {
            assert(next.event_id == pos.event_id);
        }
    }
}

// ---------------------------------------------------------------------------
// Streaming to an asciinema server

/// The wire format of a stream.
#[derive(Debug, Clone, Copy, PartialEq, Eq, Structural)]
pub enum StreamProtocol {
    /// ALiS v1, binary frames.
    Alis,
    /// asciicast v3 lines, text frames.
    AsciicastV3,
}

/// A protocol name other than `alis` and `v3`.
#[derive(Debug, Clone, Copy, PartialEq, Eq)]
pub struct UnknownProtocol;

impl StreamProtocol {
    /// Reads a protocol name: `alis` or `v3`.
    pub fn parse(name: &str) -> (r: Result<StreamProtocol, UnknownProtocol>)
        ensures
            r == if name@ == "alis"@ {
                Ok::<StreamProtocol, UnknownProtocol>(StreamProtocol::Alis)
            } else if name@ == "v3"@ {
                Ok::<StreamProtocol, UnknownProtocol>(StreamProtocol::AsciicastV3)
            } else {
                Err::<StreamProtocol, UnknownProtocol>(UnknownProtocol)
            },
    {
        let given = String::from_str(name);
        if given == String::from_str("alis") {
            Ok(StreamProtocol::Alis)
        } else if given == String::from_str("v3") {
            Ok(StreamProtocol::AsciicastV3)
        } else {
            Err(UnknownProtocol)
        }
    }

    /// The WebSocket subprotocol that announces this format.
    pub fn subprotocol(self) -> (r: &'static str)
        ensures
            r@ == match self {
                StreamProtocol::Alis => "v1.alis"@,
                StreamProtocol::AsciicastV3 => "v3.asciicast"@,
            },
    {
        match self {
            StreamProtocol::Alis => "v1.alis",
            StreamProtocol::AsciicastV3 => "v3.asciicast",
        }
    }
}

/// How to reach the server and what to send it.
#[derive(Debug, Clone)]
pub struct StreamerConfig {
    pub server_url: String,
    pub install_id: Option<String>,
    pub install_id_path: Option<String>,
    pub title: Option<String>,
    pub visibility: Option<String>,
    pub protocol: StreamProtocol,
    pub capture_input: bool,
    pub theme: Option<Theme>,
    pub term_type: Option<String>,
}

/// A WebSocket message to send.
#[derive(Debug)]
pub enum Frame {
    Binary(Vec<u8>),
    Text(String),
}

pub open spec fn is_binary(f: Frame, b: Seq<u8>) -> bool {
    match f {
        Frame::Binary(v) => v@ == b,
        _ => false,
    }
}

pub open spec fn is_text(f: Frame, t: Seq<char>) -> bool {
    match f {
        Frame::Text(s) => s@ == t,
        _ => false,
    }
}

/// The palette entries joined by `:`, as asciicast writes a palette.
pub open spec fn joined(p: Seq<Seq<char>>) -> Seq<char>
    decreases p.len(),
{
    if p.len() == 0 {
        Seq::empty()
    } else if p.len() == 1 {
        p[0]
    } else {
        joined(p.drop_last()) + ":"@ + p.last()
    }
}

pub open spec fn opt_view(o: Option<String>) -> Option<Seq<char>> {
    match o {
        Some(s) => Some(s@),
        None => None,
    }
}

/// How the asciicast v3 lines of a stream are made: the stream's title,
/// terminal type and theme, and nothing else in the header.
pub open spec fn v3_config_matches(cfg: StreamerConfig, rc: RecorderConfig) -> bool {
    &&& !rc.append
    &&& rc.idle_time_limit is None
    &&& rc.command is None
    &&& rc.capture_env@.len() == 0
    &&& opt_view(rc.title) == opt_view(cfg.title)
    &&& opt_view(rc.term_type) == opt_view(cfg.term_type)
    &&& rc.capture_input == cfg.capture_input
    &&& match (cfg.theme, rc.theme) {
        (None, None) => true,
        (Some(t), Some(tc)) => tc.fg@ == t.fg@ && tc.bg@ == t.bg@ && if t.palette@.len() == 0 {
            tc.palette is None
        } else {
            opt_view(tc.palette) == Some(joined(t.palette@.map_values(|c: String| c@)))
        },
        _ => false,
    }
}

fn clone_opt(o: &Option<String>) -> (r: Option<String>)
    ensures
        opt_view(r) == opt_view(*o),
{
    match o {
        Some(s) => Some(s.clone()),
        None => None,
    }
}

fn join_palette(p: &Vec<String>) -> (r: String)
    ensures
        r@ == joined(p@.map_values(|c: String| c@)),
{
    let ghost pc = p@.map_values(|c: String| c@);
    let mut out = String::new();
    let mut i: usize = 0;
    while i < p.len()
        invariant
            i <= p@.len(),
            pc == p@.map_values(|c: String| c@),
            out@ == joined(pc.take(i as int)),
        decreases p@.len() - i,
    {
        if i > 0 {
            out.append(":");
        }
        out.append(p[i].as_str());
        proof {
            let t = pc.take(i + 1);
            assert(t.drop_last() =~= pc.take(i as int));
            assert(t.last() == p@[i as int]@);
            if i == 0 {
                assert(out@ =~= joined(t));
            }
        }
        i += 1;
    }
    assert(pc.take(p@.len() as int) =~= pc);
    out
}

fn v3_config(config: &StreamerConfig) -> (r: RecorderConfig)
    ensures
        v3_config_matches(*config, r),
{
    let theme = match &config.theme {
        Some(t) => Some(
            ThemeConfig {
                fg: t.fg.clone(),
                bg: t.bg.clone(),
                palette: if t.palette.len() == 0 {
                    None
                } else {
                    Some(join_palette(&t.palette))
                },
            },
        ),
        None => None,
    };
    RecorderConfig {
        output_path: String::new(),
        append: false,
        idle_time_limit: None,
        title: clone_opt(&config.title),
        command: None,
        capture_env: Vec::new(),
        theme,
        term_type: clone_opt(&config.term_type),
        capture_input: config.capture_input,
    }
}

/// Sends a session to an asciinema server: it turns each event into the
/// messages of the configured protocol.
pub struct AsciinemaServerStreamer {
    config: StreamerConfig,
    alis: AlisState,
    cast: AsciicastV3Recorder,
}

impl AsciinemaServerStreamer {
    pub closed spec fn config_spec(&self) -> StreamerConfig {
        self.config
    }

    pub closed spec fn alis_position(&self) -> AlisPosition {
        self.alis.position()
    }

    pub closed spec fn cast_config(&self) -> RecorderConfig {
        self.cast.config_spec()
    }

    pub closed spec fn cast_env(&self) -> Seq<(Seq<char>, Seq<char>)> {
        self.cast.env_spec()
    }

    pub closed spec fn cast_state(&self) -> RecorderState {
        self.cast.state()
    }

    pub fn new(config: StreamerConfig) -> (r: Self)
        ensures
            r.config_spec() == config,
            r.alis_position() == (AlisPosition { event_id: 0, last_event_time: None }),
            v3_config_matches(config, r.cast_config()),
            r.cast_env().len() == 0,
            r.cast_state() == crate::asciicast::initial_state(r.cast_config(), false),
    {
        let rc = v3_config(&config);
        let cast = AsciicastV3Recorder::new(rc, Vec::new(), false);
        AsciinemaServerStreamer { config, alis: AlisState::new(), cast }
    }

    pub fn protocol(&self) -> (r: StreamProtocol)
        ensures
            r == self.config_spec().protocol,
    {
        self.config.protocol
    }

    /// The messages sent once the socket is open: the ALiS magic, or nothing
    /// for asciicast v3.
    pub fn opening_frames(&self) -> (r: Vec<Frame>)
        ensures
            r@.len() == if self.config_spec().protocol is Alis {
                1int
            } else {
                0int
            },
            self.config_spec().protocol is Alis ==> is_binary(r@[0], magic_bytes()),
    {
        let mut frames: Vec<Frame> = Vec::new();
        if self.config.protocol == StreamProtocol::Alis {
            frames.push(Frame::Binary(alis_magic()));
        }
        frames
    }

    /// Microseconds since the last ALiS frame.
    pub fn calculate_rel_time_micros(&mut self, now: u64) -> (r: u64)
        ensures
            r == rel_time_for(old(self).alis_position().last_event_time, now),
            final(self).alis_position() == (AlisPosition {
                event_id: old(self).alis_position().event_id,
                last_event_time: Some(now),
            }),
            final(self).config_spec() == old(self).config_spec(),
    {
        self.alis.calculate_rel_time_micros(now)
    }

    /// The ALiS frame for an event seen at `now`, if it has one.
    pub fn encode_alis_event(&mut self, event: Event, now: u64) -> (r: Result<Vec<Frame>, StreamError>)
        ensures
            ({
                let (pos, out) = alis_step(
                    old(self).alis_position(),
                    event,
                    now,
                    old(self).config_spec().theme,
                    old(self).config_spec().capture_input,
                );
                &&& final(self).alis_position() == pos
                &&& match r {
                    Ok(frames) => match out {
                        Ok(Some(b)) => frames@.len() == 1 && is_binary(frames@[0], b),
                        Ok(None) => frames@.len() == 0,
                        Err(_) => false,
                    },
                    Err(e) => out == Err::<Option<Seq<u8>>, StreamError>(e),
                }
            }),
            final(self).config_spec() == old(self).config_spec(),
            final(self).cast_state() == old(self).cast_state(),
            final(self).cast_config() == old(self).cast_config(),
            final(self).cast_env() == old(self).cast_env(),
    {
        let mut frames: Vec<Frame> = Vec::new();
        match self.alis.convert(event, now, self.config.theme.as_ref(), self.config.capture_input) {
            Ok(Some(bytes)) => frames.push(Frame::Binary(bytes)),
            Ok(None) => {},
            Err(e) => return Err(e),
        }
        Ok(frames)
    }

    /// The asciicast v3 line for an event seen at `now`, with the wall clock
    /// at `timestamp`, if it has one. Init gives the header line.
    pub fn encode_v3_event(&mut self, event: Event, now: u64, timestamp: u64) -> (r: Vec<Frame>)
        ensures
            ({
                let (st, line) = recorder_step(
                    old(self).cast_config(),
                    old(self).cast_env(),
                    old(self).cast_state(),
                    event,
                    now,
                    timestamp,
                );
                &&& final(self).cast_state() == st
                &&& match line {
                    Some(l) => r@.len() == 1 && is_text(r@[0], l),
                    None => r@.len() == 0,
                }
            }),
            final(self).config_spec() == old(self).config_spec(),
            final(self).alis_position() == old(self).alis_position(),
            final(self).cast_config() == old(self).cast_config(),
            final(self).cast_env() == old(self).cast_env(),
    {
        let mut frames: Vec<Frame> = Vec::new();
        match self.cast.handle_event(event, now, timestamp) {
            Some(line) => frames.push(Frame::Text(line)),
            None => {},
        }
        frames
    }

    /// The messages for an event, in the configured protocol.
    pub fn encode_event(&mut self, event: Event, now: u64, timestamp: u64) -> (r: Result<Vec<Frame>, StreamError>)
        ensures
            final(self).config_spec() == old(self).config_spec(),
            match old(self).config_spec().protocol {
                StreamProtocol::Alis => {
                    let (pos, out) = alis_step(
                        old(self).alis_position(),
                        event,
                        now,
                        old(self).config_spec().theme,
                        old(self).config_spec().capture_input,
                    );
                    &&& final(self).alis_position() == pos
                    &&& match r {
                        Ok(frames) => match out {
                            Ok(Some(b)) => frames@.len() == 1 && is_binary(frames@[0], b),
                            Ok(None) => frames@.len() == 0,
                            Err(_) => false,
                        },
                        Err(e) => out == Err::<Option<Seq<u8>>, StreamError>(e),
                    }
                },
                StreamProtocol::AsciicastV3 => {
                    let (st, line) = recorder_step(
                        old(self).cast_config(),
                        old(self).cast_env(),
                        old(self).cast_state(),
                        event,
                        now,
                        timestamp,
                    );
                    &&& final(self).cast_state() == st
                    &&& match r {
                        Ok(frames) => match line {
                            Some(l) => frames@.len() == 1 && is_text(frames@[0], l),
                            None => frames@.len() == 0,
                        },
                        Err(_) => false,
                    }
                },
            },
    {
        match self.config.protocol {
            StreamProtocol::Alis => self.encode_alis_event(event, now),
            StreamProtocol::AsciicastV3 => Ok(self.encode_v3_event(event, now, timestamp)),
        }
    }
}

} // verus!
