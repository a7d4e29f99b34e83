//! The asciicast v3 recorder: a header line of JSON, then one JSON array per
//! event, `[interval, code, data]`.
//!
//! The recorder decides what each event turns into; writing the lines out
//! and flushing them is up to its owner.
use crate::json::{
    decimal, json_quote, json_string, push_decimal, push_seconds, push_signed, seconds_text,
    signed_decimal,
};
use crate::session::Event;
use vstd::prelude::*;
use vstd::string::StringExecFns;

verus! {

/// The theme written in the header, colors as `#RRGGBB`.
#[derive(Debug, Clone)]
pub struct ThemeConfig {
    pub fg: String,
    pub bg: String,
    /// The palette colors, colon-separated.
    pub palette: Option<String>,
}

/// How a recording is made.
#[derive(Debug, Clone)]
pub struct RecorderConfig {
    pub output_path: String,
    /// Add to an existing file instead of replacing it.
    pub append: bool,
    /// The longest interval written, in microseconds.
    pub idle_time_limit: Option<u64>,
    pub title: Option<String>,
    pub command: Option<String>,
    /// Names of the environment variables recorded in the header.
    pub capture_env: Vec<String>,
    pub theme: Option<ThemeConfig>,
    pub term_type: Option<String>,
    /// Record what clients type; off by default.
    pub capture_input: bool,
}

/// Where a recording stands.
#[derive(Debug, Clone, Copy, PartialEq, Eq, Structural)]
pub enum Phase {
    /// Waiting for the Init event.
    NeedHeader,
    Recording,
    /// The child exited; nothing more is written.
    Closed,
}

pub struct RecorderState {
    pub phase: Phase,
    /// Whether the file has a header line already.
    pub header_written: bool,
    /// When the last event line was written.
    pub last_event_time: Option<u64>,
}

// ---------------------------------------------------------------------------
// The text of the file

/// An environment entry as it stands in the header's `env` object.
pub open spec fn env_member(e: (Seq<char>, Seq<char>)) -> Seq<char> {
    json_quote(e.0) + ":"@ + json_quote(e.1)
}

pub open spec fn env_text(es: Seq<(Seq<char>, Seq<char>)>) -> Seq<char>
    decreases es.len(),
{
    if es.len() == 0 {
        Seq::empty()
    } else if es.len() == 1 {
        env_member(es[0])
    } else {
        env_text(es.drop_last()) + ","@ + env_member(es.last())
    }
}

pub open spec fn named_before(names: Seq<String>, i: int) -> bool {
    exists|j: int| 0 <= j < i && (#[trigger] names[j])@ == names[i]@
}

/// The entries of the `env` object from the first `k` names: a name with a
/// value, the first time it is named; names without a value are left out.
pub open spec fn env_entries(names: Seq<String>, values: Seq<Option<String>>, k: nat) -> Seq<
    (Seq<char>, Seq<char>),
>
    decreases k,
{
    if k == 0 {
        Seq::empty()
    } else {
        let i = k - 1;
        env_entries(names, values, i as nat) + if i < values.len() && values[i] is Some
            && !named_before(names, i) {
            seq![(names[i]@, values[i]->0@)]
        } else {
            Seq::empty()
        }
    }
}

pub open spec fn opt_text(key: Seq<char>, v: Option<String>) -> Seq<char> {
    match v {
        Some(s) => key + json_quote(s@),
        None => Seq::empty(),
    }
}

pub open spec fn theme_text(theme: Option<ThemeConfig>) -> Seq<char> {
    match theme {
        Some(t) => ",\"theme\":{\"fg\":"@ + json_quote(t.fg@) + ",\"bg\":"@ + json_quote(t.bg@)
            + opt_text(",\"palette\":"@, t.palette) + "}"@,
        None => Seq::empty(),
    }
}

/// The header line: version, terminal, timestamp, then the optional fields
/// in the order idle time limit, command, title, environment.
pub open spec fn header_text(
    cfg: RecorderConfig,
    env: Seq<(Seq<char>, Seq<char>)>,
    cols: u16,
    rows: u16,
    timestamp: u64,
) -> Seq<char> {
    "{\"version\":3,\"term\":{\"cols\":"@ + decimal(cols as nat) + ",\"rows\":"@ + decimal(rows as nat)
        + opt_text(",\"type\":"@, cfg.term_type) + theme_text(cfg.theme) + "},\"timestamp\":"@
        + decimal(timestamp as nat) + idle_text(cfg.idle_time_limit) + opt_text(
        ",\"command\":"@,
        cfg.command,
    ) + opt_text(",\"title\":"@, cfg.title) + env_section(cfg, env) + "}"@
}

pub open spec fn idle_text(limit: Option<u64>) -> Seq<char> {
    match limit {
        Some(l) => ",\"idle_time_limit\":"@ + seconds_text(l as nat),
        None => Seq::empty(),
    }
}

/// The `env` object, present when any variable is named.
pub open spec fn env_section(cfg: RecorderConfig, env: Seq<(Seq<char>, Seq<char>)>) -> Seq<char> {
    if cfg.capture_env@.len() > 0 {
        ",\"env\":{"@ + env_text(env) + "}"@
    } else {
        Seq::empty()
    }
}

/// An event line with a string datum.
pub open spec fn event_line(interval: nat, code: Seq<char>, data: Seq<char>) -> Seq<char> {
    "["@ + seconds_text(interval) + ",\""@ + code + "\","@ + json_quote(data) + "]"@
}

/// The exit line: its datum is the status as a JSON number.
pub open spec fn exit_line(interval: nat, status: i32) -> Seq<char> {
    "["@ + seconds_text(interval) + ",\"x\","@ + signed_decimal(status as int) + "]"@
}

/// The datum of a resize line, `COLSxROWS`.
pub open spec fn size_text(cols: u16, rows: u16) -> Seq<char> {
    decimal(cols as nat) + "x"@ + decimal(rows as nat)
}

// ---------------------------------------------------------------------------
// The recorder as a state machine

pub open spec fn initial_state(cfg: RecorderConfig, file_exists: bool) -> RecorderState {
    RecorderState {
        phase: Phase::NeedHeader,
        header_written: cfg.append && file_exists,
        last_event_time: None,
    }
}

/// The interval written for an event at `now`: the time since the last line,
/// 0 for the first line after the header, at most the idle time limit.
pub open spec fn interval_for(cfg: RecorderConfig, st: RecorderState, now: u64) -> u64 {
    let raw: u64 = match st.last_event_time {
        Some(last) => if now >= last {
            (now - last) as u64
        } else {
            0
        },
        None => 0,
    };
    match cfg.idle_time_limit {
        Some(limit) => if raw <= limit {
            raw
        } else {
            limit
        },
        None => raw,
    }
}

/// What an event does: the state after it, and the line it writes, if any.
/// Init writes the header when the file has none, and never an event line.
pub open spec fn recorder_step(
    cfg: RecorderConfig,
    env: Seq<(Seq<char>, Seq<char>)>,
    st: RecorderState,
    ev: Event,
    now: u64,
    timestamp: u64,
) -> (RecorderState, Option<Seq<char>>) {
    let timed = RecorderState { last_event_time: Some(now), ..st };
    let iv = interval_for(cfg, st, now) as nat;
    if st.phase is Closed {
        (st, None)
    } else {
        match ev {
            Event::Init(_, cols, rows, _, _, _) => (
                RecorderState { phase: Phase::Recording, header_written: true, last_event_time: None },
                if st.header_written {
                    None
                } else {
                    Some(header_text(cfg, env, cols, rows, timestamp))
                },
            ),
            _ => if st.phase is NeedHeader {
                (st, None)
            } else {
                match ev {
                    Event::Output(_, d) => (timed, Some(event_line(iv, "o"@, d@))),
                    Event::Input(_, d) => if cfg.capture_input {
                        (timed, Some(event_line(iv, "i"@, d@)))
                    } else {
                        (st, None)
                    },
                    Event::Resize(_, c, r) => (timed, Some(event_line(iv, "r"@, size_text(c, r)))),
                    Event::Marker(_, l) => (timed, Some(event_line(iv, "m"@, l@))),
                    Event::Exit(_, s) => (
                        RecorderState { phase: Phase::Closed, ..timed },
                        Some(exit_line(iv, s)),
                    ),
                    _ => (st, None),
                }
            },
        }
    }
}

/// The lines that a run of events writes, each event with its time and the
/// wall-clock time in seconds.
pub open spec fn recorder_run(
    cfg: RecorderConfig,
    env: Seq<(Seq<char>, Seq<char>)>,
    st: RecorderState,
    evs: Seq<(Event, u64, u64)>,
) -> Seq<Seq<char>>
    decreases evs.len(),
{
    if evs.len() == 0 {
        Seq::empty()
    } else {
        let (next, line) = recorder_step(cfg, env, st, evs[0].0, evs[0].1, evs[0].2);
        (match line {
            Some(l) => seq![l],
            None => Seq::<Seq<char>>::empty(),
        }) + recorder_run(cfg, env, next, evs.drop_first())
    }
}

/// Writes an asciicast v3 recording.
pub struct AsciicastV3Recorder {
    config: RecorderConfig,
    env_values: Vec<Option<String>>,
    phase: Phase,
    header_written: bool,
    last_event_time: Option<u64>,
}

/// Appends `key` and `v` quoted, when there is a `v`.
fn push_opt(out: &mut String, key: &str, v: &Option<String>)
    ensures
        final(out)@ == old(out)@ + opt_text(key@, *v),
{
    match v {
        Some(s) => {
            let ghost o = out@;
            out.append(key);
            let q = json_string(s.as_str());
            out.append(q.as_str());
            assert(out@ =~= o + opt_text(key@, *v));
        },
        None => {
            assert(out@ =~= out@ + opt_text(key@, *v));
        },
    }
}

fn push_theme(out: &mut String, theme: &Option<ThemeConfig>)
    ensures
        final(out)@ == old(out)@ + theme_text(*theme),
{
    match theme {
        Some(t) => {
            let ghost o = out@;
            out.append(",\"theme\":{\"fg\":");
            let fg = json_string(t.fg.as_str());
            out.append(fg.as_str());
            out.append(",\"bg\":");
            let bg = json_string(t.bg.as_str());
            out.append(bg.as_str());
            push_opt(out, ",\"palette\":", &t.palette);
            out.append("}");
            assert(out@ =~= o + theme_text(*theme));
        },
        None => {
            assert(out@ =~= out@ + theme_text(*theme));
        },
    }
}

fn push_idle(out: &mut String, limit: Option<u64>)
    ensures
        final(out)@ == old(out)@ + idle_text(limit),
{
    match limit {
        Some(l) => {
            let ghost o = out@;
            out.append(",\"idle_time_limit\":");
            push_seconds(out, l);
            assert(out@ =~= o + idle_text(limit));
        },
        None => {
            assert(out@ =~= out@ + idle_text(limit));
        },
    }
}

impl AsciicastV3Recorder {
    pub closed spec fn state(&self) -> RecorderState {
        RecorderState {
            phase: self.phase,
            header_written: self.header_written,
            last_event_time: self.last_event_time,
        }
    }

    pub closed spec fn config_spec(&self) -> RecorderConfig {
        self.config
    }

    /// The `env` entries of the header.
    pub closed spec fn env_spec(&self) -> Seq<(Seq<char>, Seq<char>)> {
        env_entries(self.config.capture_env@, self.env_values@, self.config.capture_env@.len())
    }

    /// A recorder for `config`. `env_values` holds the value of each variable
    /// named in `config.capture_env`, in order, `None` where it is not set;
    /// `file_exists` tells whether the output file was there before, which
    /// in append mode means that it has its header.
    pub fn new(config: RecorderConfig, env_values: Vec<Option<String>>, file_exists: bool) -> (r: Self)
        ensures
            r.state() == initial_state(config, file_exists),
            r.config_spec() == config,
            r.env_spec() == env_entries(config.capture_env@, env_values@, config.capture_env@.len()),
    {
        let header_written = config.append && file_exists;
        AsciicastV3Recorder {
            config,
            env_values,
            phase: Phase::NeedHeader,
            header_written,
            last_event_time: None,
        }
    }

    fn push_env(&self, out: &mut String)
        ensures
            final(out)@ == old(out)@ + env_text(self.env_spec()),
    {
        let names = &self.config.capture_env;
        let values = &self.env_values;
        let ghost before = out@;
        let mut count: usize = 0;
        let mut i: usize = 0;
        while i < names.len()
            invariant
                i <= names@.len(),
                names == &self.config.capture_env,
                values == &self.env_values,
                count == env_entries(names@, values@, i as nat).len(),
                count <= i,
                out@ == before + env_text(env_entries(names@, values@, i as nat)),
            decreases names@.len() - i,
        {
            let ghost es = env_entries(names@, values@, i as nat);
            if i < values.len() {
                match &values[i] {
                    Some(v) => {
                        let mut seen = false;
                        let mut j: usize = 0;
                        while j < i
                            invariant
                                j <= i < names@.len(),
                                seen <==> exists|k: int| 0 <= k < j && (#[trigger] names@[k])@ == names@[i as int]@,
                            decreases i - j,
                        {
                            if names[j] == names[i] {
                                seen = true;
                            }
                            j += 1;
                        }
                        if !seen {
                            proof {
                                reveal_strlit(",");
                                reveal_strlit(":");
                            }
                            if count > 0 {
                                out.append(",");
                            }
                            let key = json_string(names[i].as_str());
                            out.append(key.as_str());
                            out.append(":");
                            let val = json_string(v.as_str());
                            out.append(val.as_str());
                            count = count + 1;
                            let ghost e = (names@[i as int]@, v@);
                            assert(env_entries(names@, values@, (i + 1) as nat) == es.push(e));
                            assert(es.push(e).drop_last() =~= es);
                            assert(out@ =~= before + env_text(es.push(e)));
                        } else {
                            assert(env_entries(names@, values@, (i + 1) as nat) =~= es);
                        }
                    },
                    None => {
                        assert(env_entries(names@, values@, (i + 1) as nat) =~= es);
                    },
                }
            } else {
                assert(env_entries(names@, values@, (i + 1) as nat) =~= es);
            }
            i += 1;
        }
    }

    /// The header line for a terminal of `cols` by `rows`, stamped with
    /// `timestamp`, in seconds since the epoch.
    pub fn header_line(&self, cols: u16, rows: u16, timestamp: u64) -> (r: String)
        ensures
            r@ == header_text(self.config_spec(), self.env_spec(), cols, rows, timestamp),
    {
        let cfg = &self.config;
        let mut out = String::from_str("{\"version\":3,\"term\":{\"cols\":");
        push_decimal(&mut out, cols as u64);
        out.append(",\"rows\":");
        push_decimal(&mut out, rows as u64);
        push_opt(&mut out, ",\"type\":", &cfg.term_type);
        push_theme(&mut out, &cfg.theme);
        out.append("},\"timestamp\":");
        push_decimal(&mut out, timestamp);
        push_idle(&mut out, cfg.idle_time_limit);
        push_opt(&mut out, ",\"command\":", &cfg.command);
        push_opt(&mut out, ",\"title\":", &cfg.title);
        self.push_env_section(&mut out);
        out.append("}");
        out
    }

    fn push_env_section(&self, out: &mut String)
        ensures
            final(out)@ == old(out)@ + env_section(self.config_spec(), self.env_spec()),
    {
        if self.config.capture_env.len() > 0 {
            let ghost o = out@;
            out.append(",\"env\":{");
            self.push_env(out);
            out.append("}");
            assert(out@ =~= o + env_section(self.config_spec(), self.env_spec()));
        } else {
            assert(out@ =~= out@ + env_section(self.config_spec(), self.env_spec()));
        }
    }

    /// The interval for an event at `now`, which becomes the time of the
    /// last line.
    pub fn calculate_interval(&mut self, now: u64) -> (r: u64)
        ensures
            r == interval_for(old(self).config_spec(), old(self).state(), now),
            final(self).state() == (RecorderState { last_event_time: Some(now), ..old(self).state() }),
            final(self).config_spec() == old(self).config_spec(),
            final(self).env_spec() == old(self).env_spec(),
    {
        let raw: u64 = match self.last_event_time {
            Some(last) => if now >= last {
                now - last
            } else {
                0
            },
            None => 0,
        };
        self.last_event_time = Some(now);
        match self.config.idle_time_limit {
            Some(limit) => if raw <= limit {
                raw
            } else {
                limit
            },
            None => raw,
        }
    }

    /// Takes one event, seen at `now` (microseconds) with the wall clock at
    /// `timestamp` (seconds), and gives the line to write for it, if any.
    pub fn handle_event(&mut self, event: Event, now: u64, timestamp: u64) -> (r: Option<String>)
        ensures
            ({
                let (st, line) = recorder_step(
                    old(self).config_spec(),
                    old(self).env_spec(),
                    old(self).state(),
                    event,
                    now,
                    timestamp,
                );
                &&& final(self).state() == st
                &&& match r {
                    Some(l) => line == Some(l@),
                    None => line is None,
                }
            }),
            final(self).config_spec() == old(self).config_spec(),
            final(self).env_spec() == old(self).env_spec(),
    {
        if self.phase == Phase::Closed {
            return None;
        }
        match event {
            Event::Init(_, cols, rows, _, _, _) => {
                let line = if self.header_written {
                    None
                } else {
                    Some(self.header_line(cols, rows, timestamp))
                };
                self.phase = Phase::Recording;
                self.header_written = true;
                self.last_event_time = None;
                return line;
            },
            _ => {},
        }
        if self.phase == Phase::NeedHeader {
            return None;
        }
        match event {
            Event::Output(_, data) => {
                let iv = self.calculate_interval(now);
                Some(encode_event_line(iv, "o", data.as_str()))
            },
            Event::Input(_, data) => {
                if self.config.capture_input {
                    let iv = self.calculate_interval(now);
                    Some(encode_event_line(iv, "i", data.as_str()))
                } else {
                    None
                }
            },
            Event::Resize(_, cols, rows) => {
                let iv = self.calculate_interval(now);
                let size = size_string(cols, rows);
                Some(encode_event_line(iv, "r", size.as_str()))
            },
            Event::Marker(_, label) => {
                let iv = self.calculate_interval(now);
                Some(encode_event_line(iv, "m", label.as_str()))
            },
            Event::Exit(_, status) => {
                let iv = self.calculate_interval(now);
                self.phase = Phase::Closed;
                Some(encode_exit_line(iv, status))
            },
            _ => None,
        }
    }
}

/// `COLSxROWS`.
pub fn size_string(cols: u16, rows: u16) -> (r: String)
    ensures
        r@ == size_text(cols, rows),
{
    let mut out = String::new();
    push_decimal(&mut out, cols as u64);
    out.append("x");
    push_decimal(&mut out, rows as u64);
    out
}

/// An event line `[interval,"code",data]`, the interval given in
/// microseconds and written in seconds.
pub fn encode_event_line(interval: u64, code: &str, data: &str) -> (r: String)
    ensures
        r@ == event_line(interval as nat, code@, data@),
{
    let mut out = String::new();
    out.append("[");
    push_seconds(&mut out, interval);
    out.append(",\"");
    out.append(code);
    out.append("\",");
    let q = json_string(data);
    out.append(q.as_str());
    out.append("]");
    assert(out@ =~= event_line(interval as nat, code@, data@));
    out
}

/// The exit line `[interval,"x",status]`, the status as a JSON number.
pub fn encode_exit_line(interval: u64, status: i32) -> (r: String)
    ensures
        r@ == exit_line(interval as nat, status),
{
    let mut out = String::new();
    out.append("[");
    push_seconds(&mut out, interval);
    out.append(",\"x\",");
    push_signed(&mut out, status as i64);
    out.append("]");
    assert(out@ =~= exit_line(interval as nat, status));
    out
}

// ---------------------------------------------------------------------------
// Laws

pub open spec fn starts_with(l: Seq<char>, c: char) -> bool {
    l.len() > 0 && l[0] == c
}

/// Every interval written is at most the idle time limit.
pub proof fn lemma_idle_clamp(cfg: RecorderConfig, st: RecorderState, now: u64, limit: u64)
    requires
        cfg.idle_time_limit == Some(limit),
    ensures
        interval_for(cfg, st, now) <= limit,
{
}

/// An Init event writes no event line: the only line it can write is the
/// header, so the redraw sequence it carries never reaches the file.
pub proof fn lemma_init_writes_no_event(
    cfg: RecorderConfig,
    env: Seq<(Seq<char>, Seq<char>)>,
    st: RecorderState,
    time: u64,
    cols: u16,
    rows: u16,
    pid: i32,
    init_seq: String,
    text_view: String,
    now: u64,
    timestamp: u64,
)
    ensures
        ({
            let line = recorder_step(
                cfg,
                env,
                st,
                Event::Init(time, cols, rows, pid, init_seq, text_view),
                now,
                timestamp,
            ).1;
            &&& line matches Some(l) ==> l == header_text(cfg, env, cols, rows, timestamp)
            &&& line matches Some(l) ==> starts_with(l, '{')
        }),
{
    lemma_header_starts(cfg, env, cols, rows, timestamp);
}

proof fn lemma_header_starts(
    cfg: RecorderConfig,
    env: Seq<(Seq<char>, Seq<char>)>,
    cols: u16,
    rows: u16,
    timestamp: u64,
)
    ensures
        starts_with(header_text(cfg, env, cols, rows, timestamp), '{'),
{
    reveal_strlit("{\"version\":3,\"term\":{\"cols\":");
}

proof fn lemma_event_lines_start(interval: nat, code: Seq<char>, data: Seq<char>, status: i32)
    ensures
        starts_with(event_line(interval, code, data), '['),
        starts_with(exit_line(interval, status), '['),
{
    reveal_strlit("[");
}

/// A state that a recorder can be in: it records only after the header.
pub open spec fn reachable(st: RecorderState) -> bool {
    st.phase is NeedHeader || st.header_written
}

/// In a run, every line but the first is an event line; when the file has
/// its header already, the first one is too.
pub proof fn lemma_run_lines(
    cfg: RecorderConfig,
    env: Seq<(Seq<char>, Seq<char>)>,
    st: RecorderState,
    evs: Seq<(Event, u64, u64)>,
)
    requires
        reachable(st),
    ensures
        ({
            let run = recorder_run(cfg, env, st, evs);
            forall|i: int|
                0 <= i < run.len() && (st.header_written || i > 0) ==> starts_with(
                    #[trigger] run[i],
                    '[',
                )
        }),
    decreases evs.len(),
{
    if evs.len() > 0 {
        let (ev, now, ts) = evs[0];
        let (next, line) = recorder_step(cfg, env, st, ev, now, ts);
        let rest = recorder_run(cfg, env, next, evs.drop_first());
        let head = match line {
            Some(l) => seq![l],
            None => Seq::<Seq<char>>::empty(),
        };
        assert(recorder_run(cfg, env, st, evs) == head + rest);
        lemma_run_lines(cfg, env, next, evs.drop_first());
        let iv = interval_for(cfg, st, now) as nat;
        lemma_event_lines_start(iv, "o"@, Seq::empty(), 0);
        match ev {
            Event::Output(_, d) => lemma_event_lines_start(iv, "o"@, d@, 0),
            Event::Input(_, d) => lemma_event_lines_start(iv, "i"@, d@, 0),
            Event::Resize(_, c, r) => lemma_event_lines_start(iv, "r"@, size_text(c, r), 0),
            Event::Marker(_, l) => lemma_event_lines_start(iv, "m"@, l@, 0),
            Event::Exit(_, s) => lemma_event_lines_start(iv, "x"@, Seq::empty(), s),
            _ => {},
        }
        assert(next.header_written || head.len() == 0);
        assert(st.header_written ==> next.header_written);
        assert(st.header_written && head.len() > 0 ==> starts_with(head[0], '['));
    }
}

/// Recording twice in append mode to one path: the first run starts the
/// file with its header, the second finds the file there and writes none,
/// so the file holds one header line, first, and event lines after it.
pub proof fn lemma_append_twice(
    cfg: RecorderConfig,
    env1: Seq<(Seq<char>, Seq<char>)>,
    env2: Seq<(Seq<char>, Seq<char>)>,
    evs1: Seq<(Event, u64, u64)>,
    evs2: Seq<(Event, u64, u64)>,
)
    requires
        cfg.append,
    ensures
        ({
            let all = recorder_run(cfg, env1, initial_state(cfg, false), evs1) + recorder_run(
                cfg,
                env2,
                initial_state(cfg, true),
                evs2,
            );
            &&& forall|i: int| 1 <= i < all.len() ==> starts_with(#[trigger] all[i], '[')
            &&& evs1.len() > 0 && evs1[0].0 is Init ==> starts_with(all[0], '{')
        }),
{
    let first = recorder_run(cfg, env1, initial_state(cfg, false), evs1);
    let second = recorder_run(cfg, env2, initial_state(cfg, true), evs2);
    lemma_run_lines(cfg, env1, initial_state(cfg, false), evs1);
    lemma_run_lines(cfg, env2, initial_state(cfg, true), evs2);
    let all = first + second;
    assert forall|i: int| 1 <= i < all.len() implies starts_with(#[trigger] all[i], '[') by {
        if i < first.len() {
            assert(all[i] == first[i]);
        } else {
            assert(all[i] == second[i - first.len()]);
        }
    }
    if evs1.len() > 0 && evs1[0].0 is Init {
        let (ev, now, ts) = evs1[0];
        match ev {
            Event::Init(t, c, r, p, s, v) => {
                lemma_header_starts(cfg, env1, c, r, ts);
                let (next, line) = recorder_step(cfg, env1, initial_state(cfg, false), ev, now, ts);
                assert(first == seq![line->0] + recorder_run(cfg, env1, next, evs1.drop_first()));
                assert(all[0] == first[0]);
            },
            _ => {},
        }
    }
}

} // verus!
