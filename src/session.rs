//! The session event bus: one producer stamps and publishes events, and any
//! number of subscribers read them back, each at its own pace, from a
//! bounded backlog. A subscriber that falls more than the backlog behind is
//! told how many events it missed and goes on with the oldest one kept.
use crate::cli::Size;
use std::collections::VecDeque;
use vstd::prelude::*;

verus! {

/// What crosses the bus. Times are microseconds since the session started.
#[derive(Debug, Clone, PartialEq)]
pub enum Event {
    /// The state of the session for a new subscriber: time, columns, rows,
    /// child PID, the bytes that redraw the screen, and the screen as text.
    Init(u64, u16, u16, i32, String, String),
    /// Bytes from the terminal to its user.
    Output(u64, String),
    /// Bytes written to the terminal by a client.
    Input(u64, String),
    /// New window size: columns, rows.
    Resize(u64, u16, u16),
    /// A chapter label.
    Marker(u64, String),
    /// A text snapshot of the screen: columns, rows, text.
    Snapshot(u64, u16, u16, String),
    /// The child process ended with this status.
    Exit(u64, i32),
}

pub open spec fn event_time(e: Event) -> u64 {
    match e {
        Event::Init(t, _, _, _, _, _) => t,
        Event::Output(t, _) => t,
        Event::Input(t, _) => t,
        Event::Resize(t, _, _) => t,
        Event::Marker(t, _) => t,
        Event::Snapshot(t, _, _, _) => t,
        Event::Exit(t, _) => t,
    }
}

impl Event {
    /// A copy of the event.
    pub fn duplicate(&self) -> (r: Event)
        ensures
            r == *self,
    {
        match self {
            Event::Init(t, c, r, p, s, v) => Event::Init(*t, *c, *r, *p, s.clone(), v.clone()),
            Event::Output(t, d) => Event::Output(*t, d.clone()),
            Event::Input(t, d) => Event::Input(*t, d.clone()),
            Event::Resize(t, c, r) => Event::Resize(*t, *c, *r),
            Event::Marker(t, l) => Event::Marker(*t, l.clone()),
            Event::Snapshot(t, c, r, s) => Event::Snapshot(*t, *c, *r, s.clone()),
            Event::Exit(t, s) => Event::Exit(*t, *s),
        }
    }
}

/// What a subscriber gets when it asks for the next event.
#[derive(Debug)]
pub enum Received {
    Event(Event),
    /// The subscriber fell behind and this many events were dropped for it.
    Lagged(u64),
    /// Nothing new yet.
    Pending,
    /// The session has ended and everything was read.
    Closed,
}

/// One subscriber's place in the event stream.
pub struct EventStream {
    init: Option<Event>,
    cursor: u64,
}

impl EventStream {
    #[verifier::type_invariant]
    spec fn init_first(self) -> bool {
        self.init matches Some(e) ==> e is Init
    }

    /// The Init event this subscriber has still to read, if any.
    pub closed spec fn pending_init(self) -> Option<Event> {
        self.init
    }

    /// The sequence number of the next broadcast event for this subscriber.
    pub closed spec fn position(self) -> nat {
        self.cursor as nat
    }
}

/// The default number of events kept for subscribers that lag.
pub const DEFAULT_CAPACITY: usize = 1024;

/// The session: the terminal's current state and the broadcast backlog.
pub struct Session {
    cols: u16,
    rows: u16,
    pid: i32,
    start: u64,
    last_stamp: u64,
    cursor_key_app_mode: bool,
    init_seq: String,
    text_view: String,
    capacity: usize,
    backlog: VecDeque<Event>,
    first_seq: u64,
    exited: bool,
    closed: bool,
    published: Ghost<Seq<Event>>,
}

impl Session {
    /// Every event published so far, in order, whether or not it is still kept.
    pub closed spec fn history(&self) -> Seq<Event> {
        self.published@
    }

    /// The sequence number of the oldest event still kept.
    pub closed spec fn oldest(&self) -> nat {
        self.first_seq as nat
    }

    pub closed spec fn capacity_spec(&self) -> nat {
        self.capacity as nat
    }

    pub closed spec fn has_exited(&self) -> bool {
        self.exited
    }

    /// Whether the producer has ended the session without an exit status.
    pub closed spec fn is_closed(&self) -> bool {
        self.closed
    }

    pub closed spec fn size_spec(&self) -> (u16, u16) {
        (self.cols, self.rows)
    }

    pub closed spec fn pid_spec(&self) -> i32 {
        self.pid
    }

    pub closed spec fn screen_spec(&self) -> (Seq<char>, Seq<char>) {
        (self.init_seq@, self.text_view@)
    }

    pub closed spec fn cursor_mode_spec(&self) -> bool {
        self.cursor_key_app_mode
    }

    pub closed spec fn init_seq_spec(&self) -> String {
        self.init_seq
    }

    pub closed spec fn text_view_spec(&self) -> String {
        self.text_view
    }

    pub closed spec fn start_spec(&self) -> u64 {
        self.start
    }

    /// The latest time stamped; no later event is stamped earlier.
    pub closed spec fn last_stamp_spec(&self) -> u64 {
        self.last_stamp
    }

    /// What a well-formed session keeps: a backlog of at least one slot that
    /// holds the newest events, no Init among the published events, and
    /// time stamps that never go back.
    pub proof fn lemma_wf_facts(&self)
        requires
            self.wf(),
        ensures
            self.capacity_spec() >= 1,
            self.oldest() <= self.history().len(),
            self.history().len() - self.oldest() <= self.capacity_spec(),
            forall|i: int| 0 <= i < self.history().len() ==> !(#[trigger] self.history()[i] is Init),
            forall|i: int, j: int|
                0 <= i < j < self.history().len() ==> event_time(#[trigger] self.history()[i])
                    <= event_time(#[trigger] self.history()[j]),
            forall|i: int|
                0 <= i < self.history().len() ==> event_time(#[trigger] self.history()[i])
                    <= self.last_stamp_spec(),
            self.has_exited() ==> self.history().len() > 0 && self.history().last() is Exit,
    {
    }

    /// Whether a published event is still taken: once the child has exited,
    /// or the session was closed,
    /// or the sequence numbers have run out, nothing more is.
    pub open spec fn accepting(&self) -> bool {
        !self.has_exited() && !self.is_closed() && self.history().len() < u64::MAX
    }

    pub closed spec fn wf(&self) -> bool {
        &&& self.capacity >= 1
        &&& self.backlog@.len() <= self.capacity
        &&& self.published@.len() == self.first_seq + self.backlog@.len()
        &&& self.published@.len() <= u64::MAX
        &&& self.backlog@ == self.published@.subrange(self.first_seq as int, self.published@.len() as int)
        &&& forall|i: int| 0 <= i < self.published@.len() ==> !(#[trigger] self.published@[i] is Init)
        &&& forall|i: int, j: int|
            0 <= i < j < self.published@.len() ==> event_time(#[trigger] self.published@[i])
                <= event_time(#[trigger] self.published@[j])
        &&& forall|i: int|
            0 <= i < self.published@.len() ==> event_time(#[trigger] self.published@[i])
                <= self.last_stamp
        &&& self.exited ==> self.published@.len() > 0 && self.published@.last() is Exit
    }

    /// A session with the given size and child PID whose clock starts at
    /// `now`, keeping up to `capacity` events for lagging subscribers.
    pub fn with_capacity(cols: u16, rows: u16, pid: i32, now: u64, capacity: usize) -> (r: Session)
        requires
            capacity >= 1,
        ensures
            r.wf(),
            r.history() == Seq::<Event>::empty(),
            r.oldest() == 0,
            r.capacity_spec() == capacity,
            !r.has_exited(),
            !r.is_closed(),
            r.size_spec() == (cols, rows),
            r.pid_spec() == pid,
            r.start_spec() == now,
            r.last_stamp_spec() == 0,
            r.screen_spec() == (Seq::<char>::empty(), Seq::<char>::empty()),
    {
        let r = Session {
            cols,
            rows,
            pid,
            start: now,
            last_stamp: 0,
            cursor_key_app_mode: false,
            init_seq: String::new(),
            text_view: String::new(),
            capacity,
            backlog: VecDeque::new(),
            first_seq: 0,
            exited: false,
            closed: false,
            published: Ghost(Seq::empty()),
        };
        assert(r.backlog@ =~= r.published@.subrange(0, 0));
        r
    }

    /// A session keeping the default number of events.
    pub fn new(cols: u16, rows: u16, pid: i32, now: u64) -> (r: Session)
        ensures
            r.wf(),
            r.history() == Seq::<Event>::empty(),
            r.oldest() == 0,
            r.capacity_spec() == DEFAULT_CAPACITY,
            !r.has_exited(),
            !r.is_closed(),
            r.size_spec() == (cols, rows),
            r.pid_spec() == pid,
            r.start_spec() == now,
            r.last_stamp_spec() == 0,
            r.screen_spec() == (Seq::<char>::empty(), Seq::<char>::empty()),
    {
        Session::with_capacity(cols, rows, pid, now, DEFAULT_CAPACITY)
    }

    /// The sequence number the next published event will get.
    pub fn next_seq(&self) -> (r: u64)
        requires
            self.wf(),
        ensures
            r == self.history().len(),
    {
        self.first_seq + self.backlog.len() as u64
    }

    pub fn cols(&self) -> (r: u16)
        ensures
            r == self.size_spec().0,
    {
        self.cols
    }

    pub fn rows(&self) -> (r: u16)
        ensures
            r == self.size_spec().1,
    {
        self.rows
    }

    pub fn pid(&self) -> (r: i32)
        ensures
            r == self.pid_spec(),
    {
        self.pid
    }

    /// Records the child's PID once the terminal's process is started.
    pub fn set_pid(&mut self, pid: i32)
        requires
            old(self).wf(),
        ensures
            final(self).wf(),
            final(self).pid_spec() == pid,
            final(self).history() == old(self).history(),
            final(self).oldest() == old(self).oldest(),
            final(self).has_exited() == old(self).has_exited(),
            final(self).is_closed() == old(self).is_closed(),
            final(self).size_spec() == old(self).size_spec(),
            final(self).screen_spec() == old(self).screen_spec(),
            final(self).start_spec() == old(self).start_spec(),
            final(self).last_stamp_spec() == old(self).last_stamp_spec(),
            final(self).capacity_spec() == old(self).capacity_spec(),
    {
        self.pid = pid;
    }

    /// Takes in what the terminal emulator reports: the bytes that redraw
    /// the screen and the screen as text. Later subscribers get these.
    pub fn set_screen(&mut self, init_seq: String, text_view: String)
        requires
            old(self).wf(),
        ensures
            final(self).wf(),
            final(self).screen_spec() == (init_seq@, text_view@),
            final(self).pid_spec() == old(self).pid_spec(),
            final(self).history() == old(self).history(),
            final(self).oldest() == old(self).oldest(),
            final(self).has_exited() == old(self).has_exited(),
            final(self).is_closed() == old(self).is_closed(),
            final(self).size_spec() == old(self).size_spec(),
            final(self).start_spec() == old(self).start_spec(),
            final(self).last_stamp_spec() == old(self).last_stamp_spec(),
            final(self).capacity_spec() == old(self).capacity_spec(),
    {
        self.init_seq = init_seq;
        self.text_view = text_view;
    }

    /// Whether the terminal's cursor keys are in application mode.
    pub fn cursor_key_app_mode(&self) -> (r: bool)
        ensures
            r == self.cursor_mode_spec(),
    {
        self.cursor_key_app_mode
    }

    pub fn set_cursor_key_app_mode(&mut self, on: bool)
        requires
            old(self).wf(),
        ensures
            final(self).wf(),
            final(self).history() == old(self).history(),
            final(self).oldest() == old(self).oldest(),
            final(self).has_exited() == old(self).has_exited(),
            final(self).is_closed() == old(self).is_closed(),
            final(self).size_spec() == old(self).size_spec(),
            final(self).pid_spec() == old(self).pid_spec(),
            final(self).screen_spec() == old(self).screen_spec(),
            final(self).cursor_mode_spec() == on,
            final(self).start_spec() == old(self).start_spec(),
            final(self).last_stamp_spec() == old(self).last_stamp_spec(),
            final(self).capacity_spec() == old(self).capacity_spec(),
    {
        self.cursor_key_app_mode = on;
    }

    /// The time stamp for `now`: the time since the start, but never less
    /// than the last stamp given.
    pub open spec fn stamp_for(&self, now: u64) -> u64 {
        let elapsed = if now >= self.start_spec() {
            (now - self.start_spec()) as u64
        } else {
            0u64
        };
        if elapsed >= self.last_stamp_spec() {
            elapsed
        } else {
            self.last_stamp_spec()
        }
    }

    fn stamp(&mut self, now: u64) -> (r: u64)
        requires
            old(self).wf(),
        ensures
            r == old(self).stamp_for(now),
            final(self).wf(),
            final(self).last_stamp_spec() == r,
            final(self).history() == old(self).history(),
            final(self).oldest() == old(self).oldest(),
            final(self).has_exited() == old(self).has_exited(),
            final(self).is_closed() == old(self).is_closed(),
            final(self).size_spec() == old(self).size_spec(),
            final(self).pid_spec() == old(self).pid_spec(),
            final(self).screen_spec() == old(self).screen_spec(),
            final(self).start_spec() == old(self).start_spec(),
            final(self).capacity_spec() == old(self).capacity_spec(),
            final(self).init_seq_spec() == old(self).init_seq_spec(),
            final(self).text_view_spec() == old(self).text_view_spec(),
    {
        let elapsed: u64 = if now >= self.start {
            now - self.start
        } else {
            0
        };
        if elapsed > self.last_stamp {
            self.last_stamp = elapsed;
        }
        self.last_stamp
    }

    /// Where the backlog stands after `ev` is published: the event is added
    /// to the history when the session is accepting, and the oldest kept
    /// event leaves when the backlog was full.
    pub open spec fn published_after(&self, ev: Event) -> Seq<Event> {
        if self.accepting() {
            self.history().push(ev)
        } else {
            self.history()
        }
    }

    pub open spec fn oldest_after(&self) -> nat {
        if self.accepting() && self.history().len() - self.oldest() == self.capacity_spec() {
            self.oldest() + 1
        } else {
            self.oldest()
        }
    }

    fn publish(&mut self, ev: Event)
        requires
            old(self).wf(),
            !(ev is Init),
            event_time(ev) == old(self).last_stamp_spec(),
        ensures
            final(self).wf(),
            final(self).history() == old(self).published_after(ev),
            final(self).oldest() == old(self).oldest_after(),
            final(self).has_exited() == old(self).has_exited(),
            final(self).is_closed() == old(self).is_closed(),
            final(self).size_spec() == old(self).size_spec(),
            final(self).pid_spec() == old(self).pid_spec(),
            final(self).screen_spec() == old(self).screen_spec(),
            final(self).start_spec() == old(self).start_spec(),
            final(self).last_stamp_spec() == old(self).last_stamp_spec(),
            final(self).capacity_spec() == old(self).capacity_spec(),
    {
        if self.exited || self.closed || self.next_seq() == u64::MAX {
            return;
        }
        if self.backlog.len() == self.capacity {
            self.backlog.pop_front();
            self.first_seq = self.first_seq + 1;
        }
        self.backlog.push_back(ev);
        self.published = Ghost(self.published@.push(ev));
        assert(self.backlog@ =~= self.published@.subrange(self.first_seq as int, self.published@.len() as int));
    }

    /// Publishes bytes the terminal wrote.
    pub fn output(&mut self, data: String, now: u64)
        requires
            old(self).wf(),
        ensures
            final(self).wf(),
            final(self).history() == old(self).published_after(
                Event::Output(old(self).stamp_for(now), data),
            ),
            final(self).oldest() == old(self).oldest_after(),
            final(self).has_exited() == old(self).has_exited(),
            final(self).is_closed() == old(self).is_closed(),
            final(self).size_spec() == old(self).size_spec(),
            final(self).pid_spec() == old(self).pid_spec(),
            final(self).screen_spec() == old(self).screen_spec(),
            final(self).start_spec() == old(self).start_spec(),
            final(self).last_stamp_spec() == old(self).stamp_for(now),
            final(self).capacity_spec() == old(self).capacity_spec(),
    {
        let t = self.stamp(now);
        self.publish(Event::Output(t, data));
    }

    /// Publishes bytes a client wrote to the terminal.
    pub fn input(&mut self, data: String, now: u64)
        requires
            old(self).wf(),
        ensures
            final(self).wf(),
            final(self).history() == old(self).published_after(
                Event::Input(old(self).stamp_for(now), data),
            ),
            final(self).oldest() == old(self).oldest_after(),
            final(self).has_exited() == old(self).has_exited(),
            final(self).is_closed() == old(self).is_closed(),
            final(self).size_spec() == old(self).size_spec(),
            final(self).pid_spec() == old(self).pid_spec(),
            final(self).screen_spec() == old(self).screen_spec(),
            final(self).start_spec() == old(self).start_spec(),
            final(self).last_stamp_spec() == old(self).stamp_for(now),
            final(self).capacity_spec() == old(self).capacity_spec(),
    {
        let t = self.stamp(now);
        self.publish(Event::Input(t, data));
    }

    /// Takes a new window size and publishes it.
    pub fn resize(&mut self, cols: u16, rows: u16, now: u64)
        requires
            old(self).wf(),
        ensures
            final(self).wf(),
            final(self).history() == old(self).published_after(
                Event::Resize(old(self).stamp_for(now), cols, rows),
            ),
            final(self).oldest() == old(self).oldest_after(),
            final(self).has_exited() == old(self).has_exited(),
            final(self).is_closed() == old(self).is_closed(),
            final(self).size_spec() == (cols, rows),
            final(self).pid_spec() == old(self).pid_spec(),
            final(self).screen_spec() == old(self).screen_spec(),
            final(self).start_spec() == old(self).start_spec(),
            final(self).last_stamp_spec() == old(self).stamp_for(now),
            final(self).capacity_spec() == old(self).capacity_spec(),
    {
        let t = self.stamp(now);
        self.cols = cols;
        self.rows = rows;
        self.publish(Event::Resize(t, cols, rows));
    }

    /// Publishes a chapter label.
    pub fn marker(&mut self, label: String, now: u64)
        requires
            old(self).wf(),
        ensures
            final(self).wf(),
            final(self).history() == old(self).published_after(
                Event::Marker(old(self).stamp_for(now), label),
            ),
            final(self).oldest() == old(self).oldest_after(),
            final(self).has_exited() == old(self).has_exited(),
            final(self).is_closed() == old(self).is_closed(),
            final(self).size_spec() == old(self).size_spec(),
            final(self).pid_spec() == old(self).pid_spec(),
            final(self).screen_spec() == old(self).screen_spec(),
            final(self).start_spec() == old(self).start_spec(),
            final(self).last_stamp_spec() == old(self).stamp_for(now),
            final(self).capacity_spec() == old(self).capacity_spec(),
    {
        let t = self.stamp(now);
        self.publish(Event::Marker(t, label));
    }

    /// Publishes a text snapshot of the screen.
    pub fn snapshot(&mut self, now: u64)
        requires
            old(self).wf(),
        ensures
            final(self).wf(),
            final(self).history() == old(self).published_after(
                Event::Snapshot(
                    old(self).stamp_for(now),
                    old(self).size_spec().0,
                    old(self).size_spec().1,
                    old(self).text_view_spec(),
                ),
            ),
            final(self).oldest() == old(self).oldest_after(),
            final(self).has_exited() == old(self).has_exited(),
            final(self).is_closed() == old(self).is_closed(),
            final(self).size_spec() == old(self).size_spec(),
            final(self).pid_spec() == old(self).pid_spec(),
            final(self).screen_spec() == old(self).screen_spec(),
            final(self).start_spec() == old(self).start_spec(),
            final(self).last_stamp_spec() == old(self).stamp_for(now),
            final(self).capacity_spec() == old(self).capacity_spec(),
    {
        let t = self.stamp(now);
        let text = self.text_view.clone();
        self.publish(Event::Snapshot(t, self.cols, self.rows, text));
    }

    /// Publishes the child's exit; nothing is published after it.
    pub fn exit(&mut self, status: i32, now: u64)
        requires
            old(self).wf(),
        ensures
            final(self).wf(),
            final(self).history() == old(self).published_after(
                Event::Exit(old(self).stamp_for(now), status),
            ),
            final(self).oldest() == old(self).oldest_after(),
            final(self).has_exited() == (old(self).has_exited() || old(self).accepting()),
            final(self).is_closed() == old(self).is_closed(),
            final(self).size_spec() == old(self).size_spec(),
            final(self).pid_spec() == old(self).pid_spec(),
            final(self).screen_spec() == old(self).screen_spec(),
            final(self).start_spec() == old(self).start_spec(),
            final(self).last_stamp_spec() == old(self).stamp_for(now),
            final(self).capacity_spec() == old(self).capacity_spec(),
    {
        let t = self.stamp(now);
        let accepting = !self.exited && !self.closed && self.next_seq() < u64::MAX;
        self.publish(Event::Exit(t, status));
        if accepting {
            self.exited = true;
        }
    }

    /// Ends the session without an exit status: nothing more is published,
    /// and subscribers that have read everything are told it is over.
    pub fn close(&mut self)
        requires
            old(self).wf(),
        ensures
            final(self).wf(),
            final(self).is_closed(),
            final(self).history() == old(self).history(),
            final(self).oldest() == old(self).oldest(),
            final(self).has_exited() == old(self).has_exited(),
            final(self).size_spec() == old(self).size_spec(),
            final(self).pid_spec() == old(self).pid_spec(),
            final(self).screen_spec() == old(self).screen_spec(),
            final(self).start_spec() == old(self).start_spec(),
            final(self).last_stamp_spec() == old(self).last_stamp_spec(),
            final(self).capacity_spec() == old(self).capacity_spec(),
    {
        self.closed = true;
    }

    /// Attaches a subscriber. Its first event is an Init with the session's
    /// current state; after it come the events published from now on.
    pub fn subscribe(&mut self, now: u64) -> (r: EventStream)
        requires
            old(self).wf(),
        ensures
            final(self).wf(),
            r.pending_init() == Some(
                Event::Init(
                    old(self).stamp_for(now),
                    old(self).size_spec().0,
                    old(self).size_spec().1,
                    old(self).pid_spec(),
                    old(self).init_seq_spec(),
                    old(self).text_view_spec(),
                ),
            ),
            r.position() == old(self).history().len(),
            final(self).history() == old(self).history(),
            final(self).oldest() == old(self).oldest(),
            final(self).has_exited() == old(self).has_exited(),
            final(self).is_closed() == old(self).is_closed(),
            final(self).size_spec() == old(self).size_spec(),
            final(self).pid_spec() == old(self).pid_spec(),
            final(self).screen_spec() == old(self).screen_spec(),
            final(self).start_spec() == old(self).start_spec(),
            final(self).last_stamp_spec() == old(self).stamp_for(now),
            final(self).capacity_spec() == old(self).capacity_spec(),
    {
        let t = self.stamp(now);
        let init = Event::Init(
            t,
            self.cols,
            self.rows,
            self.pid,
            self.init_seq.clone(),
            self.text_view.clone(),
        );
        EventStream { init: Some(init), cursor: self.next_seq() }
    }

    /// Hands `stream` its next event: its Init first, then the published
    /// events in order; `Lagged(n)` where `n` events were dropped before it
    /// could read them, after which it goes on with the oldest one kept.
    pub fn recv(&self, stream: &mut EventStream) -> (r: Received)
        requires
            self.wf(),
        ensures
            match old(stream).pending_init() {
                Some(init) => r == Received::Event(init) && final(stream).pending_init() is None
                    && final(stream).position() == old(stream).position(),
                None => final(stream).pending_init() is None && if old(stream).position()
                    < self.oldest() {
                    &&& r == Received::Lagged((self.oldest() - old(stream).position()) as u64)
                    &&& final(stream).position() == self.oldest()
                } else if old(stream).position() < self.history().len() {
                    &&& r == Received::Event(self.history()[old(stream).position() as int])
                    &&& final(stream).position() == old(stream).position() + 1
                } else {
                    &&& r == if self.has_exited() || self.is_closed() {
                        Received::Closed
                    } else {
                        Received::Pending
                    }
                    &&& final(stream).position() == old(stream).position()
                },
            },
            (r matches Received::Event(e) && e is Init) <==> old(stream).pending_init() is Some,
    {
        proof {
            use_type_invariant(&*stream);
        }
        let first = match &stream.init {
            Some(e) => Some(e.duplicate()),
            None => None,
        };
        if let Some(e) = first {
            stream.init = None;
            return Received::Event(e);
        }
        let next = self.next_seq();
        if stream.cursor < self.first_seq {
            let missed = self.first_seq - stream.cursor;
            stream.cursor = self.first_seq;
            Received::Lagged(missed)
        } else if stream.cursor < next {
            let idx = (stream.cursor - self.first_seq) as usize;
            let e = self.backlog[idx].duplicate();
            stream.cursor = stream.cursor + 1;
            Received::Event(e)
        } else if self.exited || self.closed {
            Received::Closed
        } else {
            Received::Pending
        }
    }
}

/// What a subscriber at position `pos` gets from repeated `recv` calls
/// while nothing new is published, until it has caught up: the number of
/// events it reads and the number it is told it missed.
pub open spec fn catch_up(oldest: nat, len: nat, pos: nat) -> (nat, nat)
    decreases len - pos,
{
    if pos >= len || oldest > len {
        (0, 0)
    } else if pos < oldest {
        let r = catch_up(oldest, len, oldest);
        (r.0, r.1 + (oldest - pos) as nat)
    } else {
        let r = catch_up(oldest, len, pos + 1);
        (r.0 + 1, r.1)
    }
}

/// A subscriber that catches up accounts for every event published after
/// its position: those it reads and those it is told it missed add up to
/// all of them, and it misses some only when it was behind the backlog.
pub proof fn lemma_catch_up(oldest: nat, len: nat, pos: nat)
    requires
        oldest <= len,
        pos <= len,
    ensures
        catch_up(oldest, len, pos).0 + catch_up(oldest, len, pos).1 == len - pos,
        pos < oldest ==> catch_up(oldest, len, pos).1 == oldest - pos && catch_up(
            oldest,
            len,
            pos,
        ).0 == len - oldest,
        pos >= oldest ==> catch_up(oldest, len, pos).1 == 0,
    decreases len - pos,
{
    if pos < len {
        if pos < oldest {
            lemma_catch_up(oldest, len, oldest);
        } else {
            lemma_catch_up(oldest, len, pos + 1);
        }
    }
}

/// A subscriber that fell more than the backlog behind is told that it
/// lagged, by a positive count, the next time it reads; and it still
/// accounts for every event published after its position.
pub proof fn lemma_slow_consumer(s: &Session, pos: nat)
    requires
        s.wf(),
        pos <= s.history().len(),
        s.history().len() - pos > s.capacity_spec(),
    ensures
        pos < s.oldest(),
        catch_up(s.oldest(), s.history().len(), pos).1 > 0,
        catch_up(s.oldest(), s.history().len(), pos).0 + catch_up(s.oldest(), s.history().len(), pos).1
            == s.history().len() - pos,
{
    s.lemma_wf_facts();
    lemma_catch_up(s.oldest(), s.history().len(), pos);
}

/// The session for a terminal of the given size and child PID, its clock
/// starting at `now`.
pub fn build_session(size: &Size, pid: i32, now: u64) -> (r: Session)
    ensures
        r.wf(),
        r.history() == Seq::<Event>::empty(),
        r.oldest() == 0,
        r.capacity_spec() == DEFAULT_CAPACITY,
        !r.has_exited(),
        r.size_spec() == (size.cols, size.rows),
        r.pid_spec() == pid,
        r.start_spec() == now,
{
    Session::new(size.cols, size.rows, pid, now)
}

} // verus!
