//! The readline interface: which callback hears which line, and when the
//! interface closes. Reading stdin, writing prompts and calling closures is left
//! to the caller, who carries out what the functions here ask for.

use crate::text::{bytes_eq, strings_view};
use vstd::prelude::*;

verus! {

/// The handle of the one interface that a process has.
pub const READLINE_HANDLE: i64 = 1;

/// The state of the interface. Callbacks are closure handles.
pub struct Readline {
    /// The callback that waits for the answer to a question.
    pub question_callback: Option<i64>,
    /// The callback for every other line.
    pub line_callback: Option<i64>,
    /// The callback for the end of the interface.
    pub close_callback: Option<i64>,
    /// Lines that were read and not yet handed out.
    pub pending_lines: Vec<String>,
    /// Whether the line reader was started.
    pub reader_started: bool,
    /// Whether the input has ended or the interface was closed.
    pub eof_reached: bool,
    /// Whether the end of the interface was announced.
    pub close_fired: bool,
}

/// A callback to carry out.
pub enum Call {
    /// Call the closure with the line.
    Line { callback: i64, line: String },
    /// Call the closure without arguments.
    Close { callback: i64 },
}

/// One round of handing out lines.
pub struct Tick {
    /// The lines of this round.
    pub lines: Vec<String>,
    /// How many of them were dealt with.
    pub next: usize,
    /// Whether the end of the round was reached.
    pub ended: bool,
    /// How many callbacks were asked for.
    pub fired: i32,
}

/// What opening an interface asks for.
pub struct Opened {
    pub handle: i64,
    /// Whether the line reader must be started now.
    pub start_reader: bool,
}

/// What asking a question asks for.
pub struct Asked {
    /// The bytes to write to stdout, without a line end.
    pub write: Option<Vec<u8>>,
    /// Whether the line reader must be started now.
    pub start_reader: bool,
}

// ---------------------------------------------------------------------------
// Model
// ---------------------------------------------------------------------------

pub struct ReadlineView {
    pub question: Option<i64>,
    pub line: Option<i64>,
    pub close: Option<i64>,
    pub pending: Seq<Seq<char>>,
    pub started: bool,
    pub eof: bool,
    pub close_fired: bool,
}

#[allow(inconsistent_fields)]
pub enum CallView {
    Line { callback: i64, line: Seq<char> },
    Close { callback: i64 },
}

pub struct TickView {
    pub lines: Seq<Seq<char>>,
    pub ended: bool,
    pub fired: int,
}

impl Readline {
    pub open spec fn view(self) -> ReadlineView {
        ReadlineView {
            question: self.question_callback,
            line: self.line_callback,
            close: self.close_callback,
            pending: strings_view(self.pending_lines@),
            started: self.reader_started,
            eof: self.eof_reached,
            close_fired: self.close_fired,
        }
    }
}

impl Call {
    pub open spec fn view(self) -> CallView {
        match self {
            Call::Line { callback, line } => CallView::Line { callback, line: line@ },
            Call::Close { callback } => CallView::Close { callback },
        }
    }
}

pub open spec fn opt_call_view(o: Option<Call>) -> Option<CallView> {
    match o {
        Some(c) => Some(c.view()),
        None => None,
    }
}

impl Tick {
    /// What is left of the round.
    pub open spec fn view(self) -> TickView {
        TickView {
            lines: strings_view(self.lines@).skip(self.next as int),
            ended: self.ended,
            fired: self.fired as int,
        }
    }

    /// The round is within its lines, and the callbacks that it can still ask
    /// for can be counted.
    pub open spec fn wf(self) -> bool {
        &&& self.next <= self.lines@.len()
        &&& 0 <= self.fired
        &&& self.fired + (self.lines@.len() - self.next) + (if self.ended { 0int } else { 1 })
            <= i32::MAX
    }
}

/// Registering the callback of an event; other events are ignored.
pub open spec fn on_event(s: ReadlineView, event: Option<Seq<u8>>, callback: i64) -> ReadlineView {
    if event == Some(line_event()) {
        ReadlineView { line: Some(callback), started: true, ..s }
    } else if event == Some(close_event()) {
        ReadlineView { close: Some(callback), ..s }
    } else {
        s
    }
}

/// The bytes of `line`.
pub open spec fn line_event() -> Seq<u8> {
    seq![108u8, 105u8, 110u8, 101u8]
}

/// The bytes of `close`.
pub open spec fn close_event() -> Seq<u8> {
    seq![99u8, 108u8, 111u8, 115u8, 101u8]
}

/// Announcing the end: the state after it, and the callback to call. The end is
/// announced once, and its callback is then gone.
pub open spec fn announce_close(s: ReadlineView) -> (ReadlineView, Option<i64>) {
    if s.close_fired {
        (s, None)
    } else {
        (ReadlineView { close_fired: true, close: None, ..s }, s.close)
    }
}

/// The next callback of a round. A waiting question hears the next line and is
/// then forgotten; otherwise the line callback hears it; a line that nobody
/// waits for is dropped. Behind the last line the end is announced, if there is
/// one to announce.
pub open spec fn next_call(s: ReadlineView, t: TickView) -> (ReadlineView, TickView, Option<CallView>)
    decreases t.lines.len(),
{
    if t.ended {
        (s, t, None)
    } else if t.lines.len() > 0 {
        let rest = t.lines.skip(1);
        if s.question is Some {
            (
                ReadlineView { question: None, ..s },
                TickView { lines: rest, fired: t.fired + 1, ..t },
                Some(CallView::Line { callback: s.question->0, line: t.lines[0] }),
            )
        } else if s.line is Some {
            (
                s,
                TickView { lines: rest, fired: t.fired + 1, ..t },
                Some(CallView::Line { callback: s.line->0, line: t.lines[0] }),
            )
        } else {
            next_call(s, TickView { lines: rest, ..t })
        }
    } else if s.eof {
        let (s2, callback) = announce_close(s);
        match callback {
            Some(cb) => (
                s2,
                TickView { ended: true, fired: t.fired + 1, ..t },
                Some(CallView::Close { callback: cb }),
            ),
            None => (s2, TickView { ended: true, ..t }, None),
        }
    } else {
        (s, TickView { ended: true, ..t }, None)
    }
}

/// Whether the interface keeps the event loop running.
pub open spec fn is_active(s: ReadlineView) -> bool {
    ||| s.pending.len() > 0
    ||| !s.close_fired && s.close is Some
    ||| s.started && !s.eof
}

// ---------------------------------------------------------------------------
// Operations
// ---------------------------------------------------------------------------

/// The state of a process that has not used readline.
pub fn new_readline() -> (r: Readline)
    ensures
        r@ == (ReadlineView {
            question: None,
            line: None,
            close: None,
            pending: Seq::empty(),
            started: false,
            eof: false,
            close_fired: false,
        }),
{
    let r = Readline {
        question_callback: None,
        line_callback: None,
        close_callback: None,
        pending_lines: Vec::new(),
        reader_started: false,
        eof_reached: false,
        close_fired: false,
    };
    assert(strings_view(r.pending_lines@) =~= Seq::empty());
    r
}

/// Marks the reader as started; the result says whether it was not before.
fn ensure_reader_started(rl: &mut Readline) -> (r: bool)
    ensures
        final(rl)@ == (ReadlineView { started: true, ..old(rl)@ }),
        r == !old(rl)@.started,
{
    let already = rl.reader_started;
    rl.reader_started = true;
    !already
}

/// `readline.createInterface(opts)`: the handle of the one interface. The reader
/// is started the first time.
pub fn js_readline_create_interface(rl: &mut Readline) -> (r: Opened)
    ensures
        final(rl)@ == (ReadlineView { started: true, ..old(rl)@ }),
        final(rl)@ == after(old(rl)@, Event::Open).0,
        r.handle == READLINE_HANDLE,
        r.start_reader == !old(rl)@.started,
{
    let start_reader = ensure_reader_started(rl);
    Opened { handle: READLINE_HANDLE, start_reader }
}

/// `rl.question(prompt, callback)`: the prompt is to be written, if there is one,
/// and the callback waits for the next line. A question that still waits is
/// replaced.
pub fn js_readline_question(rl: &mut Readline, prompt: Option<Vec<u8>>, callback: i64) -> (r: Asked)
    ensures
        final(rl)@ == (ReadlineView { question: Some(callback), started: true, ..old(rl)@ }),
        final(rl)@ == after(old(rl)@, Event::Question(callback)).0,
        r.write == prompt,
        r.start_reader == !old(rl)@.started,
{
    rl.question_callback = Some(callback);
    let start_reader = ensure_reader_started(rl);
    Asked { write: prompt, start_reader }
}

/// `rl.on(event, callback)`: registers the callback for `line` or `close`; an
/// event without a name or of another name is ignored. The result says whether
/// the reader must be started now.
pub fn js_readline_on(rl: &mut Readline, event: Option<&Vec<u8>>, callback: i64) -> (r: bool)
    ensures
        final(rl)@ == on_event(
            old(rl)@,
            match event {
                Some(e) => Some(e@),
                None => None,
            },
            callback,
        ),
        r == (final(rl)@.started && !old(rl)@.started),
{
    match event {
        Some(e) => {
            let line: Vec<u8> = vec![108u8, 105u8, 110u8, 101u8];
            let close: Vec<u8> = vec![99u8, 108u8, 111u8, 115u8, 101u8];
            assert(line@ =~= line_event());
            assert(close@ =~= close_event());
            if bytes_eq(e, &line) {
                rl.line_callback = Some(callback);
                return ensure_reader_started(rl);
            }
            if bytes_eq(e, &close) {
                rl.close_callback = Some(callback);
            }
            false
        },
        None => false,
    }
}

/// Announces the end of the interface, once; the result is the callback to call.
fn fire_close(rl: &mut Readline) -> (r: Option<i64>)
    ensures
        (final(rl)@, r) == announce_close(old(rl)@),
{
    if rl.close_fired {
        return None;
    }
    rl.close_fired = true;
    let callback = rl.close_callback;
    rl.close_callback = None;
    callback
}

/// `rl.close()`: the interface has ended. The result is the close callback, to be
/// called before the call returns, if there is one that was not called yet.
pub fn js_readline_close(rl: &mut Readline) -> (r: Option<i64>)
    ensures
        (final(rl)@, r) == announce_close(ReadlineView { eof: true, ..old(rl)@ }),
        (final(rl)@, r) == after(old(rl)@, Event::Close),
{
    rl.eof_reached = true;
    fire_close(rl)
}

/// Starts a round: takes the lines that wait. The caller then asks the round for
/// its callbacks, one after the other, until there is none; `fired` of the round
/// is then the number of callbacks.
pub fn js_readline_process_pending(rl: &mut Readline) -> (r: Tick)
    requires
        old(rl)@.pending.len() < i32::MAX,
    ensures
        r.wf(),
        r@ == (TickView { lines: old(rl)@.pending, ended: false, fired: 0 }),
        final(rl)@ == (ReadlineView { pending: Seq::empty(), ..old(rl)@ }),
        final(rl)@ == after(old(rl)@, Event::RoundStarts).0,
{
    let mut lines: Vec<String> = Vec::new();
    lines.append(&mut rl.pending_lines);
    let t = Tick { lines, next: 0, ended: false, fired: 0 };
    assert(t.lines@ =~= old(rl).pending_lines@);
    assert(strings_view(t.lines@).skip(0) =~= strings_view(t.lines@));
    assert(strings_view(rl.pending_lines@) =~= Seq::empty());
    t
}

impl Tick {
    /// The next callback of the round, or `None` where the round is over.
    /// Callbacks may use the interface before they ask for the next one.
    pub fn next_call(&mut self, rl: &mut Readline) -> (r: Option<Call>)
        requires
            old(self).wf(),
        ensures
            final(self).wf(),
            (final(rl)@, final(self)@, opt_call_view(r)) == next_call(old(rl)@, old(self)@),
            r is None ==> final(self).ended,
    {
        if self.ended {
            return None;
        }
        let ghost all = strings_view(self.lines@);
        while self.next < self.lines.len()
            invariant
                self.wf(),
                !self.ended,
                !old(self).ended,
                rl@ == old(rl)@,
                all == strings_view(self.lines@),
                next_call(rl@, self@) == next_call(old(rl)@, old(self)@),
            decreases self.lines@.len() - self.next,
        {
            let line = self.lines[self.next].clone();
            let ghost before = self@;
            self.next = self.next + 1;
            assert(before.lines[0] == line@);
            assert(before.lines.skip(1) =~= all.skip(self.next as int));
            if rl.question_callback.is_some() {
                let callback: i64 = rl.question_callback.unwrap();
                rl.question_callback = None;
                self.fired = self.fired + 1;
                return Some(Call::Line { callback, line });
            }
            if rl.line_callback.is_some() {
                let callback: i64 = rl.line_callback.unwrap();
                self.fired = self.fired + 1;
                return Some(Call::Line { callback, line });
            }
        }
        assert(self@.lines.len() == 0);
        self.ended = true;
        if rl.eof_reached {
            match fire_close(rl) {
                Some(callback) => {
                    self.fired = self.fired + 1;
                    return Some(Call::Close { callback });
                },
                None => {},
            }
        }
        None
    }
}

/// Whether the event loop must keep running for readline: 1 while lines wait,
/// while a close callback waits, or while the reader runs and the input has not
/// ended; otherwise 0.
pub fn js_readline_has_active(rl: &Readline) -> (r: i32)
    ensures
        r == if is_active(rl@) { 1i32 } else { 0i32 },
{
    let has_lines = rl.pending_lines.len() > 0;
    let has_close_cb = !rl.close_fired && rl.close_callback.is_some();
    if has_lines || has_close_cb || (rl.reader_started && !rl.eof_reached) {
        1
    } else {
        0
    }
}

/// The reader has read a line: it waits behind the others.
pub fn line_arrived(rl: &mut Readline, line: String)
    ensures
        final(rl)@ == (ReadlineView { pending: old(rl)@.pending.push(line@), ..old(rl)@ }),
        final(rl)@ == after(old(rl)@, Event::LineRead(line@)).0,
{
    rl.pending_lines.push(line);
    assert(strings_view(rl.pending_lines@) =~= old(rl)@.pending.push(line@));
}

/// Puts a line into the queue without a reader, for tests.
pub fn test_inject_line(rl: &mut Readline, line: &str)
    ensures
        final(rl)@ == (ReadlineView { pending: old(rl)@.pending.push(line@), ..old(rl)@ }),
        final(rl)@ == after(old(rl)@, Event::LineRead(line@)).0,
{
    line_arrived(rl, line.to_string());
}

/// The input has ended.
pub fn input_ended(rl: &mut Readline)
    ensures
        final(rl)@ == (ReadlineView { eof: true, ..old(rl)@ }),
        final(rl)@ == after(old(rl)@, Event::InputEnds).0,
{
    rl.eof_reached = true;
}

// ---------------------------------------------------------------------------
// Laws
// ---------------------------------------------------------------------------

/// Something that happens to the interface.
pub enum Event {
    Open,
    Question(i64),
    On(Option<Seq<u8>>, i64),
    Close,
    LineRead(Seq<char>),
    InputEnds,
    /// A round takes the lines that wait.
    RoundStarts,
    /// A round, in whatever state it is, is asked for its next callback.
    RoundGoesOn(TickView),
}

/// The state after an event, and the close callback that it asks for, if any.
pub open spec fn after(s: ReadlineView, event: Event) -> (ReadlineView, Option<i64>) {
    match event {
        Event::Open => (ReadlineView { started: true, ..s }, None),
        Event::Question(cb) => (ReadlineView { question: Some(cb), started: true, ..s }, None),
        Event::On(name, cb) => (on_event(s, name, cb), None),
        Event::Close => announce_close(ReadlineView { eof: true, ..s }),
        Event::LineRead(line) => (ReadlineView { pending: s.pending.push(line), ..s }, None),
        Event::InputEnds => (ReadlineView { eof: true, ..s }, None),
        Event::RoundStarts => (ReadlineView { pending: Seq::empty(), ..s }, None),
        Event::RoundGoesOn(t) => {
            let (s2, _, call) = next_call(s, t);
            (
                s2,
                match call {
                    Some(CallView::Close { callback }) => Some(callback),
                    _ => None,
                },
            )
        },
    }
}

/// The state after the events, and how many close callbacks they asked for.
pub open spec fn after_all(s: ReadlineView, events: Seq<Event>) -> (ReadlineView, nat)
    decreases events.len(),
{
    if events.len() == 0 {
        (s, 0)
    } else {
        let (s1, n) = after_all(s, events.drop_last());
        let (s2, callback) = after(s1, events.last());
        (
            s2,
            if callback is Some {
                n + 1
            } else {
                n
            },
        )
    }
}

/// A round only announces the end where it was not announced yet, never takes
/// that back, and leaves the waiting lines and the line callback alone.
proof fn lemma_next_call(s: ReadlineView, t: TickView)
    ensures
        ({
            let (s2, _, call) = next_call(s, t);
            &&& s.close_fired ==> s2.close_fired
            &&& call matches Some(CallView::Close { .. }) ==> !s.close_fired && s2.close_fired
            &&& s2.pending == s.pending
            &&& s2.line == s.line
        }),
    decreases t.lines.len(),
{
    if !t.ended && t.lines.len() > 0 && s.question is None && s.line is None {
        lemma_next_call(s, TickView { lines: t.lines.skip(1), ..t });
    }
}

/// Whatever happens, in whatever order, the close callback is asked for at most
/// once, and never again after the end was announced.
pub proof fn law_close_fires_at_most_once(s: ReadlineView, events: Seq<Event>)
    ensures
        after_all(s, events).1 <= 1,
        s.close_fired ==> after_all(s, events).1 == 0,
        after_all(s, events).1 == 1 ==> after_all(s, events).0.close_fired,
        s.close_fired ==> after_all(s, events).0.close_fired,
    decreases events.len(),
{
    if events.len() > 0 {
        law_close_fires_at_most_once(s, events.drop_last());
        let s1 = after_all(s, events.drop_last()).0;
        match events.last() {
            Event::RoundGoesOn(t) => lemma_next_call(s1, t),
            _ => {},
        }
    }
}

/// A waiting question hears the next line, before any line callback, and only
/// that one.
pub proof fn law_question_comes_first(s: ReadlineView, t: TickView)
    requires
        s.question is Some,
        !t.ended,
        t.lines.len() > 0,
    ensures
        next_call(s, t).2 == Some(CallView::Line { callback: s.question->0, line: t.lines[0] }),
        next_call(s, t).0.question is None,
        next_call(s, t).0 == (ReadlineView { question: None, ..s }),
{
}

/// The line callback stays registered through a round, and without a question it
/// hears every line in turn.
pub proof fn law_line_callback_persists(s: ReadlineView, t: TickView)
    requires
        s.line is Some,
        s.question is None,
        !t.ended,
        t.lines.len() > 0,
    ensures
        next_call(s, t).0 == s,
        next_call(s, t).1.lines == t.lines.skip(1),
        next_call(s, t).2 == Some(CallView::Line { callback: s.line->0, line: t.lines[0] }),
{
}

/// Lines that nobody waits for are dropped without a callback.
pub proof fn law_unheard_lines_are_dropped(s: ReadlineView, t: TickView)
    requires
        s.question is None,
        s.line is None,
        !t.ended,
    ensures
        next_call(s, t) == next_call(s, TickView { lines: Seq::empty(), ..t }),
        !(next_call(s, t).2 matches Some(CallView::Line { .. })),
    decreases t.lines.len(),
{
    if t.lines.len() > 0 {
        law_unheard_lines_are_dropped(s, TickView { lines: t.lines.skip(1), ..t });
    } else {
        assert(t.lines =~= Seq::empty());
    }
}

/// How much of a round is left.
pub open spec fn left_of(t: TickView) -> nat {
    t.lines.len() + if t.ended {
        0nat
    } else {
        1nat
    }
}

/// A callback brings the round nearer to its end, and is counted.
pub proof fn lemma_round_advances(s: ReadlineView, t: TickView)
    ensures
        match next_call(s, t).2 {
            Some(_) => left_of(next_call(s, t).1) < left_of(t) && next_call(s, t).1.fired == t.fired
                + 1,
            None => next_call(s, t).1.ended && next_call(s, t).1.fired == t.fired,
        },
    decreases t.lines.len(),
{
    if !t.ended && t.lines.len() > 0 && s.question is None && s.line is None {
        lemma_round_advances(s, TickView { lines: t.lines.skip(1), ..t });
    }
}

/// A round whose callbacks leave the interface alone: the state and the round at its
/// end, and the callbacks, in order.
pub open spec fn whole_round(s: ReadlineView, t: TickView) -> (
    ReadlineView,
    TickView,
    Seq<CallView>,
)
    decreases left_of(t),
{
    proof {
        lemma_round_advances(s, t);
    }
    let (s1, t1, call) = next_call(s, t);
    match call {
        Some(c) => {
            let (s2, t2, rest) = whole_round(s1, t1);
            (s2, t2, seq![c] + rest)
        },
        None => (s1, t1, Seq::empty()),
    }
}

/// A round comes to its end, and counts the callbacks that it asks for.
pub proof fn law_round_counts_its_callbacks(s: ReadlineView, t: TickView)
    ensures
        whole_round(s, t).1.ended,
        whole_round(s, t).1.fired == t.fired + whole_round(s, t).2.len(),
    decreases left_of(t),
{
    lemma_round_advances(s, t);
    let (s1, t1, call) = next_call(s, t);
    if call is Some {
        law_round_counts_its_callbacks(s1, t1);
    }
}

/// With a line callback every line is heard once, in order: the first one by a
/// question that waits, all others by the line callback. Behind them comes the end,
/// if there is one to announce.
pub proof fn law_every_line_is_heard_in_order(s: ReadlineView, t: TickView)
    requires
        s.line is Some,
        !t.ended,
    ensures
        ({
            let calls = whole_round(s, t).2;
            let closes = s.eof && !s.close_fired && s.close is Some;
            &&& calls.len() == t.lines.len() + if closes {
                1nat
            } else {
                0nat
            }
            &&& forall|i: int|
                0 <= i < t.lines.len() ==> #[trigger] calls[i] == (CallView::Line {
                    callback: if i == 0 && s.question is Some {
                        s.question->0
                    } else {
                        s.line->0
                    },
                    line: t.lines[i],
                })
            &&& closes ==> calls.last() == (CallView::Close { callback: s.close->0 })
        }),
    decreases t.lines.len(),
{
    let (s1, t1, call) = next_call(s, t);
    if t.lines.len() > 0 {
        law_every_line_is_heard_in_order(s1, t1);
        let rest = whole_round(s1, t1).2;
        let calls = whole_round(s, t).2;
        assert(calls =~= seq![call->0] + rest);
        assert forall|i: int| 0 <= i < t.lines.len() implies #[trigger] calls[i] == (
        CallView::Line {
            callback: if i == 0 && s.question is Some {
                s.question->0
            } else {
                s.line->0
            },
            line: t.lines[i],
        }) by {
            if i > 0 {
                assert(calls[i] == rest[i - 1]);
                assert(t1.lines[i - 1] == t.lines[i]);
            }
        }
    } else {
        reveal_with_fuel(whole_round, 2);
    }
}

/// After `close`, with no line left, the interface keeps nothing running,
/// whatever was registered before.
pub proof fn law_closed_interface_is_idle(s: ReadlineView)
    requires
        s.pending.len() == 0,
    ensures
        !is_active(announce_close(ReadlineView { eof: true, ..s }).0),
{
}

/// How many lines of a round are heard: all of them with a line callback, without
/// one only the first, by a question that waits.
pub open spec fn heard(s: ReadlineView, t: TickView) -> nat {
    if s.line is Some || t.lines.len() == 0 {
        t.lines.len()
    } else if s.question is Some {
        1
    } else {
        0
    }
}

/// A whole round, whatever callbacks are registered: a question that waits hears the
/// first line and is then gone, the line callback hears the others, in order. Where
/// the input has ended and the end was not announced yet, it is announced, with or
/// without lines and line callback, and the close callback is the last one called.
pub proof fn law_round(s: ReadlineView, t: TickView)
    requires
        !t.ended,
    ensures
        ({
            let (s2, t2, calls) = whole_round(s, t);
            let ends = s.eof && !s.close_fired;
            let lines = heard(s, t);
            &&& calls.len() == lines + if ends && s.close is Some {
                1nat
            } else {
                0nat
            }
            &&& forall|i: int|
                0 <= i < lines ==> #[trigger] calls[i] == (CallView::Line {
                    callback: if i == 0 && s.question is Some {
                        s.question->0
                    } else {
                        s.line->0
                    },
                    line: t.lines[i],
                })
            &&& ends && s.close is Some ==> calls.last() == (CallView::Close {
                callback: s.close->0,
            })
            &&& s2.close_fired == (s.close_fired || s.eof)
            &&& s2.close == if ends {
                None
            } else {
                s.close
            }
            &&& s2.question == if t.lines.len() > 0 {
                None
            } else {
                s.question
            }
            &&& s2.line == s.line
            &&& s2.pending == s.pending
            &&& s2.started == s.started
            &&& s2.eof == s.eof
            &&& t2.ended
            &&& t2.lines.len() == 0
        }),
    decreases t.lines.len(),
{
    let (s1, t1, call) = next_call(s, t);
    let calls = whole_round(s, t).2;
    if t.lines.len() == 0 {
        reveal_with_fuel(whole_round, 2);
    } else if s.question is None && s.line is None {
        let none = TickView { lines: Seq::empty(), ..t };
        law_unheard_lines_are_dropped(s, t);
        law_round(s, none);
        assert(whole_round(s, t) == whole_round(s, none));
    } else {
        law_round(s1, t1);
        let rest = whole_round(s1, t1).2;
        assert(calls =~= seq![call->0] + rest);
        assert forall|i: int| 0 <= i < heard(s, t) implies #[trigger] calls[i] == (
        CallView::Line {
            callback: if i == 0 && s.question is Some {
                s.question->0
            } else {
                s.line->0
            },
            line: t.lines[i],
        }) by {
            if i > 0 {
                assert(calls[i] == rest[i - 1]);
                assert(t1.lines[i - 1] == t.lines[i]);
            }
        }
    }
}

/// Once the input has ended, the next round that reaches its end announces it: its
/// last call is the close callback that is registered by then, and no later round
/// calls it again.
pub proof fn law_end_of_input_is_announced(s: ReadlineView, t: TickView, later: TickView)
    requires
        !t.ended,
        !later.ended,
        !s.close_fired,
    ensures
        ({
            let s1 = after(s, Event::InputEnds).0;
            let (s2, _, calls) = whole_round(s1, t);
            let again = whole_round(s2, later).2;
            &&& s2.close_fired
            &&& s.close matches Some(cb) ==> calls.len() > 0 && calls.last() == (
            CallView::Close { callback: cb })
            &&& forall|i: int| 0 <= i < again.len() ==> #[trigger] again[i] is Line
        }),
{
    let s1 = after(s, Event::InputEnds).0;
    law_round(s1, t);
    law_round(whole_round(s1, t).0, later);
}

/// Before the end of the input no round calls the close callback, and it stays
/// registered.
pub proof fn law_no_end_before_the_input_ends(s: ReadlineView, t: TickView)
    requires
        !t.ended,
        !s.eof,
    ensures
        whole_round(s, t).0.close == s.close,
        forall|i: int|
            0 <= i < whole_round(s, t).2.len() ==> #[trigger] whole_round(s, t).2[i] is Line,
{
    law_round(s, t);
}

/// The names of the events are `line` and `close`, in ASCII.
pub proof fn law_event_names()
    ensures
        line_event().len() == "line"@.len(),
        forall|i: int|
            0 <= i < "line"@.len() ==> #[trigger] line_event()[i] as int == "line"@[i] as int,
        close_event().len() == "close"@.len(),
        forall|i: int|
            0 <= i < "close"@.len() ==> #[trigger] close_event()[i] as int == "close"@[i] as int,
{
    reveal_strlit("line");
    reveal_strlit("close");
}

/// What is registered for `line` hears the lines of the next round, of several the
/// last; what is registered for `close` hears the end. An event of another name
/// changes nothing.
pub proof fn law_registered_callbacks_are_called(
    s: ReadlineView,
    name: Option<Seq<u8>>,
    earlier: i64,
    cb: i64,
    line: Seq<char>,
)
    ensures
        ({
            let s1 = after(after(s, Event::On(name, earlier)).0, Event::On(name, cb)).0;
            let t = TickView { lines: seq![line], ended: false, fired: 0 };
            &&& name == Some(line_event()) && s.question is None ==> {
                &&& whole_round(s1, t).2[0] == (CallView::Line { callback: cb, line })
                &&& !s.eof ==> is_active(s1)
            }
            &&& name == Some(line_event()) ==> s1.close == s.close && s1.question == s.question
            &&& name == Some(close_event()) ==> {
                &&& !s.close_fired ==> after(s1, Event::Close).1 == Some(cb)
                &&& s1.line == s.line && s1.question == s.question && s1.started == s.started
            }
            &&& name != Some(line_event()) && name != Some(close_event()) ==> s1 == s
            &&& s1.pending == s.pending && s1.eof == s.eof && s1.close_fired == s.close_fired
        }),
{
    let s1 = after(after(s, Event::On(name, earlier)).0, Event::On(name, cb)).0;
    let t = TickView { lines: seq![line], ended: false, fired: 0 };
    assert(line_event().len() != close_event().len());
    if name == Some(line_event()) && s.question is None {
        law_round(s1, t);
    }
}

/// A question, and only the last one, hears the next line that a round hands out,
/// though a line callback is registered; the line behind it goes to the line callback.
pub proof fn law_question_is_answered(
    s: ReadlineView,
    earlier: i64,
    cb: i64,
    first: Seq<char>,
    second: Seq<char>,
)
    ensures
        ({
            let s1 = after(after(s, Event::Question(earlier)).0, Event::Question(cb)).0;
            let t = TickView { lines: seq![first, second], ended: false, fired: 0 };
            let (s2, _, calls) = whole_round(s1, t);
            &&& calls.len() > 0
            &&& calls[0] == (CallView::Line { callback: cb, line: first })
            &&& s.line matches Some(l) ==> calls.len() > 1 && calls[1] == (CallView::Line {
                callback: l,
                line: second,
            })
            &&& s2.question is None
            &&& !s.eof ==> is_active(s1)
        }),
{
    let s1 = after(after(s, Event::Question(earlier)).0, Event::Question(cb)).0;
    let t = TickView { lines: seq![first, second], ended: false, fired: 0 };
    law_round(s1, t);
}

/// Lines are handed out in the order in which they arrived: a round takes all that
/// wait, and none is taken twice.
pub proof fn law_lines_wait_in_order(s: ReadlineView, line: Seq<char>)
    ensures
        ({
            let s1 = after(s, Event::LineRead(line)).0;
            &&& s1.pending.len() == s.pending.len() + 1
            &&& s1.pending.last() == line
            &&& forall|i: int|
                0 <= i < s.pending.len() ==> #[trigger] s1.pending[i] == s.pending[i]
            &&& is_active(s1)
            &&& after(s1, Event::RoundStarts).0.pending.len() == 0
        }),
{
}

/// An interface that keeps nothing running has nothing left to do: no line waits, no
/// round calls anything, and no line can arrive any more. One that does keep the event
/// loop running stops with its end: a line that waits, a close callback that is still
/// owed, or a reader that can still deliver a line.
pub proof fn law_active_means_work_is_left(s: ReadlineView)
    ensures
        ({
            let t = TickView { lines: s.pending, ended: false, fired: 0 };
            let closing = after(s, Event::InputEnds).0;
            &&& !is_active(s) ==> {
                &&& s.pending.len() == 0
                &&& whole_round(s, t).2.len() == 0
                &&& s.started ==> s.eof
            }
            &&& s.pending.len() > 0 ==> is_active(s)
            &&& s.started && !s.eof ==> is_active(s)
            &&& announce_close(s).1 is Some ==> is_active(s)
            &&& is_active(s) && s.pending.len() == 0 && (s.eof || !s.started) ==> announce_close(
                s,
            ).1 is Some
            &&& s.pending.len() == 0 ==> !is_active(whole_round(closing, t).0)
        }),
{
    let t = TickView { lines: s.pending, ended: false, fired: 0 };
    law_round(s, t);
    law_round(after(s, Event::InputEnds).0, t);
}

/// `close` calls the close callback at once, if there is one and the end was not
/// announced before; a second `close` calls nothing.
pub proof fn law_close_is_synchronous(s: ReadlineView)
    ensures
        ({
            let (s1, callback) = after(s, Event::Close);
            &&& !s.close_fired ==> callback == s.close
            &&& s.close_fired ==> callback is None
            &&& s1.close_fired
            &&& s1.eof
            &&& s1.line == s.line && s1.question == s.question && s1.pending == s.pending
            &&& after(s1, Event::Close) == (s1, None::<i64>)
        }),
{
}

} // verus!
