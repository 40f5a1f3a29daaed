//! The session with one controller: what arrived, what is pending, what to
//! send.
//!
//! The session reads no socket. Its owner hands it the bytes that arrived and
//! sends the lines that it frames.
use crate::message::{Msg, MsgKind, OWView, OW};
use crate::parser::scan::least;
use crate::parser::{law_whole_lines, parse, spec_parse, PResult, Parsed};
use crate::text::chars_of;
use std::collections::VecDeque;
use vstd::prelude::*;
use vstd::string::*;

verus! {

/// Why the session has no message to give.
#[derive(Debug, Clone, Copy, PartialEq, Eq, Structural)]
pub enum Error {
    /// A line that is no message. It stopped being one at `offset`.
    Parse { offset: usize },
    /// The connection was lost while a message was awaited.
    Disconnected,
    /// The controller refused a command, with this code.
    Controller(u16),
}

/// What stands in the queue of a session: a message, or a line that was
/// none.
pub type Item = Result<OW, Error>;

/// The content of an [`Item`].
pub type ItemView = Result<OWView, Error>;

/// The content of an item.
pub open spec fn item_view(item: Item) -> ItemView {
    match item {
        Ok(msg) => Ok(msg@),
        Err(e) => Err(e),
    }
}

/// The content of a queue.
pub open spec fn items_view(queue: Seq<Item>) -> Seq<ItemView> {
    queue.map_values(|i: Item| item_view(i))
}

/// How many bytes are thrown away after a line that is no message: up to
/// and with the first line feed, or one byte where there is none.
pub open spec fn discarded(buf: Seq<u8>, n: nat) -> nat
    decreases buf.len() - n,
{
    if n >= buf.len() {
        1
    } else if buf[n as int] == 10 {
        n + 1
    } else {
        discarded(buf, n + 1)
    }
}

/// What one reading takes off the buffer: a message and its bytes, or an
/// error and the bytes of the broken line. Nothing while the buffer may be
/// the start of a message.
pub open spec fn munched(buf: Seq<u8>) -> Option<(ItemView, Seq<u8>)> {
    match spec_parse(buf) {
        Parsed::Done { used, value } => Some((Ok(value), buf.skip(used))),
        Parsed::Incomplete => None,
        Parsed::Error { offset } => Some(
            (
                Err(Error::Parse { offset: offset as usize }),
                buf.skip(least(discarded(buf, 0) as int, buf.len() as int)),
            ),
        ),
    }
}

/// Everything that can be read off a buffer, one reading after the other,
/// and what stays in the buffer.
pub open spec fn drained(buf: Seq<u8>) -> (Seq<ItemView>, Seq<u8>)
    decreases buf.len(),
{
    match munched(buf) {
        Some((item, rest)) => if rest.len() < buf.len() {
            (seq![item] + drained(rest).0, drained(rest).1)
        } else {
            (seq![item], rest)
        },
        None => (Seq::empty(), buf),
    }
}

/// A reading that takes something leaves a shorter buffer.
pub proof fn lemma_munched_shrinks(buf: Seq<u8>)
    ensures
        munched(buf) matches Some((_, rest)) ==> rest.len() < buf.len(),
{
    law_whole_lines(buf);
    crate::parser::lemma_error_needs_input(buf);
    lemma_discarded(buf, 0);
}

/// At least one byte is thrown away.
pub proof fn lemma_discarded(buf: Seq<u8>, n: nat)
    ensures
        discarded(buf, n) >= 1,
    decreases buf.len() - n,
{
    if n < buf.len() && buf[n as int] != 10 {
        lemma_discarded(buf, n + 1);
    }
}

/// Takes the next message off the buffer, as far as the bytes allow. After a
/// line that is no message, the line is thrown away.
pub fn munch(partial: &mut Vec<u8>) -> (r: Option<Item>)
    ensures
        match munched(old(partial)@) {
            Some((item, rest)) => r is Some && item_view(r->Some_0) == item && final(partial)@
                == rest,
            None => r is None && final(partial)@ == old(partial)@,
        },
{
    let ghost buf = partial@;
    match parse(partial.as_slice()) {
        PResult::Done { consumed, msg } => {
            let rest = partial.split_off(consumed);
            *partial = rest;
            assert(partial@ =~= buf.skip(consumed as int));
            Some(Ok(msg))
        },
        PResult::Incomplete => None,
        PResult::Error { offset } => {
            let mut n: usize = 0;
            while n < partial.len() && partial[n] != 10
                invariant
                    n <= partial@.len(),
                    partial@ == buf,
                    discarded(buf, 0) == discarded(buf, n as nat),
                decreases partial@.len() - n,
            {
                n += 1;
            }
            let cut: usize = if n < partial.len() {
                n + 1
            } else if partial.len() >= 1 {
                1
            } else {
                0
            };
            let rest = partial.split_off(cut);
            *partial = rest;
            assert(partial@ =~= buf.skip(cut as int));
            Some(Err(Error::Parse { offset }))
        },
    }
}

/// The first place in a queue at which a search for a kind ends: a message
/// of that kind, or an error message of the controller.
pub open spec fn pick_index(queue: Seq<ItemView>, kind: MsgKind, from: int) -> Option<int>
    decreases queue.len() - from,
{
    if from < 0 || from >= queue.len() {
        None
    } else {
        match queue[from] {
            Ok(msg) => if msg.msg.kind() == kind || msg.msg is Error {
                Some(from)
            } else {
                pick_index(queue, kind, from + 1)
            },
            Err(_) => pick_index(queue, kind, from + 1),
        }
    }
}

/// The session with one controller.
pub struct Session {
    /// What arrived and was not taken yet, in the order of arrival.
    pub queue: VecDeque<Item>,
    /// The number of the controller, 0 until it is known.
    pub contno: u8,
    /// The bytes that arrived and are no whole message yet.
    pub partial: Vec<u8>,
}

/// The content of a [`Session`].
pub struct SessionView {
    pub queue: Seq<ItemView>,
    pub contno: u8,
    pub partial: Seq<u8>,
}

impl View for Session {
    type V = SessionView;

    open spec fn view(&self) -> SessionView {
        SessionView {
            queue: items_view(self.queue@),
            contno: self.contno,
            partial: self.partial@,
        }
    }
}

/// The content of an item, if there is one.
pub open spec fn item_opt_view(item: Option<Item>) -> Option<ItemView> {
    match item {
        Some(i) => Some(item_view(i)),
        None => None,
    }
}

impl SessionView {
    /// What a search for a kind finds: the first message of that kind, or
    /// the code of an error message of the controller that stands before it.
    pub open spec fn picked(self, kind: MsgKind) -> Option<ItemView> {
        match pick_index(self.queue, kind, 0) {
            Some(i) => match self.queue[i] {
                Ok(msg) => if msg.msg.kind() == kind {
                    Some(Ok(msg))
                } else {
                    Some(Err(Error::Controller(msg.msg->Error_0)))
                },
                Err(e) => Some(Err(e)),
            },
            None => None,
        }
    }

    /// The session after a search for a kind: a message that was found has
    /// left the queue, the others stay in their order.
    pub open spec fn after_pick(self, kind: MsgKind) -> SessionView {
        match pick_index(self.queue, kind, 0) {
            Some(i) => match self.queue[i] {
                Ok(msg) => if msg.msg.kind() == kind {
                    SessionView { queue: self.queue.remove(i), ..self }
                } else {
                    self
                },
                Err(_) => self,
            },
            None => self,
        }
    }

    /// The session after bytes arrived: everything that can be read off the
    /// buffer joins the queue.
    pub open spec fn fed(self, bytes: Seq<u8>) -> SessionView {
        SessionView {
            queue: self.queue + drained(self.partial + bytes).0,
            partial: drained(self.partial + bytes).1,
            ..self
        }
    }
}

impl Session {
    /// A session that has seen nothing yet.
    pub fn new() -> (r: Self)
        ensures
            r@ == (SessionView { queue: Seq::empty(), contno: 0, partial: Seq::empty() }),
    {
        let r = Session { queue: VecDeque::new(), contno: 0, partial: Vec::new() };
        assert(r@.queue =~= Seq::empty());
        r
    }

    /// Takes bytes that arrived: every message that they complete joins the
    /// queue, as does an error for every line that is no message.
    pub fn feed(&mut self, bytes: &[u8])
        ensures
            final(self)@ == old(self)@.fed(bytes@),
    {
        let mut k: usize = 0;
        while k < bytes.len()
            invariant
                k <= bytes@.len(),
                self.queue == old(self).queue,
                self.contno == old(self).contno,
                self.partial@ == old(self).partial@ + bytes@.take(k as int),
            decreases bytes@.len() - k,
        {
            self.partial.push(bytes[k]);
            assert(bytes@.take(k + 1) =~= bytes@.take(k as int).push(bytes@[k as int]));
            assert(self.partial@ =~= old(self).partial@ + bytes@.take(k + 1));
            k += 1;
        }
        assert(bytes@.take(bytes@.len() as int) =~= bytes@);
        self.drain();
    }

    /// Reads off the buffer whatever can be read.
    fn drain(&mut self)
        ensures
            final(self)@ == (SessionView {
                queue: old(self)@.queue + drained(old(self).partial@).0,
                partial: drained(old(self).partial@).1,
                ..old(self)@
            }),
    {
        let ghost buf = self.partial@;
        let ghost before = self@.queue;
        let ghost mut done: Seq<ItemView> = Seq::empty();
        assert(before + done =~= before);
        assert(done + drained(buf).0 =~= drained(buf).0);
        loop
            invariant
                self.contno == old(self).contno,
                buf == old(self).partial@,
                before == old(self)@.queue,
                self@.queue == before + done,
                drained(buf).0 == done + drained(self.partial@).0,
                drained(buf).1 == drained(self.partial@).1,
            decreases self.partial@.len(),
        {
            let ghost now = self.partial@;
            proof {
                lemma_munched_shrinks(now);
            }
            match munch(&mut self.partial) {
                Some(item) => {
                    let ghost queue = self@.queue;
                    let ghost added = item_view(item);
                    self.queue.push_back(item);
                    proof {
                        assert(self@.queue =~= queue.push(added));
                        assert(drained(now).0 == seq![added] + drained(self.partial@).0);
                        assert(done + (seq![added] + drained(self.partial@).0) =~= done.push(added)
                            + drained(self.partial@).0);
                        assert(before + done.push(added) =~= (before + done).push(added));
                        done = done.push(added);
                    }
                },
                None => {
                    proof {
                        assert(drained(now).0 =~= Seq::<ItemView>::empty());
                        assert(done + Seq::<ItemView>::empty() =~= done);
                    }
                    return ;
                },
            }
        }
    }

    /// The oldest item of the queue, which leaves the queue.
    pub fn pop(&mut self) -> (r: Option<Item>)
        ensures
            old(self)@.queue.len() == 0 ==> r is None && final(self)@ == old(self)@,
            old(self)@.queue.len() > 0 ==> r is Some && item_view(r->Some_0) == old(
                self,
            )@.queue[0] && final(self)@ == (SessionView {
                queue: old(self)@.queue.drop_first(),
                ..old(self)@
            }),
    {
        let r = self.queue.pop_front();
        proof {
            if r is Some {
                assert(self@.queue =~= old(self)@.queue.drop_first());
                assert(old(self)@.queue[0] == item_view(old(self).queue@[0]));
            }
        }
        r
    }

    /// Looks for a message of a kind anywhere in the queue. The message that
    /// is found leaves the queue; the others stay, in their order. An error
    /// message of the controller that stands before it ends the search: its
    /// code comes back and the queue stays as it is. Nothing comes back
    /// where neither stands in the queue: more must arrive.
    pub fn pick(&mut self, kind: MsgKind) -> (r: Option<Item>)
        ensures
            item_opt_view(r) == old(self)@.picked(kind),
            final(self)@ == old(self)@.after_pick(kind),
    {
        let mut i: usize = 0;
        while i < self.queue.len()
            invariant
                i <= self.queue@.len(),
                *self == *old(self),
                pick_index(self@.queue, kind, 0) == pick_index(self@.queue, kind, i as int),
            decreases self.queue@.len() - i,
        {
            let found = match &self.queue[i] {
                Ok(resp) => {
                    if resp.msg.kind() == kind {
                        1u8
                    } else {
                        match resp.msg {
                            Msg::Error(_) => 2u8,
                            _ => 0u8,
                        }
                    }
                },
                Err(_) => 0u8,
            };
            assert(self@.queue[i as int] == item_view(self.queue@[i as int]));
            if found == 1 {
                let item = self.queue.remove(i);
                assert(self@.queue =~= old(self)@.queue.remove(i as int));
                return item;
            } else if found == 2 {
                match &self.queue[i] {
                    Ok(resp) => match resp.msg {
                        Msg::Error(code) => {
                            return Some(Err(Error::Controller(code)));
                        },
                        _ => {},
                    },
                    Err(_) => {},
                }
            }
            i += 1;
        }
        None
    }

    /// Looks for a message of a kind after the connection was closed: what
    /// is not in the queue by now will not come.
    pub fn pick_closed(&mut self, kind: MsgKind) -> (r: Item)
        ensures
            item_view(r) == match old(self)@.picked(kind) {
                Some(item) => item,
                None => Err(Error::Disconnected),
            },
            final(self)@ == old(self)@.after_pick(kind),
    {
        match self.pick(kind) {
            Some(item) => item,
            None => Err(Error::Disconnected),
        }
    }

    /// Remembers the number of the controller that sent its system
    /// information.
    pub fn note(&mut self, msg: &OW)
        ensures
            final(self)@ == (SessionView {
                contno: if msg@.msg is CSI {
                    msg.contno
                } else {
                    old(self).contno
                },
                ..old(self)@
            }),
    {
        match msg.msg {
            Msg::CSI(_) => {
                self.contno = msg.contno;
            },
            _ => {},
        }
    }
}

/// Whether a text ends with a carriage return and a line feed.
pub open spec fn ends_line(line: Seq<char>) -> bool {
    line.len() >= 2 && line[line.len() - 2] == '\r' && line[line.len() - 1] == '\n'
}

/// A command line as it is sent: with a carriage return and a line feed at
/// its end.
pub open spec fn framed(line: Seq<char>) -> Seq<char> {
    if ends_line(line) {
        line
    } else {
        line + "\r\n"@
    }
}

/// Frames a command line for sending.
pub fn frame_line(line: &str) -> (r: String)
    ensures
        r@ == framed(line@),
{
    let v = chars_of(line);
    let mut r = String::from_str(line);
    if !(v.len() >= 2 && v[v.len() - 2] == '\r' && v[v.len() - 1] == '\n') {
        r.append("\r\n");
    }
    r
}

/// One step of the handshake: the line to send and the kind of message to
/// wait for, if any.
pub struct Request {
    pub line: String,
    pub wait: Option<MsgKind>,
}

/// The content of a [`Request`].
pub struct RequestView {
    pub line: Seq<char>,
    pub wait: Option<MsgKind>,
}

impl View for Request {
    type V = RequestView;

    open spec fn view(&self) -> RequestView {
        RequestView { line: self.line@, wait: self.wait }
    }
}

/// The number of steps of the handshake.
pub const SETUP_STEPS: usize = 8;

/// Step `step` of the handshake with a controller, counted from 0. The
/// output format is set, then date and time, as the host has them, then the
/// interval of keepalives, 120 s, and of reports, 30 s. The settings are
/// saved, and the system information and the device list are asked for.
pub open spec fn handshake(step: nat, date: Seq<char>, time: Seq<char>) -> Option<RequestView> {
    if step == 0 {
        Some(RequestView { line: "SET,SYS,DATAPRINT,1"@, wait: Some(MsgKind::Dataprint) })
    } else if step == 1 {
        Some(RequestView { line: "SET,SYS,DATE,"@ + date, wait: Some(MsgKind::Date) })
    } else if step == 2 {
        Some(RequestView { line: "SET,SYS,TIME,"@ + time, wait: Some(MsgKind::Time) })
    } else if step == 3 {
        Some(RequestView { line: "SET,SYS,KALSENDTIME,120"@, wait: None })
    } else if step == 4 {
        Some(RequestView { line: "SET,SYS,DATATIME,30"@, wait: Some(MsgKind::Datatime) })
    } else if step == 5 {
        Some(RequestView { line: "SET,SYS,SAVE"@, wait: Some(MsgKind::Save) })
    } else if step == 6 {
        Some(RequestView { line: "GET,SYS,INFO"@, wait: Some(MsgKind::CSI) })
    } else if step == 7 {
        Some(RequestView { line: "GET,OWB,LISTALL1"@, wait: Some(MsgKind::List3) })
    } else {
        None
    }
}

/// The request of one step of the handshake, none after the last. `date`
/// reads `dd.mm.yy` and `time` reads `HH:MM:SS`.
pub fn setup_step(step: usize, date: &str, time: &str) -> (r: Option<Request>)
    ensures
        match handshake(step as nat, date@, time@) {
            Some(req) => r is Some && r->Some_0@ == req,
            None => r is None,
        },
{
    if step == 0 {
        Some(Request { line: String::from_str("SET,SYS,DATAPRINT,1"), wait: Some(MsgKind::Dataprint) })
    } else if step == 1 {
        let mut line = String::from_str("SET,SYS,DATE,");
        line.append(date);
        Some(Request { line, wait: Some(MsgKind::Date) })
    } else if step == 2 {
        let mut line = String::from_str("SET,SYS,TIME,");
        line.append(time);
        Some(Request { line, wait: Some(MsgKind::Time) })
    } else if step == 3 {
        Some(Request { line: String::from_str("SET,SYS,KALSENDTIME,120"), wait: None })
    } else if step == 4 {
        Some(Request { line: String::from_str("SET,SYS,DATATIME,30"), wait: Some(MsgKind::Datatime) })
    } else if step == 5 {
        Some(Request { line: String::from_str("SET,SYS,SAVE"), wait: Some(MsgKind::Save) })
    } else if step == 6 {
        Some(Request { line: String::from_str("GET,SYS,INFO"), wait: Some(MsgKind::CSI) })
    } else if step == 7 {
        Some(Request { line: String::from_str("GET,OWB,LISTALL1"), wait: Some(MsgKind::List3) })
    } else {
        None
    }
}


/// Where the handshake with a controller stands.
#[derive(Debug, Clone, Copy, PartialEq, Eq, Structural)]
pub enum Phase {
    /// There is no connection: it was refused or lost.
    Disconnected,
    /// The handshake is under way.
    Handshaking,
    /// The handshake is over: the controller reports by itself.
    Running,
}

/// The handshake with a controller: the step that is due, counted from 0,
/// and the kind of message that it waits for once its line was sent.
#[derive(Debug, Clone, Copy, PartialEq, Eq, Structural)]
pub struct Handshake {
    pub phase: Phase,
    pub step: usize,
    pub awaiting: Option<MsgKind>,
}

/// What the owner of a session is to do next.
#[derive(Debug, Clone, PartialEq)]
pub enum Next {
    /// Send this line, framed, and come again.
    Send(String),
    /// Read from the connection, feed the session, and come again.
    Read,
    /// Hand this message on to the bus, and come again.
    Hand(OW),
    /// The handshake is over.
    Done,
    /// The handshake failed.
    Failed(Error),
}

/// The content of a [`Next`].
pub enum NextView {
    Send(Seq<char>),
    Read,
    Hand(OWView),
    Done,
    Failed(Error),
}

impl View for Next {
    type V = NextView;

    open spec fn view(&self) -> NextView {
        match self {
            Next::Send(line) => NextView::Send(line@),
            Next::Read => NextView::Read,
            Next::Hand(msg) => NextView::Hand(msg@),
            Next::Done => NextView::Done,
            Next::Failed(e) => NextView::Failed(*e),
        }
    }
}

/// Whether an answer of the handshake is meant for the bus: the system
/// information and the device list are.
pub open spec fn for_the_bus(kind: MsgKind) -> bool {
    kind == MsgKind::CSI || kind == MsgKind::List3
}

impl Handshake {
    /// The step that is due is a step of the handshake or the end of it, and
    /// an answer is only awaited for a step.
    pub open spec fn wf(self) -> bool {
        self.step <= SETUP_STEPS && (self.awaiting is Some ==> self.step < SETUP_STEPS)
    }

    /// The handshake after it has sent the line of the step that is due, or
    /// has found that no step is left.
    pub open spec fn sent(self, date: Seq<char>, time: Seq<char>) -> Handshake {
        match handshake(self.step as nat, date, time) {
            Some(req) => Handshake {
                phase: Phase::Handshaking,
                step: if req.wait is None {
                    (self.step + 1) as usize
                } else {
                    self.step
                },
                awaiting: req.wait,
            },
            None => Handshake { phase: Phase::Running, step: self.step, awaiting: None },
        }
    }

    /// What is to be done where no answer is awaited: the line of the step
    /// that is due is to be sent; after the last step the handshake is over.
    pub open spec fn sending(self, date: Seq<char>, time: Seq<char>) -> NextView {
        match handshake(self.step as nat, date, time) {
            Some(req) => NextView::Send(req.line),
            None => NextView::Done,
        }
    }

    /// The handshake after the step whose answer arrived.
    pub open spec fn answered(self) -> Handshake {
        Handshake { phase: Phase::Handshaking, step: (self.step + 1) as usize, awaiting: None }
    }

    /// The handshake after a call of `next`. An awaited answer ends its
    /// step, and unless it is meant for the bus the next line is sent at
    /// once. An error of the controller ends the handshake, as does a closed
    /// connection while an answer is missing.
    pub open spec fn after(
        self,
        session: SessionView,
        date: Seq<char>,
        time: Seq<char>,
        closed: bool,
    ) -> Handshake {
        if self.phase != Phase::Handshaking {
            self
        } else {
            match self.awaiting {
                Some(kind) => match session.picked(kind) {
                    Some(Ok(_)) => if for_the_bus(kind) {
                        self.answered()
                    } else {
                        self.answered().sent(date, time)
                    },
                    Some(Err(_)) => Handshake { phase: Phase::Disconnected, ..self },
                    None => if closed {
                        Handshake { phase: Phase::Disconnected, ..self }
                    } else {
                        self
                    },
                },
                None => self.sent(date, time),
            }
        }
    }

    /// What a call of `next` asks its caller to do.
    pub open spec fn asked(
        self,
        session: SessionView,
        date: Seq<char>,
        time: Seq<char>,
        closed: bool,
    ) -> NextView {
        match self.phase {
            Phase::Disconnected => NextView::Failed(Error::Disconnected),
            Phase::Running => NextView::Done,
            Phase::Handshaking => match self.awaiting {
                Some(kind) => match session.picked(kind) {
                    Some(Ok(msg)) => if for_the_bus(kind) {
                        NextView::Hand(msg)
                    } else {
                        self.answered().sending(date, time)
                    },
                    Some(Err(e)) => NextView::Failed(e),
                    None => if closed {
                        NextView::Failed(Error::Disconnected)
                    } else {
                        NextView::Read
                    },
                },
                None => self.sending(date, time),
            },
        }
    }

    /// The session after a call of `next`: an awaited answer has left the
    /// queue, and the number of the controller is known once it has sent its
    /// system information.
    pub open spec fn session_after(self, session: SessionView) -> SessionView {
        if self.phase == Phase::Handshaking && self.awaiting is Some {
            let picked = session.after_pick(self.awaiting->Some_0);
            match session.picked(self.awaiting->Some_0) {
                Some(Ok(msg)) => SessionView {
                    contno: if msg.msg is CSI {
                        msg.contno
                    } else {
                        session.contno
                    },
                    ..picked
                },
                _ => picked,
            }
        } else {
            session
        }
    }

    /// A handshake that is about to begin.
    pub fn new() -> (r: Self)
        ensures
            r == (Handshake { phase: Phase::Handshaking, step: 0, awaiting: None }),
            r.wf(),
    {
        Handshake { phase: Phase::Handshaking, step: 0, awaiting: None }
    }

    /// Sends the line of the step that is due.
    fn send(&mut self, date: &str, time: &str) -> (r: Next)
        requires
            old(self).step <= SETUP_STEPS,
        ensures
            *final(self) == old(self).sent(date@, time@),
            r@ == old(self).sending(date@, time@),
            final(self).wf(),
    {
        match setup_step(self.step, date, time) {
            Some(req) => {
                self.phase = Phase::Handshaking;
                self.awaiting = req.wait;
                match req.wait {
                    None => {
                        self.step = self.step + 1;
                    },
                    Some(_) => {},
                }
                Next::Send(req.line)
            },
            None => {
                self.phase = Phase::Running;
                self.awaiting = None;
                Next::Done
            },
        }
    }

    /// Decides what is to be done next. `date` and `time` are the host's,
    /// `dd.mm.yy` and `HH:MM:SS`; `closed` says that the connection has
    /// been closed.
    pub fn next(&mut self, session: &mut Session, date: &str, time: &str, closed: bool) -> (r: Next)
        requires
            old(self).wf(),
        ensures
            final(self).wf(),
            *final(self) == old(self).after(old(session)@, date@, time@, closed),
            final(session)@ == old(self).session_after(old(session)@),
            r@ == old(self).asked(old(session)@, date@, time@, closed),
    {
        match self.phase {
            Phase::Disconnected => Next::Failed(Error::Disconnected),
            Phase::Running => Next::Done,
            Phase::Handshaking => match self.awaiting {
                Some(kind) => match session.pick(kind) {
                    Some(Ok(msg)) => {
                        session.note(&msg);
                        self.step = self.step + 1;
                        self.awaiting = None;
                        match kind {
                            MsgKind::CSI | MsgKind::List3 => Next::Hand(msg),
                            _ => self.send(date, time),
                        }
                    },
                    Some(Err(e)) => {
                        self.phase = Phase::Disconnected;
                        Next::Failed(e)
                    },
                    None => {
                        if closed {
                            self.phase = Phase::Disconnected;
                            Next::Failed(Error::Disconnected)
                        } else {
                            Next::Read
                        }
                    },
                },
                None => self.send(date, time),
            },
        }
    }
}

} // verus!
