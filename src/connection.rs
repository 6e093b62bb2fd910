//! The command side of a connection: the Lua evaluation command text, the
//! decoding of its result, and the dispatcher that serialises requests onto
//! the single wire.

use vstd::prelude::*;
use vstd::utf8::{decode_utf8, encode_utf8, valid_utf8};
use crate::console::{append_bytes, LINE_FEED};

verus! {

/// `std::string::FromUtf8Error`, the error of an invalid UTF-8 response.
#[verifier::external_type_specification]
#[verifier::external_body]
pub struct ExFromUtf8Error(std::string::FromUtf8Error);

pub const BACKSLASH: u8 = 0x5c;

pub const QUOTE: u8 = 0x22;

/// The connection's dispatch loop has gone: the request was not served.
#[derive(Debug)]
pub struct Disconnected;

#[derive(Debug)]
pub enum LuaError {
    Connection(Disconnected),
    InvalidUtf8(std::string::FromUtf8Error),
}

/// Backslashes and double quotes get a backslash in front.
pub open spec fn escape_lua(s: Seq<u8>) -> Seq<u8>
    decreases s.len(),
{
    if s.len() == 0 {
        Seq::empty()
    } else {
        let b = s.last();
        escape_lua(s.drop_last()) + if b == BACKSLASH || b == QUOTE {
            seq![BACKSLASH, b]
        } else {
            seq![b]
        }
    }
}

pub open spec fn lua_prefix() -> Seq<u8> {
    encode_utf8("luarun \"io.stdout:write(("@)
}

pub open spec fn lua_suffix() -> Seq<u8> {
    encode_utf8("))\""@)
}

/// The console command that prints the value of a Lua expression.
pub open spec fn lua_command_bytes(code: Seq<u8>) -> Seq<u8> {
    lua_prefix() + escape_lua(code) + lua_suffix()
}

/// Builds the console command that evaluates the Lua expression `code`
/// (its UTF-8 bytes) and prints its value. The code is one line: a newline
/// in it is a caller's error.
pub fn lua_command(code: &[u8]) -> (r: Vec<u8>)
    requires
        !code@.contains(LINE_FEED),
    ensures
        r@ == lua_command_bytes(code@),
{
    let mut out: Vec<u8> = Vec::new();
    append_bytes(&mut out, "luarun \"io.stdout:write((".as_bytes());
    let bytes = code;
    let ghost start = out@;
    let mut i: usize = 0;
    while i < bytes.len()
        invariant
            i <= bytes@.len(),
            start == lua_prefix(),
            out@ == start + escape_lua(bytes@.subrange(0, i as int)),
        decreases bytes@.len() - i,
    {
        let b = bytes[i];
        let ghost before = out@;
        if b == BACKSLASH || b == QUOTE {
            out.push(BACKSLASH);
        }
        out.push(b);
        let ghost pre = bytes@.subrange(0, i as int);
        i = i + 1;
        assert(bytes@.subrange(0, i as int).drop_last() =~= pre);
        assert(out@ =~= start + escape_lua(bytes@.subrange(0, i as int)));
    }
    assert(bytes@.subrange(0, i as int) =~= bytes@);
    append_bytes(&mut out, "))\"".as_bytes());
    out
}

/// Relies on `String::from_utf8`: it succeeds exactly on valid UTF-8, and then
/// the string holds the decoded characters.
#[verifier::external_body]
fn string_from_utf8(bytes: Vec<u8>) -> (r: Result<String, std::string::FromUtf8Error>)
    ensures
        r is Ok <==> valid_utf8(bytes@),
        r matches Ok(s) ==> s@ == decode_utf8(bytes@),
{
    String::from_utf8(bytes)
}

/// The text of a command's raw output.
pub fn lua_output(raw: Vec<u8>) -> (r: Result<String, LuaError>)
    ensures
        r is Ok <==> valid_utf8(raw@),
        r matches Ok(s) ==> s@ == decode_utf8(raw@),
        r matches Err(e) ==> e is InvalidUtf8,
{
    match string_from_utf8(raw) {
        Ok(s) => Ok(s),
        Err(e) => Err(LuaError::InvalidUtf8(e)),
    }
}

/// The result of an evaluation from the reply it got: none when the
/// dispatch loop dropped the request, else the command's raw output.
pub fn eval_result(reply: Option<Vec<u8>>) -> (r: Result<String, LuaError>)
    ensures
        reply is None ==> r matches Err(LuaError::Connection(_)),
        reply matches Some(raw) ==> (r is Ok <==> valid_utf8(raw@)),
        reply matches Some(raw) ==> (r matches Ok(s) ==> s@ == decode_utf8(raw@)),
        reply matches Some(raw) ==> (r matches Err(e) ==> e is InvalidUtf8),
{
    match reply {
        None => Err(LuaError::Connection(Disconnected)),
        Some(raw) => lua_output(raw),
    }
}

/// A request to the dispatch loop, without its reply slot.
#[derive(Debug)]
pub enum Request {
    Command(Vec<u8>),
    Disconnect,
}

pub enum RequestView {
    Command(Seq<u8>),
    Disconnect,
}

impl View for Request {
    type V = RequestView;

    open spec fn view(&self) -> RequestView {
        match self {
            Request::Command(c) => RequestView::Command(c@),
            Request::Disconnect => RequestView::Disconnect,
        }
    }
}

/// What the dispatch loop does with a request.
#[derive(Debug)]
pub enum Dispatch {
    /// Run this command over the wire and reply with its output.
    Execute(Vec<u8>),
    /// Drop the port, reply to the disconnecting caller, and stop.
    Close,
    /// Drop the request unanswered: its caller sees a lost connection.
    Reject,
    /// A command is on the wire: take the request again once it is done.
    Defer(Request),
}

pub enum DispatchView {
    Execute(Seq<u8>),
    Close,
    Reject,
    Defer(RequestView),
}

impl View for Dispatch {
    type V = DispatchView;

    open spec fn view(&self) -> DispatchView {
        match self {
            Dispatch::Execute(c) => DispatchView::Execute(c@),
            Dispatch::Close => DispatchView::Close,
            Dispatch::Reject => DispatchView::Reject,
            Dispatch::Defer(r) => DispatchView::Defer(r@),
        }
    }
}

#[derive(Clone, Copy, Debug, PartialEq, Eq, Structural)]
pub enum LoopState {
    /// Waiting for the next request.
    Idle,
    /// A command is on the wire.
    Busy,
    /// The port is gone; nothing more is served.
    Closed,
}

/// One request handed to the dispatch loop: its next state and what it does.
pub open spec fn dispatch(s: LoopState, req: RequestView) -> (LoopState, DispatchView) {
    match s {
        LoopState::Idle => match req {
            RequestView::Command(c) => (LoopState::Busy, DispatchView::Execute(c)),
            RequestView::Disconnect => (LoopState::Closed, DispatchView::Close),
        },
        LoopState::Busy => (LoopState::Busy, DispatchView::Defer(req)),
        LoopState::Closed => (LoopState::Closed, DispatchView::Reject),
    }
}

/// The end of the command on the wire: on failure the port is given up.
pub open spec fn complete(s: LoopState, ok: bool) -> LoopState {
    match s {
        LoopState::Busy => if ok {
            LoopState::Idle
        } else {
            LoopState::Closed
        },
        _ => s,
    }
}

/// The decisions of a connection's dispatch loop.
pub struct Dispatcher {
    state: LoopState,
}

impl View for Dispatcher {
    type V = LoopState;

    closed spec fn view(&self) -> LoopState {
        self.state
    }
}

impl Dispatcher {
    /// A loop whose initial resync succeeded.
    pub fn new() -> (r: Dispatcher)
        ensures
            r@ == LoopState::Idle,
    {
        Dispatcher { state: LoopState::Idle }
    }

    pub fn is_closed(&self) -> (r: bool)
        ensures
            r == (self@ == LoopState::Closed),
    {
        self.state == LoopState::Closed
    }

    pub fn on_request(&mut self, req: Request) -> (r: Dispatch)
        ensures
            (final(self)@, r@) == dispatch(old(self)@, req@),
    {
        match self.state {
            LoopState::Idle => match req {
                Request::Command(c) => {
                    self.state = LoopState::Busy;
                    Dispatch::Execute(c)
                },
                Request::Disconnect => {
                    self.state = LoopState::Closed;
                    Dispatch::Close
                },
            },
            LoopState::Busy => Dispatch::Defer(req),
            LoopState::Closed => Dispatch::Reject,
        }
    }

    /// The command on the wire has finished, well (`ok`) or not.
    pub fn on_complete(&mut self, ok: bool)
        ensures
            final(self)@ == complete(old(self)@, ok),
    {
        if self.state == LoopState::Busy {
            self.state = if ok {
                LoopState::Idle
            } else {
                LoopState::Closed
            };
        }
    }
}

/// What reaches the dispatch loop: a request, or the end of the command on
/// the wire.
pub enum LoopEvent {
    Request(RequestView),
    Completed(bool),
}

/// Marks on the wire: a command starts, or the command on it ends.
pub enum WireMark {
    Start,
    End,
}

/// The wire marks that a run of loop events produces.
pub open spec fn wire_trace(s: LoopState, events: Seq<LoopEvent>) -> (LoopState, Seq<WireMark>)
    decreases events.len(),
{
    if events.len() == 0 {
        (s, Seq::empty())
    } else {
        let (s1, marks) = match events[0] {
            LoopEvent::Request(req) => {
                let (n, d) = dispatch(s, req);
                (n, if d is Execute { seq![WireMark::Start] } else { Seq::empty() })
            },
            LoopEvent::Completed(ok) => (
                complete(s, ok),
                if s == LoopState::Busy { seq![WireMark::End] } else { Seq::empty() },
            ),
        };
        let (s2, rest) = wire_trace(s1, events.drop_first());
        (s2, marks + rest)
    }
}

/// Commands never overlap on the wire: from a loop with no command on it,
/// starts and ends alternate, beginning with a start, whatever requests and
/// completions arrive in whatever order.
pub proof fn lemma_one_command_at_a_time(s: LoopState, events: Seq<LoopEvent>)
    requires
        s != LoopState::Busy,
    ensures
        forall|i: int|
            0 <= i < wire_trace(s, events).1.len() ==> (#[trigger] wire_trace(s, events).1[i] is Start
                <==> i % 2 == 0),
{
    lemma_trace_alternates(s, events);
}

proof fn lemma_trace_alternates(s: LoopState, events: Seq<LoopEvent>)
    ensures
        forall|i: int|
            0 <= i < wire_trace(s, events).1.len() ==> (#[trigger] wire_trace(s, events).1[i] is Start
                <==> (i % 2 == 0) == (s != LoopState::Busy)),
        (wire_trace(s, events).0 == LoopState::Busy) == ((s == LoopState::Busy) != (wire_trace(
            s,
            events,
        ).1.len() % 2 == 1)),
    decreases events.len(),
{
    if events.len() > 0 {
        let s1 = match events[0] {
            LoopEvent::Request(req) => dispatch(s, req).0,
            LoopEvent::Completed(ok) => complete(s, ok),
        };
        lemma_trace_alternates(s1, events.drop_first());
        let trace = wire_trace(s, events).1;
        let rest = wire_trace(s1, events.drop_first()).1;
        assert forall|i: int| 0 <= i < trace.len() implies (#[trigger] trace[i] is Start <==> (i % 2
            == 0) == (s != LoopState::Busy)) by {
            if trace.len() > rest.len() && i >= 1 {
                assert(trace[i] == rest[i - 1]);
            }
        }
    }
}

/// Once a disconnect has been served, every later request is dropped
/// unanswered, so each of its callers sees a lost connection.
pub proof fn lemma_nothing_served_after_disconnect(s: LoopState, reqs: Seq<RequestView>)
    requires
        s == LoopState::Idle,
    ensures
        dispatch(s, RequestView::Disconnect).1 == DispatchView::Close,
        forall|i: int|
            0 <= i < reqs.len() ==> #[trigger] dispatch_all(dispatch(s, RequestView::Disconnect).0, reqs)[i]
                == DispatchView::Reject,
{
    lemma_closed_rejects(reqs);
}

/// The dispatch decisions for a run of requests with no command completing.
pub open spec fn dispatch_all(s: LoopState, reqs: Seq<RequestView>) -> Seq<DispatchView>
    decreases reqs.len(),
{
    if reqs.len() == 0 {
        Seq::empty()
    } else {
        let (s1, d) = dispatch(s, reqs[0]);
        seq![d] + dispatch_all(s1, reqs.drop_first())
    }
}

proof fn lemma_closed_rejects(reqs: Seq<RequestView>)
    ensures
        dispatch_all(LoopState::Closed, reqs).len() == reqs.len(),
        forall|i: int|
            0 <= i < reqs.len() ==> #[trigger] dispatch_all(LoopState::Closed, reqs)[i]
                == DispatchView::Reject,
    decreases reqs.len(),
{
    if reqs.len() > 0 {
        lemma_closed_rejects(reqs.drop_first());
        let all = dispatch_all(LoopState::Closed, reqs);
        assert forall|i: int| 0 <= i < reqs.len() implies #[trigger] all[i] == DispatchView::Reject by {
            if i >= 1 {
                assert(all[i] == dispatch_all(LoopState::Closed, reqs.drop_first())[i - 1]);
            }
        }
    }
}

} // verus!
