//! The line-oriented console exchange: resynchronise on the prompt, send a
//! command, check its echo, and collect the output up to the next prompt.

use vstd::prelude::*;

verus! {

/// Bytes read while waiting for a prompt before giving up.
pub const MAX_CONSOLE_BUFFER: usize = 65536;

pub const PROMPT_LEN: usize = 5;

pub const LINE_FEED: u8 = 0x0a;

pub const CARRIAGE_RETURN: u8 = 0x0d;

/// The console prompt: a space, U+2192 RIGHTWARDS ARROW in UTF-8, a space.
pub open spec fn prompt() -> Seq<u8> {
    seq![0x20u8, 0xe2u8, 0x86u8, 0x92u8, 0x20u8]
}

pub open spec fn ends_with_prompt(buf: Seq<u8>) -> bool {
    buf.len() >= PROMPT_LEN && buf.subrange(buf.len() - PROMPT_LEN, buf.len() as int) == prompt()
}

/// What one byte does to a wait for the prompt.
pub enum ScanView {
    Pending,
    Found(Seq<u8>),
    TooMuchOutput,
}

/// One byte of a wait for the prompt, from the bytes gathered so far: the
/// bytes gathered next and the outcome. On the prompt, the bytes before it.
pub open spec fn scan_step(buf: Seq<u8>, b: u8) -> (Seq<u8>, ScanView) {
    let nb = buf.push(b);
    if ends_with_prompt(nb) {
        (Seq::empty(), ScanView::Found(nb.subrange(0, nb.len() - PROMPT_LEN)))
    } else if nb.len() >= MAX_CONSOLE_BUFFER {
        (Seq::empty(), ScanView::TooMuchOutput)
    } else {
        (nb, ScanView::Pending)
    }
}

/// A whole wait over the given bytes: the bytes gathered, the outcome, and
/// how many bytes were consumed (none after the outcome is known).
pub open spec fn scan_all(buf: Seq<u8>, bytes: Seq<u8>) -> (Seq<u8>, ScanView, int)
    decreases bytes.len(),
{
    if bytes.len() == 0 {
        (buf, ScanView::Pending, 0)
    } else {
        let (nb, o) = scan_step(buf, bytes[0]);
        match o {
            ScanView::Pending => {
                let (fb, fo, n) = scan_all(nb, bytes.drop_first());
                (fb, fo, n + 1)
            },
            _ => (nb, o, 1),
        }
    }
}

#[derive(Debug)]
pub enum Scan {
    Pending,
    Found(Vec<u8>),
    TooMuchOutput,
}

impl View for Scan {
    type V = ScanView;

    open spec fn view(&self) -> ScanView {
        match self {
            Scan::Pending => ScanView::Pending,
            Scan::Found(v) => ScanView::Found(v@),
            Scan::TooMuchOutput => ScanView::TooMuchOutput,
        }
    }
}

/// Gathers bytes until they end with the prompt.
pub struct PromptScanner {
    buffer: Vec<u8>,
}

impl View for PromptScanner {
    type V = Seq<u8>;

    closed spec fn view(&self) -> Seq<u8> {
        self.buffer@
    }
}

impl PromptScanner {
    pub closed spec fn wf(&self) -> bool {
        self.buffer@.len() < MAX_CONSOLE_BUFFER
    }

    pub fn new() -> (r: PromptScanner)
        ensures
            r.wf(),
            r@ == Seq::<u8>::empty(),
    {
        PromptScanner { buffer: Vec::new() }
    }

    pub fn push(&mut self, byte: u8) -> (r: Scan)
        requires
            old(self).wf(),
        ensures
            final(self).wf(),
            (final(self)@, r@) == scan_step(old(self)@, byte),
    {
        self.buffer.push(byte);
        let n = self.buffer.len();
        if n >= PROMPT_LEN && self.buffer[n - 5] == 0x20 && self.buffer[n - 4] == 0xe2
            && self.buffer[n - 3] == 0x86 && self.buffer[n - 2] == 0x92 && self.buffer[n - 1]
            == 0x20 {
            assert(self.buffer@.subrange(n - 5, n as int) =~= prompt());
            let mut out: Vec<u8> = Vec::new();
            core::mem::swap(&mut out, &mut self.buffer);
            out.truncate(n - PROMPT_LEN);
            assert(out@ =~= old(self)@.push(byte).subrange(0, n - PROMPT_LEN));
            assert(self.buffer@ =~= Seq::<u8>::empty());
            return Scan::Found(out);
        }
        assert(!ends_with_prompt(self.buffer@)) by {
            if n >= PROMPT_LEN {
                let tail = self.buffer@.subrange(n - 5, n as int);
                if tail == prompt() {
                    assert(tail[0] == self.buffer@[n - 5]);
                    assert(tail[1] == self.buffer@[n - 4]);
                    assert(tail[2] == self.buffer@[n - 3]);
                    assert(tail[3] == self.buffer@[n - 2]);
                    assert(tail[4] == self.buffer@[n - 1]);
                }
            }
        }
        if n >= MAX_CONSOLE_BUFFER {
            self.buffer.clear();
            assert(self.buffer@ =~= Seq::<u8>::empty());
            return Scan::TooMuchOutput;
        }
        Scan::Pending
    }
}

#[derive(Debug)]
pub enum SyncError {
    Io(std::io::Error),
    UnexpectedData { expected: u8, received: u8 },
    TooMuchOutput,
}

/// Where one exchange with the console stands.
#[derive(Clone, Copy, Debug, PartialEq, Eq, Structural)]
pub enum ExchangePhase {
    /// The sync newline is out; waiting for the prompt.
    Syncing,
    /// The command is out; checking its echo, byte `pos` next.
    Echo { pos: usize },
    /// The echo is complete; the carriage return comes next.
    Cr,
    /// The line feed after the echo comes next.
    Lf,
    /// Gathering the command's output up to the prompt.
    Output,
    /// Done or failed: nothing more is read.
    Finished,
}

/// What the driver of an exchange does next.
#[derive(Debug)]
pub enum Step {
    /// Read another byte.
    Continue,
    /// Write these bytes, flush, then read.
    Write(Vec<u8>),
    /// The exchange is over: the command's output.
    Done(Vec<u8>),
    /// The exchange failed.
    Failed(SyncError),
}

pub enum StepView {
    Continue,
    Write(Seq<u8>),
    Done(Seq<u8>),
    Unexpected { expected: u8, received: u8 },
    TooMuchOutput,
    Io,
}

impl View for Step {
    type V = StepView;

    open spec fn view(&self) -> StepView {
        match self {
            Step::Continue => StepView::Continue,
            Step::Write(v) => StepView::Write(v@),
            Step::Done(v) => StepView::Done(v@),
            Step::Failed(SyncError::UnexpectedData { expected, received }) => StepView::Unexpected {
                expected: *expected,
                received: *received,
            },
            Step::Failed(SyncError::TooMuchOutput) => StepView::TooMuchOutput,
            Step::Failed(SyncError::Io(_)) => StepView::Io,
        }
    }
}

/// An exchange: the command it sends, if any (a bare resync sends none),
/// its phase, and the bytes gathered while waiting for a prompt.
pub struct ExchangeView {
    pub command: Option<Seq<u8>>,
    pub phase: ExchangePhase,
    pub buffer: Seq<u8>,
}

/// What happens when the sync prompt is seen: a bare resync is done; a
/// command is written, followed by a line feed.
pub open spec fn after_prompt(command: Option<Seq<u8>>) -> (ExchangePhase, StepView) {
    match command {
        None => (ExchangePhase::Finished, StepView::Done(Seq::empty())),
        Some(c) => (
            if c.len() == 0 {
                ExchangePhase::Cr
            } else {
                ExchangePhase::Echo { pos: 0 }
            },
            StepView::Write(c.push(LINE_FEED)),
        ),
    }
}

/// One byte read during an exchange: the next state and what to do.
pub open spec fn exchange_step(v: ExchangeView, b: u8) -> (ExchangeView, StepView) {
    match v.phase {
        ExchangePhase::Syncing => {
            let (nb, o) = scan_step(v.buffer, b);
            match o {
                ScanView::Pending => (ExchangeView { buffer: nb, ..v }, StepView::Continue),
                ScanView::TooMuchOutput => (
                    ExchangeView { phase: ExchangePhase::Finished, buffer: nb, ..v },
                    StepView::TooMuchOutput,
                ),
                ScanView::Found(_) => {
                    let (p, st) = after_prompt(v.command);
                    (ExchangeView { phase: p, buffer: nb, ..v }, st)
                },
            }
        },
        ExchangePhase::Echo { pos } => {
            let c = v.command.unwrap();
            let expected = c[pos as int];
            if b != expected {
                (
                    ExchangeView { phase: ExchangePhase::Finished, ..v },
                    StepView::Unexpected { expected, received: b },
                )
            } else if pos + 1 >= c.len() {
                (ExchangeView { phase: ExchangePhase::Cr, ..v }, StepView::Continue)
            } else {
                (
                    ExchangeView { phase: ExchangePhase::Echo { pos: (pos + 1) as usize }, ..v },
                    StepView::Continue,
                )
            }
        },
        ExchangePhase::Cr => {
            if b == CARRIAGE_RETURN {
                (ExchangeView { phase: ExchangePhase::Lf, ..v }, StepView::Continue)
            } else {
                (
                    ExchangeView { phase: ExchangePhase::Finished, ..v },
                    StepView::Unexpected { expected: CARRIAGE_RETURN, received: b },
                )
            }
        },
        ExchangePhase::Lf => {
            if b == LINE_FEED {
                (ExchangeView { phase: ExchangePhase::Output, ..v }, StepView::Continue)
            } else {
                (
                    ExchangeView { phase: ExchangePhase::Finished, ..v },
                    StepView::Unexpected { expected: LINE_FEED, received: b },
                )
            }
        },
        ExchangePhase::Output => {
            let (nb, o) = scan_step(v.buffer, b);
            match o {
                ScanView::Pending => (ExchangeView { buffer: nb, ..v }, StepView::Continue),
                ScanView::TooMuchOutput => (
                    ExchangeView { phase: ExchangePhase::Finished, buffer: nb, ..v },
                    StepView::TooMuchOutput,
                ),
                ScanView::Found(out) => (
                    ExchangeView { phase: ExchangePhase::Finished, buffer: nb, ..v },
                    StepView::Done(out),
                ),
            }
        },
        ExchangePhase::Finished => (v, StepView::Continue),
    }
}

pub open spec fn opt_view(c: Option<Vec<u8>>) -> Option<Seq<u8>> {
    match c {
        Some(v) => Some(v@),
        None => None,
    }
}

/// One resync-then-command exchange over the console, fed one byte at a time.
pub struct Exchange {
    command: Option<Vec<u8>>,
    phase: ExchangePhase,
    scanner: PromptScanner,
}

impl View for Exchange {
    type V = ExchangeView;

    closed spec fn view(&self) -> ExchangeView {
        ExchangeView { command: opt_view(self.command), phase: self.phase, buffer: self.scanner@ }
    }
}

/// The bytes written to the console to make it print a fresh prompt.
pub fn sync_request() -> (r: Vec<u8>)
    ensures
        r@ == seq![LINE_FEED],
{
    let mut v: Vec<u8> = Vec::new();
    v.push(LINE_FEED);
    v
}

impl Exchange {
    pub closed spec fn wf(&self) -> bool {
        &&& self.scanner.wf()
        &&& match self.phase {
            ExchangePhase::Echo { pos } => self.command is Some && pos < self.command.unwrap()@.len(),
            _ => true,
        }
    }

    /// A bare resync: done at the first prompt.
    pub fn sync() -> (r: Exchange)
        ensures
            r.wf(),
            r@ == (ExchangeView {
                command: None,
                phase: ExchangePhase::Syncing,
                buffer: Seq::empty(),
            }),
    {
        Exchange { command: None, phase: ExchangePhase::Syncing, scanner: PromptScanner::new() }
    }

    /// A resync followed by `command`, whose output is the result.
    pub fn command(command: Vec<u8>) -> (r: Exchange)
        ensures
            r.wf(),
            r@ == (ExchangeView {
                command: Some(command@),
                phase: ExchangePhase::Syncing,
                buffer: Seq::empty(),
            }),
    {
        Exchange {
            command: Some(command),
            phase: ExchangePhase::Syncing,
            scanner: PromptScanner::new(),
        }
    }

    pub fn is_finished(&self) -> (r: bool)
        ensures
            r == (self@.phase == ExchangePhase::Finished),
    {
        self.phase == ExchangePhase::Finished
    }

    /// Consumes one byte read from the console.
    pub fn on_byte(&mut self, byte: u8) -> (r: Step)
        requires
            old(self).wf(),
        ensures
            final(self).wf(),
            (final(self)@, r@) == exchange_step(old(self)@, byte),
    {
        match self.phase {
            ExchangePhase::Syncing => {
                match self.scanner.push(byte) {
                    Scan::Pending => Step::Continue,
                    Scan::TooMuchOutput => {
                        self.phase = ExchangePhase::Finished;
                        Step::Failed(SyncError::TooMuchOutput)
                    },
                    Scan::Found(_) => {
                        match &self.command {
                            None => {
                                self.phase = ExchangePhase::Finished;
                                Step::Done(Vec::new())
                            },
                            Some(c) => {
                                let mut out: Vec<u8> = Vec::new();
                                append_bytes(&mut out, c.as_slice());
                                out.push(LINE_FEED);
                                if c.len() == 0 {
                                    self.phase = ExchangePhase::Cr;
                                } else {
                                    self.phase = ExchangePhase::Echo { pos: 0 };
                                }
                                Step::Write(out)
                            },
                        }
                    },
                }
            },
            ExchangePhase::Echo { pos } => {
                let expected = match &self.command {
                    Some(c) => c[pos],
                    None => 0,
                };
                let n = match &self.command {
                    Some(c) => c.len(),
                    None => 0,
                };
                if byte != expected {
                    self.phase = ExchangePhase::Finished;
                    Step::Failed(SyncError::UnexpectedData { expected, received: byte })
                } else if pos + 1 >= n {
                    self.phase = ExchangePhase::Cr;
                    Step::Continue
                } else {
                    self.phase = ExchangePhase::Echo { pos: pos + 1 };
                    Step::Continue
                }
            },
            ExchangePhase::Cr => {
                if byte == CARRIAGE_RETURN {
                    self.phase = ExchangePhase::Lf;
                    Step::Continue
                } else {
                    self.phase = ExchangePhase::Finished;
                    Step::Failed(
                        SyncError::UnexpectedData { expected: CARRIAGE_RETURN, received: byte },
                    )
                }
            },
            ExchangePhase::Lf => {
                if byte == LINE_FEED {
                    self.phase = ExchangePhase::Output;
                    Step::Continue
                } else {
                    self.phase = ExchangePhase::Finished;
                    Step::Failed(SyncError::UnexpectedData { expected: LINE_FEED, received: byte })
                }
            },
            ExchangePhase::Output => {
                match self.scanner.push(byte) {
                    Scan::Pending => Step::Continue,
                    Scan::TooMuchOutput => {
                        self.phase = ExchangePhase::Finished;
                        Step::Failed(SyncError::TooMuchOutput)
                    },
                    Scan::Found(out) => {
                        self.phase = ExchangePhase::Finished;
                        Step::Done(out)
                    },
                }
            },
            ExchangePhase::Finished => Step::Continue,
        }
    }
}

/// Appends `bytes` to `out`.
pub(crate) fn append_bytes(out: &mut Vec<u8>, bytes: &[u8])
    ensures
        final(out)@ == old(out)@ + bytes@,
{
    let mut i: usize = 0;
    while i < bytes.len()
        invariant
            i <= bytes@.len(),
            out@ == old(out)@ + bytes@.subrange(0, i as int),
        decreases bytes@.len() - i,
    {
        out.push(bytes[i]);
        i = i + 1;
        assert(out@ =~= old(out)@ + bytes@.subrange(0, i as int));
    }
    assert(bytes@.subrange(0, i as int) =~= bytes@);
}

pub open spec fn steps_of(st: StepView) -> Seq<StepView> {
    if st is Continue {
        Seq::empty()
    } else {
        seq![st]
    }
}

/// A run of bytes read during an exchange: the final state and every step
/// other than `Continue`, in order.
pub open spec fn exchange_run(v: ExchangeView, bytes: Seq<u8>) -> (ExchangeView, Seq<StepView>)
    decreases bytes.len(),
{
    if bytes.len() == 0 {
        (v, Seq::empty())
    } else {
        let (v1, st) = exchange_step(v, bytes[0]);
        let (v2, sts) = exchange_run(v1, bytes.drop_first());
        (v2, steps_of(st) + sts)
    }
}

proof fn lemma_exchange_one(v: ExchangeView, b: u8)
    ensures
        exchange_run(v, seq![b]) == (exchange_step(v, b).0, steps_of(exchange_step(v, b).1)),
{
    assert(seq![b].drop_first() =~= Seq::<u8>::empty());
    assert(exchange_run(exchange_step(v, b).0, seq![b].drop_first()) == (
        exchange_step(v, b).0,
        Seq::<StepView>::empty(),
    ));
    assert(steps_of(exchange_step(v, b).1) + Seq::<StepView>::empty() =~= steps_of(
        exchange_step(v, b).1,
    ));
}

proof fn lemma_exchange_concat(v: ExchangeView, a: Seq<u8>, b: Seq<u8>)
    ensures
        exchange_run(v, a + b) == (
            exchange_run(exchange_run(v, a).0, b).0,
            exchange_run(v, a).1 + exchange_run(exchange_run(v, a).0, b).1,
        ),
    decreases a.len(),
{
    if a.len() == 0 {
        assert(a + b =~= b);
        assert(Seq::<StepView>::empty() + exchange_run(v, b).1 =~= exchange_run(v, b).1);
    } else {
        let (v1, st) = exchange_step(v, a[0]);
        assert((a + b).drop_first() =~= a.drop_first() + b);
        assert((a + b)[0] == a[0]);
        lemma_exchange_concat(v1, a.drop_first(), b);
        let r1 = exchange_run(v1, a.drop_first());
        assert(steps_of(st) + (r1.1 + exchange_run(r1.0, b).1) =~= (steps_of(st) + r1.1)
            + exchange_run(r1.0, b).1);
    }
}

/// Bytes that bring no prompt are only gathered while waiting for one.
proof fn lemma_exchange_scan(v: ExchangeView, bytes: Seq<u8>)
    requires
        v.phase == ExchangePhase::Syncing || v.phase == ExchangePhase::Output,
        v.buffer.len() + bytes.len() < MAX_CONSOLE_BUFFER,
        forall|k: int| 1 <= k <= bytes.len() ==> !ends_with_prompt(#[trigger] (v.buffer + bytes.take(k))),
    ensures
        exchange_run(v, bytes) == (ExchangeView { buffer: v.buffer + bytes, ..v }, Seq::<StepView>::empty()),
    decreases bytes.len(),
{
    if bytes.len() == 0 {
        assert(v.buffer + bytes =~= v.buffer);
    } else {
        let nb = v.buffer.push(bytes[0]);
        assert(v.buffer + bytes.take(1) =~= nb);
        let v1 = exchange_step(v, bytes[0]).0;
        assert(v1 == ExchangeView { buffer: nb, ..v });
        let rest = bytes.drop_first();
        assert forall|k: int| 1 <= k <= rest.len() implies !ends_with_prompt(
            #[trigger] (nb + rest.take(k)),
        ) by {
            assert(nb + rest.take(k) =~= v.buffer + bytes.take(k + 1));
        }
        lemma_exchange_scan(v1, rest);
        assert(nb + rest =~= v.buffer + bytes);
        assert(Seq::<StepView>::empty() + Seq::<StepView>::empty() =~= Seq::<StepView>::empty());
    }
}

/// Waiting from an empty buffer over bytes that end with the prompt and hold
/// no earlier one: the last byte finds the prompt, and the bytes before it
/// are what was waited through.
proof fn lemma_exchange_until_prompt(v: ExchangeView, text: Seq<u8>)
    requires
        v.phase == ExchangePhase::Syncing || v.phase == ExchangePhase::Output,
        v.buffer.len() == 0,
        text.len() + PROMPT_LEN <= MAX_CONSOLE_BUFFER,
        no_early_prompt(text),
    ensures
        exchange_run(v, (text + prompt()).drop_last()) == (
            ExchangeView { buffer: (text + prompt()).drop_last(), ..v },
            Seq::<StepView>::empty(),
        ),
        exchange_step(ExchangeView { buffer: (text + prompt()).drop_last(), ..v }, 0x20u8).0.buffer
            == Seq::<u8>::empty(),
        v.phase == ExchangePhase::Output ==> exchange_step(
            ExchangeView { buffer: (text + prompt()).drop_last(), ..v },
            0x20u8,
        ) == (
            ExchangeView { phase: ExchangePhase::Finished, buffer: Seq::empty(), ..v },
            StepView::Done(text),
        ),
        v.phase == ExchangePhase::Syncing ==> exchange_step(
            ExchangeView { buffer: (text + prompt()).drop_last(), ..v },
            0x20u8,
        ) == (
            ExchangeView { phase: after_prompt(v.command).0, buffer: Seq::empty(), ..v },
            after_prompt(v.command).1,
        ),
{
    let all = text + prompt();
    let init = all.drop_last();
    assert forall|k: int| 1 <= k <= init.len() implies !ends_with_prompt(
        #[trigger] (v.buffer + init.take(k)),
    ) by {
        assert(v.buffer + init.take(k) =~= all.take(k));
    }
    lemma_exchange_scan(v, init);
    assert(v.buffer + init =~= init);
    assert(init.push(0x20u8) =~= all);
    assert(all.subrange(all.len() - PROMPT_LEN, all.len() as int) =~= prompt());
    assert(all.subrange(0, all.len() - PROMPT_LEN) =~= text);
}

/// No prefix of `text + prompt()` shorter than the whole ends with the prompt.
pub open spec fn no_early_prompt(text: Seq<u8>) -> bool {
    forall|k: int|
        1 <= k < text.len() + PROMPT_LEN ==> !ends_with_prompt(#[trigger] (text + prompt()).take(k))
}

proof fn lemma_exchange_echo(v: ExchangeView, c: Seq<u8>, pos: usize)
    requires
        v.command == Some(c),
        v.phase == (ExchangePhase::Echo { pos }),
        pos < c.len(),
        c.len() <= usize::MAX,
    ensures
        exchange_run(v, c.subrange(pos as int, c.len() as int)) == (
            ExchangeView { phase: ExchangePhase::Cr, ..v },
            Seq::<StepView>::empty(),
        ),
    decreases c.len() - pos,
{
    let rest = c.subrange(pos as int, c.len() as int);
    let v1 = exchange_step(v, rest[0]).0;
    assert(rest[0] == c[pos as int]);
    if pos + 1 < c.len() {
        assert(rest.drop_first() =~= c.subrange(pos + 1, c.len() as int));
        lemma_exchange_echo(v1, c, (pos + 1) as usize);
    } else {
        assert(rest.drop_first() =~= Seq::<u8>::empty());
        assert(exchange_run(v1, rest.drop_first()) == (v1, Seq::<StepView>::empty()));
    }
    assert(Seq::<StepView>::empty() + Seq::<StepView>::empty() =~= Seq::<StepView>::empty());
}

/// A resync over a device that prints anything without a prompt, then the
/// prompt: it finishes on the prompt's last byte and not before, so the next
/// byte read is the first one after the prompt.
pub proof fn lemma_sync_stops_after_prompt(garbage: Seq<u8>)
    requires
        garbage.len() + PROMPT_LEN <= MAX_CONSOLE_BUFFER,
        no_early_prompt(garbage),
    ensures
        ({
            let v = ExchangeView { command: None, phase: ExchangePhase::Syncing, buffer: Seq::empty() };
            let before = exchange_run(v, (garbage + prompt()).drop_last());
            &&& before.1 == Seq::<StepView>::empty()
            &&& exchange_step(before.0, 0x20u8).1 == StepView::Done(Seq::empty())
            &&& exchange_step(before.0, 0x20u8).0.phase == ExchangePhase::Finished
        }),
{
    let v = ExchangeView { command: None, phase: ExchangePhase::Syncing, buffer: Seq::empty() };
    lemma_exchange_until_prompt(v, garbage);
}

/// A command exchange with a device that prints anything without a prompt,
/// the prompt, the echo of the command, CR LF, the output and the prompt:
/// the command is written once, right after the first prompt, and the
/// exchange ends with exactly that output.
pub proof fn lemma_command_exchange(garbage: Seq<u8>, command: Seq<u8>, output: Seq<u8>)
    requires
        garbage.len() + PROMPT_LEN <= MAX_CONSOLE_BUFFER,
        output.len() + PROMPT_LEN <= MAX_CONSOLE_BUFFER,
        command.len() <= usize::MAX,
        no_early_prompt(garbage),
        no_early_prompt(output),
    ensures
        exchange_run(
            ExchangeView {
                command: Some(command),
                phase: ExchangePhase::Syncing,
                buffer: Seq::empty(),
            },
            garbage + prompt() + command + seq![CARRIAGE_RETURN, LINE_FEED] + output + prompt(),
        ).1 == seq![StepView::Write(command.push(LINE_FEED)), StepView::Done(output)],
{
    let v0 = ExchangeView { command: Some(command), phase: ExchangePhase::Syncing, buffer: Seq::empty() };
    let g1 = (garbage + prompt()).drop_last();
    let o1 = (output + prompt()).drop_last();
    let crlf = seq![CARRIAGE_RETURN, LINE_FEED];
    let bytes = garbage + prompt() + command + crlf + output + prompt();
    assert(bytes =~= g1 + (seq![0x20u8] + (command + (crlf + (o1 + seq![0x20u8])))));

    lemma_exchange_until_prompt(v0, garbage);
    lemma_exchange_concat(v0, g1, seq![0x20u8] + (command + (crlf + (o1 + seq![0x20u8]))));
    let v1 = exchange_run(v0, g1).0;
    lemma_exchange_concat(v1, seq![0x20u8], command + (crlf + (o1 + seq![0x20u8])));
    lemma_exchange_one(v1, 0x20u8);
    let v2 = exchange_step(v1, 0x20u8).0;
    assert(v2.command == Some(command));
    assert(v2.buffer == Seq::<u8>::empty());

    lemma_exchange_concat(v2, command, crlf + (o1 + seq![0x20u8]));
    let v3 = exchange_run(v2, command).0;
    if command.len() > 0 {
        assert(command.subrange(0, command.len() as int) =~= command);
        lemma_exchange_echo(v2, command, 0);
    } else {
        assert(command =~= Seq::<u8>::empty());
        assert(exchange_run(v2, command) == (v2, Seq::<StepView>::empty()));
    }
    assert(v3 == ExchangeView { phase: ExchangePhase::Cr, ..v2 });

    assert(crlf =~= seq![CARRIAGE_RETURN] + seq![LINE_FEED]);
    lemma_exchange_concat(v3, crlf, o1 + seq![0x20u8]);
    lemma_exchange_concat(v3, seq![CARRIAGE_RETURN], seq![LINE_FEED]);
    lemma_exchange_one(v3, CARRIAGE_RETURN);
    let v4 = exchange_step(v3, CARRIAGE_RETURN).0;
    lemma_exchange_one(v4, LINE_FEED);
    let v5 = exchange_step(v4, LINE_FEED).0;
    assert(v5 == ExchangeView { phase: ExchangePhase::Output, ..v2 });

    lemma_exchange_concat(v5, o1, seq![0x20u8]);
    lemma_exchange_until_prompt(v5, output);
    let v6 = exchange_run(v5, o1).0;
    lemma_exchange_one(v6, 0x20u8);

    let e = Seq::<StepView>::empty();
    let w = seq![StepView::Write(command.push(LINE_FEED))];
    let d = seq![StepView::Done(output)];
    assert(e + (w + (e + ((e + e) + (e + d)))) =~= w + d);
}

/// A wait that never sees the prompt in the first `MAX_CONSOLE_BUFFER` bytes
/// gives up with too much output after reading exactly that many bytes.
pub proof fn lemma_no_prompt_too_much_output(bytes: Seq<u8>)
    requires
        bytes.len() == MAX_CONSOLE_BUFFER,
        forall|k: int| 1 <= k <= bytes.len() ==> !ends_with_prompt(#[trigger] bytes.take(k)),
    ensures
        scan_all(Seq::empty(), bytes).1 == ScanView::TooMuchOutput,
        scan_all(Seq::empty(), bytes).2 == MAX_CONSOLE_BUFFER,
{
    assert forall|k: int| 1 <= k <= bytes.len() implies !ends_with_prompt(
        #[trigger] (Seq::<u8>::empty() + bytes.take(k)),
    ) by {
        assert(Seq::<u8>::empty() + bytes.take(k) =~= bytes.take(k));
    }
    lemma_scan_without_prompt(Seq::empty(), bytes);
}

proof fn lemma_scan_without_prompt(buf: Seq<u8>, bytes: Seq<u8>)
    requires
        buf.len() + bytes.len() <= MAX_CONSOLE_BUFFER,
        buf.len() < MAX_CONSOLE_BUFFER,
        forall|k: int| 1 <= k <= bytes.len() ==> !ends_with_prompt(#[trigger] (buf + bytes.take(k))),
    ensures
        scan_all(buf, bytes).2 == bytes.len(),
        buf.len() + bytes.len() == MAX_CONSOLE_BUFFER && bytes.len() > 0 ==> scan_all(buf, bytes).1
            == ScanView::TooMuchOutput,
        buf.len() + bytes.len() < MAX_CONSOLE_BUFFER ==> scan_all(buf, bytes).1 == ScanView::Pending,
    decreases bytes.len(),
{
    if bytes.len() > 0 {
        let nb = buf.push(bytes[0]);
        assert(buf + bytes.take(1) =~= nb);
        if nb.len() < MAX_CONSOLE_BUFFER {
            let rest = bytes.drop_first();
            assert forall|k: int| 1 <= k <= rest.len() implies !ends_with_prompt(
                #[trigger] (nb + rest.take(k)),
            ) by {
                assert(nb + rest.take(k) =~= buf + bytes.take(k + 1));
            }
            lemma_scan_without_prompt(nb, rest);
        }
    }
}

} // verus!
