//! The HTTP/1.1 client as a state machine.
//!
//! The machine decides; its caller performs. Each [`Action`] names one
//! blocking operation on the Wi-Fi link, and the outcome of that operation
//! comes back as the next [`Event`]. The caller sleeps [`POLL_DELAY_MS`]
//! milliseconds after every send and every receive.
use vstd::prelude::*;
use vstd::string::StringSliceAdditionalSpecFns;
use crate::scan::{declared_length, find_content_length};
use crate::status::{find_response_code, status_code};
use crate::text::{new_response_text, push_response_text, response_text, response_text_str};

verus! {

/// Ticks that the link may spend on opening the connection.
pub const CONNECT_TIMEOUT: u32 = 4_000_000;

/// Largest number of bytes handed to the link in one send.
pub const CHUNK_SIZE: usize = 40;

/// Milliseconds to sleep after each send and each receive.
pub const POLL_DELAY_MS: u32 = 30;

/// Receives that are tried before the declared body length is known.
pub const INITIAL_POLLS: u32 = 10;

/// Bytes of body that one further receive is budgeted for.
pub const RECV_CHUNK_SIZE: u32 = 512;

/// Why a post failed.
#[derive(Debug, Clone, Copy, PartialEq, Eq, Structural)]
pub enum HttpError {
    ConnectFailed,
    SendFailed,
    RecvFailed,
    CloseFailed,
    Unknown,
}

/// What the machine waits for.
#[derive(Debug, Clone, Copy, PartialEq, Eq, Structural)]
pub enum Phase {
    Connecting,
    Sending,
    Receiving,
    Closing,
    Finished,
}

/// The outcome of the operation that the last action asked for.
pub enum Event<'a> {
    /// The connection was opened (`true`) or refused.
    Connected(bool),
    /// The chunk was sent (`true`) or the link reported an error.
    Sent(bool),
    /// What one receive returned; `None` when it returned an error.
    Received(Option<&'a str>),
    /// The connection was closed (`true`) or the link reported an error.
    Closed(bool),
}

/// Where a request goes: an IPv4 address as one number, in the byte order
/// that the link takes, and a port.
#[derive(Debug, Clone, Copy, PartialEq, Eq, Structural)]
pub struct Endpoint {
    pub ipv4: u32,
    pub port: u16,
}

/// The operation to perform next.
#[derive(Debug, Clone, Copy, PartialEq, Eq)]
pub enum Action {
    /// Open a connection to `endpoint`, giving up after `timeout` ticks.
    Connect { endpoint: Endpoint, timeout: u32 },
    /// Send the bytes of the request from `start` up to, not including, `end`.
    Send { start: usize, end: usize },
    /// Receive once.
    Recv,
    /// Close the connection.
    Close,
    /// Nothing more: the post ended with this result.
    Done(Result<u32, HttpError>),
}

/// The state of a post as plain values.
pub struct PostState {
    pub phase: Phase,
    pub msg_len: nat,
    pub chunks_sent: nat,
    pub text: Seq<u8>,
    pub countdown: nat,
    pub body_length: Option<u32>,
    pub polls: nat,
}

/// Number of sends that a request of `len` bytes takes.
pub open spec fn chunk_count(len: nat) -> nat {
    (len + 39) / 40
}

/// Where chunk `i` begins.
pub open spec fn chunk_start(i: nat) -> nat {
    40 * i
}

/// Where chunk `i` of a request of `len` bytes ends.
pub open spec fn chunk_end(len: nat, i: nat) -> nat {
    if 40 * i + 40 < len {
        40 * i + 40
    } else {
        len
    }
}

/// Number of bytes in the first `k` chunks of a request of `len` bytes.
pub open spec fn bytes_in_chunks(len: nat, k: nat) -> nat {
    if 40 * k < len {
        40 * k
    } else {
        len
    }
}

/// Chunk `i` of a request.
pub open spec fn chunk(msg: Seq<u8>, i: nat) -> Seq<u8> {
    msg.subrange(chunk_start(i) as int, chunk_end(msg.len(), i) as int)
}

/// The first `k` chunks of a request, one behind the other.
pub open spec fn chunks_joined(msg: Seq<u8>, k: nat) -> Seq<u8>
    decreases k,
{
    if k == 0 {
        Seq::empty()
    } else {
        chunks_joined(msg, (k - 1) as nat) + chunk(msg, (k - 1) as nat)
    }
}

/// Receives granted once a body of `n` bytes is declared: one for each
/// started 512 bytes of it, and one more.
pub open spec fn poll_budget(n: u32) -> nat {
    ((n + 1023) / 512) as nat
}

/// The state before anything was done.
pub open spec fn initial(msg_len: nat) -> PostState {
    PostState {
        phase: Phase::Connecting,
        msg_len,
        chunks_sent: 0,
        text: Seq::empty(),
        countdown: 10,
        body_length: None,
        polls: 0,
    }
}

/// The post ends with `result`.
pub open spec fn finished(s: PostState, result: Result<u32, HttpError>) -> (PostState, Action) {
    (PostState { phase: Phase::Finished, ..s }, Action::Done(result))
}

/// Sends the next chunk, or turns to receiving when none is left.
pub open spec fn after_sending(s: PostState) -> (PostState, Action) {
    if s.chunks_sent < chunk_count(s.msg_len) {
        (
            PostState { phase: Phase::Sending, ..s },
            Action::Send {
                start: chunk_start(s.chunks_sent) as usize,
                end: chunk_end(s.msg_len, s.chunks_sent) as usize,
            },
        )
    } else {
        (PostState { phase: Phase::Receiving, ..s }, Action::Recv)
    }
}

/// Leaves the receive loop: without a declared body length the post has
/// failed, with one the connection is closed.
pub open spec fn after_receiving(s: PostState) -> (PostState, Action) {
    if s.body_length is None {
        finished(s, Err(HttpError::RecvFailed))
    } else {
        (PostState { phase: Phase::Closing, ..s }, Action::Close)
    }
}

/// One turn of the receive loop. Data that does not fit into the response
/// buffer ends the loop with the buffer as it was. Otherwise the data is
/// appended, the countdown goes down by one, and, as long as no body length
/// is known, the buffer is scanned for one; the first that is found sets the
/// countdown anew. The loop ends when the countdown is at zero.
pub open spec fn received(s: PostState, data: Option<Seq<u8>>) -> (PostState, Action) {
    let polled = PostState { polls: s.polls + 1, ..s };
    if data is Some && s.text.len() + data->0.len() > 4096 {
        after_receiving(polled)
    } else {
        let text = if data is Some {
            s.text + data->0
        } else {
            s.text
        };
        let found = if s.body_length is None {
            declared_length(text)
        } else {
            Err(())
        };
        let next = PostState {
            text,
            body_length: if found is Ok {
                Some(found->Ok_0)
            } else {
                s.body_length
            },
            countdown: if found is Ok {
                poll_budget(found->Ok_0)
            } else {
                (s.countdown - 1) as nat
            },
            ..polled
        };
        if next.countdown == 0 {
            after_receiving(next)
        } else {
            (next, Action::Recv)
        }
    }
}

/// The bytes that a receive returned.
pub open spec fn received_bytes(data: Option<&str>) -> Option<Seq<u8>> {
    match data {
        Some(s) => Some(s.spec_bytes()),
        None => None,
    }
}

/// The result of a post whose connection was closed in good order.
pub open spec fn closed_result(text: Seq<u8>) -> Result<u32, HttpError> {
    match status_code(text) {
        Ok(code) => Ok(code),
        Err(_) => Err(HttpError::Unknown),
    }
}

/// The transition function: the state and action that follow from a state
/// and an event. An event that the state does not wait for ends the post
/// with [`HttpError::Unknown`].
pub open spec fn step(s: PostState, event: Event) -> (PostState, Action) {
    match (s.phase, event) {
        (Phase::Connecting, Event::Connected(true)) => after_sending(s),
        (Phase::Connecting, Event::Connected(false)) => finished(s, Err(HttpError::ConnectFailed)),
        (Phase::Sending, Event::Sent(true)) => after_sending(
            PostState { chunks_sent: s.chunks_sent + 1, ..s },
        ),
        (Phase::Sending, Event::Sent(false)) => finished(s, Err(HttpError::SendFailed)),
        (Phase::Receiving, Event::Received(data)) => received(s, received_bytes(data)),
        (Phase::Closing, Event::Closed(true)) => finished(s, closed_result(s.text)),
        (Phase::Closing, Event::Closed(false)) => finished(s, Err(HttpError::CloseFailed)),
        _ => finished(s, Err(HttpError::Unknown)),
    }
}

/// What holds of every state that a post can reach.
pub open spec fn wf(s: PostState) -> bool {
    &&& s.text.len() <= 4096
    &&& s.msg_len <= usize::MAX
    &&& s.chunks_sent <= chunk_count(s.msg_len)
    &&& (s.phase == Phase::Sending ==> s.chunks_sent < chunk_count(s.msg_len))
    &&& (s.phase == Phase::Receiving || s.phase == Phase::Closing ==> s.chunks_sent
        == chunk_count(s.msg_len))
    &&& (s.phase == Phase::Connecting || s.phase == Phase::Sending ==> s.polls == 0
        && s.body_length is None && s.countdown == 10)
    &&& (s.phase == Phase::Connecting ==> s.chunks_sent == 0)
    &&& (s.phase == Phase::Receiving ==> s.countdown >= 1)
    &&& (s.phase == Phase::Closing ==> s.body_length is Some)
    &&& s.countdown <= u32::MAX
    &&& polls_left(s) + s.polls <= poll_limit(s.body_length)
}

/// Receives that a state may still ask for without learning anything new.
pub open spec fn polls_left(s: PostState) -> nat {
    if s.phase == Phase::Connecting || s.phase == Phase::Sending || s.phase == Phase::Receiving {
        s.countdown
    } else {
        0
    }
}

/// The most receives that a post makes: ten while no body length is
/// declared, and the budget of the declared length on top of that.
pub open spec fn poll_limit(body_length: Option<u32>) -> nat {
    match body_length {
        None => 10,
        Some(n) => 10 + poll_budget(n),
    }
}

/// A running post.
pub struct HttpPost {
    phase: Phase,
    msg_len: usize,
    chunks_sent: usize,
    text: heapless::String<4096>,
    countdown: u32,
    body_length: Option<u32>,
    polls: u32,
}

impl View for HttpPost {
    type V = PostState;

    closed spec fn view(&self) -> PostState {
        PostState {
            phase: self.phase,
            msg_len: self.msg_len as nat,
            chunks_sent: self.chunks_sent as nat,
            text: response_text(self.text),
            countdown: self.countdown as nat,
            body_length: self.body_length,
            polls: self.polls as nat,
        }
    }
}

/// Number of sends that a request of `len` bytes takes.
pub fn count_chunks(len: usize) -> (r: usize)
    ensures
        r == chunk_count(len as nat),
{
    if len % CHUNK_SIZE == 0 {
        len / CHUNK_SIZE
    } else {
        len / CHUNK_SIZE + 1
    }
}

/// Receives granted once a body of `n` bytes is declared.
pub fn polls_for(n: u32) -> (r: u32)
    ensures
        r == poll_budget(n),
        r >= 1,
{
    ((n as u64 + 2 * RECV_CHUNK_SIZE as u64 - 1) / RECV_CHUNK_SIZE as u64) as u32
}

impl HttpPost {
    #[verifier::type_invariant]
    closed spec fn inv(self) -> bool {
        wf(self@)
    }

    /// Begins the post of a request of `msg_len` bytes to `endpoint`. The
    /// first operation is to open the connection, with a timeout of
    /// [`CONNECT_TIMEOUT`] ticks.
    pub fn new(endpoint: Endpoint, msg_len: usize) -> (r: (Self, Action))
        ensures
            r.0@ == initial(msg_len as nat),
            r.1 == (Action::Connect { endpoint, timeout: 4_000_000 }),
    {
        (
            HttpPost {
                phase: Phase::Connecting,
                msg_len,
                chunks_sent: 0,
                text: new_response_text(),
                countdown: INITIAL_POLLS,
                body_length: None,
                polls: 0,
            },
            Action::Connect { endpoint, timeout: CONNECT_TIMEOUT },
        )
    }

    /// What the machine waits for.
    pub fn phase(&self) -> (r: Phase)
        ensures
            r == self@.phase,
    {
        self.phase
    }

    /// Receives answered so far, never more than [`poll_limit`] allows.
    pub fn polls(&self) -> (r: u32)
        ensures
            r == self@.polls,
            r <= poll_limit(self@.body_length),
    {
        proof {
            use_type_invariant(self);
        }
        self.polls
    }

    /// Chunks sent so far, never more than the request has.
    pub fn chunks_sent(&self) -> (r: usize)
        ensures
            r == self@.chunks_sent,
            r <= chunk_count(self@.msg_len),
    {
        proof {
            use_type_invariant(self);
        }
        self.chunks_sent
    }

    /// The body length that the response declared, once it is known.
    pub fn body_length(&self) -> (r: Option<u32>)
        ensures
            r == self@.body_length,
    {
        self.body_length
    }

    /// What was received so far.
    pub fn text(&self) -> (r: &str)
        ensures
            r.spec_bytes() == self@.text,
    {
        response_text_str(&self.text)
    }

    fn finish(self, result: Result<u32, HttpError>) -> (r: (Self, Action))
        ensures
            (r.0@, r.1) == finished(self@, result),
    {
        proof {
            use_type_invariant(&self);
        }
        (
            HttpPost {
                phase: Phase::Finished,
                msg_len: self.msg_len,
                chunks_sent: self.chunks_sent,
                text: self.text,
                countdown: self.countdown,
                body_length: self.body_length,
                polls: self.polls,
            },
            Action::Done(result),
        )
    }

    /// Takes the outcome of the last operation and says what to do next.
    pub fn step(self, event: Event<'_>) -> (r: (Self, Action))
        ensures
            (r.0@, r.1) == step(self@, event),
    {
        proof {
            use_type_invariant(&self);
        }
        match (self.phase, event) {
            (Phase::Connecting, Event::Connected(true)) => self.after_sending(0),
            (Phase::Connecting, Event::Connected(false)) => self.finish(
                Err(HttpError::ConnectFailed),
            ),
            (Phase::Sending, Event::Sent(true)) => {
                let sent = self.chunks_sent + 1;
                self.after_sending(sent)
            },
            (Phase::Sending, Event::Sent(false)) => self.finish(Err(HttpError::SendFailed)),
            (Phase::Receiving, Event::Received(data)) => self.received(data),
            (Phase::Closing, Event::Closed(true)) => {
                let result = match find_response_code(&self.text) {
                    Ok(code) => Ok(code),
                    Err(_) => Err(HttpError::Unknown),
                };
                self.finish(result)
            },
            (Phase::Closing, Event::Closed(false)) => self.finish(Err(HttpError::CloseFailed)),
            _ => self.finish(Err(HttpError::Unknown)),
        }
    }

    fn after_sending(self, sent: usize) -> (r: (Self, Action))
        requires
            self@.phase == Phase::Connecting || self@.phase == Phase::Sending,
            sent <= chunk_count(self@.msg_len),
        ensures
            (r.0@, r.1) == after_sending(PostState { chunks_sent: sent as nat, ..self@ }),
    {
        proof {
            use_type_invariant(&self);
        }
        if sent < count_chunks(self.msg_len) {
            let start: usize = CHUNK_SIZE * sent;
            let end: usize = if self.msg_len - start > CHUNK_SIZE {
                start + CHUNK_SIZE
            } else {
                self.msg_len
            };
            (
                HttpPost {
                    phase: Phase::Sending,
                    msg_len: self.msg_len,
                    chunks_sent: sent,
                    text: self.text,
                    countdown: self.countdown,
                    body_length: self.body_length,
                    polls: self.polls,
                },
                Action::Send { start, end },
            )
        } else {
            (
                HttpPost {
                    phase: Phase::Receiving,
                    msg_len: self.msg_len,
                    chunks_sent: sent,
                    text: self.text,
                    countdown: self.countdown,
                    body_length: self.body_length,
                    polls: self.polls,
                },
                Action::Recv,
            )
        }
    }

    fn received(self, data: Option<&str>) -> (r: (Self, Action))
        requires
            self@.phase == Phase::Receiving,
        ensures
            (r.0@, r.1) == received(self@, received_bytes(data)),
    {
        proof {
            use_type_invariant(&self);
        }
        let mut text = self.text;
        let fits = match data {
            Some(s) => push_response_text(&mut text, s).is_ok(),
            None => true,
        };
        let found = if fits && self.body_length.is_none() {
            find_content_length(&text)
        } else {
            Err(())
        };
        let (body_length, countdown) = match found {
            Ok(n) => (Some(n), polls_for(n)),
            Err(_) => (
                self.body_length,
                if fits {
                    self.countdown - 1
                } else {
                    self.countdown
                },
            ),
        };
        let phase = if fits && countdown != 0 {
            Phase::Receiving
        } else if body_length.is_none() {
            Phase::Finished
        } else {
            Phase::Closing
        };
        let action = match phase {
            Phase::Receiving => Action::Recv,
            Phase::Closing => Action::Close,
            _ => Action::Done(Err(HttpError::RecvFailed)),
        };
        (
            HttpPost {
                phase,
                msg_len: self.msg_len,
                chunks_sent: self.chunks_sent,
                text,
                countdown,
                body_length,
                polls: self.polls + 1,
            },
            action,
        )
    }
}

/// The state that a post of a request of `msg_len` bytes is in after a
/// sequence of events.
pub open spec fn run(msg_len: nat, events: Seq<Event>) -> PostState
    decreases events.len(),
{
    if events.len() == 0 {
        initial(msg_len)
    } else {
        step(run(msg_len, events.drop_last()), events.last()).0
    }
}

/// Every step leads from a state that a post can reach to another such
/// state.
pub proof fn lemma_step_keeps_wf(s: PostState, event: Event)
    requires
        wf(s),
    ensures
        wf(step(s, event).0),
{
}

/// Whatever the link answers, and in whatever order, the post stays in a
/// state that [`wf`] describes.
pub proof fn lemma_run_keeps_wf(msg_len: nat, events: Seq<Event>)
    requires
        msg_len <= usize::MAX,
    ensures
        wf(run(msg_len, events)),
    decreases events.len(),
{
    if events.len() > 0 {
        lemma_run_keeps_wf(msg_len, events.drop_last());
        lemma_step_keeps_wf(run(msg_len, events.drop_last()), events.last());
    }
}

/// The receive loop is bounded. Whatever the link answers, a post never
/// makes more than ten receives while no body length is declared, and never
/// more than the budget of the declared length on top of ten; as long as it
/// is still receiving it has made fewer.
pub proof fn lemma_receive_loop_bounded(msg_len: nat, events: Seq<Event>)
    requires
        msg_len <= usize::MAX,
    ensures
        ({
            let s = run(msg_len, events);
            &&& s.body_length is None ==> s.polls <= 10
            &&& s.body_length is Some ==> s.polls <= 10 + poll_budget(s.body_length->0)
            &&& s.phase == Phase::Receiving ==> s.polls < poll_limit(s.body_length)
        }),
{
    lemma_run_keeps_wf(msg_len, events);
}

/// Receiving begins only when every chunk was sent. Whatever the link
/// answers, a post that receives or closes has made as many sends as the
/// request has chunks, a post that sends has made fewer, and no post has
/// made more.
pub proof fn lemma_sends_counted(msg_len: nat, events: Seq<Event>)
    requires
        msg_len <= usize::MAX,
    ensures
        ({
            let s = run(msg_len, events);
            &&& s.chunks_sent <= chunk_count(msg_len)
            &&& s.phase == Phase::Sending ==> s.chunks_sent < chunk_count(msg_len)
            &&& s.phase == Phase::Receiving || s.phase == Phase::Closing ==> s.chunks_sent
                == chunk_count(msg_len)
        }),
{
    lemma_run_keeps_wf(msg_len, events);
    lemma_run_keeps_length(msg_len, events);
}

proof fn lemma_run_keeps_length(msg_len: nat, events: Seq<Event>)
    ensures
        run(msg_len, events).msg_len == msg_len,
    decreases events.len(),
{
    if events.len() > 0 {
        lemma_run_keeps_length(msg_len, events.drop_last());
    }
}

proof fn lemma_chunks_joined(msg: Seq<u8>, k: nat)
    requires
        k <= chunk_count(msg.len()),
    ensures
        chunks_joined(msg, k) == msg.subrange(0, bytes_in_chunks(msg.len(), k) as int),
    decreases k,
{
    if k == 0 {
        assert(chunks_joined(msg, k) =~= msg.subrange(0, 0));
    } else {
        lemma_chunks_joined(msg, (k - 1) as nat);
        assert(chunks_joined(msg, k) =~= msg.subrange(0, bytes_in_chunks(msg.len(), k) as int));
    }
}

/// Sending in chunks sends the request, no more and no less: a request of
/// `L` bytes has `ceil(L / 40)` chunks, which put one behind the other are
/// the request. Every chunk but the last has 40 bytes, and the last has at
/// least one.
pub proof fn lemma_chunks_cover(msg: Seq<u8>)
    ensures
        chunk_count(msg.len()) * 40 >= msg.len() > (chunk_count(msg.len()) - 1) * 40,
        chunks_joined(msg, chunk_count(msg.len())) == msg,
        forall|i: nat| i < chunk_count(msg.len()) ==> 1 <= #[trigger] chunk(msg, i).len() <= 40,
        forall|i: nat| i + 1 < chunk_count(msg.len()) ==> #[trigger] chunk(msg, i).len() == 40,
{
    lemma_chunks_joined(msg, chunk_count(msg.len()));
    assert(msg.subrange(0, msg.len() as int) =~= msg);
}

} // verus!
