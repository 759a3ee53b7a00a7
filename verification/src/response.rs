//! The HTTP/1.1 response reader.
//!
//! One response is read through a small state machine, [`Machine`]. The
//! machine never touches a socket: the caller reads bytes and hands them in.
//! [`Machine::next_cmd`] says what the caller must read next — one line (up
//! to and including a line feed) or an exact number of bytes — and
//! [`Machine::on_line`] / [`Machine::on_bytes`] consume what was read.
//!
//! The machine frames a body either by `Content-Length` or by chunked
//! transfer encoding. When both headers appear, `Content-Length` wins; the
//! choice is made once, at the end of the headers, so it is consistent for
//! every response.
//!
//! The whole behaviour is pinned by a mathematical model: [`spec_step_line`]
//! and [`spec_step_bytes`] give the transition for each event, and
//! [`spec_run`] composes them over a byte sequence. The in-memory reader
//! [`parse_response_bytes`] is proved to return exactly what `spec_run`
//! says.

use vstd::prelude::*;
use vstd::array::array_as_slice;
use vstd::slice::{slice_subrange, slice_to_vec};
use crate::scan::{
    spec_trim, trim, starts_with, dec_digits, dec_val, parse_dec, hex_digits, hex_val, parse_hex,
};

verus! {

/// The bytes of `"HTTP/1.1"`, the prefix of a status line.
pub open spec fn status_prefix() -> Seq<u8> {
    seq![72u8, 84u8, 84u8, 80u8, 47u8, 49u8, 46u8, 49u8]
}

/// The bytes of `"Content-Length:"`.
pub open spec fn content_length_prefix() -> Seq<u8> {
    seq![67u8, 111u8, 110u8, 116u8, 101u8, 110u8, 116u8, 45u8, 76u8, 101u8, 110u8, 103u8, 116u8,
        104u8, 58u8]
}

/// The bytes of `"Transfer-Encoding: chunked"`.
pub open spec fn chunked_prefix() -> Seq<u8> {
    seq![84u8, 114u8, 97u8, 110u8, 115u8, 102u8, 101u8, 114u8, 45u8, 69u8, 110u8, 99u8, 111u8,
        100u8, 105u8, 110u8, 103u8, 58u8, 32u8, 99u8, 104u8, 117u8, 110u8, 107u8, 101u8, 100u8]
}

/// The bytes of an empty header line, carriage return and line feed.
pub open spec fn crlf() -> Seq<u8> {
    seq![13u8, 10u8]
}

fn status_prefix_arr() -> (a: [u8; 8])
    ensures
        a@ == status_prefix(),
{
    let a: [u8; 8] = [72u8, 84u8, 84u8, 80u8, 47u8, 49u8, 46u8, 49u8];
    proof {
        assert(a@ =~= status_prefix());
    }
    a
}

fn content_length_prefix_arr() -> (a: [u8; 15])
    ensures
        a@ == content_length_prefix(),
{
    let a: [u8; 15] = [67u8, 111u8, 110u8, 116u8, 101u8, 110u8, 116u8, 45u8, 76u8, 101u8, 110u8,
        103u8, 116u8, 104u8, 58u8];
    proof {
        assert(a@ =~= content_length_prefix());
    }
    a
}

fn chunked_prefix_arr() -> (a: [u8; 26])
    ensures
        a@ == chunked_prefix(),
{
    let a: [u8; 26] = [84u8, 114u8, 97u8, 110u8, 115u8, 102u8, 101u8, 114u8, 45u8, 69u8, 110u8,
        99u8, 111u8, 100u8, 105u8, 110u8, 103u8, 58u8, 32u8, 99u8, 104u8, 117u8, 110u8, 107u8,
        101u8, 100u8];
    proof {
        assert(a@ =~= chunked_prefix());
    }
    a
}

/// A status line: one that begins with `HTTP/1.1`.
pub open spec fn is_status_line(line: Seq<u8>) -> bool {
    line.len() >= 8 && line.take(8) == status_prefix()
}

/// Whether the trimmed status token of a status line begins with the digit
/// `2` — the 2xx success range.
pub open spec fn status_line_succeeded(line: Seq<u8>) -> bool {
    let tok = spec_trim(line.skip(8));
    tok.len() > 0 && tok[0] == 50
}

/// A `Content-Length:` header line.
pub open spec fn is_content_length_line(line: Seq<u8>) -> bool {
    line.len() >= 15 && line.take(15) == content_length_prefix()
}

/// The trimmed value of a `Content-Length:` header line.
pub open spec fn content_length_token(line: Seq<u8>) -> Seq<u8> {
    spec_trim(line.skip(15))
}

/// A line that begins with `Transfer-Encoding: chunked`.
pub open spec fn is_chunked_line(line: Seq<u8>) -> bool {
    line.len() >= 26 && line.take(26) == chunked_prefix()
}

/// Where the reader stands within one response.
#[derive(Clone, Copy, Debug, PartialEq, Eq)]
pub enum Phase {
    /// Reading header lines.
    Headers,
    /// About to read a body of the given exact length.
    BodyFixed(usize),
    /// About to read a chunk-length line.
    ChunkLen,
    /// About to read the data of a chunk of the given length, plus the
    /// chunk's trailing carriage return and line feed.
    ChunkData(usize),
    /// The response has been fully consumed.
    Done,
}

/// A framing failure. Any of these is fatal for the whole run: the reader
/// cannot resynchronise the stream.
#[derive(Clone, Copy, Debug, PartialEq, Eq)]
pub enum ProtocolError {
    /// The value of a `Content-Length:` header was not an unsigned decimal
    /// integer that fits in `usize`.
    BadContentLength,
    /// A chunk-length line was not an unsigned hexadecimal integer small
    /// enough for the chunk and its trailing bytes to be addressed.
    BadChunkLength,
    /// The running byte count outgrew `usize`.
    TooManyBytes,
    /// The stream ended before the response was complete.
    UnexpectedEnd,
}

/// What one header-phase or chunk-length line turned out to be.
#[derive(Clone, Copy, Debug, PartialEq, Eq)]
pub enum LineEvent {
    /// The status line. The caller's elapsed-time measurement stops here.
    Status,
    /// Any other header line, recognised or not.
    Field,
    /// The blank line that ends the headers.
    HeadersEnd,
    /// A chunk-length line.
    ChunkHeader,
}

/// What the caller must feed the machine next.
#[derive(Clone, Copy, Debug, PartialEq, Eq)]
pub enum ReadCmd {
    /// Read one line, up to and including a line feed, and call `on_line`.
    Line,
    /// Read exactly this many bytes and call `on_bytes`.
    Exact(usize),
    /// The response is complete; nothing more to read.
    Finished,
}

/// The mathematical state of the reader: [`Machine`] as contracts see it.
#[verifier::ext_equal]
pub struct Model {
    /// Whether the status line has been seen.
    pub started: bool,
    /// The value of the last `Content-Length:` header seen, if any.
    pub content_length: Option<usize>,
    /// Whether a `Transfer-Encoding: chunked` header has been seen.
    pub chunked: bool,
    /// Whether the status token begins with the digit `2`.
    pub succeeded: bool,
    /// Where the reader stands.
    pub phase: Phase,
    /// Every byte consumed so far: header lines, body bytes, chunk-length
    /// lines and chunk terminators alike.
    pub size: int,
    /// The body bytes accumulated so far, chunk framing removed.
    pub body: Seq<u8>,
}

impl Model {
    /// The state before any byte of the response has been read.
    pub open spec fn init() -> Model {
        Model {
            started: false,
            content_length: None,
            chunked: false,
            succeeded: false,
            phase: Phase::Headers,
            size: 0,
            body: Seq::empty(),
        }
    }

    /// The machine's invariant: the byte count fits in `usize`, and a
    /// pending chunk read of `n + 2` bytes can be addressed.
    pub open spec fn wf(self) -> bool {
        &&& 0 <= self.size <= usize::MAX
        &&& (self.phase matches Phase::ChunkData(n) ==> n + 2 <= usize::MAX)
    }

    /// The framing the headers chose: a known `Content-Length` wins over
    /// chunked encoding; with neither, the response has no body.
    pub open spec fn body_phase(self) -> Phase {
        match self.content_length {
            Some(n) => Phase::BodyFixed(n),
            None => if self.chunked {
                Phase::ChunkLen
            } else {
                Phase::Done
            },
        }
    }
}

/// The transition for one line, read during the header phase or as a
/// chunk-length line. Every line contributes its full length, terminator
/// included, to the byte count.
pub open spec fn spec_step_line(m: Model, line: Seq<u8>) -> Result<(Model, LineEvent), ProtocolError>
    recommends
        m.phase is Headers || m.phase is ChunkLen,
{
    if m.size + line.len() > usize::MAX {
        Err(ProtocolError::TooManyBytes)
    } else {
        let size2 = m.size + line.len();
        if m.phase is Headers {
            if is_status_line(line) {
                Ok((
                    Model { started: true, succeeded: status_line_succeeded(line), size: size2, ..m },
                    LineEvent::Status,
                ))
            } else if is_content_length_line(line) {
                let tok = content_length_token(line);
                if dec_digits(tok) && dec_val(tok) <= usize::MAX {
                    Ok((
                        Model { content_length: Some(dec_val(tok) as usize), size: size2, ..m },
                        LineEvent::Field,
                    ))
                } else {
                    Err(ProtocolError::BadContentLength)
                }
            } else if is_chunked_line(line) {
                Ok((Model { chunked: true, size: size2, ..m }, LineEvent::Field))
            } else if m.started && line == crlf() {
                Ok((Model { size: size2, phase: m.body_phase(), ..m }, LineEvent::HeadersEnd))
            } else {
                Ok((Model { size: size2, ..m }, LineEvent::Field))
            }
        } else {
            let tok = spec_trim(line);
            if hex_digits(tok) && hex_val(tok) <= usize::MAX - 2 {
                Ok((
                    Model { size: size2, phase: Phase::ChunkData(hex_val(tok) as usize), ..m },
                    LineEvent::ChunkHeader,
                ))
            } else {
                Err(ProtocolError::BadChunkLength)
            }
        }
    }
}

/// The transition for one exact-length read: a fixed body, or one chunk's
/// data together with its trailing carriage return and line feed, which are
/// counted but not kept.
pub open spec fn spec_step_bytes(m: Model, buf: Seq<u8>) -> Result<Model, ProtocolError>
    recommends
        (m.phase matches Phase::BodyFixed(n) && buf.len() == n) || (m.phase matches Phase::ChunkData(
            n,
        ) && buf.len() == n + 2),
{
    if m.size + buf.len() > usize::MAX {
        Err(ProtocolError::TooManyBytes)
    } else {
        let size2 = m.size + buf.len();
        match m.phase {
            Phase::BodyFixed(_) => Ok(
                Model { size: size2, body: m.body + buf, phase: Phase::Done, ..m },
            ),
            Phase::ChunkData(n) => Ok(
                Model {
                    size: size2,
                    body: m.body + buf.take(n as int),
                    phase: if n == 0 {
                        Phase::Done
                    } else {
                        Phase::ChunkLen
                    },
                    ..m
                },
            ),
            _ => Err(ProtocolError::UnexpectedEnd),
        }
    }
}

/// Reads one HTTP/1.1 response fed to it piece by piece.
pub struct Machine {
    started: bool,
    content_length: Option<usize>,
    chunked: bool,
    succeeded: bool,
    phase: Phase,
    size: usize,
    body: Vec<u8>,
}

impl View for Machine {
    type V = Model;

    closed spec fn view(&self) -> Model {
        Model {
            started: self.started,
            content_length: self.content_length,
            chunked: self.chunked,
            succeeded: self.succeeded,
            phase: self.phase,
            size: self.size as int,
            body: self.body@,
        }
    }
}

impl Machine {
    /// A machine positioned at the first byte of a response.
    pub fn new() -> (m: Machine)
        ensures
            m@ == Model::init(),
    {
        let m = Machine {
            started: false,
            content_length: None,
            chunked: false,
            succeeded: false,
            phase: Phase::Headers,
            size: 0,
            body: Vec::new(),
        };
        proof {
            assert(m@ =~= Model::init());
        }
        m
    }

    /// What the caller must read next.
    pub fn next_cmd(&self) -> (c: ReadCmd)
        requires
            self@.wf(),
        ensures
            c == (match self@.phase {
                Phase::Headers => ReadCmd::Line,
                Phase::ChunkLen => ReadCmd::Line,
                Phase::BodyFixed(n) => ReadCmd::Exact(n),
                Phase::ChunkData(n) => ReadCmd::Exact((n + 2) as usize),
                Phase::Done => ReadCmd::Finished,
            }),
    {
        match self.phase {
            Phase::Headers => ReadCmd::Line,
            Phase::ChunkLen => ReadCmd::Line,
            Phase::BodyFixed(n) => ReadCmd::Exact(n),
            Phase::ChunkData(n) => ReadCmd::Exact(n + 2),
            Phase::Done => ReadCmd::Finished,
        }
    }

    /// Consumes one line, terminator included, exactly as
    /// [`spec_step_line`] says. On an error the machine is unchanged.
    pub fn on_line(&mut self, line: &[u8]) -> (r: Result<LineEvent, ProtocolError>)
        requires
            old(self)@.wf(),
            old(self)@.phase is Headers || old(self)@.phase is ChunkLen,
        ensures
            final(self)@.wf(),
            (match spec_step_line(old(self)@, line@) {
                Ok((m2, ev)) => r == Ok::<LineEvent, ProtocolError>(ev) && final(self)@ == m2,
                Err(e) => r == Err::<LineEvent, ProtocolError>(e) && final(self)@ == old(self)@,
            }),
    {
        let size2 = match self.size.checked_add(line.len()) {
            Some(x) => x,
            None => {
                return Err(ProtocolError::TooManyBytes);
            },
        };
        match self.phase {
            Phase::Headers => {
                let sp = status_prefix_arr();
                let cp = content_length_prefix_arr();
                let tp = chunked_prefix_arr();
                if starts_with(line, array_as_slice(&sp)) {
                    let tok = trim(slice_subrange(line, 8, line.len()));
                    self.started = true;
                    self.succeeded = tok.len() > 0 && tok[0] == 50;
                    self.size = size2;
                    Ok(LineEvent::Status)
                } else if starts_with(line, array_as_slice(&cp)) {
                    let tok = trim(slice_subrange(line, 15, line.len()));
                    match parse_dec(tok) {
                        Some(n) => {
                            self.content_length = Some(n);
                            self.size = size2;
                            Ok(LineEvent::Field)
                        },
                        None => Err(ProtocolError::BadContentLength),
                    }
                } else if starts_with(line, array_as_slice(&tp)) {
                    self.chunked = true;
                    self.size = size2;
                    Ok(LineEvent::Field)
                } else if self.started && line.len() == 2 && line[0] == 13 && line[1] == 10 {
                    proof {
                        assert(line@ =~= crlf());
                    }
                    self.phase = match self.content_length {
                        Some(n) => Phase::BodyFixed(n),
                        None => if self.chunked {
                            Phase::ChunkLen
                        } else {
                            Phase::Done
                        },
                    };
                    self.size = size2;
                    Ok(LineEvent::HeadersEnd)
                } else {
                    proof {
                        if old(self)@.started && line@ == crlf() {
                            assert(line@.len() == 2 && line@[0] == 13 && line@[1] == 10);
                        }
                    }
                    self.size = size2;
                    Ok(LineEvent::Field)
                }
            },
            Phase::ChunkLen => {
                let tok = trim(line);
                match parse_hex(tok) {
                    Some(n) => {
                        if n <= usize::MAX - 2 {
                            self.phase = Phase::ChunkData(n);
                            self.size = size2;
                            Ok(LineEvent::ChunkHeader)
                        } else {
                            Err(ProtocolError::BadChunkLength)
                        }
                    },
                    None => Err(ProtocolError::BadChunkLength),
                }
            },
            _ => {
                proof {
                    assert(false);
                }
                Err(ProtocolError::UnexpectedEnd)
            },
        }
    }

    /// Consumes one exact-length read, exactly as [`spec_step_bytes`] says.
    /// On an error the machine is unchanged.
    pub fn on_bytes(&mut self, buf: &[u8]) -> (r: Result<(), ProtocolError>)
        requires
            old(self)@.wf(),
            (old(self)@.phase matches Phase::BodyFixed(n) && buf@.len() == n) || (old(
                self,
            )@.phase matches Phase::ChunkData(n) && buf@.len() == n + 2),
        ensures
            final(self)@.wf(),
            (match spec_step_bytes(old(self)@, buf@) {
                Ok(m2) => r is Ok && final(self)@ == m2,
                Err(e) => r == Err::<(), ProtocolError>(e) && final(self)@ == old(self)@,
            }),
    {
        let size2 = match self.size.checked_add(buf.len()) {
            Some(x) => x,
            None => {
                return Err(ProtocolError::TooManyBytes);
            },
        };
        match self.phase {
            Phase::BodyFixed(_) => {
                self.body.extend_from_slice(buf);
                self.size = size2;
                self.phase = Phase::Done;
                Ok(())
            },
            Phase::ChunkData(n) => {
                let data = slice_subrange(buf, 0, n);
                self.body.extend_from_slice(data);
                self.size = size2;
                self.phase = if n == 0 {
                    Phase::Done
                } else {
                    Phase::ChunkLen
                };
                Ok(())
            },
            _ => {
                proof {
                    assert(false);
                }
                Err(ProtocolError::UnexpectedEnd)
            },
        }
    }

    /// Whether the response has been fully consumed.
    pub fn finished(&self) -> (r: bool)
        ensures
            r == (self@.phase is Done),
    {
        match self.phase {
            Phase::Done => true,
            _ => false,
        }
    }

    /// Whether a framing header chose a body: the driver echoes a decoded
    /// body exactly when one was framed, even an empty one.
    pub fn framed(&self) -> (r: bool)
        ensures
            r == (self@.content_length is Some || self@.chunked),
    {
        self.content_length.is_some() || self.chunked
    }

    /// Whether the status token began with the digit `2`.
    pub fn succeeded(&self) -> (r: bool)
        ensures
            r == self@.succeeded,
    {
        self.succeeded
    }

    /// Every byte consumed so far.
    pub fn total_size(&self) -> (r: usize)
        ensures
            r == self@.size,
    {
        self.size
    }

    /// The accumulated body, chunk framing removed.
    pub fn into_body(self) -> (r: Vec<u8>)
        ensures
            r@ == self@.body,
    {
        self.body
    }
}

/// The trimmed status token of a status line: the bytes after `HTTP/1.1`,
/// whitespace removed. `None` when the line is shorter than that prefix.
pub fn status_token(line: &[u8]) -> (t: Option<Vec<u8>>)
    ensures
        (match t {
            Some(v) => line@.len() >= 8 && v@ == spec_trim(line@.skip(8)),
            None => line@.len() < 8,
        }),
{
    if line.len() < 8 {
        None
    } else {
        Some(slice_to_vec(trim(slice_subrange(line, 8, line.len()))))
    }
}

/// The position just past the line that starts at `pos`: one past the first
/// line feed at or after `pos`, or the end of the data when none follows.
pub open spec fn line_end(data: Seq<u8>, pos: int) -> int
    decreases data.len() - pos,
{
    if pos < 0 || pos >= data.len() {
        pos
    } else if data[pos] == 10 {
        pos + 1
    } else {
        line_end(data, pos + 1)
    }
}

/// How far a phase is from `Done`, for termination measures.
pub open spec fn phase_rank(p: Phase) -> int {
    match p {
        Phase::Done => 0,
        Phase::BodyFixed(_) => 1,
        Phase::ChunkData(_) => 2,
        Phase::ChunkLen => 3,
        Phase::Headers => 3,
    }
}

/// The whole-response relation: from state `m` at position `pos` in `data`,
/// the state and position after exactly one response has been consumed, or
/// the error that stops the run. The position on success is the start of
/// the next response on the wire.
pub open spec fn spec_run(m: Model, data: Seq<u8>, pos: int) -> Result<(Model, int), ProtocolError>
    decreases data.len() - pos, phase_rank(m.phase),
{
    if pos < 0 || pos > data.len() {
        Err(ProtocolError::UnexpectedEnd)
    } else {
        match m.phase {
            Phase::Done => Ok((m, pos)),
            Phase::Headers | Phase::ChunkLen => {
                if pos == data.len() {
                    Err(ProtocolError::UnexpectedEnd)
                } else {
                    let end = line_end(data, pos);
                    if end <= pos || end > data.len() {
                        Err(ProtocolError::UnexpectedEnd)
                    } else {
                        match spec_step_line(m, data.subrange(pos, end)) {
                            Ok((m2, _ev)) => spec_run(m2, data, end),
                            Err(e) => Err(e),
                        }
                    }
                }
            },
            Phase::BodyFixed(n) => {
                if pos + n > data.len() {
                    Err(ProtocolError::UnexpectedEnd)
                } else {
                    match spec_step_bytes(m, data.subrange(pos, pos + n)) {
                        Ok(m2) => spec_run(m2, data, pos + n),
                        Err(e) => Err(e),
                    }
                }
            },
            Phase::ChunkData(n) => {
                if pos + n + 2 > data.len() {
                    Err(ProtocolError::UnexpectedEnd)
                } else {
                    match spec_step_bytes(m, data.subrange(pos, pos + n + 2)) {
                        Ok(m2) => spec_run(m2, data, pos + n + 2),
                        Err(e) => Err(e),
                    }
                }
            },
        }
    }
}

/// Finds the end of the line that starts at `pos`.
pub fn take_line(data: &[u8], pos: usize) -> (end: usize)
    requires
        pos <= data@.len(),
    ensures
        end == line_end(data@, pos as int),
        pos <= end <= data@.len(),
        pos < data@.len() ==> pos < end,
{
    let mut i = pos;
    while i < data.len()
        invariant
            pos <= i <= data@.len(),
            line_end(data@, pos as int) == line_end(data@, i as int),
        decreases data@.len() - i,
    {
        if data[i] == 10 {
            return i + 1;
        }
        i += 1;
    }
    i
}

/// One fully read response: every byte it occupied on the wire, whether its
/// status was in the 2xx range, its body with chunk framing removed, and
/// the position where the next response begins.
#[derive(Debug)]
pub struct Response {
    /// Every byte the response occupied: header lines, body bytes,
    /// chunk-length lines and chunk terminators.
    pub size: usize,
    /// Whether the status token began with the digit `2`.
    pub succeeded: bool,
    /// The body, chunk framing removed.
    pub body: Vec<u8>,
    /// The position just past the response.
    pub end: usize,
}

/// Reads exactly one response from `data`, starting at `start`, and returns
/// what [`spec_run`] says: reading a second response at `end` continues
/// where the first stopped, which is how one connection carries many
/// responses in sequence.
pub fn parse_response_bytes(data: &[u8], start: usize) -> (r: Result<Response, ProtocolError>)
    requires
        start <= data@.len(),
    ensures
        (match spec_run(Model::init(), data@, start as int) {
            Ok((m2, end)) => r matches Ok(o) && o.size == m2.size && o.succeeded == m2.succeeded
                && o.body@ == m2.body && o.end == end && start <= end <= data@.len()
                && m2.phase is Done,
            Err(e) => r == Err::<Response, ProtocolError>(e),
        }),
{
    let mut m = Machine::new();
    let mut pos = start;
    loop
        invariant
            m@.wf(),
            start <= pos <= data@.len(),
            spec_run(m@, data@, pos as int) == spec_run(Model::init(), data@, start as int),
        decreases data@.len() - pos + phase_rank(m@.phase),
    {
        match m.next_cmd() {
            ReadCmd::Finished => {
                let size = m.total_size();
                let succeeded = m.succeeded();
                let body = m.into_body();
                return Ok(Response { size, succeeded, body, end: pos });
            },
            ReadCmd::Line => {
                if pos == data.len() {
                    return Err(ProtocolError::UnexpectedEnd);
                }
                let ghost pre = m@;
                let end = take_line(data, pos);
                let line = slice_subrange(data, pos, end);
                match m.on_line(line) {
                    Ok(_) => {
                        proof {
                            assert(spec_run(pre, data@, pos as int) == spec_run(
                                m@,
                                data@,
                                end as int,
                            ));
                        }
                        pos = end;
                    },
                    Err(e) => {
                        return Err(e);
                    },
                }
            },
            ReadCmd::Exact(n) => {
                if n > data.len() - pos {
                    return Err(ProtocolError::UnexpectedEnd);
                }
                let ghost pre = m@;
                let buf = slice_subrange(data, pos, pos + n);
                match m.on_bytes(buf) {
                    Ok(()) => {
                        proof {
                            assert(spec_run(pre, data@, pos as int) == spec_run(
                                m@,
                                data@,
                                pos + n,
                            ));
                        }
                        pos = pos + n;
                    },
                    Err(e) => {
                        return Err(e);
                    },
                }
            },
        }
    }
}

} // verus!
