//! The framed stream, minus the transport: a read buffer, the first-in
//! first-out queue of commands awaiting their responses, and the decode
//! step that turns buffered bytes into one response at a time.  The caller
//! writes the returned request lines to its transport and feeds the bytes
//! it reads back in.

use vstd::prelude::*;
use vstd::slice::slice_subrange;

use crate::command::Command;
use crate::error::{Error, ErrorKind, PopResult};
use crate::grammar::{spec_parse, SpecParsed};
use crate::parser::{parse, Parsed};
use crate::request::{spec_serial, Request};
use crate::response::Response;

verus! {

/// Backing storage grows in chunks of this size.
pub const CHUNK_SIZE: usize = 2048;

/// The absolute cap on buffered response bytes: 20 MiB.
pub const MAX_BUFFER_SIZE: usize = 20971520;

/// The ordered list of commands whose responses are still outstanding.
/// Its head is the command the next parse attempt is directed by.
#[derive(Debug)]
pub struct CommandQueue {
    list: Vec<Command>,
}

impl View for CommandQueue {
    type V = Seq<Command>;

    closed spec fn view(&self) -> Seq<Command> {
        self.list@
    }
}

impl CommandQueue {
    pub fn new() -> (r: CommandQueue)
        ensures
            r@ == Seq::<Command>::empty(),
    {
        let r = CommandQueue { list: Vec::new() };
        proof {
            assert(r@ =~= Seq::<Command>::empty());
        }
        r
    }

    pub fn add(&mut self, command: Command)
        ensures
            final (self)@ == old(self)@.push(command),
    {
        self.list.push(command);
    }

    pub fn current(&self) -> (r: Option<&Command>)
        ensures
            match r {
                Some(c) => self@.len() > 0 && *c == self@[0],
                None => self@.len() == 0,
            },
    {
        self.list.as_slice().first()
    }

    pub fn mark_current_as_done(&mut self)
        requires
            old(self)@.len() > 0,
        ensures
            final (self)@ == old(self)@.drop_first(),
    {
        self.list.remove(0);
        proof {
            assert(self@ =~= old(self)@.drop_first());
        }
    }

    pub fn len(&self) -> (r: usize)
        ensures
            r == self@.len(),
    {
        self.list.len()
    }
}

/// The mathematical content of a `PopStream`: the unconsumed buffered
/// bytes, the outstanding commands, and when the last request line was
/// handed out.
#[verifier::ext_equal]
pub struct StreamModel {
    pub buffer: Seq<u8>,
    pub queue: Seq<Command>,
    pub last_activity: Option<u64>,
}

/// The framed stream state.
#[derive(Debug)]
pub struct PopStream {
    buffer: Vec<u8>,
    queue: CommandQueue,
    last_activity: Option<u64>,
}

impl View for PopStream {
    type V = StreamModel;

    closed spec fn view(&self) -> StreamModel {
        StreamModel { buffer: self.buffer@, queue: self.queue@, last_activity: self.last_activity }
    }
}

impl PopStream {
    pub fn new() -> (r: PopStream)
        ensures
            r@.buffer == Seq::<u8>::empty(),
            r@.queue == Seq::<Command>::empty(),
            r@.last_activity is None,
    {
        let r = PopStream { buffer: Vec::new(), queue: CommandQueue::new(), last_activity: None };
        proof {
            assert(r@.buffer =~= Seq::<u8>::empty());
        }
        r
    }

    /// Serializes `request`, appends CRLF, appends the request's command to
    /// the queue tail, and records the timestamp of this send.  The caller
    /// writes the returned line to the transport and flushes.
    pub fn enqueue_request(&mut self, request: &Request, now_ms: u64) -> (line: String)
        ensures
            line@ == spec_serial(request@) + seq!['\r', '\n'],
            final (self)@.buffer == old(self)@.buffer,
            final (self)@.queue == old(self)@.queue.push(request@.command),
            final (self)@.last_activity == Some(now_ms),
    {
        let mut line = request.serialize();
        proof {
            reveal_strlit("\r\n");
            assert("\r\n"@ =~= seq!['\r', '\n']);
        }
        line.append("\r\n");
        self.queue.add(request.command().clone_verbatim());
        self.last_activity = Some(now_ms);
        line
    }

    /// Awaits a response nothing was sent for: appends a pseudo-command
    /// (such as the greeting's) to the queue tail.
    pub fn expect(&mut self, command: Command)
        ensures
            final (self)@ == (StreamModel { queue: old(self)@.queue.push(command), ..old(self)@ }),
    {
        self.queue.add(command);
        proof {
            assert(final (self)@ =~= (StreamModel {
                queue: old(self)@.queue.push(command),
                ..old(self)@
            }));
        }
    }

    /// Appends bytes read from the transport.  Fails, leaving everything
    /// unchanged, when the buffer would exceed the 20 MiB cap.
    pub fn feed(&mut self, data: &[u8]) -> (r: PopResult<()>)
        ensures
            match r {
                Ok(u) => old(self)@.buffer.len() + data@.len() <= MAX_BUFFER_SIZE && final(self)@ == (StreamModel { buffer: old(self)@.buffer + data@, ..old(self)@ }),
                Err(e) => old(self)@.buffer.len() + data@.len() > MAX_BUFFER_SIZE && e.spec_kind()
                    is ResponseTooLarge && final (self)@ == old(self)@,
            },
    {
        if data.len() > MAX_BUFFER_SIZE || self.buffer.len() > MAX_BUFFER_SIZE - data.len() {
            return Err(
                Error::new(
                    ErrorKind::ResponseTooLarge,
                    String::from_str(
                        "The servers response is larger than the maximum allowed size",
                    ),
                ),
            );
        }
        self.buffer.extend_from_slice(data);
        proof {
            assert(final (self)@ =~= (StreamModel {
                buffer: old(self)@.buffer + data@,
                ..old(self)@
            }));
        }
        Ok(())
    }

    /// What the caller should do after a read of zero bytes: with commands
    /// still outstanding the connection died under us.
    pub fn on_eof(&self) -> (r: PopResult<()>)
        ensures
            match r {
                Ok(u) => self@.queue.len() == 0,
                Err(e) => self@.queue.len() > 0 && e.spec_kind() is ConnectionClosed,
            },
    {
        if self.queue.len() > 0 {
            Err(
                Error::new(
                    ErrorKind::ConnectionClosed,
                    String::from_str("The connection closed while a response was expected"),
                ),
            )
        } else {
            Ok(())
        }
    }

    /// One decode attempt, directed by the queue head.  On a complete
    /// response the head is removed and the consumed bytes leave the
    /// buffer, so the next response's bytes stay in place; the decoded
    /// response is exactly what the grammar gives for those bytes (P6:
    /// the response shape always belongs to the head command).
    pub fn try_decode(&mut self) -> (r: PopResult<Option<Response>>)
        ensures
            old(self)@.queue.len() == 0 ==> (r matches Err(e) && e.spec_kind() is MissingRequest
                && final (self)@ == old(self)@),
            old(self)@.queue.len() > 0 ==> match spec_parse(
                old(self)@.buffer,
                old(self)@.queue[0],
            ) {
                SpecParsed::More => r matches Ok(o) && o is None && final (self)@ == old(self)@,
                SpecParsed::Bad => r matches Err(e) && e.spec_kind() is InvalidResponse && final(self)@ == old(self)@,
                SpecParsed::Done { used, resp } => r matches Ok(o) && o matches Some(response)
                    && response@ == resp && final (self)@ == (StreamModel {
                    buffer: old(self)@.buffer.skip(used),
                    queue: old(self)@.queue.drop_first(),
                    ..old(self)@
                }),
            },
    {
        let parsed = match self.queue.current() {
            None => {
                return Err(
                    Error::new(
                        ErrorKind::MissingRequest,
                        String::from_str(
                            "Trying to read a response without having sent a request",
                        ),
                    ),
                );
            },
            Some(command) => parse(self.buffer.as_slice(), command),
        };
        match parsed {
            Parsed::Incomplete => Ok(None),
            Parsed::Malformed => Err(
                Error::new(
                    ErrorKind::InvalidResponse,
                    String::from_str("The server gave an invalid response"),
                ),
            ),
            Parsed::Done { used, response } => {
                proof {
                    crate::grammar::lemma_frame_used_bound(self@.buffer, self@.queue[0]);
                }
                let rest = crate::wire::copy_bytes(
                    slice_subrange(self.buffer.as_slice(), used, self.buffer.len()),
                );
                self.buffer = rest;
                self.queue.mark_current_as_done();
                proof {
                    assert(final (self)@ =~= (StreamModel {
                        buffer: old(self)@.buffer.skip(used as int),
                        queue: old(self)@.queue.drop_first(),
                        ..old(self)@
                    }));
                }
                Ok(Some(response))
            },
        }
    }

    /// When the last request line was handed out for sending.
    pub fn last_activity(&self) -> (r: Option<u64>)
        ensures
            r == self@.last_activity,
    {
        self.last_activity
    }
}

} // verus!
