//! `yal.socket` for plugins: how `client:receive` reads, decided byte by
//! byte and chunk by chunk while the caller does the reading.

use vstd::prelude::*;

use crate::text::owned;

verus! {

/// How `client:receive` reads: a line, everything until the peer closes,
/// or a number of bytes.
#[derive(Debug, Clone, Copy, PartialEq, Eq, Structural)]
pub enum ReceiveMode {
    Line,
    All,
    Bytes(usize),
}

/// The mode argument as a plugin hands it over. A number that is not an
/// integer comes as `Count` when it is positive and whole (as the count it
/// stands for), and as `Other` otherwise.
pub enum ModeArg {
    Text(String),
    Integer(i64),
    Count(usize),
    Other,
}

/// Why a socket operation failed.
#[derive(Debug, Clone, Copy, PartialEq, Eq, Structural)]
pub enum SocketError {
    /// A string mode other than `*l` and `*a`.
    UnknownModeText,
    /// A mode that is neither such a string nor a positive count.
    BadMode,
    /// A line grew past 8 MiB.
    LineTooLong,
    /// A read to the end grew past 16 MiB.
    TooLarge,
    /// `client:send` was handed neither a string nor a table of bytes.
    BadSendData,
}

impl SocketError {
    /// The message that the plugin sees.
    pub fn message(&self) -> (r: String)
        ensures
            r@ == match *self {
                SocketError::UnknownModeText => "receive: expected \"*l\", \"*a\", or a byte count number"@,
                SocketError::BadMode => "receive: bad mode"@,
                SocketError::LineTooLong => "line too long"@,
                SocketError::TooLarge => "too large"@,
                SocketError::BadSendData => "send: expected string or byte-array table"@,
            },
    {
        match self {
            SocketError::UnknownModeText => owned("receive: expected \"*l\", \"*a\", or a byte count number"),
            SocketError::BadMode => owned("receive: bad mode"),
            SocketError::LineTooLong => owned("line too long"),
            SocketError::TooLarge => owned("too large"),
            SocketError::BadSendData => owned("send: expected string or byte-array table"),
        }
    }
}

/// The mode an argument asks for: `"*l"` a line, `"*a"` everything, a
/// positive integer or count that many bytes.
pub open spec fn mode_of(arg: ModeArg) -> Result<ReceiveMode, SocketError> {
    match arg {
        ModeArg::Text(s) => if s@ == "*l"@ {
            Ok(ReceiveMode::Line)
        } else if s@ == "*a"@ {
            Ok(ReceiveMode::All)
        } else {
            Err(SocketError::UnknownModeText)
        },
        ModeArg::Integer(n) => if n > 0 {
            Ok(ReceiveMode::Bytes(n as usize))
        } else {
            Err(SocketError::BadMode)
        },
        ModeArg::Count(c) => Ok(ReceiveMode::Bytes(c)),
        ModeArg::Other => Err(SocketError::BadMode),
    }
}

/// Reads the mode argument of `client:receive`.
pub fn parse_receive_mode(arg: ModeArg) -> (r: Result<ReceiveMode, SocketError>)
    ensures
        r == mode_of(arg),
{
    match arg {
        ModeArg::Text(s) => {
            if crate::text::str_eq(s.as_str(), "*l") {
                Ok(ReceiveMode::Line)
            } else if crate::text::str_eq(s.as_str(), "*a") {
                Ok(ReceiveMode::All)
            } else {
                Err(SocketError::UnknownModeText)
            }
        },
        ModeArg::Integer(n) => {
            if n > 0 {
                Ok(ReceiveMode::Bytes(n as usize))
            } else {
                Err(SocketError::BadMode)
            }
        },
        ModeArg::Count(c) => Ok(ReceiveMode::Bytes(c)),
        ModeArg::Other => Err(SocketError::BadMode),
    }
}

/// The longest line, in bytes, before the newline.
pub open spec fn max_line() -> nat {
    8 * 1024 * 1024
}

/// The most bytes a read to the end may gather.
pub open spec fn max_all() -> nat {
    16 * 1024 * 1024
}

/// What to do after a byte of a line.
#[derive(Debug, Clone, Copy, PartialEq, Eq, Structural)]
pub enum LineStep {
    /// Read another byte.
    More,
    /// The line is complete.
    Done,
    /// The line is too long.
    TooLong,
}

/// A line as it is read, one byte at a time.
pub struct LineReader {
    buf: Vec<u8>,
}

/// A line without its line ending: a final `\r\n` or `\n` is dropped.
pub open spec fn without_line_end(b: Seq<u8>) -> Seq<u8> {
    if b.len() >= 2 && b[b.len() - 2] == 13 && b[b.len() - 1] == 10 {
        b.subrange(0, b.len() - 2)
    } else if b.len() >= 1 && b[b.len() - 1] == 10 {
        b.subrange(0, b.len() - 1)
    } else {
        b
    }
}

impl LineReader {
    #[verifier::type_invariant]
    closed spec fn bounded(&self) -> bool {
        self.buf@.len() <= max_line() + 1
    }

    /// The bytes read so far.
    pub closed spec fn read(&self) -> Seq<u8> {
        self.buf@
    }

    pub fn new() -> (r: LineReader)
        ensures
            r.read() == Seq::<u8>::empty(),
    {
        LineReader { buf: Vec::new() }
    }

    /// Takes the next byte (`None` at the end of the stream): the end of the
    /// stream and a newline complete the line; past 8 MiB the line is too
    /// long. Only a reader that asked for more takes another byte.
    pub fn push(&mut self, byte: Option<u8>) -> (r: LineStep)
        requires
            old(self).read().len() <= max_line(),
        ensures
            match byte {
                None => r == LineStep::Done && final(self).read() == old(self).read(),
                Some(b) => {
                    &&& final(self).read() == old(self).read().push(b)
                    &&& r == if b == 10 {
                        LineStep::Done
                    } else if final(self).read().len() > max_line() {
                        LineStep::TooLong
                    } else {
                        LineStep::More
                    }
                },
            },
            r == LineStep::More ==> final(self).read().len() <= max_line(),
    {
        match byte {
            None => LineStep::Done,
            Some(b) => {
                let mut buf: Vec<u8> = Vec::new();
                std::mem::swap(&mut buf, &mut self.buf);
                buf.push(b);
                let n = buf.len();
                *self = LineReader { buf };
                if b == 10 {
                    LineStep::Done
                } else if n > 8 * 1024 * 1024 {
                    LineStep::TooLong
                } else {
                    LineStep::More
                }
            },
        }
    }

    /// The line, without its line ending.
    pub fn finish(self) -> (r: Vec<u8>)
        ensures
            r@ == without_line_end(self.read()),
    {
        let mut buf = self.buf;
        let n = buf.len();
        if n >= 2 && buf[n - 2] == 13 && buf[n - 1] == 10 {
            buf.truncate(n - 2);
        } else if n >= 1 && buf[n - 1] == 10 {
            buf.truncate(n - 1);
        }
        assert(buf@ =~= without_line_end(self.read()));
        buf
    }
}

/// Everything the peer sends until it closes, gathered chunk by chunk.
pub struct AllReader {
    buf: Vec<u8>,
}

impl AllReader {
    #[verifier::type_invariant]
    closed spec fn bounded(&self) -> bool {
        self.buf@.len() <= max_all()
    }

    /// The bytes gathered so far.
    pub closed spec fn read(&self) -> Seq<u8> {
        self.buf@
    }

    pub fn new() -> (r: AllReader)
        ensures
            r.read() == Seq::<u8>::empty(),
    {
        AllReader { buf: Vec::new() }
    }

    /// Takes the next chunk: gathered, unless that takes the bytes past
    /// 16 MiB, which fails the read.
    pub fn push_chunk(&mut self, chunk: &[u8]) -> (r: Result<(), SocketError>)
        ensures
            old(self).read().len() + chunk@.len() > max_all() ==> r == Err::<(), SocketError>(SocketError::TooLarge),
            old(self).read().len() + chunk@.len() <= max_all() ==> r is Ok && final(self).read() == old(self).read()
                + chunk@,
    {
        proof {
            use_type_invariant(&*self);
        }
        if chunk.len() > 16 * 1024 * 1024 - self.buf.len() {
            return Err(SocketError::TooLarge);
        }
        let mut buf: Vec<u8> = Vec::new();
        std::mem::swap(&mut buf, &mut self.buf);
        let ghost before = buf@;
        let mut i: usize = 0;
        while i < chunk.len()
            invariant
                i <= chunk@.len(),
                buf@ == before + chunk@.subrange(0, i as int),
            decreases chunk@.len() - i,
        {
            buf.push(chunk[i]);
            assert(chunk@.subrange(0, i + 1) =~= chunk@.subrange(0, i as int).push(chunk@[i as int]));
            i = i + 1;
        }
        assert(chunk@.subrange(0, chunk@.len() as int) =~= chunk@);
        *self = AllReader { buf };
        Ok(())
    }

    /// The bytes gathered.
    pub fn finish(self) -> (r: Vec<u8>)
        ensures
            r@ == self.read(),
            r@.len() <= max_all(),
    {
        proof {
            use_type_invariant(&self);
        }
        self.buf
    }
}

/// A read of a number of bytes: chunks are taken until that many bytes have
/// come or the peer has closed, whichever is first.
pub struct ByteCountReader {
    want: usize,
    buf: Vec<u8>,
    ended: bool,
}

impl ByteCountReader {
    #[verifier::type_invariant]
    closed spec fn bounded(&self) -> bool {
        self.buf@.len() <= self.want
    }

    /// The bytes read so far.
    pub closed spec fn read(&self) -> Seq<u8> {
        self.buf@
    }

    /// The number of bytes asked for.
    pub closed spec fn wanted(&self) -> nat {
        self.want as nat
    }

    /// Whether the peer has closed the stream.
    pub closed spec fn ended(&self) -> bool {
        self.ended
    }

    /// Whether the read is over: all the bytes asked for have come, or the
    /// peer has closed.
    pub open spec fn done(&self) -> bool {
        self.ended() || self.read().len() == self.wanted()
    }

    /// A read of `want` bytes, with nothing read yet.
    pub fn new(want: usize) -> (r: ByteCountReader)
        ensures
            r.read() == Seq::<u8>::empty(),
            r.wanted() == want,
            !r.ended(),
    {
        ByteCountReader { want, buf: Vec::new(), ended: false }
    }

    /// How many more bytes the read may take.
    pub fn remaining(&self) -> (r: usize)
        ensures
            r == self.wanted() - self.read().len(),
    {
        proof {
            use_type_invariant(self);
        }
        self.want - self.buf.len()
    }

    /// Whether the read is over.
    pub fn is_done(&self) -> (r: bool)
        ensures
            r == self.done(),
    {
        self.ended || self.buf.len() == self.want
    }

    /// Takes what one read of the stream gave: an empty chunk is the peer
    /// closing, any other chunk is appended. The chunk holds at most the
    /// bytes that are still wanted, as a read into the rest of the buffer
    /// gives. Returns whether the read is now over.
    pub fn push(&mut self, chunk: &[u8]) -> (r: bool)
        requires
            !old(self).done(),
            chunk@.len() <= old(self).wanted() - old(self).read().len(),
        ensures
            final(self).read() == old(self).read() + chunk@,
            final(self).wanted() == old(self).wanted(),
            final(self).ended() == (chunk@.len() == 0),
            r == final(self).done(),
    {
        proof {
            use_type_invariant(&*self);
        }
        if chunk.len() == 0 {
            let want = self.want;
            let mut buf: Vec<u8> = Vec::new();
            std::mem::swap(&mut buf, &mut self.buf);
            assert(buf@ + chunk@ =~= buf@);
            *self = ByteCountReader { want, buf, ended: true };
            return true;
        }
        let want = self.want;
        let mut buf: Vec<u8> = Vec::new();
        std::mem::swap(&mut buf, &mut self.buf);
        let ghost before = buf@;
        let mut i: usize = 0;
        while i < chunk.len()
            invariant
                i <= chunk@.len(),
                buf@ == before + chunk@.subrange(0, i as int),
            decreases chunk@.len() - i,
        {
            buf.push(chunk[i]);
            assert(chunk@.subrange(0, i + 1) =~= chunk@.subrange(0, i as int).push(chunk@[i as int]));
            i = i + 1;
        }
        assert(chunk@.subrange(0, chunk@.len() as int) =~= chunk@);
        let done = buf.len() == want;
        *self = ByteCountReader { want, buf, ended: false };
        done
    }

    /// The bytes read: all that were asked for, or fewer when the peer
    /// closed first.
    pub fn finish(self) -> (r: Vec<u8>)
        ensures
            r@ == self.read(),
            r@.len() <= self.wanted(),
            self.done() && !self.ended() ==> r@.len() == self.wanted(),
    {
        proof {
            use_type_invariant(&self);
        }
        self.buf
    }
}

/// What a plugin hands to `client:send`: a string (its bytes), a table
/// whose sequence values are bytes, or anything else.
pub enum SendData {
    Text(Vec<u8>),
    ByteTable(Vec<u8>),
    Other,
}

/// The bytes that `client:send` writes for its argument.
pub open spec fn payload_of(data: SendData) -> Result<Seq<u8>, SocketError> {
    match data {
        SendData::Text(b) => Ok(b@),
        SendData::ByteTable(b) => Ok(b@),
        SendData::Other => Err(SocketError::BadSendData),
    }
}

/// The bytes to write for the argument of `client:send`.
pub fn send_payload(data: SendData) -> (r: Result<Vec<u8>, SocketError>)
    ensures
        match payload_of(data) {
            Ok(b) => r matches Ok(v) && v@ == b,
            Err(e) => r == Err::<Vec<u8>, SocketError>(e),
        },
{
    match data {
        SendData::Text(b) => Ok(b),
        SendData::ByteTable(b) => Ok(b),
        SendData::Other => Err(SocketError::BadSendData),
    }
}

/// What `client:send` returns once the payload is written: the number of
/// bytes sent, all of the payload.
pub fn sent_count(payload: &[u8]) -> (r: usize)
    ensures
        r == payload@.len(),
{
    payload.len()
}

} // verus!
