use vstd::prelude::*;

use crate::error::TcpCommError;

verus! {

/// `payload` followed by zero bytes up to `size` bytes in all.
pub open spec fn zero_padded(payload: Seq<u8>, size: nat) -> Seq<u8> {
    payload + Seq::new((size - payload.len()) as nat, |_i: int| 0u8)
}

/// What one read from the stream gave.
#[derive(Debug, Clone, PartialEq, Eq)]
pub enum ReadEvent {
    /// The read returned these bytes; none at all is a zero-byte read.
    Bytes(Vec<u8>),
    /// No data is available yet: a non-blocking read would have blocked.
    WouldBlock,
    /// The peer has closed its end of the stream.
    Closed,
    /// The read failed for another reason.
    Failed,
}

/// What a blocking receive does next.
#[derive(Debug, Clone, PartialEq, Eq)]
pub enum RecvStep {
    /// Read from the stream in blocking mode, asking for at most this many bytes.
    Read(usize),
    /// A whole frame has been gathered and is ready to be decoded.
    Frame(Vec<u8>),
    /// The receive has failed with this error.
    Fail(TcpCommError),
}

/// The step that follows once the gathered bytes are `s`: the first frame
/// of `s` if `s` holds one, leaving the rest as `rest`; otherwise a read of
/// the bytes still missing, leaving `s` as it is.
pub open spec fn frame_or_read(s: Seq<u8>, size: nat, r: RecvStep, rest: Seq<u8>) -> bool {
    if s.len() >= size {
        &&& r is Frame
        &&& r->Frame_0@ == s.take(size as int)
        &&& rest == s.skip(size as int)
    } else {
        &&& r == RecvStep::Read((size - s.len()) as usize)
        &&& rest == s
    }
}

/// The receiving half of a transport that carries each message as a frame
/// of exactly `SIZE` bytes, zero-padded after the payload.
///
/// Its view is the bytes received from the stream and not yet handed out
/// as frames, in the order in which they arrived.
pub struct FixedFrame<const SIZE: usize> {
    pending: Vec<u8>,
}

impl<const SIZE: usize> View for FixedFrame<SIZE> {
    type V = Seq<u8>;

    closed spec fn view(&self) -> Seq<u8> {
        self.pending@
    }
}

impl<const SIZE: usize> FixedFrame<SIZE> {
    /// A receiver that holds no bytes yet.
    pub fn new() -> (r: Self)
        ensures
            r@ == Seq::<u8>::empty(),
    {
        FixedFrame { pending: Vec::new() }
    }

    /// The frame size.
    pub fn frame_size() -> (r: usize)
        ensures
            r == SIZE,
    {
        SIZE
    }

    /// The number of bytes received and not yet handed out.
    pub fn pending_len(&self) -> (r: usize)
        ensures
            r == self@.len(),
    {
        self.pending.len()
    }

    /// The frame that carries `payload`: the payload followed by zeros up to
    /// `SIZE` bytes. A payload longer than a frame is refused, and then
    /// nothing is to be written.
    pub fn encode_frame(payload: &[u8]) -> (r: Result<Vec<u8>, TcpCommError>)
        ensures
            payload@.len() <= SIZE <==> r is Ok,
            r is Ok ==> r->Ok_0@ == zero_padded(payload@, SIZE as nat),
            r is Err ==> r->Err_0 == TcpCommError::SerializeError,
    {
        if payload.len() > SIZE {
            return Err(TcpCommError::SerializeError);
        }
        let mut frame: Vec<u8> = Vec::with_capacity(SIZE);
        let mut i: usize = 0;
        while i < payload.len()
            invariant
                i <= payload@.len() <= SIZE,
                frame@ == payload@.take(i as int),
            decreases payload@.len() - i,
        {
            frame.push(payload[i]);
            i = i + 1;
        }
        while i < SIZE
            invariant
                payload@.len() <= i <= SIZE,
                frame@ == zero_padded(payload@, i as nat),
            decreases SIZE - i,
        {
            frame.push(0u8);
            i = i + 1;
            assert(frame@ =~= zero_padded(payload@, i as nat));
        }
        assert(payload@.take(payload@.len() as int) =~= zero_padded(payload@, payload@.len() as nat));
        Ok(frame)
    }

    /// Hands out the first `SIZE` bytes held.
    fn split_frame(&mut self) -> (r: Vec<u8>)
        requires
            old(self)@.len() >= SIZE,
        ensures
            r@ == old(self)@.take(SIZE as int),
            final(self)@ == old(self)@.skip(SIZE as int),
    {
        let rest = self.pending.split_off(SIZE);
        let mut frame = rest;
        std::mem::swap(&mut frame, &mut self.pending);
        frame
    }

    /// The first step of a blocking receive: a frame that is already held
    /// whole, or else a read of the bytes that are still missing.
    pub fn poll_buffer(&mut self) -> (r: RecvStep)
        ensures
            frame_or_read(old(self)@, SIZE as nat, r, final(self)@),
    {
        if self.pending.len() >= SIZE {
            RecvStep::Frame(self.split_frame())
        } else {
            RecvStep::Read(SIZE - self.pending.len())
        }
    }

    /// The next step of a blocking receive, after a read gave `ev`.
    ///
    /// Bytes read are kept after those already held, and a frame is handed
    /// out as soon as `SIZE` bytes are there: a short read never counts as a
    /// whole frame. A zero-byte read, or one that would block, is retried. A
    /// closed or failed stream ends the receive with `RecvError`, and the
    /// bytes held stay as they were.
    pub fn recv_step(&mut self, ev: ReadEvent) -> (r: RecvStep)
        ensures
            match ev {
                ReadEvent::Bytes(b) => frame_or_read(old(self)@ + b@, SIZE as nat, r, final(self)@),
                ReadEvent::WouldBlock => frame_or_read(old(self)@, SIZE as nat, r, final(self)@),
                _ => r == RecvStep::Fail(TcpCommError::RecvError) && final(self)@ == old(self)@,
            },
    {
        match ev {
            ReadEvent::Bytes(b) => {
                let mut b = b;
                self.pending.append(&mut b);
                self.poll_buffer()
            },
            ReadEvent::WouldBlock => self.poll_buffer(),
            _ => RecvStep::Fail(TcpCommError::RecvError),
        }
    }

    /// A frame that is already held whole, taken out; `None` if there is none.
    pub fn take_buffered(&mut self) -> (r: Option<Vec<u8>>)
        ensures
            old(self)@.len() >= SIZE ==> r is Some && r->Some_0@ == old(self)@.take(SIZE as int)
                && final(self)@ == old(self)@.skip(SIZE as int),
            old(self)@.len() < SIZE ==> r is None && final(self)@ == old(self)@,
    {
        if self.pending.len() >= SIZE {
            Some(self.split_frame())
        } else {
            None
        }
    }

    /// The outcome of a non-blocking receive whose single read gave `ev`.
    ///
    /// Bytes read are kept after those already held; if that makes a whole
    /// frame, the frame is handed out, and otherwise no message is available
    /// yet (`TryRecvEmptyError`), the partial frame being kept for later. A
    /// read that would block means the same. A closed or failed stream is
    /// `TryRecvDisconnectedError`, and the bytes held stay as they were.
    pub fn try_recv_step(&mut self, ev: ReadEvent) -> (r: Result<Vec<u8>, TcpCommError>)
        ensures
            match ev {
                ReadEvent::Bytes(b) => {
                    let s = old(self)@ + b@;
                    if s.len() >= SIZE {
                        &&& r is Ok
                        &&& r->Ok_0@ == s.take(SIZE as int)
                        &&& final(self)@ == s.skip(SIZE as int)
                    } else {
                        &&& r == Err::<Vec<u8>, TcpCommError>(TcpCommError::TryRecvEmptyError)
                        &&& final(self)@ == s
                    }
                },
                ReadEvent::WouldBlock => {
                    let s = old(self)@;
                    if s.len() >= SIZE {
                        &&& r is Ok
                        &&& r->Ok_0@ == s.take(SIZE as int)
                        &&& final(self)@ == s.skip(SIZE as int)
                    } else {
                        &&& r == Err::<Vec<u8>, TcpCommError>(TcpCommError::TryRecvEmptyError)
                        &&& final(self)@ == s
                    }
                },
                _ => {
                    &&& r == Err::<Vec<u8>, TcpCommError>(TcpCommError::TryRecvDisconnectedError)
                    &&& final(self)@ == old(self)@
                },
            },
    {
        match ev {
            ReadEvent::Bytes(b) => {
                let mut b = b;
                self.pending.append(&mut b);
            },
            ReadEvent::WouldBlock => {},
            _ => {
                return Err(TcpCommError::TryRecvDisconnectedError);
            },
        }
        match self.take_buffered() {
            Some(frame) => Ok(frame),
            None => Err(TcpCommError::TryRecvEmptyError),
        }
    }
}

/// A transport with frames of 512 bytes.
pub type FixedFrame512 = FixedFrame<512>;

/// A transport with frames of 1024 bytes.
pub type FixedFrameK1 = FixedFrame<1024>;

/// A transport with frames of 2048 bytes.
pub type FixedFrameK2 = FixedFrame<2048>;

/// Nothing held is altered, dropped or duplicated by a step: the frame
/// handed out, followed by the bytes kept, is exactly what was held.
pub proof fn lemma_step_keeps_bytes(s: Seq<u8>, size: nat, r: RecvStep, rest: Seq<u8>)
    requires
        frame_or_read(s, size, r, rest),
    ensures
        r is Frame ==> r->Frame_0@ + rest == s && r->Frame_0@.len() == size,
        !(r is Frame) ==> rest == s,
{
    if s.len() >= size {
        assert(s.take(size as int) + s.skip(size as int) =~= s);
    }
}

/// A payload that fits survives the trip: the frame made of it is exactly
/// `size` bytes long, and a receiver whose held bytes start with that frame
/// hands out that very frame next, whose first bytes are the payload and
/// whose other bytes are zero; what came after it is kept.
pub proof fn lemma_round_trip(payload: Seq<u8>, size: nat, tail: Seq<u8>, r: RecvStep, rest: Seq<u8>)
    requires
        payload.len() <= size,
        frame_or_read(zero_padded(payload, size) + tail, size, r, rest),
    ensures
        zero_padded(payload, size).len() == size,
        r is Frame,
        r->Frame_0@ == zero_padded(payload, size),
        r->Frame_0@.take(payload.len() as int) == payload,
        forall|i: int| payload.len() <= i < size ==> #[trigger] r->Frame_0@[i] == 0u8,
        rest == tail,
{
    let f = zero_padded(payload, size);
    assert((f + tail).take(size as int) =~= f);
    assert((f + tail).skip(size as int) =~= tail);
    assert(f.take(payload.len() as int) =~= payload);
}

/// Frames come out in the order in which they were sent: when the bytes held
/// are whole frames in send order, followed by anything else, the next step
/// hands out the first of them and keeps the others, still in order.
pub proof fn lemma_frames_in_send_order(
    frames: Seq<Seq<u8>>,
    size: nat,
    tail: Seq<u8>,
    r: RecvStep,
    rest: Seq<u8>,
)
    requires
        frames.len() > 0,
        forall|i: int| 0 <= i < frames.len() ==> (#[trigger] frames[i]).len() == size,
        frame_or_read(frames.flatten() + tail, size, r, rest),
    ensures
        r is Frame,
        r->Frame_0@ == frames[0],
        rest == frames.drop_first().flatten() + tail,
{
    let s = frames.flatten() + tail;
    assert(frames.flatten() == frames[0] + frames.drop_first().flatten());
    assert(s =~= frames[0] + (frames.drop_first().flatten() + tail));
    assert(s.take(size as int) =~= frames[0]);
    assert(s.skip(size as int) =~= frames.drop_first().flatten() + tail);
}

} // verus!
