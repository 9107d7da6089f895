//! The byte ring buffer shared by the two ends of a pipe.
use vstd::prelude::*;

verus! {

/// Capacity of a pipe in bytes.
pub const RING_BUFFER_SIZE: usize = 2048;

/// Whether the ring holds no bytes (head and tail then coincide) or some.
#[derive(Clone, Copy, Debug, PartialEq, Eq, Structural)]
pub enum RingBufferStatus {
    EMPTY,
    NORMAL,
}

/// A bounded byte queue: bytes are read at `head` and written at `tail`;
/// when head and tail coincide the status tells empty from full.
pub struct PipeRingBuffer {
    pub arr: Vec<u8>,
    pub head: usize,
    pub tail: usize,
    pub status: RingBufferStatus,
}

impl PipeRingBuffer {
    pub open spec fn wf(&self) -> bool {
        &&& self.arr@.len() == RING_BUFFER_SIZE
        &&& self.head < RING_BUFFER_SIZE
        &&& self.tail < RING_BUFFER_SIZE
        &&& self.status == RingBufferStatus::EMPTY ==> self.head == self.tail
    }

    /// Number of bytes held.
    pub open spec fn count(&self) -> nat {
        if self.status == RingBufferStatus::EMPTY {
            0
        } else if self.tail > self.head {
            (self.tail - self.head) as nat
        } else {
            (self.tail + RING_BUFFER_SIZE - self.head) as nat
        }
    }

    /// The bytes held, oldest first.
    pub open spec fn contents(&self) -> Seq<u8> {
        Seq::new(self.count(), |i: int| self.arr@[(self.head + i) % (RING_BUFFER_SIZE as int)])
    }

    /// An empty buffer.
    pub fn new() -> (r: Self)
        ensures
            r.wf(),
            r.contents() == Seq::<u8>::empty(),
    {
        let arr = vec![0u8; RING_BUFFER_SIZE];
        let r = PipeRingBuffer { arr, head: 0, tail: 0, status: RingBufferStatus::EMPTY };
        assert(r.contents() =~= Seq::<u8>::empty());
        r
    }

    /// Takes the oldest byte.
    pub fn read_byte(&mut self) -> (c: u8)
        requires
            old(self).wf(),
            old(self).contents().len() > 0,
        ensures
            final(self).wf(),
            c == old(self).contents()[0],
            final(self).contents() == old(self).contents().drop_first(),
    {
        self.status = RingBufferStatus::NORMAL;
        let c = self.arr[self.head];
        self.head = (self.head + 1) % RING_BUFFER_SIZE;
        if self.head == self.tail {
            self.status = RingBufferStatus::EMPTY;
        }
        proof {
            let o = old(self).contents();
            let n = self.contents();
            assert(n.len() == o.len() - 1);
            assert forall|i: int| 0 <= i < n.len() implies n[i] == o[i + 1] by {
                let m = RING_BUFFER_SIZE as int;
                let oh = old(self).head as int;
                assert(((oh + 1) % m + i) % m == (oh + (i + 1)) % m) by (nonlinear_arith)
                    requires
                        m == 2048,
                        0 <= oh < m,
                        0 <= i,
                ;
            }
            assert(n =~= o.drop_first());
        }
        c
    }

    /// Number of bytes that can be read.
    pub fn available_read(&self) -> (r: usize)
        requires
            self.wf(),
        ensures
            r == self.contents().len(),
    {
        if self.status == RingBufferStatus::EMPTY {
            0
        } else {
            if self.tail > self.head {
                self.tail - self.head
            } else {
                self.tail + RING_BUFFER_SIZE - self.head
            }
        }
    }

    /// Appends one byte.
    pub fn write_byte(&mut self, byte: u8)
        requires
            old(self).wf(),
            old(self).contents().len() < RING_BUFFER_SIZE,
        ensures
            final(self).wf(),
            final(self).contents() == old(self).contents().push(byte),
    {
        let tail = self.tail;
        self.arr.set(tail, byte);
        self.tail = (self.tail + 1) % RING_BUFFER_SIZE;
        self.status = RingBufferStatus::NORMAL;
        proof {
            let o = old(self).contents();
            let n = self.contents();
            let m = RING_BUFFER_SIZE as int;
            let oh = old(self).head as int;
            let ot = old(self).tail as int;
            assert(n.len() == o.len() + 1);
            assert forall|i: int| 0 <= i < n.len() implies n[i] == o.push(byte)[i] by {
                if i < o.len() {
                    assert(o.len() == (if ot > oh { ot - oh } else { ot + m - oh }));
                    if oh + i < m {
                        assert((oh + i) % m == oh + i);
                    } else {
                        assert((oh + i) % m == oh + i - m);
                    }
                } else {
                    assert((oh + i) % m == ot) by (nonlinear_arith)
                        requires
                            m == 2048,
                            0 <= oh < m,
                            0 <= ot < m,
                            i == o.len(),
                            o.len() == 0 ==> oh == ot,
                            o.len() > 0 ==> o.len() == (if ot > oh { ot - oh } else { ot + m - oh }),
                    ;
                }
            }
            assert(n =~= o.push(byte));
        }
    }

    /// One round of a pipe read: takes the oldest `min(want, available)` bytes
    /// (the reader waits and retries while the buffer is empty and a writer
    /// remains).
    pub fn read_bytes(&mut self, want: usize) -> (r: Vec<u8>)
        requires
            old(self).wf(),
        ensures
            final(self).wf(),
            read_effect(*old(self), want, r@, *final(self)),
    {
        let loop_read = self.available_read();
        let n = if want < loop_read { want } else { loop_read };
        let mut out: Vec<u8> = Vec::new();
        let ghost start = self.contents();
        let mut k: usize = 0;
        while k < n
            invariant
                self.wf(),
                0 <= k <= n,
                n <= start.len(),
                out@ == start.take(k as int),
                self.contents() == start.skip(k as int),
            decreases n - k,
        {
            let b = self.read_byte();
            proof {
                assert(start.take(k + 1) =~= start.take(k as int).push(b));
                assert(start.skip(k + 1) =~= start.skip(k as int).drop_first());
            }
            out.push(b);
            k = k + 1;
        }
        out
    }

    /// One round of a pipe write: appends as much of `data` as fits and says
    /// how much (the writer waits and retries with the rest while it is full).
    pub fn write_bytes(&mut self, data: &[u8]) -> (r: usize)
        requires
            old(self).wf(),
        ensures
            final(self).wf(),
            write_effect(*old(self), data@, r, *final(self)),
    {
        let available_write = RING_BUFFER_SIZE - self.available_read();
        let n = if data.len() < available_write { data.len() } else { available_write };
        let ghost start = self.contents();
        let mut k: usize = 0;
        while k < n
            invariant
                self.wf(),
                0 <= k <= n,
                n <= data@.len(),
                start.len() + n <= RING_BUFFER_SIZE,
                self.contents() == start + data@.take(k as int),
            decreases n - k,
        {
            self.write_byte(data[k]);
            assert(data@.take(k + 1) =~= data@.take(k as int).push(data@[k as int]));
            assert(start + data@.take(k + 1) =~= (start + data@.take(k as int)).push(data@[k as int]));
            k = k + 1;
        }
        n
    }
}

/// What one attempt of a pipe read decides.
pub enum PipeRead {
    /// The buffer is empty and a writer remains: the reader waits and tries
    /// again.
    Wait,
    /// The read is over with these bytes; none at end of file (the buffer
    /// empty and every write end closed).
    Done(Vec<u8>),
}

/// One attempt of a read of up to `want` bytes: with bytes held, takes the
/// oldest `min(want, held)` of them; with none, the read ends with no bytes
/// once every write end is closed, and waits otherwise.
pub fn pipe_read_step(ring: &mut PipeRingBuffer, want: usize, write_ends_closed: bool) -> (r: PipeRead)
    requires
        old(ring).wf(),
    ensures
        final(ring).wf(),
        old(ring).contents().len() == 0 && !write_ends_closed ==> r is Wait && final(ring).contents()
            == old(ring).contents(),
        old(ring).contents().len() == 0 && write_ends_closed ==> (r matches PipeRead::Done(v) && v@
            == Seq::<u8>::empty()) && final(ring).contents() == old(ring).contents(),
        old(ring).contents().len() > 0 ==> (r matches PipeRead::Done(v) && read_effect(
            *old(ring),
            want,
            v@,
            *final(ring),
        )),
{
    if ring.available_read() == 0 {
        if write_ends_closed {
            return PipeRead::Done(Vec::new());
        }
        return PipeRead::Wait;
    }
    PipeRead::Done(ring.read_bytes(want))
}

/// One attempt of a write of `data`: `None` while the buffer is full (the
/// writer waits and tries again), else how many bytes went in, as much of
/// `data` as fits, appended in order.
pub fn pipe_write_step(ring: &mut PipeRingBuffer, data: &[u8]) -> (r: Option<usize>)
    requires
        old(ring).wf(),
    ensures
        final(ring).wf(),
        old(ring).contents().len() == RING_BUFFER_SIZE ==> r is None && final(ring).contents() == old(
            ring,
        ).contents(),
        old(ring).contents().len() < RING_BUFFER_SIZE ==> (r matches Some(n) && write_effect(
            *old(ring),
            data@,
            n,
            *final(ring),
        )),
{
    if RING_BUFFER_SIZE - ring.available_read() == 0 {
        return None;
    }
    Some(ring.write_bytes(data))
}

/// What `read_bytes` does: the oldest `min(want, held)` bytes leave the
/// buffer, in order.
pub open spec fn read_effect(pre: PipeRingBuffer, want: usize, out: Seq<u8>, post: PipeRingBuffer) -> bool {
    let n = if want < pre.contents().len() { want as int } else { pre.contents().len() as int };
    out == pre.contents().take(n) && post.contents() == pre.contents().skip(n)
}

/// What `write_bytes` does: as much of `data` as fits is appended, in order.
pub open spec fn write_effect(pre: PipeRingBuffer, data: Seq<u8>, written: usize, post: PipeRingBuffer) -> bool {
    let free = RING_BUFFER_SIZE - pre.contents().len();
    &&& written == (if data.len() < free { data.len() as int } else { free })
    &&& post.contents() == pre.contents() + data.take(written as int)
}

/// A pipe hands bytes out in the order they went in: after writing `data` to
/// a pipe that held `held` bytes, reading `held.len() + data.len()` bytes gives
/// `held` followed by the part of `data` that fitted.
pub proof fn lemma_fifo(
    b0: PipeRingBuffer,
    data: Seq<u8>,
    written: usize,
    b1: PipeRingBuffer,
    want: usize,
    out: Seq<u8>,
    b2: PipeRingBuffer,
)
    requires
        write_effect(b0, data, written, b1),
        read_effect(b1, want, out, b2),
        want >= b0.contents().len() + written,
    ensures
        out == b0.contents() + data.take(written as int),
        b2.contents() == Seq::<u8>::empty(),
{
    let c = b0.contents() + data.take(written as int);
    assert(c.take(c.len() as int) =~= c);
    assert(c.skip(c.len() as int) =~= Seq::<u8>::empty());
}

} // verus!
