//! An in-memory byte buffer with a single cursor.
//!
//! Reads and writes share one position: a write advances the position that
//! the next read starts from. Writing past the end grows the buffer; writing
//! before the end overwrites the bytes there.
use vstd::prelude::*;

verus! {

/// The abstract state of a memory buffer: its bytes and the cursor position.
pub ghost struct CursorModel {
    pub data: Seq<u8>,
    pub pos: nat,
}

/// How many bytes a read of capacity `cap` takes: all that the buffer asks
/// for, or all that remain after the cursor, whichever is fewer.
pub open spec fn read_len(m: CursorModel, cap: nat) -> nat {
    let avail = (m.data.len() - m.pos) as nat;
    if cap <= avail { cap } else { avail }
}

/// The bytes that a read of capacity `cap` hands out, in order.
pub open spec fn read_out(m: CursorModel, cap: nat) -> Seq<u8> {
    m.data.subrange(m.pos as int, (m.pos + read_len(m, cap)) as int)
}

/// The state after a read of capacity `cap`.
pub open spec fn after_read(m: CursorModel, cap: nat) -> CursorModel {
    CursorModel { data: m.data, pos: m.pos + read_len(m, cap) }
}

/// How many of `len` offered bytes a write accepts: all of them unless the
/// position would leave the address range.
pub open spec fn write_len(m: CursorModel, len: nat) -> nat {
    let room = (usize::MAX - m.pos) as nat;
    if len <= room { len } else { room }
}

/// `bytes` laid over `data` from `pos` on: the bytes before `pos` stay, those
/// under `bytes` are replaced, and the buffer grows where `bytes` runs past
/// its end.
pub open spec fn overlay(data: Seq<u8>, pos: nat, bytes: Seq<u8>) -> Seq<u8> {
    let end = pos + bytes.len();
    if end < data.len() {
        data.subrange(0, pos as int) + bytes + data.subrange(end as int, data.len() as int)
    } else {
        data.subrange(0, pos as int) + bytes
    }
}

/// The state after offering `bytes` to a write.
pub open spec fn after_write(m: CursorModel, bytes: Seq<u8>) -> CursorModel {
    let n = write_len(m, bytes.len());
    CursorModel { data: overlay(m.data, m.pos, bytes.take(n as int)), pos: m.pos + n }
}

/// Bytes written into an empty buffer, then read back from the start of a
/// buffer that holds them, come out whole and in order.
pub proof fn lemma_write_read_round_trip(bytes: Seq<u8>, cap: nat)
    requires
        bytes.len() <= usize::MAX,
        cap >= bytes.len(),
    ensures
        after_write(CursorModel { data: Seq::empty(), pos: 0 }, bytes).data == bytes,
        read_len(CursorModel { data: bytes, pos: 0 }, cap) == bytes.len(),
        read_out(CursorModel { data: bytes, pos: 0 }, cap) == bytes,
{
    let w = after_write(CursorModel { data: Seq::empty(), pos: 0 }, bytes);
    assert(bytes.take(bytes.len() as int) =~= bytes);
    assert(w.data =~= bytes);
    assert(bytes.subrange(0, bytes.len() as int) =~= bytes);
}

/// Two reads in a row hand out exactly the bytes that one read of their
/// joint capacity would: a short read loses nothing and keeps the order.
pub proof fn lemma_reads_concatenate(m: CursorModel, cap1: nat, cap2: nat)
    requires
        m.pos <= m.data.len(),
    ensures
        read_len(m, cap1) + read_len(after_read(m, cap1), cap2) == read_len(m, cap1 + cap2),
        read_out(m, cap1) + read_out(after_read(m, cap1), cap2) == read_out(m, cap1 + cap2),
        after_read(after_read(m, cap1), cap2) == after_read(m, cap1 + cap2),
{
    assert(read_out(m, cap1) + read_out(after_read(m, cap1), cap2) =~= read_out(m, cap1 + cap2));
}

/// Reads and writes share the cursor: once a write has reached the end of
/// the bytes, a read that follows finds nothing left.
pub proof fn lemma_write_then_read_at_end(m: CursorModel, bytes: Seq<u8>, cap: nat)
    requires
        m.pos <= m.data.len(),
        m.data.len() <= m.pos + bytes.len() <= usize::MAX,
    ensures
        after_write(m, bytes).pos == after_write(m, bytes).data.len(),
        read_len(after_write(m, bytes), cap) == 0,
        read_out(after_write(m, bytes), cap) == Seq::<u8>::empty(),
{
    assert(read_out(after_write(m, bytes), cap) =~= Seq::<u8>::empty());
}

/// A growable byte buffer with one cursor for reading and writing.
pub struct MemoryCursor {
    data: Vec<u8>,
    pos: usize,
}

impl View for MemoryCursor {
    type V = CursorModel;

    closed spec fn view(&self) -> CursorModel {
        CursorModel { data: self.data@, pos: self.pos as nat }
    }
}

impl MemoryCursor {
    /// The cursor never stands past the end of the bytes.
    #[verifier::type_invariant]
    spec fn inv(&self) -> bool {
        self.pos <= self.data.len()
    }

    /// An empty buffer with the cursor at 0.
    pub fn new() -> (r: MemoryCursor)
        ensures
            r@.data == Seq::<u8>::empty(),
            r@.pos == 0,
    {
        MemoryCursor { data: Vec::new(), pos: 0 }
    }

    /// A buffer that holds `bytes`, with the cursor at 0.
    pub fn from_vec(bytes: Vec<u8>) -> (r: MemoryCursor)
        ensures
            r@.data == bytes@,
            r@.pos == 0,
    {
        MemoryCursor { data: bytes, pos: 0 }
    }

    /// The cursor position.
    pub fn position(&self) -> (r: usize)
        ensures
            r == self@.pos,
    {
        self.pos
    }

    /// The bytes held, whatever the cursor position.
    pub fn bytes(&self) -> (r: &[u8])
        ensures
            r@ == self@.data,
    {
        self.data.as_slice()
    }

    /// Gives up the buffer and returns the bytes it held.
    pub fn into_inner(self) -> (r: Vec<u8>)
        ensures
            r@ == self@.data,
    {
        self.data
    }

    /// Copies bytes from the cursor on into the front of `buf` and advances
    /// the cursor past them. Returns how many were copied: the length of
    /// `buf`, or what remains after the cursor if that is less. Zero means
    /// the end was reached (or `buf` is empty). The rest of `buf` is left as
    /// it was.
    pub fn read(&mut self, buf: &mut [u8]) -> (n: usize)
        ensures
            n == read_len(old(self)@, old(buf)@.len()),
            final(self)@ == after_read(old(self)@, old(buf)@.len()),
            final(buf)@ == read_out(old(self)@, old(buf)@.len()) + old(buf)@.skip(n as int),
    {
        proof {
            use_type_invariant(&*self);
        }
        let avail = self.data.len() - self.pos;
        let n: usize = if buf.len() <= avail { buf.len() } else { avail };
        let ghost b0 = buf@;
        let mut i: usize = 0;
        while i < n
            invariant
                0 <= i <= n,
                n <= buf@.len(),
                buf@.len() == b0.len(),
                self.pos + n <= self.data.len(),
                forall|j: int| 0 <= j < i ==> buf@[j] == self.data@[self.pos + j],
                forall|j: int| i <= j < b0.len() ==> buf@[j] == b0[j],
            decreases n - i,
        {
            buf[i] = self.data[self.pos + i];
            i = i + 1;
        }
        proof {
            assert(buf@ =~= read_out(self@, b0.len()) + b0.skip(n as int));
        }
        self.pos = self.pos + n;
        n
    }

    /// Writes bytes of `buf` at the cursor, overwriting what lies there and
    /// growing the buffer past its end, and advances the cursor past them.
    /// Returns how many were taken: all of `buf`, unless the position would
    /// leave the address range.
    pub fn write(&mut self, buf: &[u8]) -> (n: usize)
        ensures
            n == write_len(old(self)@, buf@.len()),
            final(self)@ == after_write(old(self)@, buf@),
    {
        proof {
            use_type_invariant(&*self);
        }
        let room = usize::MAX - self.pos;
        let n: usize = if buf.len() <= room { buf.len() } else { room };
        let mut taken = MemoryCursor::new();
        core::mem::swap(self, &mut taken);
        let MemoryCursor { mut data, pos: p } = taken;
        let ghost d0 = data@;
        let mut i: usize = 0;
        while i < n
            invariant
                0 <= i <= n,
                n <= buf@.len(),
                p + n <= usize::MAX,
                p <= d0.len(),
                data@.len() == if p + i <= d0.len() { d0.len() } else { (p + i) as nat },
                forall|j: int| 0 <= j < p ==> data@[j] == d0[j],
                forall|j: int| p <= j < p + i ==> data@[j] == buf@[j - p],
                forall|j: int| p + i <= j < d0.len() ==> data@[j] == d0[j],
            decreases n - i,
        {
            if p + i < data.len() {
                data.set(p + i, buf[i]);
            } else {
                data.push(buf[i]);
            }
            i = i + 1;
        }
        proof {
            assert(data@ =~= overlay(d0, p as nat, buf@.take(n as int)));
        }
        *self = MemoryCursor { data, pos: p + n };
        n
    }

    /// Commits buffered bytes. A memory buffer has none in flight, so this
    /// always succeeds and changes nothing.
    pub fn flush(&mut self)
        ensures
            final(self)@ == old(self)@,
    {
    }
}

} // verus!
