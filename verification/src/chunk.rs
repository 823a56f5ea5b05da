//! Buffer chunks: fixed-capacity byte regions that travel whole between the
//! two ends of a connection, either empty or carrying a counted payload.

use vstd::prelude::*;

verus! {

/// What an empty chunk is: an identity and its bytes. The capacity of the
/// chunk is the number of bytes.
pub struct EmptyView {
    pub id: u64,
    pub bytes: Seq<u8>,
}

/// What a full chunk is: an identity, its bytes, and how many of them, from
/// the start, are valid payload.
pub struct FullView {
    pub id: u64,
    pub bytes: Seq<u8>,
    pub used: nat,
}

impl FullView {
    /// The payload never exceeds the capacity.
    pub open spec fn wf(self) -> bool {
        self.used <= self.bytes.len()
    }

    /// The valid bytes of the chunk.
    pub open spec fn payload(self) -> Seq<u8> {
        self.bytes.subrange(0, self.used as int)
    }

    /// The same chunk with the payload count dropped.
    pub open spec fn emptied(self) -> EmptyView {
        EmptyView { id: self.id, bytes: self.bytes }
    }
}

/// A zeroed chunk of `bytes` bytes with identity `id`.
pub open spec fn blank(id: u64, bytes: nat) -> EmptyView {
    EmptyView { id, bytes: Seq::new(bytes, |i: int| 0u8) }
}

impl EmptyView {
    /// The same chunk, with its first `used` bytes declared payload.
    pub open spec fn filled(self, used: nat) -> FullView {
        FullView { id: self.id, bytes: self.bytes, used }
    }
}

/// A chunk without valid payload, ready to be written.
#[derive(Debug)]
pub struct BufferEmpty {
    id: u64,
    buffer: Vec<u8>,
}

/// A chunk whose first `used_bytes` bytes are valid payload.
#[derive(Debug)]
pub struct BufferFull {
    id: u64,
    buffer: Vec<u8>,
    used_bytes: usize,
}

impl View for BufferEmpty {
    type V = EmptyView;

    closed spec fn view(&self) -> EmptyView {
        EmptyView { id: self.id, bytes: self.buffer@ }
    }
}

impl View for BufferFull {
    type V = FullView;

    closed spec fn view(&self) -> FullView {
        FullView { id: self.id, bytes: self.buffer@, used: self.used_bytes as nat }
    }
}

/// `bytemuck::cast_slice` between byte slices. Source and target element agree
/// in size and alignment, so the cast cannot fail and yields a slice of the
/// same length over the same bytes.
#[verifier::external_body]
fn cast_bytes(bytes: &[u8]) -> (out: &[u8])
    ensures
        out@ == bytes@,
{
    bytemuck::cast_slice::<u8, u8>(bytes)
}

impl BufferEmpty {
    /// A zeroed chunk of `capacity` bytes with identity `id`.
    pub fn new(id: u64, capacity: usize) -> (chunk: BufferEmpty)
        ensures
            chunk@ == blank(id, capacity as nat),
    {
        let mut buffer: Vec<u8> = Vec::new();
        let mut n: usize = 0;
        while n < capacity
            invariant
                n <= capacity,
                buffer@ == Seq::new(n as nat, |i: int| 0u8),
            decreases capacity - n,
        {
            buffer.push(0u8);
            n = n + 1;
        }
        BufferEmpty { id, buffer }
    }

    /// A chunk over the given bytes.
    pub fn from_vec(id: u64, buffer: Vec<u8>) -> (chunk: BufferEmpty)
        ensures
            chunk@ == (EmptyView { id, bytes: buffer@ }),
    {
        BufferEmpty { id, buffer }
    }

    /// The identity of the chunk.
    pub fn id(&self) -> (id: u64)
        ensures
            id == self@.id,
    {
        self.id
    }

    /// The capacity of the chunk, in bytes.
    pub fn capacity(&self) -> (n: usize)
        ensures
            n == self@.bytes.len(),
    {
        self.buffer.len()
    }

    /// The bytes of the chunk.
    pub fn as_slice(&self) -> (out: &[u8])
        ensures
            out@ == self@.bytes,
    {
        self.buffer.as_slice()
    }

    /// Gives up the chunk for its bytes.
    pub fn into_vec(self) -> (buffer: Vec<u8>)
        ensures
            buffer@ == self@.bytes,
    {
        self.buffer
    }

    /// Writes `data` into the chunk, starting at byte `start`.
    pub fn write_at(&mut self, start: usize, data: &[u8])
        requires
            start + data@.len() <= old(self)@.bytes.len(),
        ensures
            final(self)@.id == old(self)@.id,
            final(self)@.bytes == overwrite(old(self)@.bytes, start as int, data@),
    {
        let ghost before = self.buffer@;
        let total: usize = self.buffer.len();
        let mut k: usize = 0;
        while k < data.len()
            invariant
                k <= data@.len(),
                start + data@.len() <= before.len(),
                before.len() == total,
                self.id == old(self).id,
                self.buffer@.len() == before.len(),
                forall|i: int|
                    0 <= i < before.len() ==> self.buffer@[i] == (if start <= i < start + k {
                        data@[i - start]
                    } else {
                        before[i]
                    }),
            decreases data@.len() - k,
        {
            self.buffer[start + k] = data[k];
            k = k + 1;
        }
        assert(self.buffer@ =~= overwrite(before, start as int, data@));
    }

    /// Declares the first `used_bytes` bytes payload.
    pub fn into_full(self, used_bytes: usize) -> (full: BufferFull)
        requires
            used_bytes <= self@.bytes.len(),
        ensures
            full@ == self@.filled(used_bytes as nat),
            full@.wf(),
    {
        BufferFull { id: self.id, buffer: self.buffer, used_bytes }
    }

    /// Declares the first `used_bytes` bytes payload. A count beyond the
    /// capacity is refused and the chunk comes back unchanged.
    pub fn fill(self, used_bytes: usize) -> (full: Result<BufferFull, BufferEmpty>)
        ensures
            used_bytes <= self@.bytes.len() ==> full is Ok && full->Ok_0@ == self@.filled(
                used_bytes as nat,
            ) && full->Ok_0@.wf(),
            used_bytes > self@.bytes.len() ==> full is Err && full->Err_0@ == self@,
    {
        if used_bytes <= self.buffer.len() {
            Ok(BufferFull { id: self.id, buffer: self.buffer, used_bytes })
        } else {
            Err(self)
        }
    }
}

/// `bytes` with the stretch that starts at `start` replaced by `data`.
pub open spec fn overwrite(bytes: Seq<u8>, start: int, data: Seq<u8>) -> Seq<u8>
    recommends
        0 <= start,
        start + data.len() <= bytes.len(),
{
    Seq::new(
        bytes.len(),
        |i: int|
            if start <= i < start + data.len() {
                data[i - start]
            } else {
                bytes[i]
            },
    )
}

impl BufferFull {
    #[verifier::type_invariant]
    spec fn payload_within_capacity(self) -> bool {
        self.used_bytes <= self.buffer@.len()
    }

    /// The identity of the chunk.
    pub fn id(&self) -> (id: u64)
        ensures
            id == self@.id,
    {
        self.id
    }

    /// The capacity of the chunk, in bytes.
    pub fn capacity(&self) -> (n: usize)
        ensures
            n == self@.bytes.len(),
    {
        self.buffer.len()
    }

    /// The number of payload bytes, which is never more than the capacity.
    pub fn used_bytes(&self) -> (n: usize)
        ensures
            n == self@.used,
            self@.wf(),
    {
        proof {
            use_type_invariant(self);
        }
        self.used_bytes
    }

    /// The payload: the first `used_bytes` bytes of the chunk.
    pub fn payload(&self) -> (out: &[u8])
        ensures
            out@ == self@.payload(),
            self@.wf(),
    {
        proof {
            use_type_invariant(self);
        }
        let valid = vstd::slice::slice_subrange(self.buffer.as_slice(), 0, self.used_bytes);
        cast_bytes(valid)
    }

    /// Drops the payload count: the chunk is empty again, its bytes untouched.
    pub fn into_empty(self) -> (chunk: BufferEmpty)
        ensures
            chunk@ == self@.emptied(),
    {
        BufferEmpty { id: self.id, buffer: self.buffer }
    }
}

} // verus!
