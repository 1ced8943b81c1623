use vstd::prelude::*;

verus! {

/// Status of every streaming call.
#[derive(Clone, Copy, Debug, PartialEq, Eq, Structural)]
pub enum DivansResult {
    /// The call finished its work (header parsed, stream flushed).
    ResultSuccess,
    /// All input was taken; call again with more input.
    NeedsMoreInput,
    /// The output is full; call again with more output space.
    NeedsMoreOutput,
    /// Terminal failure: the object must not be used again.
    ResultFailure,
}

/// `dst` with the bytes from `at` on replaced by `src`.
pub open spec fn splice<T>(dst: Seq<T>, at: int, src: Seq<T>) -> Seq<T> {
    dst.subrange(0, at) + src + dst.subrange(at + src.len(), dst.len() as int)
}

/// Status of a call that hands a result to the producer side.
#[derive(Clone, Copy, Debug, PartialEq, Eq, Structural)]
pub enum DivansOutputResult {
    Success,
    NeedsMoreOutput,
    Failure,
}

/// An owned byte buffer together with the part of it that is still unread.
#[derive(Debug, PartialEq, Eq)]
pub struct MemoryRange {
    mem: Vec<u8>,
    start: usize,
    end: usize,
}

impl View for MemoryRange {
    type V = Seq<u8>;

    /// The unread bytes.
    closed spec fn view(&self) -> Seq<u8> {
        self.mem@.subrange(self.start as int, self.end as int)
    }
}

impl MemoryRange {
    #[verifier::type_invariant]
    spec fn inv(&self) -> bool {
        self.start <= self.end <= self.mem.len()
    }

    /// The whole backing buffer, read or not.
    pub closed spec fn backing(&self) -> Seq<u8> {
        self.mem@
    }

    /// Where the unread part starts.
    pub closed spec fn lo(&self) -> nat {
        self.start as nat
    }

    /// Where the unread part ends.
    pub closed spec fn hi(&self) -> nat {
        self.end as nat
    }

    /// A range over the whole of `mem`.
    pub fn new(mem: Vec<u8>) -> (r: Self)
        ensures
            r.backing() == mem@,
            r.lo() == 0,
            r.hi() == mem.len(),
            r@ == mem@,
    {
        let end = mem.len();
        let r = MemoryRange { mem, start: 0, end };
        assert(r@ =~= mem@);
        r
    }

    /// A range over `mem[start..end]`.
    pub fn with_range(mem: Vec<u8>, start: usize, end: usize) -> (r: Self)
        requires
            start <= end <= mem.len(),
        ensures
            r.backing() == mem@,
            r.lo() == start,
            r.hi() == end,
    {
        MemoryRange { mem, start, end }
    }

    /// A range with no backing buffer.
    pub fn empty() -> (r: Self)
        ensures
            r.backing().len() == 0,
            r.lo() == 0,
            r.hi() == 0,
            r@.len() == 0,
    {
        MemoryRange { mem: Vec::new(), start: 0, end: 0 }
    }

    /// The unread bytes.
    pub fn slice(&self) -> (r: &[u8])
        ensures
            r@ == self@,
    {
        proof {
            use_type_invariant(self);
        }
        let s = self.mem.as_slice();
        &s[self.start..self.end]
    }

    /// The number of unread bytes.
    pub fn len(&self) -> (r: usize)
        ensures
            r == self@.len(),
            r == self.hi() - self.lo(),
            self.lo() <= self.hi() <= self.backing().len(),
            self@ == self.backing().subrange(self.lo() as int, self.hi() as int),
    {
        proof {
            use_type_invariant(self);
        }
        self.end - self.start
    }

    /// The size of the backing buffer.
    pub fn backing_len(&self) -> (r: usize)
        ensures
            r == self.backing().len(),
    {
        self.mem.len()
    }

    pub fn start(&self) -> (r: usize)
        ensures
            r == self.lo(),
    {
        self.start
    }

    pub fn end(&self) -> (r: usize)
        ensures
            r == self.hi(),
    {
        self.end
    }

    /// Marks the first `count` unread bytes as read.
    pub fn advance(&mut self, count: usize)
        requires
            count <= old(self)@.len(),
        ensures
            final(self).backing() == old(self).backing(),
            final(self).lo() == old(self).lo() + count,
            final(self).hi() == old(self).hi(),
            final(self)@ == old(self)@.subrange(count as int, old(self)@.len() as int),
    {
        proof {
            use_type_invariant(&*self);
        }
        self.start = self.start + count;
    }

    /// Moves the range out, leaving an empty one in its place.
    pub fn take(&mut self) -> (r: Self)
        ensures
            r == *old(self),
            final(self).backing().len() == 0,
            final(self).lo() == 0,
            final(self).hi() == 0,
            final(self)@.len() == 0,
    {
        let mut r = MemoryRange::empty();
        core::mem::swap(&mut r, self);
        r
    }

    /// Gives the backing buffer back.
    pub fn into_backing(self) -> (r: Vec<u8>)
        ensures
            r@ == self.backing(),
    {
        self.mem
    }
}

/// A run of literal bytes; `len` is its length, which `data` holds once filled.
#[derive(Clone, Debug, PartialEq, Eq)]
pub struct LiteralCommand {
    pub data: Vec<u8>,
    pub len: usize,
}

/// A copy of `num_bytes` bytes from `distance` bytes back.
#[derive(Clone, Copy, Debug, PartialEq, Eq, Structural)]
pub struct CopyCommand {
    pub distance: u32,
    pub num_bytes: u32,
}

/// A reference into the static dictionary.
#[derive(Clone, Copy, Debug, PartialEq, Eq, Structural)]
pub struct DictCommand {
    pub word_size: u8,
    pub transform: u8,
    pub final_size: u8,
    pub word_id: u32,
}

/// A switch to another block type.
#[derive(Clone, Copy, Debug, PartialEq, Eq, Structural)]
pub struct BlockSwitch {
    pub block_type: u8,
}

/// One unit of the structured command stream.
#[derive(Clone, Debug, PartialEq, Eq)]
pub enum Command {
    Literal(LiteralCommand),
    Copy(CopyCommand),
    Dict(DictCommand),
    BlockSwitch(BlockSwitch),
    Nop,
}

/// Context tables sent once per block, beside the raw data.
#[derive(Clone, Debug, PartialEq, Eq)]
pub struct PredictionModeContextMap {
    pub literal_context_map: Vec<u8>,
    pub predmode_speed_and_distance_context_map: Vec<u8>,
}

} // verus!
