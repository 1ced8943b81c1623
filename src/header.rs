use vstd::prelude::*;
use crate::interface::DivansResult;

verus! {

/// Length in bytes of the framing header.
pub const HEADER_LENGTH: usize = 16;

/// Smallest window size (log2 of the dictionary size) that is written or accepted.
pub const MIN_WINDOW_SIZE: usize = 10;

/// Largest window size that is written or accepted.
pub const MAX_WINDOW_SIZE: usize = 24;

/// The four magic bytes that open every stream.
pub open spec fn magic() -> Seq<u8> {
    seq![0xffu8, 0xe5u8, 0x8cu8, 0x9fu8]
}

/// The header for a window size: magic, a reserved zero, the window size, ten reserved zeros.
pub open spec fn header_bytes(window_size: u8) -> Seq<u8> {
    magic() + seq![0u8, window_size] + Seq::new(10, |i: int| 0u8)
}

/// What parsing a full header gives: the window size, or a failure on a wrong
/// magic or a window size outside `[MIN_WINDOW_SIZE, MAX_WINDOW_SIZE]`.
pub open spec fn parse_header_spec(h: Seq<u8>) -> Result<usize, DivansResult> {
    if h.subrange(0, 4) == magic() && MIN_WINDOW_SIZE <= h[5] <= MAX_WINDOW_SIZE {
        Ok(h[5] as usize)
    } else {
        Err(DivansResult::ResultFailure)
    }
}

/// The header bytes that one write puts out, from `progress` on, with room for `room` bytes.
pub open spec fn header_chunk(window_size: u8, progress: nat, room: nat) -> Seq<u8> {
    let end = if progress + room < HEADER_LENGTH { progress + room } else { HEADER_LENGTH as nat };
    header_bytes(window_size).subrange(progress as int, end as int)
}

/// The sum of the rooms.
pub open spec fn total_room(rooms: Seq<nat>) -> nat
    decreases rooms.len(),
{
    if rooms.len() == 0 {
        0
    } else {
        rooms[0] + total_room(rooms.drop_first())
    }
}

/// The header bytes that successive writes put out, from `progress` on, with room
/// for `rooms[0]` bytes in the first, `rooms[1]` in the second, and so on.
pub open spec fn header_chunks(window_size: u8, progress: nat, rooms: Seq<nat>) -> Seq<u8>
    decreases rooms.len(),
{
    if rooms.len() == 0 {
        Seq::empty()
    } else {
        let first = header_chunk(window_size, progress, rooms[0]);
        first + header_chunks(window_size, progress + first.len(), rooms.drop_first())
    }
}

/// Writing the header in pieces puts out the same bytes as one write with all the
/// room at once, whatever the pieces.
pub proof fn lemma_header_chunks(window_size: u8, progress: nat, rooms: Seq<nat>)
    requires
        progress <= HEADER_LENGTH,
    ensures
        header_chunks(window_size, progress, rooms) == header_chunk(
            window_size,
            progress,
            total_room(rooms),
        ),
    decreases rooms.len(),
{
    if rooms.len() == 0 {
        assert(header_chunk(window_size, progress, 0) =~= Seq::empty());
    } else {
        let first = header_chunk(window_size, progress, rooms[0]);
        lemma_header_chunks(window_size, progress + first.len(), rooms.drop_first());
        assert(first + header_chunks(window_size, progress + first.len(), rooms.drop_first())
            =~= header_chunk(window_size, progress, total_room(rooms)));
    }
}

/// Resuming a header write: `k` bytes of room and then `rest` more put out the same
/// bytes as `k + rest` at once.
pub proof fn lemma_header_resumable(window_size: u8, k: nat, rest: nat)
    ensures
        header_chunk(window_size, 0, k) + header_chunk(
            window_size,
            header_chunk(window_size, 0, k).len(),
            rest,
        ) == header_chunk(window_size, 0, k + rest),
{
    let rooms = seq![k, rest];
    let first = header_chunk(window_size, 0, k);
    let second = header_chunk(window_size, first.len(), rest);
    let tail = seq![rest];
    assert(rooms.drop_first() =~= tail);
    assert(tail.drop_first() =~= Seq::<nat>::empty());
    assert(total_room(tail.drop_first()) == 0);
    assert(total_room(tail) == rest);
    assert(total_room(rooms) == k + rest);
    assert(header_chunks(window_size, first.len() + second.len(), tail.drop_first()) == Seq::<
        u8,
    >::empty());
    assert(header_chunks(window_size, first.len(), tail) =~= second);
    assert(header_chunks(window_size, 0, rooms) == first + second);
    lemma_header_chunks(window_size, 0, rooms);
}

/// A header written in pieces with room for at least all of it parses back to the
/// window size it was written with, for every window size the compressor writes.
pub proof fn lemma_header_round_trip(window_size: u8, rooms: Seq<nat>)
    requires
        MIN_WINDOW_SIZE <= window_size <= MAX_WINDOW_SIZE,
        total_room(rooms) >= HEADER_LENGTH,
    ensures
        header_chunks(window_size, 0, rooms) == header_bytes(window_size),
        parse_header_spec(header_chunks(window_size, 0, rooms)) == Ok::<usize, DivansResult>(
            window_size as usize,
        ),
{
    lemma_header_chunks(window_size, 0, rooms);
    assert(header_chunk(window_size, 0, total_room(rooms)) =~= header_bytes(window_size));
    assert(header_bytes(window_size).subrange(0, 4) =~= magic());
}

/// The header bytes held after reading `bytes` with `collected` held before: as many
/// as still fit.
pub open spec fn absorb(collected: Seq<u8>, bytes: Seq<u8>) -> Seq<u8> {
    let room = HEADER_LENGTH - collected.len();
    if bytes.len() <= room {
        collected + bytes
    } else {
        collected + bytes.subrange(0, room)
    }
}

/// Reading the header is independent of how the input is cut: reading `a` and then
/// `b` leaves the same bytes as reading `a + b` at once, so a stream fed in pieces,
/// down to one byte per call, reaches the same header as the whole stream.
pub proof fn lemma_absorb_split(collected: Seq<u8>, a: Seq<u8>, b: Seq<u8>)
    requires
        collected.len() <= HEADER_LENGTH,
    ensures
        absorb(absorb(collected, a), b) == absorb(collected, a + b),
        absorb(collected, a).len() <= HEADER_LENGTH,
{
    let room = HEADER_LENGTH - collected.len();
    if a.len() <= room {
        if b.len() <= room - a.len() {
            assert(collected + a + b =~= collected + (a + b));
        } else {
            assert(collected + a + b.subrange(0, room - a.len()) =~= collected + (a + b).subrange(
                0,
                room,
            ));
        }
    } else {
        assert((a + b).subrange(0, room) =~= a.subrange(0, room));
        assert(collected + a.subrange(0, room) + b.subrange(0, 0) =~= collected + a.subrange(
            0,
            room,
        ));
    }
}

/// A header with any magic byte changed, or with a window size below
/// `MIN_WINDOW_SIZE` or above `MAX_WINDOW_SIZE`, fails to parse.
pub proof fn lemma_header_rejection(h: Seq<u8>)
    requires
        h.len() == HEADER_LENGTH,
        exists|i: int| 0 <= i < 4 && h[i] != #[trigger] magic()[i] || h[5] < MIN_WINDOW_SIZE || h[5]
            > MAX_WINDOW_SIZE,
    ensures
        parse_header_spec(h) == Err::<usize, DivansResult>(DivansResult::ResultFailure),
{
    if h.subrange(0, 4) == magic() && MIN_WINDOW_SIZE <= h[5] <= MAX_WINDOW_SIZE {
        let i = choose|i: int| 0 <= i < 4 && h[i] != #[trigger] magic()[i] || h[5] < MIN_WINDOW_SIZE
            || h[5] > MAX_WINDOW_SIZE;
        assert(h.subrange(0, 4)[i] == h[i]);
    }
}

/// Builds the full header for `window_size`.
pub fn make_header(window_size: u8) -> (r: [u8; HEADER_LENGTH])
    ensures
        r@ == header_bytes(window_size),
{
    let r: [u8; HEADER_LENGTH] = [0xff, 0xe5, 0x8c, 0x9f, 0, window_size, 0, 0, 0, 0, 0, 0, 0, 0, 0, 0];
    assert(r@ =~= header_bytes(window_size));
    r
}

/// A header read in pieces across decode calls, with the resources that the
/// decoder will be built from once the header is complete.
pub struct HeaderParser<R> {
    pub header: [u8; HEADER_LENGTH],
    pub read_offset: usize,
    pub resources: Option<R>,
}

impl<R> HeaderParser<R> {
    /// An empty header buffer holding `resources`.
    pub fn new(resources: R) -> (r: Self)
        ensures
            r.read_offset == 0,
            r.resources == Some(resources),
    {
        HeaderParser { header: [0u8; HEADER_LENGTH], read_offset: 0, resources: Some(resources) }
    }

    /// The bytes collected so far.
    pub open spec fn collected(&self) -> Seq<u8> {
        self.header@.subrange(0, self.read_offset as int)
    }

    /// Copies input bytes from `*input_offset` on into the header until it is full
    /// or the input ends.
    pub fn read_from(&mut self, input: &[u8], input_offset: &mut usize)
        requires
            old(self).read_offset <= HEADER_LENGTH,
            *old(input_offset) <= input@.len(),
        ensures
            final(self).read_offset <= HEADER_LENGTH,
            final(self).resources == old(self).resources,
            final(self).collected() == absorb(
                old(self).collected(),
                input@.subrange(*old(input_offset) as int, input@.len() as int),
            ),
            *final(input_offset) == *old(input_offset) + (final(self).read_offset
                - old(self).read_offset),
            final(self).read_offset < HEADER_LENGTH ==> *final(input_offset) == input@.len(),
    {
        let start = *input_offset;
        let remaining = input.len() - start;
        let left = HEADER_LENGTH - self.read_offset;
        let n = if remaining < left {
            remaining
        } else {
            left
        };
        let ghost rest = input@.subrange(start as int, input@.len() as int);
        let ghost target = absorb(self.collected(), rest);
        let ghost first = self.read_offset;
        assert(target =~= self.collected() + input@.subrange(start as int, start + n));
        let mut i: usize = 0;
        while i < n
            invariant
                i <= n,
                start + n <= input@.len(),
                start + n <= usize::MAX,
                first + n <= HEADER_LENGTH,
                self.read_offset == first + i,
                self.resources == old(self).resources,
                self.collected() == old(self).collected() + input@.subrange(
                    start as int,
                    start + i,
                ),
            decreases n - i,
        {
            let ghost before = self.header@;
            let b = input[start + i];
            self.header[self.read_offset] = b;
            self.read_offset = self.read_offset + 1;
            i = i + 1;
            assert(self.collected() =~= old(self).collected() + input@.subrange(
                start as int,
                start + i,
            )) by {
                assert(before.subrange(0, first + i - 1) =~= self.header@.subrange(0, first + i - 1));
            }
        }
        *input_offset = start + n;
    }

    /// Checks the magic and reads the window size of the full header.
    pub fn parse_header(&self) -> (r: Result<usize, DivansResult>)
        ensures
            r == parse_header_spec(self.header@),
    {
        if self.header[0] != 0xff || self.header[1] != 0xe5 || self.header[2] != 0x8c
            || self.header[3] != 0x9f {
            assert(self.header@.subrange(0, 4) != magic()) by {
                if self.header@.subrange(0, 4) == magic() {
                    assert(self.header@.subrange(0, 4)[0] == magic()[0]);
                    assert(self.header@.subrange(0, 4)[1] == magic()[1]);
                    assert(self.header@.subrange(0, 4)[2] == magic()[2]);
                    assert(self.header@.subrange(0, 4)[3] == magic()[3]);
                }
            }
            return Err(DivansResult::ResultFailure);
        }
        assert(self.header@.subrange(0, 4) =~= magic());
        let window_size = self.header[5] as usize;
        if window_size < MIN_WINDOW_SIZE || window_size > MAX_WINDOW_SIZE {
            return Err(DivansResult::ResultFailure);
        }
        Ok(window_size)
    }
}

} // verus!
