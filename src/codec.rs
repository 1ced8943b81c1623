use vstd::prelude::*;
use crate::interface::{Command, DivansResult};

verus! {

/// The most commands one assembly step produces before coding must run.
pub const CMD_BUFFER_SIZE: usize = 16;

/// A log of commands, as the collaborators' contracts speak of it.
pub type CommandLog = Seq<Command>;

/// A log of bytes, as the collaborators' contracts speak of it.
pub type ByteLog = Seq<u8>;

/// Whether `out` differs from `old_out` only at `from` and after.
pub open spec fn keeps_prefix(old_out: Seq<u8>, out: Seq<u8>, from: int) -> bool {
    &&& out.len() == old_out.len()
    &&& out.subrange(0, from) == old_out.subrange(0, from)
}

/// Turns raw bytes into commands, keeping the recent bytes in a ring buffer.
pub trait CommandAssembler: Sized {
    /// Every command produced so far, in order.
    spec fn produced(&self) -> Seq<Command>;

    /// The status of the last call.
    spec fn last_status(&self) -> DivansResult;

    /// An assembler that keeps its window of past bytes in `ring_buffer`.
    fn new(ring_buffer: Vec<u8>) -> (r: Self)
        ensures
            r.produced() == Seq::<Command>::empty(),
    ;

    /// Reads `input` from `*input_offset` on and appends commands to `commands`,
    /// which it fills to at most `CMD_BUFFER_SIZE`. It stops before the end of
    /// `input` only when `commands` is full (asking for more output) or it fails.
    fn stream(&mut self, input: &[u8], input_offset: &mut usize, commands: &mut Vec<Command>) -> (r:
        DivansResult)
        requires
            *old(input_offset) <= input@.len(),
            old(commands)@.len() <= CMD_BUFFER_SIZE,
        ensures
            *old(input_offset) <= *final(input_offset) <= input@.len(),
            old(commands)@.len() <= final(commands)@.len() <= CMD_BUFFER_SIZE,
            final(commands)@.subrange(0, old(commands)@.len() as int) == old(commands)@,
            final(self).last_status() == r,
            final(self).produced() == old(self).produced() + final(commands)@.subrange(
                old(commands)@.len() as int,
                final(commands)@.len() as int,
            ),
            r == DivansResult::NeedsMoreOutput ==> final(commands)@.len() == CMD_BUFFER_SIZE,
            r != DivansResult::NeedsMoreOutput && r != DivansResult::ResultFailure
                ==> *final(input_offset) == input@.len(),
    ;
}

/// Entropy-codes commands into bytes.
pub trait CommandEncoder: Sized {
    /// Every command taken so far, in order.
    spec fn taken(&self) -> Seq<Command>;

    /// The status of the last call.
    spec fn last_status(&self) -> DivansResult;

    /// A coder for a window of `2^window_size` bytes.
    fn new(window_size: usize) -> (r: Self)
        requires
            10 <= window_size <= 24,
        ensures
            r.taken() == Seq::<Command>::empty(),
    ;

    /// Codes `input` from `*input_offset` on into `output` from `*output_offset` on.
    /// It stops before the last command only when `output` is full or it fails.
    fn encode_commands(
        &mut self,
        input: &[Command],
        input_offset: &mut usize,
        output: &mut [u8],
        output_offset: &mut usize,
    ) -> (r: DivansResult)
        requires
            *old(input_offset) <= input@.len(),
            *old(output_offset) <= old(output)@.len(),
        ensures
            *old(input_offset) <= *final(input_offset) <= input@.len(),
            *old(output_offset) <= *final(output_offset) <= final(output)@.len(),
            keeps_prefix(old(output)@, final(output)@, *old(output_offset) as int),
            final(self).last_status() == r,
            final(self).taken() == old(self).taken() + input@.subrange(
                *old(input_offset) as int,
                *final(input_offset) as int,
            ),
            r == DivansResult::NeedsMoreOutput ==> *final(output_offset) == final(output)@.len(),
            r != DivansResult::NeedsMoreOutput && r != DivansResult::ResultFailure
                ==> *final(input_offset) == input@.len(),
    ;

    /// Ends the coded stream, writing what is left into `output` from `*output_offset` on.
    fn flush(&mut self, output: &mut [u8], output_offset: &mut usize) -> (r: DivansResult)
        requires
            *old(output_offset) <= old(output)@.len(),
        ensures
            final(self).last_status() == r,
            final(self).taken() == old(self).taken(),
            *old(output_offset) <= *final(output_offset) <= final(output)@.len(),
            keeps_prefix(old(output)@, final(output)@, *old(output_offset) as int),
    ;
}

/// Decodes an entropy-coded stream into bytes.
pub trait StreamDecoder: Sized {
    /// What the decoder is built from and gives back when freed.
    type Resources;

    /// The window size the decoder was built for.
    spec fn window(&self) -> usize;

    /// The resources the decoder was built from.
    spec fn held(&self) -> Self::Resources;

    /// Every input byte taken so far, in order.
    spec fn fed(&self) -> Seq<u8>;

    /// The status of the last call.
    spec fn last_status(&self) -> DivansResult;

    /// A decoder for a window of `2^window_size` bytes, built from `resources`.
    fn new(resources: Self::Resources, window_size: usize) -> (r: Self)
        requires
            10 <= window_size <= 24,
        ensures
            r.window() == window_size,
            r.held() == resources,
            r.fed() == Seq::<u8>::empty(),
    ;

    /// Decodes `input` from `*input_offset` on into `output` from `*output_offset` on.
    fn decode_bytes(
        &mut self,
        input: &[u8],
        input_offset: &mut usize,
        output: &mut [u8],
        output_offset: &mut usize,
    ) -> (r: DivansResult)
        requires
            *old(input_offset) <= input@.len(),
            *old(output_offset) <= old(output)@.len(),
        ensures
            final(self).last_status() == r,
            final(self).window() == old(self).window(),
            final(self).held() == old(self).held(),
            final(self).fed() == old(self).fed() + input@.subrange(
                *old(input_offset) as int,
                *final(input_offset) as int,
            ),
            *old(input_offset) <= *final(input_offset) <= input@.len(),
            *old(output_offset) <= *final(output_offset) <= final(output)@.len(),
            keeps_prefix(old(output)@, final(output)@, *old(output_offset) as int),
    ;

    /// Reports, for diagnostics, how many bytes were decoded.
    fn debug_print(&self, bytes_decoded: usize);

    /// Gives the resources back.
    fn free(self) -> (r: Self::Resources)
        ensures
            r == self.held(),
    ;
}

} // verus!
