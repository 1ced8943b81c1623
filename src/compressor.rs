use vstd::prelude::*;
use core::marker::PhantomData;
use crate::codec::{keeps_prefix, CommandAssembler, CommandEncoder, CMD_BUFFER_SIZE};
use crate::header::{
    header_bytes, header_chunk, make_header, HEADER_LENGTH, MAX_WINDOW_SIZE, MIN_WINDOW_SIZE,
};
use crate::interface::{splice, Command, DivansResult};

verus! {

/// A requested window size brought into `[MIN_WINDOW_SIZE, MAX_WINDOW_SIZE]`.
pub open spec fn clamp_window(window_size: int) -> int {
    if window_size < MIN_WINDOW_SIZE {
        MIN_WINDOW_SIZE as int
    } else if window_size > MAX_WINDOW_SIZE {
        MAX_WINDOW_SIZE as int
    } else {
        window_size
    }
}

/// Keeping a prefix of an output composes across calls.
proof fn lemma_keeps_prefix_trans(a: Seq<u8>, b: Seq<u8>, c: Seq<u8>, i: int, j: int)
    requires
        0 <= i <= j <= a.len(),
        keeps_prefix(a, b, i),
        keeps_prefix(b, c, j),
    ensures
        keeps_prefix(a, c, i),
{
    assert(c.subrange(0, i) =~= c.subrange(0, j).subrange(0, i));
    assert(b.subrange(0, i) =~= b.subrange(0, j).subrange(0, i));
}

/// What `encode` does after one pass of assembling and coding, given the assembler's
/// status, the coder's status, whether every assembled command was coded and whether
/// the pass read input: `None` to run another pass, or the status to return.
pub open spec fn pass_outcome_spec(
    assembler: DivansResult,
    coder: DivansResult,
    all_coded: bool,
    input_advanced: bool,
) -> Option<DivansResult> {
    if assembler == DivansResult::ResultFailure || coder == DivansResult::ResultFailure {
        Some(DivansResult::ResultFailure)
    } else if !all_coded {
        Some(DivansResult::NeedsMoreOutput)
    } else if assembler != DivansResult::NeedsMoreOutput {
        Some(DivansResult::NeedsMoreInput)
    } else if !input_advanced {
        Some(DivansResult::NeedsMoreOutput)
    } else {
        None
    }
}

/// Decides the outcome of one pass of `encode`: a failure of either collaborator is
/// passed on; commands left uncoded ask for more output; an assembler that read all
/// its input asks for more input; a full command buffer that read no input hands
/// control back; otherwise the next pass runs.
pub fn pass_outcome(
    assembler: DivansResult,
    coder: DivansResult,
    all_coded: bool,
    input_advanced: bool,
) -> (r: Option<DivansResult>)
    ensures
        r == pass_outcome_spec(assembler, coder, all_coded, input_advanced),
{
    match (assembler, coder) {
        (DivansResult::ResultFailure, _) | (_, DivansResult::ResultFailure) => {
            Some(DivansResult::ResultFailure)
        },
        (DivansResult::NeedsMoreOutput, _) => {
            if !all_coded || !input_advanced {
                Some(DivansResult::NeedsMoreOutput)
            } else {
                None
            }
        },
        _ => {
            if !all_coded {
                Some(DivansResult::NeedsMoreOutput)
            } else {
                Some(DivansResult::NeedsMoreInput)
            }
        },
    }
}

/// `s` begins with `p`.
pub open spec fn extends<T>(s: Seq<T>, p: Seq<T>) -> bool {
    p.len() <= s.len() && s.subrange(0, p.len() as int) == p
}

/// What `s` holds beyond its first `n` items.
pub open spec fn beyond<T>(s: Seq<T>, n: nat) -> Seq<T> {
    s.subrange(n as int, s.len() as int)
}

/// Whether `out` holds, from `start` on, the header bytes that a write from
/// `progress` puts out, and before `start` what `old_out` held.
pub open spec fn header_written(
    old_out: Seq<u8>,
    out: Seq<u8>,
    start: int,
    window_size: u8,
    progress: nat,
) -> bool {
    let chunk = header_chunk(window_size, progress, (old_out.len() - start) as nat);
    out.subrange(0, start + chunk.len()) == old_out.subrange(0, start) + chunk
}

proof fn lemma_header_kept(
    old_out: Seq<u8>,
    mid: Seq<u8>,
    out: Seq<u8>,
    start: int,
    window_size: u8,
    progress: nat,
)
    requires
        0 <= start <= old_out.len(),
        progress <= HEADER_LENGTH,
        mid == splice(
            old_out,
            start,
            header_chunk(window_size, progress, (old_out.len() - start) as nat),
        ),
        keeps_prefix(
            mid,
            out,
            start + header_chunk(window_size, progress, (old_out.len() - start) as nat).len(),
        ),
    ensures
        header_written(old_out, out, start, window_size, progress),
        keeps_prefix(old_out, out, start),
{
    let chunk = header_chunk(window_size, progress, (old_out.len() - start) as nat);
    let end = start + chunk.len();
    assert(mid.subrange(0, end) =~= old_out.subrange(0, start) + chunk);
    assert(out.subrange(0, start) =~= out.subrange(0, end).subrange(0, start));
    assert(mid.subrange(0, start) =~= mid.subrange(0, end).subrange(0, start));
    assert(old_out.subrange(0, start) =~= mid.subrange(0, start));
}

/// Frames a header, assembles raw bytes into commands and entropy-codes them,
/// over as many calls as the caller's buffers require. Commands assembled but not
/// yet coded are kept, in order, and coded first by the next call.
pub struct DivansCompressor<A, C> {
    codec: C,
    header_progress: usize,
    window_size: u8,
    cmd_assembler: A,
    cmd_array: Vec<Command>,
    cmd_offset: usize,
}

impl<A: CommandAssembler, C: CommandEncoder> DivansCompressor<A, C> {
    /// How many header bytes were written.
    pub closed spec fn progress(&self) -> nat {
        self.header_progress as nat
    }

    /// The window size written into the header.
    pub closed spec fn window(&self) -> u8 {
        self.window_size
    }

    /// Commands assembled but not yet handed to the coder, in order.
    pub closed spec fn pending(&self) -> Seq<Command> {
        self.cmd_array@.subrange(self.cmd_offset as int, self.cmd_array@.len() as int)
    }

    /// Every command the assembler has produced, in order.
    pub closed spec fn assembled(&self) -> Seq<Command> {
        self.cmd_assembler.produced()
    }

    /// Every command the coder has taken, in order.
    pub closed spec fn coded(&self) -> Seq<Command> {
        self.codec.taken()
    }

    /// The status of the assembler's last call.
    pub closed spec fn assembler_status(&self) -> DivansResult {
        self.cmd_assembler.last_status()
    }

    /// The status of the coder's last call.
    pub closed spec fn coder_status(&self) -> DivansResult {
        self.codec.last_status()
    }

    pub closed spec fn wf(&self) -> bool {
        &&& self.header_progress <= HEADER_LENGTH
        &&& MIN_WINDOW_SIZE <= self.window_size <= MAX_WINDOW_SIZE
        &&& self.cmd_offset <= self.cmd_array@.len() <= CMD_BUFFER_SIZE
    }

    /// What a well-formed compressor holds to: a header in progress, a window size in
    /// range and at most one buffer of pending commands.
    pub proof fn lemma_wf(&self)
        requires
            self.wf(),
        ensures
            self.progress() <= HEADER_LENGTH,
            MIN_WINDOW_SIZE <= self.window() <= MAX_WINDOW_SIZE,
            self.pending().len() <= CMD_BUFFER_SIZE,
    {
    }

    /// Writes as much of the header as fits, resuming where the last call stopped.
    pub fn write_header(&mut self, output: &mut [u8], output_offset: &mut usize) -> (r:
        DivansResult)
        requires
            old(self).wf(),
            *old(output_offset) <= old(output)@.len(),
        ensures
            ({
                let chunk = header_chunk(
                    old(self).window(),
                    old(self).progress(),
                    (old(output)@.len() - *old(output_offset)) as nat,
                );
                &&& final(output)@ == splice(old(output)@, *old(output_offset) as int, chunk)
                &&& *final(output_offset) == *old(output_offset) + chunk.len()
                &&& final(self).progress() == old(self).progress() + chunk.len()
            }),
            final(self).wf(),
            final(self).window() == old(self).window(),
            final(self).pending() == old(self).pending(),
            final(self).assembled() == old(self).assembled(),
            final(self).coded() == old(self).coded(),
            r == (if final(self).progress() == HEADER_LENGTH {
                DivansResult::ResultSuccess
            } else {
                DivansResult::NeedsMoreOutput
            }),
    {
        let header = make_header(self.window_size);
        let start = *output_offset;
        let progress = self.header_progress;
        let avail = output.len() - start;
        let left = HEADER_LENGTH - progress;
        let n = if avail < left {
            avail
        } else {
            left
        };
        let ghost chunk = header_chunk(self.window_size, progress as nat, avail as nat);
        assert(chunk =~= header@.subrange(progress as int, progress + n));
        let mut i: usize = 0;
        while i < n
            invariant
                i <= n,
                output@.len() == old(output)@.len(),
                start + n <= output@.len(),
                start + n <= usize::MAX,
                progress + n <= HEADER_LENGTH,
                header@ == header_bytes(self.window_size),
                output@ == splice(
                    old(output)@,
                    start as int,
                    header@.subrange(progress as int, progress + i),
                ),
            decreases n - i,
        {
            output[start + i] = header[progress + i];
            i = i + 1;
            assert(output@ =~= splice(
                old(output)@,
                start as int,
                header@.subrange(progress as int, progress + i),
            ));
        }
        *output_offset = start + n;
        self.header_progress = progress + n;
        if self.header_progress == HEADER_LENGTH {
            DivansResult::ResultSuccess
        } else {
            DivansResult::NeedsMoreOutput
        }
    }

    /// Keeps `commands[first_unsent..]` after the pending commands, to be coded by a
    /// later call.
    pub fn freeze_dry(&mut self, commands: Vec<Command>, first_unsent: usize)
        requires
            old(self).wf(),
            first_unsent <= commands@.len(),
            old(self).pending().len() + (commands@.len() - first_unsent) <= CMD_BUFFER_SIZE,
        ensures
            final(self).wf(),
            final(self).pending() == old(self).pending() + commands@.subrange(
                first_unsent as int,
                commands@.len() as int,
            ),
            final(self).assembled() == old(self).assembled(),
            final(self).coded() == old(self).coded(),
            final(self).assembler_status() == old(self).assembler_status(),
            final(self).coder_status() == old(self).coder_status(),
            final(self).progress() == old(self).progress(),
            final(self).window() == old(self).window(),
    {
        let ghost given = commands@;
        let mut commands = commands;
        let mut kept = self.cmd_array.split_off(self.cmd_offset);
        let mut unsent = commands.split_off(first_unsent);
        kept.append(&mut unsent);
        self.cmd_array = kept;
        self.cmd_offset = 0;
        assert(self.pending() =~= old(self).pending() + given.subrange(
            first_unsent as int,
            given.len() as int,
        ));
    }

    /// Hands the pending commands to the coder.
    fn encode_pending(&mut self, output: &mut [u8], output_offset: &mut usize) -> (r: DivansResult)
        requires
            old(self).wf(),
            *old(output_offset) <= old(output)@.len(),
        ensures
            final(self).wf(),
            final(self).progress() == old(self).progress(),
            final(self).window() == old(self).window(),
            final(self).assembled() == old(self).assembled(),
            extends(final(self).coded(), old(self).coded()),
            old(self).pending() == beyond(final(self).coded(), old(self).coded().len())
                + final(self).pending(),
            *old(output_offset) <= *final(output_offset) <= final(output)@.len(),
            keeps_prefix(old(output)@, final(output)@, *old(output_offset) as int),
            final(self).pending().len() > 0 ==> r == DivansResult::ResultFailure || (r
                == DivansResult::NeedsMoreOutput && *final(output_offset) == final(output)@.len()),
            r == final(self).coder_status(),
    {
        let ghost before = self.cmd_offset;
        let r = self.codec.encode_commands(
            self.cmd_array.as_slice(),
            &mut self.cmd_offset,
            output,
            output_offset,
        );
        let ghost sent = self.cmd_array@.subrange(before as int, self.cmd_offset as int);
        assert(old(self).pending() =~= sent + self.pending());
        assert(self.coded().subrange(0, old(self).coded().len() as int) =~= old(self).coded());
        assert(beyond(self.coded(), old(self).coded().len()) =~= sent);
        r
    }

    fn encode_assembled(
        &mut self,
        input: &[u8],
        input_offset: &mut usize,
        output: &mut [u8],
        output_offset: &mut usize,
    ) -> (r: DivansResult)
        requires
            old(self).wf(),
            old(self).progress() == HEADER_LENGTH,
            *old(input_offset) <= input@.len(),
            *old(output_offset) <= old(output)@.len(),
        ensures
            final(self).wf(),
            final(self).progress() == old(self).progress(),
            final(self).window() == old(self).window(),
            *old(input_offset) <= *final(input_offset) <= input@.len(),
            *old(output_offset) <= *final(output_offset) <= final(output)@.len(),
            keeps_prefix(old(output)@, final(output)@, *old(output_offset) as int),
            extends(final(self).assembled(), old(self).assembled()),
            extends(final(self).coded(), old(self).coded()),
            old(self).pending() + beyond(final(self).assembled(), old(self).assembled().len())
                == beyond(final(self).coded(), old(self).coded().len()) + final(self).pending(),
            r == DivansResult::NeedsMoreInput || r == DivansResult::NeedsMoreOutput || r
                == DivansResult::ResultFailure,
            r == DivansResult::ResultFailure ==> final(self).assembler_status()
                == DivansResult::ResultFailure || final(self).coder_status()
                == DivansResult::ResultFailure,
            r == DivansResult::NeedsMoreInput ==> *final(input_offset) == input@.len()
                && final(self).pending().len() == 0,
            r == DivansResult::NeedsMoreOutput ==> *final(output_offset) == final(output)@.len()
                || (final(self).pending().len() == 0 && final(self).assembled().len() >= old(
                self,
            ).assembled().len() + CMD_BUFFER_SIZE),
    {
        let ghost asm0 = self.assembled();
        let ghost cod0 = self.coded();
        assert(beyond(asm0, asm0.len()) =~= Seq::<Command>::empty());
        assert(asm0.subrange(0, asm0.len() as int) =~= asm0);
        assert(cod0.subrange(0, cod0.len() as int) =~= cod0);
        if self.cmd_offset < self.cmd_array.len() {
            let res = self.encode_pending(output, output_offset);
            assert(old(self).pending() + beyond(self.assembled(), asm0.len()) =~= beyond(
                self.coded(),
                cod0.len(),
            ) + self.pending());
            if self.cmd_offset < self.cmd_array.len() {
                if let DivansResult::ResultFailure = res {
                    return DivansResult::ResultFailure;
                }
                return DivansResult::NeedsMoreOutput;
            }
            if let DivansResult::ResultFailure = res {
                return DivansResult::ResultFailure;
            }
        }
        assert(old(self).pending() + beyond(self.assembled(), asm0.len()) =~= beyond(
            self.coded(),
            cod0.len(),
        ) + self.pending());
        loop
            invariant
                self.wf(),
                self.progress() == HEADER_LENGTH,
                old(self).progress() == HEADER_LENGTH,
                self.window() == old(self).window(),
                self.pending().len() == 0,
                asm0 == old(self).assembled(),
                cod0 == old(self).coded(),
                *old(input_offset) <= *input_offset <= input@.len(),
                *old(output_offset) <= *output_offset <= output@.len(),
                keeps_prefix(old(output)@, output@, *old(output_offset) as int),
                extends(self.assembled(), asm0),
                extends(self.coded(), cod0),
                old(self).pending() + beyond(self.assembled(), asm0.len()) == beyond(
                    self.coded(),
                    cod0.len(),
                ) + self.pending(),
            decreases input@.len() - *input_offset,
        {
            let before = *input_offset;
            let ghost asm1 = self.assembled();
            let ghost cod1 = self.coded();
            let mut temp: Vec<Command> = Vec::new();
            let ret = self.cmd_assembler.stream(input, input_offset, &mut temp);
            assert(temp@.subrange(0, 0) =~= Seq::<Command>::empty());
            assert(self.assembled() == asm1 + temp@) by {
                assert(temp@.subrange(0, temp@.len() as int) =~= temp@);
            }
            let mut done: usize = 0;
            let mut coded_ret = DivansResult::NeedsMoreInput;
            if temp.len() > 0 {
                let ghost out_before = output@;
                let ghost offset_before = *output_offset;
                coded_ret = self.codec.encode_commands(temp.as_slice(), &mut done, output, output_offset);
                proof {
                    lemma_keeps_prefix_trans(
                        old(output)@,
                        out_before,
                        output@,
                        *old(output_offset) as int,
                        offset_before as int,
                    );
                }
            }
            assert(self.coded() =~= cod1 + temp@.subrange(0, done as int));
            let all_coded = done == temp.len();
            if !all_coded {
                self.freeze_dry(temp, done);
            }
            assert(self.pending() =~= temp@.subrange(done as int, temp@.len() as int));
            assert(beyond(self.assembled(), asm0.len()) =~= beyond(asm1, asm0.len()) + temp@);
            assert(beyond(self.coded(), cod0.len()) =~= beyond(cod1, cod0.len()) + temp@.subrange(
                0,
                done as int,
            ));
            assert(temp@ =~= temp@.subrange(0, done as int) + temp@.subrange(
                done as int,
                temp@.len() as int,
            ));
            assert(old(self).pending() + beyond(self.assembled(), asm0.len()) =~= beyond(
                self.coded(),
                cod0.len(),
            ) + self.pending());
            assert(self.assembled().subrange(0, asm0.len() as int) =~= asm1.subrange(0, asm0.len() as int));
            assert(self.coded().subrange(0, cod0.len() as int) =~= cod1.subrange(0, cod0.len() as int));
            assert(ret == self.assembler_status());
            assert(coded_ret == DivansResult::ResultFailure ==> self.coder_status()
                == DivansResult::ResultFailure);
            if let Some(outcome) = pass_outcome(ret, coded_ret, all_coded, *input_offset != before) {
                return outcome;
            }
        }
    }

    /// Compresses `input` from `*input_offset` on into `output` from `*output_offset` on:
    /// it finishes the header, codes the commands kept from earlier calls, and then
    /// assembles commands from the input and codes them, pass by pass, until
    /// `pass_outcome` gives the status. Commands the coder had no room for are kept,
    /// in order, for the next call.
    pub fn encode(
        &mut self,
        input: &[u8],
        input_offset: &mut usize,
        output: &mut [u8],
        output_offset: &mut usize,
    ) -> (r: DivansResult)
        requires
            old(self).wf(),
            *old(input_offset) <= input@.len(),
            *old(output_offset) <= old(output)@.len(),
        ensures
            final(self).wf(),
            final(self).window() == old(self).window(),
            *old(input_offset) <= *final(input_offset) <= input@.len(),
            *old(output_offset) + header_chunk(
                old(self).window(),
                old(self).progress(),
                (old(output)@.len() - *old(output_offset)) as nat,
            ).len() <= *final(output_offset) <= final(output)@.len(),
            keeps_prefix(old(output)@, final(output)@, *old(output_offset) as int),
            header_written(
                old(output)@,
                final(output)@,
                *old(output_offset) as int,
                old(self).window(),
                old(self).progress(),
            ),
            final(self).progress() == old(self).progress() + header_chunk(
                old(self).window(),
                old(self).progress(),
                (old(output)@.len() - *old(output_offset)) as nat,
            ).len(),
            final(self).progress() < HEADER_LENGTH ==> r == DivansResult::NeedsMoreOutput
                && *final(output_offset) == final(output)@.len() && *final(input_offset) == *old(
                input_offset,
            ) && final(self).assembled() == old(self).assembled() && final(self).coded() == old(
                self,
            ).coded() && final(self).pending() == old(self).pending(),
            extends(final(self).assembled(), old(self).assembled()),
            extends(final(self).coded(), old(self).coded()),
            old(self).pending() + beyond(final(self).assembled(), old(self).assembled().len())
                == beyond(final(self).coded(), old(self).coded().len()) + final(self).pending(),
            r == DivansResult::NeedsMoreInput || r == DivansResult::NeedsMoreOutput || r
                == DivansResult::ResultFailure,
            r == DivansResult::ResultFailure ==> final(self).assembler_status()
                == DivansResult::ResultFailure || final(self).coder_status()
                == DivansResult::ResultFailure,
            r == DivansResult::NeedsMoreInput ==> *final(input_offset) == input@.len()
                && final(self).pending().len() == 0,
            r == DivansResult::NeedsMoreOutput ==> *final(output_offset) == final(output)@.len()
                || (final(self).pending().len() == 0 && final(self).assembled().len() >= old(
                self,
            ).assembled().len() + CMD_BUFFER_SIZE),
    {
        let ghost start = *output_offset;
        let ghost progress = self.header_progress;
        let ghost window = self.window_size;
        let res = self.write_header(output, output_offset);
        let ghost mid = output@;
        proof {
            assert(self.assembled().subrange(0, self.assembled().len() as int) =~= self.assembled());
            assert(self.coded().subrange(0, self.coded().len() as int) =~= self.coded());
            assert(beyond(self.assembled(), self.assembled().len()) =~= Seq::<Command>::empty());
            assert(beyond(self.coded(), self.coded().len()) =~= Seq::<Command>::empty());
            assert(old(self).pending() + Seq::<Command>::empty() =~= Seq::<Command>::empty()
                + old(self).pending());
        }
        if let DivansResult::NeedsMoreOutput = res {
            proof {
                lemma_header_kept(old(output)@, mid, output@, start as int, window, progress as nat);
            }
            return DivansResult::NeedsMoreOutput;
        }
        let r = self.encode_assembled(input, input_offset, output, output_offset);
        proof {
            lemma_header_kept(old(output)@, mid, output@, start as int, window, progress as nat);
        }
        r
    }

    /// Codes `input` from `*input_offset` on straight into `output`, after the header.
    pub fn encode_commands(
        &mut self,
        input: &[Command],
        input_offset: &mut usize,
        output: &mut [u8],
        output_offset: &mut usize,
    ) -> (r: DivansResult)
        requires
            old(self).wf(),
            *old(input_offset) <= input@.len(),
            *old(output_offset) <= old(output)@.len(),
        ensures
            final(self).wf(),
            final(self).window() == old(self).window(),
            final(self).pending() == old(self).pending(),
            final(self).assembled() == old(self).assembled(),
            final(self).coded() == old(self).coded() + input@.subrange(
                *old(input_offset) as int,
                *final(input_offset) as int,
            ),
            *old(input_offset) <= *final(input_offset) <= input@.len(),
            *old(output_offset) + header_chunk(
                old(self).window(),
                old(self).progress(),
                (old(output)@.len() - *old(output_offset)) as nat,
            ).len() <= *final(output_offset) <= final(output)@.len(),
            keeps_prefix(old(output)@, final(output)@, *old(output_offset) as int),
            header_written(
                old(output)@,
                final(output)@,
                *old(output_offset) as int,
                old(self).window(),
                old(self).progress(),
            ),
            final(self).progress() == old(self).progress() + header_chunk(
                old(self).window(),
                old(self).progress(),
                (old(output)@.len() - *old(output_offset)) as nat,
            ).len(),
            final(self).progress() < HEADER_LENGTH ==> r == DivansResult::NeedsMoreOutput
                && *final(input_offset) == *old(input_offset) && *final(output_offset)
                == final(output)@.len(),
            r == DivansResult::NeedsMoreOutput ==> *final(output_offset) == final(output)@.len(),
            r != DivansResult::NeedsMoreOutput && r != DivansResult::ResultFailure
                ==> *final(input_offset) == input@.len(),
            final(self).progress() == HEADER_LENGTH ==> r == final(self).coder_status(),
    {
        let ghost start = *output_offset;
        let ghost progress = self.header_progress;
        let ghost window = self.window_size;
        let res = self.write_header(output, output_offset);
        let ghost mid = output@;
        if let DivansResult::NeedsMoreOutput = res {
            proof {
                lemma_header_kept(old(output)@, mid, output@, start as int, window, progress as nat);
            }
            assert(input@.subrange(*input_offset as int, *input_offset as int) =~= Seq::<
                Command,
            >::empty());
            assert(self.coded() =~= old(self).coded() + Seq::<Command>::empty());
            return DivansResult::NeedsMoreOutput;
        }
        let r = self.codec.encode_commands(input, input_offset, output, output_offset);
        proof {
            lemma_header_kept(old(output)@, mid, output@, start as int, window, progress as nat);
        }
        r
    }

    /// Finishes the header, codes the commands kept from earlier calls, and then
    /// ends the coded stream; the coder's status comes back unchanged.
    pub fn flush(&mut self, output: &mut [u8], output_offset: &mut usize) -> (r: DivansResult)
        requires
            old(self).wf(),
            *old(output_offset) <= old(output)@.len(),
        ensures
            final(self).wf(),
            final(self).window() == old(self).window(),
            final(self).assembled() == old(self).assembled(),
            extends(final(self).coded(), old(self).coded()),
            old(self).pending() == beyond(final(self).coded(), old(self).coded().len())
                + final(self).pending(),
            *old(output_offset) + header_chunk(
                old(self).window(),
                old(self).progress(),
                (old(output)@.len() - *old(output_offset)) as nat,
            ).len() <= *final(output_offset) <= final(output)@.len(),
            keeps_prefix(old(output)@, final(output)@, *old(output_offset) as int),
            header_written(
                old(output)@,
                final(output)@,
                *old(output_offset) as int,
                old(self).window(),
                old(self).progress(),
            ),
            final(self).progress() == old(self).progress() + header_chunk(
                old(self).window(),
                old(self).progress(),
                (old(output)@.len() - *old(output_offset)) as nat,
            ).len(),
            final(self).progress() < HEADER_LENGTH ==> r == DivansResult::NeedsMoreOutput
                && *final(output_offset) == final(output)@.len() && final(self).pending() == old(
                self,
            ).pending(),
            final(self).pending().len() > 0 ==> r == DivansResult::ResultFailure || (r
                == DivansResult::NeedsMoreOutput && *final(output_offset) == final(output)@.len()),
            final(self).progress() == HEADER_LENGTH ==> r == final(self).coder_status(),
    {
        let ghost start = *output_offset;
        let ghost progress = self.header_progress;
        let ghost window = self.window_size;
        let res = self.write_header(output, output_offset);
        let ghost mid = output@;
        assert(self.coded().subrange(0, self.coded().len() as int) =~= self.coded());
        assert(beyond(self.coded(), self.coded().len()) =~= Seq::<Command>::empty());
        assert(old(self).pending() =~= Seq::<Command>::empty() + old(self).pending());
        if let DivansResult::NeedsMoreOutput = res {
            proof {
                lemma_header_kept(old(output)@, mid, output@, start as int, window, progress as nat);
            }
            return DivansResult::NeedsMoreOutput;
        }
        let ghost mid_offset = *output_offset;
        if self.cmd_offset < self.cmd_array.len() {
            let res = self.encode_pending(output, output_offset);
            if self.cmd_offset < self.cmd_array.len() || res == DivansResult::ResultFailure {
                proof {
                    lemma_header_kept(old(output)@, mid, output@, start as int, window, progress as nat);
                }
                if let DivansResult::ResultFailure = res {
                    return DivansResult::ResultFailure;
                }
                return DivansResult::NeedsMoreOutput;
            }
        }
        let ghost before_flush = output@;
        let ghost before_flush_offset = *output_offset;
        let r = self.codec.flush(output, output_offset);
        proof {
            lemma_keeps_prefix_trans(mid, before_flush, output@, mid_offset as int, before_flush_offset as int);
            lemma_header_kept(old(output)@, mid, output@, start as int, window, progress as nat);
        }
        r
    }
}

/// Builds compressors.
pub trait DivansCompressorFactory {
    type DefaultEncoder: CommandEncoder;

    type Assembler: CommandAssembler;

    /// A compressor for a window of `2^window_size` bytes, `window_size` brought
    /// into `[MIN_WINDOW_SIZE, MAX_WINDOW_SIZE]`.
    fn new(window_size: usize) -> (r: DivansCompressor<Self::Assembler, Self::DefaultEncoder>)
        ensures
            r.wf(),
            r.window() == clamp_window(window_size as int),
            r.progress() == 0,
            r.pending().len() == 0,
            r.assembled().len() == 0,
            r.coded().len() == 0,
    {
        let mut window_size = window_size;
        if window_size < MIN_WINDOW_SIZE {
            window_size = MIN_WINDOW_SIZE;
        }
        if window_size > MAX_WINDOW_SIZE {
            window_size = MAX_WINDOW_SIZE;
        }
        let ring_buffer: Vec<u8> = vec![0u8; 1usize << window_size];
        let assembler = Self::Assembler::new(ring_buffer);
        let codec = Self::DefaultEncoder::new(window_size);
        let r = DivansCompressor {
            codec,
            header_progress: 0,
            window_size: window_size as u8,
            cmd_assembler: assembler,
            cmd_array: Vec::new(),
            cmd_offset: 0,
        };
        assert(r.pending() =~= Seq::<Command>::empty());
        r
    }
}

/// The factory for a given assembler and coder.
pub struct DivansCompressorFactoryStruct<A, C> {
    assembler: PhantomData<A>,
    encoder: PhantomData<C>,
}

impl<A: CommandAssembler, C: CommandEncoder> DivansCompressorFactory for DivansCompressorFactoryStruct<
    A,
    C,
> {
    type DefaultEncoder = C;

    type Assembler = A;
}

} // verus!
