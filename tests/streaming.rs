use std::cell::Cell;
use std::rc::Rc;
use divans::codec::{ByteLog, CommandLog};
use divans::compressor::pass_outcome;
use divans::{
    make_header, Command, CommandAssembler, CommandEncoder, DivansCompressorFactory,
    DivansCompressorFactoryStruct, DivansDecompressorFactory, DivansDecompressorFactoryStruct,
    DivansResult, LiteralCommand, StreamDecoder, CMD_BUFFER_SIZE, HEADER_LENGTH,
};

/// One literal command per input byte.
struct ByteAssembler {
    ring: Vec<u8>,
}

impl CommandAssembler for ByteAssembler {
    // Only the verifier reads the log; it is never called at run time.
    fn produced(&self) -> CommandLog {
        unreachable!()
    }

    // Only the verifier reads this; it is never called at run time.
    fn last_status(&self) -> DivansResult {
        unreachable!()
    }

    fn new(ring_buffer: Vec<u8>) -> Self {
        ByteAssembler { ring: ring_buffer }
    }

    fn stream(&mut self, input: &[u8], input_offset: &mut usize, commands: &mut Vec<Command>) -> DivansResult {
        while commands.len() < CMD_BUFFER_SIZE && *input_offset < input.len() {
            let b = input[*input_offset];
            let slot = *input_offset % self.ring.len();
            self.ring[slot] = b;
            commands.push(Command::Literal(LiteralCommand { data: vec![b], len: 1 }));
            *input_offset += 1;
        }
        if *input_offset == input.len() {
            DivansResult::NeedsMoreInput
        } else {
            DivansResult::NeedsMoreOutput
        }
    }
}

const TRAILER: u8 = 0xAA;

/// Writes each literal's byte, and a trailer byte on flush.
struct ByteEncoder {
    flushed: bool,
}

impl CommandEncoder for ByteEncoder {
    // Only the verifier reads the log; it is never called at run time.
    fn taken(&self) -> CommandLog {
        unreachable!()
    }

    // Only the verifier reads this; it is never called at run time.
    fn last_status(&self) -> DivansResult {
        unreachable!()
    }

    fn new(_window_size: usize) -> Self {
        ByteEncoder { flushed: false }
    }

    fn encode_commands(
        &mut self,
        input: &[Command],
        input_offset: &mut usize,
        output: &mut [u8],
        output_offset: &mut usize,
    ) -> DivansResult {
        while *input_offset < input.len() {
            if *output_offset == output.len() {
                return DivansResult::NeedsMoreOutput;
            }
            output[*output_offset] = match &input[*input_offset] {
                Command::Literal(l) => l.data[0],
                _ => 0,
            };
            *output_offset += 1;
            *input_offset += 1;
        }
        DivansResult::NeedsMoreInput
    }

    fn flush(&mut self, output: &mut [u8], output_offset: &mut usize) -> DivansResult {
        if !self.flushed {
            if *output_offset == output.len() {
                return DivansResult::NeedsMoreOutput;
            }
            output[*output_offset] = TRAILER;
            *output_offset += 1;
            self.flushed = true;
        }
        DivansResult::ResultSuccess
    }
}

/// Copies its input to its output.
struct CopyDecoder {
    token: u32,
    window_size: usize,
}

impl StreamDecoder for CopyDecoder {
    type Resources = u32;

    fn window(&self) -> usize {
        self.window_size
    }

    fn held(&self) -> u32 {
        self.token
    }

    // Only the verifier reads the log; it is never called at run time.
    fn fed(&self) -> ByteLog {
        unreachable!()
    }

    // Only the verifier reads this; it is never called at run time.
    fn last_status(&self) -> DivansResult {
        unreachable!()
    }

    fn new(resources: u32, window_size: usize) -> Self {
        CopyDecoder { token: resources, window_size }
    }

    fn decode_bytes(
        &mut self,
        input: &[u8],
        input_offset: &mut usize,
        output: &mut [u8],
        output_offset: &mut usize,
    ) -> DivansResult {
        while *input_offset < input.len() {
            if *output_offset == output.len() {
                return DivansResult::NeedsMoreOutput;
            }
            output[*output_offset] = input[*input_offset];
            *output_offset += 1;
            *input_offset += 1;
        }
        DivansResult::NeedsMoreInput
    }

    fn debug_print(&self, _bytes_decoded: usize) {}

    fn free(self) -> u32 {
        self.token
    }
}

type Compressors = DivansCompressorFactoryStruct<ByteAssembler, ByteEncoder>;
type Decompressors = DivansDecompressorFactoryStruct<CopyDecoder>;

/// Compresses `input` and flushes, giving the output `room` bytes at a time.
fn compress_in_pieces(window_size: usize, input: &[u8], room: usize) -> Vec<u8> {
    let mut c = Compressors::new(window_size);
    let mut out = Vec::new();
    let mut in_off = 0usize;
    loop {
        let mut buf = vec![0u8; room];
        let mut out_off = 0usize;
        let r = c.encode(input, &mut in_off, &mut buf, &mut out_off);
        out.extend_from_slice(&buf[..out_off]);
        match r {
            DivansResult::NeedsMoreInput => break,
            DivansResult::NeedsMoreOutput => continue,
            other => panic!("unexpected status {:?}", other),
        }
    }
    loop {
        let mut buf = vec![0u8; room];
        let mut out_off = 0usize;
        let r = c.flush(&mut buf, &mut out_off);
        out.extend_from_slice(&buf[..out_off]);
        match r {
            DivansResult::ResultSuccess => break,
            DivansResult::NeedsMoreOutput => continue,
            other => panic!("unexpected status {:?}", other),
        }
    }
    out
}

fn expected_stream(window_size: u8, input: &[u8]) -> Vec<u8> {
    let mut v = make_header(window_size).to_vec();
    v.extend_from_slice(input);
    v.push(TRAILER);
    v
}

#[test]
fn compress_whole_buffer() {
    let input: Vec<u8> = (0..40u8).collect();
    assert_eq!(compress_in_pieces(18, &input, 1000), expected_stream(18, &input));
}

#[test]
fn compress_one_byte_of_output_at_a_time() {
    let input: Vec<u8> = (0..40u8).map(|i| i.wrapping_mul(7)).collect();
    assert_eq!(compress_in_pieces(12, &input, 1), expected_stream(12, &input));
}

#[test]
fn compress_every_output_chunk_size() {
    let input: Vec<u8> = (0..37u8).collect();
    for room in 1..=20 {
        assert_eq!(compress_in_pieces(20, &input, room), expected_stream(20, &input));
    }
}

#[test]
fn compress_split_output_matches_single_call() {
    let input: Vec<u8> = (100..130u8).collect();
    let mut whole = vec![0u8; 200];
    let mut c = Compressors::new(15);
    let (mut i, mut o) = (0usize, 0usize);
    assert_eq!(c.encode(&input, &mut i, &mut whole, &mut o), DivansResult::NeedsMoreInput);
    assert_eq!(c.flush(&mut whole, &mut o), DivansResult::ResultSuccess);
    whole.truncate(o);
    for k in 0..=(HEADER_LENGTH + 8) {
        let mut c = Compressors::new(15);
        let mut buf = vec![0u8; 200];
        let (mut i, mut o) = (0usize, 0usize);
        let r = c.encode(&input, &mut i, &mut buf[..k], &mut o);
        assert_eq!(o, k);
        assert_eq!(r, DivansResult::NeedsMoreOutput);
        assert_eq!(c.encode(&input, &mut i, &mut buf, &mut o), DivansResult::NeedsMoreInput);
        assert_eq!(c.flush(&mut buf, &mut o), DivansResult::ResultSuccess);
        buf.truncate(o);
        assert_eq!(buf, whole, "split at {}", k);
    }
}

#[test]
fn compress_keeps_commands_when_output_is_full() {
    let input: Vec<u8> = (1..=10u8).collect();
    let mut c = Compressors::new(10);
    let mut buf = vec![0u8; HEADER_LENGTH + 3];
    let (mut i, mut o) = (0usize, 0usize);
    assert_eq!(c.encode(&input, &mut i, &mut buf, &mut o), DivansResult::NeedsMoreOutput);
    assert_eq!(i, 10);
    assert_eq!(&buf[HEADER_LENGTH..], &[1, 2, 3]);
    let mut rest = vec![0u8; 10];
    let mut o2 = 0usize;
    assert_eq!(c.encode(&input, &mut i, &mut rest, &mut o2), DivansResult::NeedsMoreInput);
    assert_eq!(&rest[..o2], &[4, 5, 6, 7, 8, 9, 10]);
}

#[test]
fn compress_flush_codes_kept_commands() {
    let input: Vec<u8> = (1..=5u8).collect();
    let mut c = Compressors::new(10);
    let mut buf = vec![0u8; HEADER_LENGTH + 2];
    let (mut i, mut o) = (0usize, 0usize);
    assert_eq!(c.encode(&input, &mut i, &mut buf, &mut o), DivansResult::NeedsMoreOutput);
    let mut rest = vec![0u8; 10];
    let mut o2 = 0usize;
    assert_eq!(c.flush(&mut rest, &mut o2), DivansResult::ResultSuccess);
    assert_eq!(&rest[..o2], &[3, 4, 5, TRAILER]);
}

#[test]
fn compress_empty_input_is_header_and_trailer() {
    assert_eq!(compress_in_pieces(16, &[], 7), expected_stream(16, &[]));
}

#[test]
fn compress_clamps_window_size() {
    assert_eq!(compress_in_pieces(3, &[9], 64)[5], 10);
    assert_eq!(compress_in_pieces(10, &[9], 64)[5], 10);
    assert_eq!(compress_in_pieces(24, &[9], 64)[5], 24);
    assert_eq!(compress_in_pieces(40, &[9], 64)[5], 24);
}

#[test]
fn compress_header_across_small_outputs() {
    let mut c = Compressors::new(21);
    let mut got = Vec::new();
    for room in [1usize, 4, 2, 9] {
        let mut buf = vec![0u8; room];
        let (mut i, mut o) = (0usize, 0usize);
        let r = c.encode_commands(&[], &mut i, &mut buf, &mut o);
        got.extend_from_slice(&buf[..o]);
        if got.len() < HEADER_LENGTH {
            assert_eq!(r, DivansResult::NeedsMoreOutput);
        } else {
            assert_eq!(r, DivansResult::NeedsMoreInput);
        }
    }
    assert_eq!(got, make_header(21).to_vec());
}

#[test]
fn compress_write_header_resumes() {
    let mut c = Compressors::new(13);
    let mut a = [0u8; 5];
    let mut o = 0usize;
    assert_eq!(c.write_header(&mut a, &mut o), DivansResult::NeedsMoreOutput);
    assert_eq!(o, 5);
    let mut b = [0u8; 20];
    let mut o2 = 2usize;
    assert_eq!(c.write_header(&mut b, &mut o2), DivansResult::ResultSuccess);
    assert_eq!(o2, 13);
    let mut all = a.to_vec();
    all.extend_from_slice(&b[2..13]);
    assert_eq!(all, make_header(13).to_vec());
}

fn decode_in_pieces(stream: &[u8], piece: usize) -> (Vec<u8>, Vec<DivansResult>) {
    let mut d = Decompressors::new(5);
    let mut out = vec![0u8; stream.len() + 16];
    let mut o = 0usize;
    let mut statuses = Vec::new();
    for chunk in stream.chunks(piece) {
        let mut i = 0usize;
        let r = d.decode(chunk, &mut i, &mut out, &mut o);
        assert_eq!(i, chunk.len());
        statuses.push(r);
    }
    out.truncate(o);
    (out, statuses)
}

#[test]
fn decode_whole_stream() {
    let mut stream = make_header(22).to_vec();
    stream.extend_from_slice(b"payload bytes");
    let (out, statuses) = decode_in_pieces(&stream, stream.len());
    assert_eq!(out, b"payload bytes".to_vec());
    assert_eq!(statuses, vec![DivansResult::NeedsMoreInput]);
}

#[test]
fn decode_one_byte_per_call_matches_whole() {
    let mut stream = make_header(19).to_vec();
    stream.extend_from_slice(&[3, 1, 4, 1, 5, 9, 2, 6]);
    let (whole, _) = decode_in_pieces(&stream, stream.len());
    let (bytewise, statuses) = decode_in_pieces(&stream, 1);
    assert_eq!(bytewise, whole);
    assert!(statuses.iter().all(|s| *s == DivansResult::NeedsMoreInput));
    for piece in 2..stream.len() {
        assert_eq!(decode_in_pieces(&stream, piece).0, whole);
    }
}

#[test]
fn decode_bad_magic_is_terminal() {
    let mut stream = make_header(20).to_vec();
    stream[2] = 0;
    stream.extend_from_slice(&[1, 2, 3]);
    let mut d = Decompressors::new(5);
    let mut out = [0u8; 8];
    let (mut i, mut o) = (0usize, 0usize);
    assert_eq!(d.decode(&stream, &mut i, &mut out, &mut o), DivansResult::ResultFailure);
    assert_eq!(i, HEADER_LENGTH);
    assert_eq!(o, 0);
    let mut i2 = 0usize;
    assert_eq!(d.decode(&[1, 2], &mut i2, &mut out, &mut o), DivansResult::ResultFailure);
    assert_eq!(d.free(), 5);
}

#[test]
fn decode_rejects_window_sizes() {
    for ws in [9u8, 25, 200] {
        let stream = make_header(ws);
        let mut d = Decompressors::new(1);
        let mut out = [0u8; 4];
        let (mut i, mut o) = (0usize, 0usize);
        assert_eq!(d.decode(&stream, &mut i, &mut out, &mut o), DivansResult::ResultFailure);
    }
}

#[test]
fn decode_free_in_each_state() {
    let mut d = Decompressors::new(100);
    let mut out = [0u8; 4];
    let (mut i, mut o) = (0usize, 0usize);
    let h = make_header(12);
    assert_eq!(d.decode(&h[..4], &mut i, &mut out, &mut o), DivansResult::NeedsMoreInput);
    assert_eq!(d.free(), 100);
    let mut d = Decompressors::new(100);
    let mut i = 0usize;
    assert_eq!(d.decode(&h, &mut i, &mut out, &mut o), DivansResult::NeedsMoreInput);
    assert_eq!(d.free(), 100);
}

#[test]
fn decode_output_full() {
    let mut stream = make_header(10).to_vec();
    stream.extend_from_slice(&[1, 2, 3, 4, 5]);
    let mut d = Decompressors::new(0);
    let mut out = [0u8; 3];
    let (mut i, mut o) = (0usize, 0usize);
    assert_eq!(d.decode(&stream, &mut i, &mut out, &mut o), DivansResult::NeedsMoreOutput);
    assert_eq!(out, [1, 2, 3]);
    assert_eq!(i, HEADER_LENGTH + 3);
}

#[test]
fn pass_outcome_decisions() {
    let fail = DivansResult::ResultFailure;
    let more_in = DivansResult::NeedsMoreInput;
    let more_out = DivansResult::NeedsMoreOutput;
    assert_eq!(pass_outcome(fail, more_in, true, true), Some(fail));
    assert_eq!(pass_outcome(more_in, fail, true, true), Some(fail));
    assert_eq!(pass_outcome(more_out, more_out, false, true), Some(more_out));
    assert_eq!(pass_outcome(more_in, more_in, true, true), Some(more_in));
    assert_eq!(pass_outcome(more_out, more_in, true, false), Some(more_out));
    assert_eq!(pass_outcome(more_out, more_in, true, true), None);
    assert_eq!(pass_outcome(DivansResult::ResultSuccess, more_in, true, true), Some(more_in));
    assert_eq!(pass_outcome(more_in, more_out, false, true), Some(more_out));
}

#[test]
fn freeze_dry_appends_to_kept_commands() {
    let input: Vec<u8> = (1..=4u8).collect();
    let mut c = Compressors::new(10);
    let mut buf = vec![0u8; HEADER_LENGTH + 1];
    let (mut i, mut o) = (0usize, 0usize);
    assert_eq!(c.encode(&input, &mut i, &mut buf, &mut o), DivansResult::NeedsMoreOutput);
    let extra = vec![
        Command::Literal(LiteralCommand { data: vec![50], len: 1 }),
        Command::Literal(LiteralCommand { data: vec![60], len: 1 }),
    ];
    c.freeze_dry(extra, 1);
    let mut rest = vec![0u8; 10];
    let mut o2 = 0usize;
    assert_eq!(c.flush(&mut rest, &mut o2), DivansResult::ResultSuccess);
    assert_eq!(&rest[..o2], &[2, 3, 4, 60, TRAILER]);
}

/// Copies its input to its output and records what the diagnostic hook reports.
struct ReportingDecoder {
    report: Rc<Cell<usize>>,
}

impl StreamDecoder for ReportingDecoder {
    type Resources = Rc<Cell<usize>>;

    fn window(&self) -> usize {
        unreachable!()
    }

    fn held(&self) -> Rc<Cell<usize>> {
        self.report.clone()
    }

    // Only the verifier reads the log; it is never called at run time.
    fn fed(&self) -> ByteLog {
        unreachable!()
    }

    // Only the verifier reads this; it is never called at run time.
    fn last_status(&self) -> DivansResult {
        unreachable!()
    }

    fn new(resources: Rc<Cell<usize>>, _window_size: usize) -> Self {
        ReportingDecoder { report: resources }
    }

    fn decode_bytes(
        &mut self,
        input: &[u8],
        input_offset: &mut usize,
        output: &mut [u8],
        output_offset: &mut usize,
    ) -> DivansResult {
        while *input_offset < input.len() && *output_offset < output.len() {
            output[*output_offset] = input[*input_offset];
            *output_offset += 1;
            *input_offset += 1;
        }
        if *input_offset == input.len() {
            DivansResult::NeedsMoreInput
        } else {
            DivansResult::NeedsMoreOutput
        }
    }

    fn debug_print(&self, bytes_decoded: usize) {
        self.report.set(bytes_decoded);
    }

    fn free(self) -> Rc<Cell<usize>> {
        self.report
    }
}

#[test]
fn free_reports_decoded_byte_count() {
    let report = Rc::new(Cell::new(usize::MAX));
    let mut d = DivansDecompressorFactoryStruct::<ReportingDecoder>::new(report.clone());
    let mut stream = make_header(14).to_vec();
    stream.extend_from_slice(&[9, 8, 7, 6, 5]);
    let mut out = [0u8; 16];
    let mut o = 0usize;
    for chunk in stream.chunks(4) {
        let mut i = 0usize;
        assert_eq!(d.decode(chunk, &mut i, &mut out, &mut o), DivansResult::NeedsMoreInput);
    }
    assert_eq!(&out[..o], &[9, 8, 7, 6, 5]);
    let back = d.free();
    assert!(Rc::ptr_eq(&back, &report));
    assert_eq!(report.get(), 5);
}
