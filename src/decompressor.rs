use vstd::prelude::*;
use core::marker::PhantomData;
use crate::codec::{keeps_prefix, StreamDecoder};
use crate::header::{
    absorb, parse_header_spec, HeaderParser, HEADER_LENGTH, MAX_WINDOW_SIZE, MIN_WINDOW_SIZE,
};
use crate::interface::DivansResult;

verus! {

/// `a + b`, or `usize::MAX` when that is larger.
pub open spec fn saturating_sum(a: nat, b: nat) -> nat {
    if a + b > usize::MAX {
        usize::MAX as nat
    } else {
        a + b
    }
}

/// Reads the header, then decodes the stream that follows it.
pub enum DivansDecompressor<D: StreamDecoder> {
    /// The header is still being read; the decoder's resources wait here.
    Header(HeaderParser<D::Resources>),
    /// Decoding, with the number of bytes put out so far.
    Decode(D, usize),
}

impl<D: StreamDecoder> DivansDecompressor<D> {
    pub open spec fn wf(&self) -> bool {
        match self {
            DivansDecompressor::Header(h) => h.read_offset <= HEADER_LENGTH && h.resources.is_some(),
            DivansDecompressor::Decode(_, _) => true,
        }
    }

    /// Whether the header is still being read.
    pub open spec fn awaiting_header(&self) -> bool {
        self is Header
    }

    /// The header bytes read so far; empty once decoding.
    pub open spec fn collected(&self) -> Seq<u8> {
        match self {
            DivansDecompressor::Header(h) => h.collected(),
            DivansDecompressor::Decode(_, _) => Seq::empty(),
        }
    }

    /// The resources held while the header is read.
    pub open spec fn resources(&self) -> Option<D::Resources> {
        match self {
            DivansDecompressor::Header(h) => h.resources,
            DivansDecompressor::Decode(_, _) => None,
        }
    }

    /// The window size of the decoder, once decoding.
    pub open spec fn decoder_window(&self) -> Option<usize> {
        match self {
            DivansDecompressor::Header(_) => None,
            DivansDecompressor::Decode(d, _) => Some(d.window()),
        }
    }

    /// The resources the decoder was built from, once decoding.
    pub open spec fn decoder_resources(&self) -> Option<D::Resources> {
        match self {
            DivansDecompressor::Header(_) => None,
            DivansDecompressor::Decode(d, _) => Some(d.held()),
        }
    }

    /// The input bytes the decoder has taken, once decoding.
    pub open spec fn decoder_fed(&self) -> Seq<u8> {
        match self {
            DivansDecompressor::Header(_) => Seq::empty(),
            DivansDecompressor::Decode(d, _) => d.fed(),
        }
    }

    /// The status of the decoder's last call, once decoding.
    pub open spec fn decoder_status(&self) -> Option<DivansResult> {
        match self {
            DivansDecompressor::Header(_) => None,
            DivansDecompressor::Decode(d, _) => Some(d.last_status()),
        }
    }

    /// The number of bytes decoded so far.
    pub open spec fn bytes_decoded(&self) -> nat {
        match self {
            DivansDecompressor::Header(_) => 0,
            DivansDecompressor::Decode(_, n) => *n as nat,
        }
    }

    /// Builds the decoder for `window_size` from the held resources, moving them, and
    /// starts decoding. Fails, changing nothing, on a window size out of range or
    /// when already decoding.
    fn finish_parsing_header(&mut self, window_size: usize) -> (r: DivansResult)
        requires
            old(self).wf(),
        ensures
            final(self).wf(),
            old(self).awaiting_header() && MIN_WINDOW_SIZE <= window_size <= MAX_WINDOW_SIZE
                ==> r == DivansResult::ResultSuccess && !final(self).awaiting_header()
                && final(self).bytes_decoded() == 0 && final(self).decoder_window() == Some(
                window_size,
            ) && final(self).decoder_resources() == old(self).resources()
                && final(self).decoder_fed() == Seq::<u8>::empty(),
            !(old(self).awaiting_header() && MIN_WINDOW_SIZE <= window_size <= MAX_WINDOW_SIZE)
                ==> r == DivansResult::ResultFailure && *final(self) == *old(self),
    {
        if !self.is_header() {
            return DivansResult::ResultFailure;
        }
        if window_size < MIN_WINDOW_SIZE {
            return DivansResult::ResultFailure;
        }
        if window_size > MAX_WINDOW_SIZE {
            return DivansResult::ResultFailure;
        }
        let resources = match self {
            DivansDecompressor::Header(header) => header.resources.take(),
            DivansDecompressor::Decode(_, _) => None,
        };
        let resources = match resources {
            Some(m) => m,
            None => return DivansResult::ResultFailure,
        };
        let decoder = D::new(resources, window_size);
        *self = DivansDecompressor::Decode(decoder, 0);
        DivansResult::ResultSuccess
    }

    /// Whether the header is still being read.
    pub fn is_header(&self) -> (r: bool)
        ensures
            r == self.awaiting_header(),
    {
        match self {
            DivansDecompressor::Header(_) => true,
            DivansDecompressor::Decode(_, _) => false,
        }
    }

    /// Gives the resources back, whether or not the header was read; a decoder first
    /// reports the number of bytes it decoded.
    pub fn free(self) -> (r: D::Resources)
        requires
            self.wf(),
        ensures
            self.awaiting_header() ==> Some(r) == self.resources(),
            !self.awaiting_header() ==> Some(r) == self.decoder_resources(),
    {
        match self {
            DivansDecompressor::Header(parser) => parser.resources.unwrap(),
            DivansDecompressor::Decode(decoder, bytes_decoded) => {
                decoder.debug_print(bytes_decoded);
                decoder.free()
            },
        }
    }

    /// Decodes `input` from `*input_offset` on into `output` from `*output_offset` on.
    /// The header is read across as many calls as it takes; the call that completes
    /// it goes on decoding the rest of its input. A bad header is a terminal failure.
    pub fn decode(
        &mut self,
        input: &[u8],
        input_offset: &mut usize,
        output: &mut [u8],
        output_offset: &mut usize,
    ) -> (r: DivansResult)
        requires
            old(self).wf(),
            *old(input_offset) <= input@.len(),
            *old(output_offset) <= old(output)@.len(),
        ensures
            final(self).wf(),
            *old(input_offset) <= *final(input_offset) <= input@.len(),
            *old(output_offset) <= *final(output_offset) <= final(output)@.len(),
            keeps_prefix(old(output)@, final(output)@, *old(output_offset) as int),
            !old(self).awaiting_header() ==> !final(self).awaiting_header() && final(self).bytes_decoded()
                == saturating_sum(
                old(self).bytes_decoded(),
                (*final(output_offset) - *old(output_offset)) as nat,
            ),
            !old(self).awaiting_header() ==> final(self).decoder_window() == old(
                self,
            ).decoder_window() && Some(r) == final(self).decoder_status()
                && final(self).decoder_resources() == old(self).decoder_resources()
                && final(self).decoder_fed() == old(self).decoder_fed() + input@.subrange(
                *old(input_offset) as int,
                *final(input_offset) as int,
            ),
            old(self).awaiting_header() ==> ({
                let rest = input@.subrange(*old(input_offset) as int, input@.len() as int);
                let full = absorb(old(self).collected(), rest);
                let taken = full.len() - old(self).collected().len();
                if full.len() < HEADER_LENGTH {
                    &&& r == DivansResult::NeedsMoreInput
                    &&& final(self).awaiting_header()
                    &&& final(self).collected() == full
                    &&& final(self).resources() == old(self).resources()
                    &&& *final(input_offset) == input@.len()
                    &&& final(output)@ == old(output)@
                    &&& *final(output_offset) == *old(output_offset)
                } else {
                    match parse_header_spec(full) {
                        Err(_) => {
                            &&& r == DivansResult::ResultFailure
                            &&& final(self).awaiting_header()
                            &&& final(self).collected() == full
                            &&& final(self).resources() == old(self).resources()
                            &&& *final(input_offset) == *old(input_offset) + taken
                            &&& final(output)@ == old(output)@
                            &&& *final(output_offset) == *old(output_offset)
                        },
                        Ok(window_size) => {
                            &&& !final(self).awaiting_header()
                            &&& final(self).decoder_window() == Some(window_size)
                            &&& final(self).decoder_resources() == old(self).resources()
                            &&& final(self).decoder_fed() == input@.subrange(
                                *old(input_offset) + taken,
                                *final(input_offset) as int,
                            )
                            &&& *old(input_offset) + taken <= *final(input_offset)
                            &&& final(self).bytes_decoded() == *final(output_offset) - *old(
                                output_offset,
                            )
                            &&& *old(input_offset) + taken < input@.len() ==> Some(r)
                                == final(self).decoder_status()
                            &&& *old(input_offset) + taken == input@.len() ==> r
                                == DivansResult::NeedsMoreInput && final(output)@ == old(output)@
                                && *final(output_offset) == *old(output_offset)
                        },
                    }
                }
            }),
    {
        let window_size: usize;
        match self {
            DivansDecompressor::Header(header_parser) => {
                header_parser.read_from(input, input_offset);
                if header_parser.read_offset < HEADER_LENGTH {
                    return DivansResult::NeedsMoreInput;
                }
                assert(header_parser.collected() =~= header_parser.header@);
                match header_parser.parse_header() {
                    Ok(wsize) => window_size = wsize,
                    Err(result) => return result,
                }
            },
            DivansDecompressor::Decode(decoder, bytes_decoded) => {
                let old_output_offset = *output_offset;
                let r = decoder.decode_bytes(input, input_offset, output, output_offset);
                *bytes_decoded = bytes_decoded.saturating_add(*output_offset - old_output_offset);
                return r;
            },
        }
        let res = self.finish_parsing_header(window_size);
        if let DivansResult::ResultFailure = res {
            return res;
        }
        if *input_offset < input.len() {
            match self {
                DivansDecompressor::Decode(decoder, bytes_decoded) => {
                    let old_output_offset = *output_offset;
                    let r = decoder.decode_bytes(input, input_offset, output, output_offset);
                    *bytes_decoded = bytes_decoded.saturating_add(*output_offset - old_output_offset);
                    return r;
                },
                DivansDecompressor::Header(_) => return DivansResult::ResultFailure,
            }
        }
        DivansResult::NeedsMoreInput
    }
}

/// Builds decompressors.
pub trait DivansDecompressorFactory {
    type DefaultDecoder: StreamDecoder;

    /// A decompressor that waits for the header, holding `resources` for the decoder.
    fn new(resources: <Self::DefaultDecoder as StreamDecoder>::Resources) -> (r: DivansDecompressor<
        Self::DefaultDecoder,
    >)
        ensures
            r.wf(),
            r.awaiting_header(),
            r.collected().len() == 0,
            r.resources() == Some(resources),
    {
        let r = DivansDecompressor::Header(HeaderParser::new(resources));
        assert(r.collected() =~= Seq::<u8>::empty());
        r
    }
}

/// The factory for a given decoder.
pub struct DivansDecompressorFactoryStruct<D> {
    decoder: PhantomData<D>,
}

impl<D: StreamDecoder> DivansDecompressorFactory for DivansDecompressorFactoryStruct<D> {
    type DefaultDecoder = D;
}

} // verus!
