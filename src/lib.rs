//! Resumable streaming engine of a command-based compressor: a fixed framing
//! header, a compressor and a decompressor that hand control back whenever
//! input or output runs out, and a bounded queue protocol between a
//! byte-producing stage and a command-consuming stage.
pub mod interface;
pub mod header;
pub mod queue;
pub mod threading;
pub mod codec;
pub mod compressor;
pub mod decompressor;

pub use interface::{
    BlockSwitch, Command, CopyCommand, DictCommand, DivansOutputResult, DivansResult,
    LiteralCommand, MemoryRange, PredictionModeContextMap,
};
pub use header::{make_header, HeaderParser, HEADER_LENGTH, MAX_WINDOW_SIZE, MIN_WINDOW_SIZE};
pub use queue::BoundedQueue;
pub use threading::{
    CommandResult, MainToThread, SerialWorker, ThreadData, ThreadToMain, ThreadToMainDemuxer,
};
pub use codec::{CommandAssembler, CommandEncoder, StreamDecoder, CMD_BUFFER_SIZE};
pub use compressor::{DivansCompressor, DivansCompressorFactory, DivansCompressorFactoryStruct};
pub use decompressor::{
    DivansDecompressor, DivansDecompressorFactory, DivansDecompressorFactoryStruct,
};
