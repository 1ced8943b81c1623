use vstd::prelude::*;
use crate::interface::{
    Command, DivansOutputResult, LiteralCommand, MemoryRange, PredictionModeContextMap,
};
use crate::queue::BoundedQueue;

verus! {

/// A unit sent from the producer to the consumer.
#[derive(Debug, PartialEq, Eq)]
pub enum ThreadData {
    Data(MemoryRange),
    Eof,
}

/// A unit sent from the consumer back to the producer.
#[derive(Debug, PartialEq, Eq)]
pub enum CommandResult {
    Cmd(Command),
    Eof,
    /// A drained buffer, handed back for reuse.
    ProcessedData(MemoryRange),
}

/// The contents and bounds of the three queues between the two sides, oldest item first.
pub struct QueuesView {
    pub data: Seq<ThreadData>,
    pub context_maps: Seq<PredictionModeContextMap>,
    pub results: Seq<CommandResult>,
    pub data_capacity: nat,
    pub context_map_capacity: nat,
    pub result_capacity: nat,
}

/// Whether `c` hands back a buffer whose backing is `backing` and whose unread part is
/// empty at `end`.
pub open spec fn is_drained_buffer(c: CommandResult, backing: Seq<u8>, end: nat) -> bool {
    match c {
        CommandResult::ProcessedData(m) => m.backing() == backing && m.lo() == end && m.hi() == end,
        _ => false,
    }
}

/// The queues that connect the producer and the consumer, as both sides see them.
pub trait PipelineQueues {
    spec fn queues(&self) -> QueuesView;

    spec fn wf(&self) -> bool;
}

/// The producer's side: it sends byte ranges and context maps, and receives results.
pub trait MainToThread: PipelineQueues {
    /// Queues a context map; fails, changing nothing, when that queue is full.
    fn push_context_map(&mut self, cm: PredictionModeContextMap) -> (r: Result<(), ()>)
        requires
            old(self).wf(),
        ensures
            final(self).wf(),
            old(self).queues().context_maps.len() >= old(self).queues().context_map_capacity ==> r
                == Err::<(), ()>(()) && final(self).queues() == old(self).queues(),
            old(self).queues().context_maps.len() < old(self).queues().context_map_capacity ==> r
                == Ok::<(), ()>(()) && final(self).queues() == (QueuesView {
                context_maps: old(self).queues().context_maps.push(cm),
                ..old(self).queues()
            }),
    ;

    /// Queues a byte range; fails, changing nothing, when that queue is full.
    fn push(&mut self, data: MemoryRange) -> (r: Result<(), ()>)
        requires
            old(self).wf(),
        ensures
            final(self).wf(),
            old(self).queues().data.len() >= old(self).queues().data_capacity ==> r == Err::<
                (),
                (),
            >(()) && final(self).queues() == old(self).queues(),
            old(self).queues().data.len() < old(self).queues().data_capacity ==> r == Ok::<
                (),
                (),
            >(()) && final(self).queues() == (QueuesView {
                data: old(self).queues().data.push(ThreadData::Data(data)),
                ..old(self).queues()
            }),
    ;

    /// Takes the oldest result; the caller must know that one is there.
    fn pull(&mut self) -> (r: CommandResult)
        requires
            old(self).wf(),
            old(self).queues().results.len() > 0,
        ensures
            final(self).wf(),
            r == old(self).queues().results[0],
            final(self).queues() == (QueuesView {
                results: old(self).queues().results.drop_first(),
                ..old(self).queues()
            }),
    ;
}

/// The consumer's side: it receives byte ranges and context maps, and sends results.
pub trait ThreadToMain: PipelineQueues {
    /// Takes the oldest data item; the caller must know that one is there.
    fn pull_data(&mut self) -> (r: ThreadData)
        requires
            old(self).wf(),
            old(self).queues().data.len() > 0,
        ensures
            final(self).wf(),
            r == old(self).queues().data[0],
            final(self).queues() == (QueuesView {
                data: old(self).queues().data.drop_first(),
                ..old(self).queues()
            }),
    ;

    /// Takes the oldest context map; the caller must know that one is there.
    fn pull_context_map(&mut self) -> (r: PredictionModeContextMap)
        requires
            old(self).wf(),
            old(self).queues().context_maps.len() > 0,
        ensures
            final(self).wf(),
            r == old(self).queues().context_maps[0],
            final(self).queues() == (QueuesView {
                context_maps: old(self).queues().context_maps.drop_first(),
                ..old(self).queues()
            }),
    ;

    /// A literal command of length `len` whose bytes are still to be filled.
    fn alloc_literal(&mut self, len: usize) -> (r: LiteralCommand)
        requires
            old(self).wf(),
        ensures
            final(self).wf(),
            final(self).queues() == old(self).queues(),
            r.data@.len() == 0,
            r.len == len,
    ;

    /// Queues a result for the producer. When that queue is full nothing changes,
    /// the status asks for more output room, and the result is handed back.
    fn push_command(&mut self, cmd: CommandResult) -> (r: (DivansOutputResult, Option<CommandResult>))
        requires
            old(self).wf(),
        ensures
            final(self).wf(),
            old(self).queues().results.len() >= old(self).queues().result_capacity ==> r == (
            DivansOutputResult::NeedsMoreOutput, Some(cmd)) && final(self).queues()
                == old(self).queues(),
            old(self).queues().results.len() < old(self).queues().result_capacity ==> r == (
            DivansOutputResult::Success, None::<CommandResult>) && final(self).queues() == (QueuesView {
                results: old(self).queues().results.push(cmd),
                ..old(self).queues()
            }),
    ;
}

/// Capacity of the data queue of a `SerialWorker`.
pub const SERIAL_DATA_CAPACITY: usize = 2;

/// Capacity of the context map queue of a `SerialWorker`.
pub const SERIAL_CONTEXT_MAP_CAPACITY: usize = 2;

/// Capacity of the result queue of a `SerialWorker`.
pub const SERIAL_RESULT_CAPACITY: usize = 3;

/// Both sides of the pipeline in one object, for use on a single execution context.
pub struct SerialWorker {
    data: BoundedQueue<ThreadData>,
    cm: BoundedQueue<PredictionModeContextMap>,
    result: BoundedQueue<CommandResult>,
}

impl PipelineQueues for SerialWorker {
    closed spec fn queues(&self) -> QueuesView {
        QueuesView {
            data: self.data@,
            context_maps: self.cm@,
            results: self.result@,
            data_capacity: self.data.max_len(),
            context_map_capacity: self.cm.max_len(),
            result_capacity: self.result.max_len(),
        }
    }

    closed spec fn wf(&self) -> bool {
        self.data.wf() && self.cm.wf() && self.result.wf()
    }
}

impl SerialWorker {
    /// A worker with empty queues.
    pub fn new() -> (r: Self)
        ensures
            r.wf(),
            r.queues() == (QueuesView {
                data: Seq::empty(),
                context_maps: Seq::empty(),
                results: Seq::empty(),
                data_capacity: SERIAL_DATA_CAPACITY as nat,
                context_map_capacity: SERIAL_CONTEXT_MAP_CAPACITY as nat,
                result_capacity: SERIAL_RESULT_CAPACITY as nat,
            }),
    {
        SerialWorker {
            data: BoundedQueue::new(SERIAL_DATA_CAPACITY),
            cm: BoundedQueue::new(SERIAL_CONTEXT_MAP_CAPACITY),
            result: BoundedQueue::new(SERIAL_RESULT_CAPACITY),
        }
    }

    /// Queues the end-of-stream marker; fails, changing nothing, when the data queue is full.
    pub fn push_eof(&mut self) -> (r: Result<(), ()>)
        requires
            old(self).wf(),
        ensures
            final(self).wf(),
            old(self).queues().data.len() >= old(self).queues().data_capacity ==> r == Err::<
                (),
                (),
            >(()) && final(self).queues() == old(self).queues(),
            old(self).queues().data.len() < old(self).queues().data_capacity ==> r == Ok::<
                (),
                (),
            >(()) && final(self).queues() == (QueuesView {
                data: old(self).queues().data.push(ThreadData::Eof),
                ..old(self).queues()
            }),
    {
        match self.data.push(ThreadData::Eof) {
            Ok(()) => Ok(()),
            Err(_) => Err(()),
        }
    }
}

impl MainToThread for SerialWorker {
    fn push_context_map(&mut self, cm: PredictionModeContextMap) -> (r: Result<(), ()>) {
        match self.cm.push(cm) {
            Ok(()) => Ok(()),
            Err(_) => Err(()),
        }
    }

    fn push(&mut self, data: MemoryRange) -> (r: Result<(), ()>) {
        match self.data.push(ThreadData::Data(data)) {
            Ok(()) => Ok(()),
            Err(_) => Err(()),
        }
    }

    fn pull(&mut self) -> (r: CommandResult) {
        self.result.pop()
    }
}

impl ThreadToMain for SerialWorker {
    fn pull_data(&mut self) -> (r: ThreadData) {
        self.data.pop()
    }

    fn pull_context_map(&mut self) -> (r: PredictionModeContextMap) {
        self.cm.pop()
    }

    fn alloc_literal(&mut self, len: usize) -> (r: LiteralCommand) {
        LiteralCommand { data: Vec::new(), len }
    }

    fn push_command(&mut self, cmd: CommandResult) -> (r: (DivansOutputResult, Option<CommandResult>)) {
        match self.result.push(cmd) {
            Ok(()) => (DivansOutputResult::Success, None),
            Err(refused) => (DivansOutputResult::NeedsMoreOutput, Some(refused)),
        }
    }
}

/// Number of byte streams a demuxer presents; only the first carries data.
pub const NUM_STREAMS: usize = 2;

/// Presents the consumer side of a pipeline as a pull-based byte stream. Drained
/// buffers go back to the producer for reuse.
pub struct ThreadToMainDemuxer<W> {
    worker: W,
    slice: MemoryRange,
    eof: bool,
}

impl<W: ThreadToMain> PipelineQueues for ThreadToMainDemuxer<W> {
    closed spec fn queues(&self) -> QueuesView {
        self.worker.queues()
    }

    closed spec fn wf(&self) -> bool {
        self.worker.wf()
    }
}

impl<W: ThreadToMain> ThreadToMainDemuxer<W> {
    /// The wrapped consumer side.
    pub closed spec fn worker_view(&self) -> W {
        self.worker
    }

    /// The range currently held.
    pub closed spec fn held(&self) -> MemoryRange {
        self.slice
    }

    /// Whether the end-of-stream marker was pulled.
    pub closed spec fn eof_seen(&self) -> bool {
        self.eof
    }

    /// As a consumer side itself, the demuxer shows its worker's queues.
    pub proof fn lemma_queues(&self)
        ensures
            self.wf() == self.worker_view().wf(),
            self.queues() == self.worker_view().queues(),
    {
    }

    /// The range held once an empty one has been refilled from the data queue.
    pub open spec fn held_after_pull(&self) -> MemoryRange {
        if self.held()@.len() > 0 {
            self.held()
        } else {
            match self.worker_view().queues().data[0] {
                ThreadData::Data(r) => r,
                ThreadData::Eof => self.held(),
            }
        }
    }

    /// Whether the end of the stream has been seen once an empty range has been refilled.
    pub open spec fn eof_after_pull(&self) -> bool {
        if self.held()@.len() > 0 {
            self.eof_seen()
        } else {
            self.eof_seen() || self.worker_view().queues().data[0] == ThreadData::Eof
        }
    }

    /// The queues once an empty range has been refilled.
    pub open spec fn queues_after_pull(&self) -> QueuesView {
        if self.held()@.len() > 0 {
            self.worker_view().queues()
        } else {
            QueuesView { data: self.worker_view().queues().data.drop_first(), ..self.worker_view().queues() }
        }
    }

    /// Whether a refill, if one is needed, has an item to take and drops no buffer: a
    /// drained buffer still held must first go back through `free_demux`.
    pub open spec fn can_pull(&self) -> bool {
        self.held()@.len() > 0 || (self.held().backing().len() == 0
            && self.worker_view().queues().data.len() > 0)
    }

    pub fn new(w: W) -> (r: Self)
        ensures
            r.worker_view() == w,
            r.held()@.len() == 0,
            r.held().backing().len() == 0,
            !r.eof_seen(),
    {
        ThreadToMainDemuxer { worker: w, slice: MemoryRange::empty(), eof: false }
    }

    /// Gives the wrapped consumer side back.
    pub fn into_worker(self) -> (r: W)
        ensures
            r == self.worker_view(),
    {
        self.worker
    }

    fn pull_if_necessary(&mut self)
        requires
            old(self).worker_view().wf(),
            old(self).can_pull(),
        ensures
            final(self).worker_view().wf(),
            final(self).held() == old(self).held_after_pull(),
            final(self).eof_seen() == old(self).eof_after_pull(),
            final(self).worker_view().queues() == old(self).queues_after_pull(),
    {
        if self.slice.len() == 0 {
            match self.worker.pull_data() {
                ThreadData::Eof => self.eof = true,
                ThreadData::Data(array) => self.slice = array,
            }
        }
    }

    /// Refills an empty range and returns the unread bytes of the data stream.
    pub fn read_buffer(&mut self) -> (r: &[u8])
        requires
            old(self).worker_view().wf(),
            old(self).can_pull(),
        ensures
            final(self).worker_view().wf(),
            final(self).held() == old(self).held_after_pull(),
            final(self).eof_seen() == old(self).eof_after_pull(),
            final(self).worker_view().queues() == old(self).queues_after_pull(),
            r@ == final(self).held()@,
    {
        self.pull_if_necessary();
        self.slice.slice()
    }

    /// The number of unread bytes held for `stream_id`.
    pub fn data_ready(&self, stream_id: usize) -> (r: usize)
        requires
            stream_id == 0,
        ensures
            r == self.held()@.len(),
    {
        self.slice.len()
    }

    /// The unread bytes held for `stream_id`, left in place.
    pub fn peek(&self, stream_id: usize) -> (r: &[u8])
        requires
            stream_id == 0,
        ensures
            r@ == self.held()@,
    {
        self.slice.slice()
    }

    /// Hands over the whole held range, refilling it first if it is empty.
    pub fn pop(&mut self, stream_id: usize) -> (r: MemoryRange)
        requires
            stream_id == 0,
            old(self).worker_view().wf(),
            old(self).can_pull(),
        ensures
            final(self).worker_view().wf(),
            r == old(self).held_after_pull(),
            old(self).held()@.len() == 0 && old(self).worker_view().queues().data[0]
                == ThreadData::Eof ==> r@.len() == 0 && r.backing().len() == 0,
            final(self).eof_seen() == old(self).eof_after_pull(),
            final(self).worker_view().queues() == old(self).queues_after_pull(),
            final(self).held()@.len() == 0,
            final(self).held().backing().len() == 0,
    {
        self.pull_if_necessary();
        self.slice.take()
    }

    /// Hands a drained range back to the producer; when the result queue is full
    /// the range stays held.
    fn recycle(&mut self)
        requires
            old(self).worker_view().wf(),
        ensures
            final(self).worker_view().wf(),
            final(self).eof_seen() == old(self).eof_seen(),
            ({
                let q = old(self).worker_view().queues();
                if q.results.len() < q.result_capacity {
                    &&& final(self).held().backing().len() == 0
                    &&& final(self).held()@.len() == 0
                    &&& final(self).worker_view().queues() == (QueuesView {
                        results: q.results.push(CommandResult::ProcessedData(old(self).held())),
                        ..q
                    })
                } else {
                    &&& final(self).held() == old(self).held()
                    &&& final(self).worker_view().queues() == q
                }
            }),
    {
        let held = self.slice.take();
        let (_, refused) = self.worker.push_command(CommandResult::ProcessedData(held));
        if let Some(CommandResult::ProcessedData(back)) = refused {
            self.slice = back;
        }
    }

    /// Marks `count` held bytes as read. A buffer read to its end goes back to the
    /// producer as processed data, and the demuxer then holds nothing; while the
    /// result queue is full the drained buffer stays held instead.
    pub fn consume(&mut self, stream_id: usize, count: usize)
        requires
            stream_id == 0,
            old(self).worker_view().wf(),
            count <= old(self).held()@.len(),
        ensures
            final(self).worker_view().wf(),
            final(self).eof_seen() == old(self).eof_seen(),
            ({
                let h = old(self).held();
                let q = old(self).worker_view().queues();
                if count == h@.len() && h.backing().len() != 0 {
                    &&& q.results.len() < q.result_capacity ==> {
                        &&& final(self).held()@.len() == 0
                        &&& final(self).held().backing().len() == 0
                        &&& final(self).worker_view().queues().results.len() == q.results.len() + 1
                        &&& final(self).worker_view().queues() == (QueuesView {
                            results: final(self).worker_view().queues().results,
                            ..q
                        })
                        &&& final(self).worker_view().queues().results.drop_last() == q.results
                        &&& is_drained_buffer(
                            final(self).worker_view().queues().results.last(),
                            h.backing(),
                            h.hi(),
                        )
                    }
                    &&& q.results.len() >= q.result_capacity ==> {
                        &&& final(self).worker_view().queues() == q
                        &&& final(self).held()@.len() == 0
                        &&& final(self).held().backing() == h.backing()
                        &&& final(self).held().lo() == h.hi()
                        &&& final(self).held().hi() == h.hi()
                    }
                } else {
                    &&& final(self).held()@ == h@.subrange(count as int, h@.len() as int)
                    &&& final(self).held().backing() == h.backing()
                    &&& final(self).held().lo() == h.lo() + count
                    &&& final(self).held().hi() == h.hi()
                    &&& final(self).worker_view() == old(self).worker_view()
                }
            }),
    {
        self.slice.advance(count);
        if self.slice.len() == 0 && self.slice.backing_len() != 0 {
            self.recycle();
        }
    }

    /// Whether the demuxer holds a drained buffer that the result queue had no room
    /// for; `free_demux` hands it back, and until then no refill may run.
    pub fn holds_drained_buffer(&self) -> (r: bool)
        ensures
            r == (self.held()@.len() == 0 && self.held().backing().len() != 0),
    {
        self.slice.len() == 0 && self.slice.backing_len() != 0
    }

    /// Whether the stream has ended and every held byte was read.
    pub fn encountered_eof(&self) -> (r: bool)
        ensures
            r == (self.eof_seen() && self.held()@.len() == 0),
    {
        self.eof && self.slice.len() == 0
    }

    /// Hands a held buffer back to the producer before the demuxer is dropped; while
    /// the result queue is full the buffer stays held.
    pub fn free_demux(&mut self)
        requires
            old(self).worker_view().wf(),
        ensures
            final(self).worker_view().wf(),
            final(self).eof_seen() == old(self).eof_seen(),
            ({
                let q = old(self).worker_view().queues();
                if old(self).held().backing().len() != 0 && q.results.len() < q.result_capacity {
                    &&& final(self).held().backing().len() == 0
                    &&& final(self).worker_view().queues() == (QueuesView {
                        results: q.results.push(CommandResult::ProcessedData(old(self).held())),
                        ..q
                    })
                } else {
                    &&& final(self).held() == old(self).held()
                    &&& final(self).worker_view().queues() == q
                }
            }),
    {
        if self.slice.backing_len() != 0 {
            self.recycle();
        }
    }
}

impl<W: ThreadToMain> ThreadToMain for ThreadToMainDemuxer<W> {
    fn pull_data(&mut self) -> (r: ThreadData) {
        self.worker.pull_data()
    }

    fn pull_context_map(&mut self) -> (r: PredictionModeContextMap) {
        self.worker.pull_context_map()
    }

    fn alloc_literal(&mut self, len: usize) -> (r: LiteralCommand) {
        self.worker.alloc_literal(len)
    }

    fn push_command(&mut self, cmd: CommandResult) -> (r: (DivansOutputResult, Option<CommandResult>)) {
        self.worker.push_command(cmd)
    }
}

} // verus!
