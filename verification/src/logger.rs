//! Splitting of process output into log lines.
//!
//! The two output streams of a process are read in chunks of arbitrary
//! boundaries. Each stream has a buffer; a read appends its chunk there and
//! takes out the first complete line, if there is one.
use crate::proto::{Log, LogKind, LogView};
use crate::ProcID;
use vstd::prelude::*;

verus! {

/// Line feed, the last byte of a line.
pub const LINE_FEED: u8 = 10;

/// Carriage return, which may stand before the line feed.
pub const CARRIAGE_RETURN: u8 = 13;

/// Exactly one line: the last byte is a line feed and no other byte is.
pub open spec fn is_line(bytes: Seq<u8>) -> bool {
    &&& bytes.len() > 0
    &&& bytes.last() == LINE_FEED
    &&& forall|i: int| 0 <= i < bytes.len() - 1 ==> bytes[i] != LINE_FEED
}

/// `all` begins with the line `taken` and `rest` follows it; where `all` holds
/// no complete line, nothing is taken.
pub open spec fn takes_line(all: Seq<u8>, taken: Option<Seq<u8>>, rest: Seq<u8>) -> bool {
    match taken {
        Some(line) => is_line(line) && all == line + rest,
        None => !all.contains(LINE_FEED) && rest == all,
    }
}

/// Produces the logs of one process.
#[derive(Debug, Clone, Copy, PartialEq, Eq)]
pub struct Logger {
    pub proc_id: ProcID,
}

/// What each stream has delivered and no log has carried yet.
#[derive(Debug, PartialEq, Eq)]
pub struct LogBuffers {
    pub stdout: Vec<u8>,
    pub stderr: Vec<u8>,
}

/// What [`LogBuffers`] stand for.
pub struct LogBuffersView {
    pub stdout: Seq<u8>,
    pub stderr: Seq<u8>,
}

impl View for LogBuffers {
    type V = LogBuffersView;

    open spec fn view(&self) -> LogBuffersView {
        LogBuffersView { stdout: self.stdout@, stderr: self.stderr@ }
    }
}

impl LogBuffersView {
    pub open spec fn of(self, kind: LogKind) -> Seq<u8> {
        match kind {
            LogKind::Stdout => self.stdout,
            LogKind::Stderr => self.stderr,
        }
    }
}

/// What is to be done after a read.
#[derive(Debug)]
pub enum LogStep {
    /// Read again.
    Wait,
    /// Publish the log, then read again.
    Emit(Log),
    /// End with the read error of the process.
    Stop(ProcID, std::io::Error),
}

impl LogStep {
    /// The log that the step publishes.
    pub open spec fn emitted(self) -> Option<LogView> {
        match self {
            LogStep::Emit(log) => Some(log@),
            _ => None,
        }
    }
}

impl LogBuffers {
    pub fn new() -> (r: Self)
        ensures
            r@.stdout == Seq::<u8>::empty(),
            r@.stderr == Seq::<u8>::empty(),
    {
        LogBuffers {
            stdout: Vec::with_capacity(crate::proto::LOG_BUFFER_SIZE),
            stderr: Vec::with_capacity(crate::proto::LOG_BUFFER_SIZE),
        }
    }
}

/// Index of the last byte of the first complete line. Both a bare line feed and
/// a carriage return with a line feed end a line.
fn line_end_index(buffer: &Vec<u8>) -> (r: Option<usize>)
    ensures
        match r {
            Some(end) => end < buffer.len() && is_line(buffer@.take(end + 1)),
            None => !buffer@.contains(LINE_FEED),
        },
{
    let mut index: usize = 0;
    while index < buffer.len()
        invariant
            index <= buffer@.len(),
            forall|j: int| 0 <= j < index ==> buffer@[j] != LINE_FEED,
        decreases buffer@.len() - index,
    {
        let current_elem = buffer[index];
        if current_elem == CARRIAGE_RETURN {
            if index + 1 < buffer.len() && buffer[index + 1] == LINE_FEED {
                return Some(index + 1);
            }
        } else if current_elem == LINE_FEED {
            return Some(index);
        }
        index += 1;
    }
    None
}

impl Logger {
    pub fn new(proc_id: ProcID) -> (r: Self)
        ensures
            r.proc_id == proc_id,
    {
        Logger { proc_id }
    }

    /// A read of `chunk` from the stream `kind` turns the buffers `pre` into
    /// `post` and publishes `out`. An empty chunk changes nothing, even where a
    /// complete line is waiting; any other one publishes the first complete
    /// line of its stream's buffer, and no more than that one.
    pub open spec fn reads(
        self,
        pre: LogBuffersView,
        kind: LogKind,
        chunk: Seq<u8>,
        out: Option<LogView>,
        post: LogBuffersView,
    ) -> bool {
        if chunk.len() == 0 {
            out is None && post == pre
        } else {
            &&& forall|other: LogKind| other != kind ==> #[trigger] post.of(other) == pre.of(other)
            &&& takes_line(
                pre.of(kind) + chunk,
                match out {
                    Some(log) => Some(log.data),
                    None => None,
                },
                post.of(kind),
            )
            &&& out matches Some(log) ==> log.process == self.proc_id && log.kind == kind
        }
    }

    /// Takes the first complete line out of `buffer`, as a log of this process.
    pub fn process_buffer(&self, buffer: &mut Vec<u8>, kind: LogKind) -> (r: Option<Log>)
        ensures
            takes_line(
                old(buffer)@,
                match r {
                    Some(log) => Some(log@.data),
                    None => None,
                },
                final(buffer)@,
            ),
            r matches Some(log) ==> log.process == self.proc_id && log.kind == kind,
    {
        match line_end_index(buffer) {
            Some(end_index) => {
                let mut to_send = buffer.split_off(end_index + 1);
                std::mem::swap(buffer, &mut to_send);
                assert(old(buffer)@ =~= to_send@ + buffer@);
                Some(Log { process: self.proc_id, kind, data: to_send })
            },
            None => None,
        }
    }

    /// What follows from one read of the stream `kind`: `read` says how many
    /// bytes at the front of `chunk` were filled, or how the read failed.
    pub fn work(
        &self,
        buffers: &mut LogBuffers,
        kind: LogKind,
        chunk: &Vec<u8>,
        read: Result<usize, std::io::Error>,
    ) -> (step: LogStep)
        requires
            read matches Ok(n) ==> n <= chunk@.len(),
        ensures
            match read {
                Ok(n) => {
                    &&& !(step is Stop)
                    &&& self.reads(
                        old(buffers)@,
                        kind,
                        chunk@.take(n as int),
                        step.emitted(),
                        final(buffers)@,
                    )
                },
                Err(e) => step == LogStep::Stop(self.proc_id, e) && final(buffers)@ == old(buffers)@,
            },
    {
        let read_count: usize = match read {
            Ok(n) => n,
            Err(e) => return LogStep::Stop(self.proc_id, e),
        };
        if read_count == 0 {
            return LogStep::Wait;
        }
        let bytes = vstd::slice::slice_subrange(chunk.as_slice(), 0, read_count);
        assert(bytes@ =~= chunk@.take(read_count as int));
        let log = match kind {
            LogKind::Stdout => {
                buffers.stdout.extend_from_slice(bytes);
                assert(buffers.stdout@ =~= old(buffers).stdout@ + bytes@);
                self.process_buffer(&mut buffers.stdout, kind)
            },
            LogKind::Stderr => {
                buffers.stderr.extend_from_slice(bytes);
                assert(buffers.stderr@ =~= old(buffers).stderr@ + bytes@);
                self.process_buffer(&mut buffers.stderr, kind)
            },
        };
        match log {
            Some(log) => LogStep::Emit(log),
            None => LogStep::Wait,
        }
    }
}

/// One read of a stream and what it published.
pub struct ReadRecord {
    pub kind: LogKind,
    pub chunk: Seq<u8>,
    pub out: Option<LogView>,
}

impl Logger {
    /// The buffers went through `states` while `reads` happened, one after the other.
    pub open spec fn history(
        self,
        states: Seq<LogBuffersView>,
        reads: Seq<ReadRecord>,
    ) -> bool {
        &&& states.len() == reads.len() + 1
        &&& forall|i: int|
            #![trigger reads[i]]
            0 <= i < reads.len() ==> self.reads(
                states[i],
                reads[i].kind,
                reads[i].chunk,
                reads[i].out,
                states[i + 1],
            )
    }
}

/// All that the stream `kind` delivered.
pub open spec fn received(reads: Seq<ReadRecord>, kind: LogKind) -> Seq<u8>
    decreases reads.len(),
{
    if reads.len() == 0 {
        Seq::empty()
    } else if reads.last().kind == kind {
        received(reads.drop_last(), kind) + reads.last().chunk
    } else {
        received(reads.drop_last(), kind)
    }
}

/// The data of all logs of the stream `kind`, in the order of publication.
pub open spec fn published(reads: Seq<ReadRecord>, kind: LogKind) -> Seq<u8>
    decreases reads.len(),
{
    if reads.len() == 0 {
        Seq::empty()
    } else {
        let before = published(reads.drop_last(), kind);
        match reads.last().out {
            Some(log) if log.kind == kind => before + log.data,
            _ => before,
        }
    }
}

/// The line that is taken and what stays behind are determined by the bytes.
pub proof fn law_taken_line_is_unique(
    all: Seq<u8>,
    taken1: Option<Seq<u8>>,
    rest1: Seq<u8>,
    taken2: Option<Seq<u8>>,
    rest2: Seq<u8>,
)
    requires
        takes_line(all, taken1, rest1),
        takes_line(all, taken2, rest2),
    ensures
        taken1 == taken2,
        rest1 == rest2,
{
    if let Some(line1) = taken1 {
        assert(all[line1.len() - 1] == LINE_FEED);
        if let Some(line2) = taken2 {
            assert(all[line2.len() - 1] == LINE_FEED);
            assert(line2.len() - 1 < line1.len() - 1 ==> line1[line2.len() - 1] != LINE_FEED);
            assert(line1.len() - 1 < line2.len() - 1 ==> line2[line1.len() - 1] != LINE_FEED);
            assert(line1 =~= all.take(line1.len() as int));
            assert(line2 =~= all.take(line2.len() as int));
            assert(rest1 =~= all.skip(line1.len() as int));
            assert(rest2 =~= all.skip(line2.len() as int));
        }
    } else if let Some(line2) = taken2 {
        assert(all[line2.len() - 1] == LINE_FEED);
    }
}

/// No byte is lost, invented, reordered or moved between the streams: at any
/// time, what a stream's buffer held at first and all that the stream delivered
/// is what its logs carried followed by what its buffer holds.
pub proof fn law_bytes_are_conserved(
    logger: Logger,
    states: Seq<LogBuffersView>,
    reads: Seq<ReadRecord>,
    kind: LogKind,
)
    requires
        logger.history(states, reads),
    ensures
        states.first().of(kind) + received(reads, kind) == published(reads, kind)
            + states.last().of(kind),
    decreases reads.len(),
{
    if reads.len() > 0 {
        let n = reads.len() - 1;
        let earlier = reads.drop_last();
        assert(logger.history(states.drop_last(), earlier)) by {
            assert forall|i: int| #![trigger earlier[i]] 0 <= i < earlier.len() implies logger.reads(
                states.drop_last()[i],
                earlier[i].kind,
                earlier[i].chunk,
                earlier[i].out,
                states.drop_last()[i + 1],
            ) by {
                assert(earlier[i] == reads[i]);
            }
        }
        law_bytes_are_conserved(logger, states.drop_last(), earlier, kind);
        let first = states.first().of(kind);
        let last = reads[n];
        let pre = states[n].of(kind);
        let post = states[n + 1].of(kind);
        assert(logger.reads(states[n], last.kind, last.chunk, last.out, states[n + 1]));
        assert(first + received(earlier, kind) == published(earlier, kind) + pre);
        if last.kind == kind {
            assert(first + (received(earlier, kind) + last.chunk) =~= (first + received(
                earlier,
                kind,
            )) + last.chunk);
            assert((published(earlier, kind) + pre) + last.chunk =~= published(earlier, kind) + (pre
                + last.chunk));
            if let Some(log) = last.out {
                assert(published(earlier, kind) + (log.data + post) =~= (published(earlier, kind)
                    + log.data) + post);
            } else if last.chunk.len() == 0 {
                assert(pre + last.chunk =~= pre);
            }
        }
    } else {
        assert(states.first() == states.last());
    }
}

/// Every log is one line of the process and of the stream that was read.
pub proof fn law_logs_are_lines(
    logger: Logger,
    states: Seq<LogBuffersView>,
    reads: Seq<ReadRecord>,
    i: int,
)
    requires
        logger.history(states, reads),
        0 <= i < reads.len(),
    ensures
        reads[i].out matches Some(log) ==> {
            &&& is_line(log.data)
            &&& log.process == logger.proc_id
            &&& log.kind == reads[i].kind
        },
{
}

/// Where a chunk completes at most one line and no complete line was waiting,
/// none is waiting afterwards: the line is published by the read that
/// completes it.
pub proof fn law_completed_line_is_published(
    logger: Logger,
    pre: LogBuffersView,
    kind: LogKind,
    chunk: Seq<u8>,
    out: Option<LogView>,
    post: LogBuffersView,
)
    requires
        logger.reads(pre, kind, chunk, out, post),
        !pre.of(kind).contains(LINE_FEED),
        forall|i: int, j: int|
            0 <= i < j < chunk.len() && chunk[i] == LINE_FEED ==> chunk[j] != LINE_FEED,
    ensures
        !post.of(kind).contains(LINE_FEED),
        out is Some <==> chunk.contains(LINE_FEED),
{
    if chunk.len() > 0 {
        match out {
            Some(log) => {
                lemma_only_feed_is_taken(pre.of(kind), chunk, log.data, post.of(kind));
            },
            None => {
                if chunk.contains(LINE_FEED) {
                    let all = pre.of(kind) + chunk;
                    let k = chunk.index_of(LINE_FEED);
                    assert(all[pre.of(kind).len() + k] == chunk[k]);
                    assert(all.contains(LINE_FEED));
                }
            },
        }
    }
}

/// Where `before` holds no line feed and `chunk` at most one, a line at the front
/// of both together takes it out, and none stays in the rest.
proof fn lemma_only_feed_is_taken(
    before: Seq<u8>,
    chunk: Seq<u8>,
    line: Seq<u8>,
    rest: Seq<u8>,
)
    requires
        before + chunk == line + rest,
        line.len() > 0,
        line.last() == LINE_FEED,
        !before.contains(LINE_FEED),
        forall|i: int, j: int|
            0 <= i < j < chunk.len() && chunk[i] == LINE_FEED ==> chunk[j] != LINE_FEED,
    ensures
        chunk.contains(LINE_FEED),
        !rest.contains(LINE_FEED),
{
    let all = before + chunk;
    let start = before.len();
    let end = line.len() - 1;
    assert(all.len() == start + chunk.len());
    assert((line + rest).len() == line.len() + rest.len());
    assert(all[end] == line[end]) by {
        assert((line + rest)[end] == line[end]);
    }
    if end < start {
        assert(all[end] == before[end]);
        assert(before.contains(LINE_FEED));
    }
    assert(all[end] == chunk[end - start]);
    if rest.contains(LINE_FEED) {
        let k = rest.index_of(LINE_FEED);
        assert((line + rest)[end + 1 + k] == rest[k]);
        assert(all[end + 1 + k] == chunk[end + 1 + k - start]);
    }
}

/// A complete line that is waiting in a stream's buffer is published by the
/// next read of that stream that delivers anything.
pub proof fn law_waiting_line_is_published(
    logger: Logger,
    pre: LogBuffersView,
    kind: LogKind,
    chunk: Seq<u8>,
    out: Option<LogView>,
    post: LogBuffersView,
)
    requires
        logger.reads(pre, kind, chunk, out, post),
        pre.of(kind).contains(LINE_FEED),
        chunk.len() > 0,
    ensures
        out matches Some(log) && log.data.is_prefix_of(pre.of(kind)),
{
    let k = pre.of(kind).index_of(LINE_FEED);
    let all = pre.of(kind) + chunk;
    assert(all[k] == LINE_FEED);
    let log = out->Some_0;
    assert(log.data.len() <= k + 1) by {
        if log.data.len() > k + 1 {
            assert(log.data[k] == all[k]);
        }
    }
    assert forall|i: int| 0 <= i < log.data.len() implies log.data[i] == pre.of(kind)[i] by {
        assert(log.data[i] == all[i]);
    }
    assert(log.data =~= pre.of(kind).subrange(0, log.data.len() as int));
}

/// `end` is the place of the first line feed, the byte 10, in `all`.
pub open spec fn is_first_feed(all: Seq<u8>, end: int) -> bool {
    &&& 0 <= end < all.len()
    &&& all[end] == 10
    &&& forall|i: int| 0 <= i < end ==> all[i] != 10
}

/// Where `all` has a line feed, what is taken from it ends with the first one,
/// whatever stands before and behind it, and the rest is all that stands behind.
proof fn lemma_first_line_is_taken(
    all: Seq<u8>,
    taken: Option<Seq<u8>>,
    rest: Seq<u8>,
    end: int,
)
    requires
        takes_line(all, taken, rest),
        is_first_feed(all, end),
    ensures
        taken == Some(all.take(end + 1)),
        rest == all.skip(end + 1),
{
    let line = all.take(end + 1);
    assert(all =~= line + all.skip(end + 1));
    assert(line.last() == LINE_FEED);
    assert(is_line(line)) by {
        assert forall|i: int| 0 <= i < line.len() - 1 implies line[i] != LINE_FEED by {
            assert(line[i] == all[i]);
        }
    }
    law_taken_line_is_unique(all, taken, rest, Some(line), all.skip(end + 1));
}

/// A buffer that holds a line feed gives its bytes through the first one as a
/// log of the process and the stream, and keeps all that stand behind it.
pub proof fn law_first_line_is_taken_out(
    logger: Logger,
    buffer: &mut Vec<u8>,
    kind: LogKind,
    end: int,
    out: Option<Log>,
)
    requires
        call_ensures(Logger::process_buffer, (&logger, buffer, kind), out),
        is_first_feed(buffer@, end),
    ensures
        out matches Some(log) && log.process == logger.proc_id && log.kind == kind && log.data@
            == old(buffer)@.take(end + 1),
        final(buffer)@ == old(buffer)@.skip(end + 1),
{
    let taken = match out {
        Some(log) => Some(log@.data),
        None => None,
    };
    lemma_first_line_is_taken(buffer@, taken, final(buffer)@, end);
}

/// A buffer without a line feed gives nothing and stays as it is.
pub proof fn law_incomplete_line_stays(
    logger: Logger,
    buffer: &mut Vec<u8>,
    kind: LogKind,
    out: Option<Log>,
)
    requires
        call_ensures(Logger::process_buffer, (&logger, buffer, kind), out),
        !buffer@.contains(10u8),
    ensures
        out is None,
        final(buffer)@ == old(buffer)@,
{
    if let Some(log) = out {
        let end = log.data@.len() - 1;
        assert(buffer@[end] == log.data@[end]);
        assert(buffer@.contains(10u8));
    }
}

/// A read that delivers anything publishes, on either stream, what the stream's
/// buffer and the chunk hold through their first line feed, wherever that stands
/// and however many follow it. The rest stays in the buffer, and the other
/// stream's buffer stays as it is.
pub proof fn law_read_publishes_the_first_line(
    logger: Logger,
    buffers: &mut LogBuffers,
    kind: LogKind,
    chunk: Vec<u8>,
    n: usize,
    end: int,
    step: LogStep,
)
    requires
        0 < n <= chunk@.len(),
        call_ensures(
            Logger::work,
            (&logger, buffers, kind, &chunk, Ok::<usize, std::io::Error>(n)),
            step,
        ),
        kind == LogKind::Stdout ==> is_first_feed(buffers.stdout@ + chunk@.take(n as int), end),
        kind == LogKind::Stderr ==> is_first_feed(buffers.stderr@ + chunk@.take(n as int), end),
    ensures
        ({
            let before = if kind == LogKind::Stdout {
                old(buffers).stdout@
            } else {
                old(buffers).stderr@
            };
            let all = before + chunk@.take(n as int);
            &&& step matches LogStep::Emit(log) && log.process == logger.proc_id && log.kind == kind
                && log.data@ == all.take(end + 1)
            &&& kind == LogKind::Stdout ==> final(buffers).stdout@ == all.skip(end + 1)
                && final(buffers).stderr@ == old(buffers).stderr@
            &&& kind == LogKind::Stderr ==> final(buffers).stderr@ == all.skip(end + 1)
                && final(buffers).stdout@ == old(buffers).stdout@
        }),
{
    let delivered = chunk@.take(n as int);
    let taken = match step.emitted() {
        Some(log) => Some(log.data),
        None => None,
    };
    lemma_first_line_is_taken(
        buffers@.of(kind) + delivered,
        taken,
        final(buffers)@.of(kind),
        end,
    );
    assert(final(buffers)@.of(LogKind::Stdout) == final(buffers).stdout@);
    assert(final(buffers)@.of(LogKind::Stderr) == final(buffers).stderr@);
}

/// A read after which the stream has no complete line publishes nothing: all
/// that was delivered waits in the stream's buffer, behind what was there.
pub proof fn law_read_without_a_line_waits(
    logger: Logger,
    buffers: &mut LogBuffers,
    kind: LogKind,
    chunk: Vec<u8>,
    n: usize,
    step: LogStep,
)
    requires
        n <= chunk@.len(),
        call_ensures(
            Logger::work,
            (&logger, buffers, kind, &chunk, Ok::<usize, std::io::Error>(n)),
            step,
        ),
        kind == LogKind::Stdout ==> !(buffers.stdout@ + chunk@.take(n as int)).contains(10u8),
        kind == LogKind::Stderr ==> !(buffers.stderr@ + chunk@.take(n as int)).contains(10u8),
    ensures
        step == LogStep::Wait,
        kind == LogKind::Stdout ==> {
            &&& final(buffers).stdout@ == old(buffers).stdout@ + chunk@.take(n as int)
            &&& final(buffers).stderr@ == old(buffers).stderr@
        },
        kind == LogKind::Stderr ==> {
            &&& final(buffers).stderr@ == old(buffers).stderr@ + chunk@.take(n as int)
            &&& final(buffers).stdout@ == old(buffers).stdout@
        },
{
    let all = buffers@.of(kind) + chunk@.take(n as int);
    if n == 0 {
        assert(all =~= buffers@.of(kind));
    } else if let Some(log) = step.emitted() {
        let last = log.data.len() - 1;
        assert(all[last] == log.data[last]);
        assert(all.contains(10u8));
    }
    assert(final(buffers)@.of(LogKind::Stdout) == final(buffers).stdout@);
    assert(final(buffers)@.of(LogKind::Stderr) == final(buffers).stderr@);
}

/// A read that delivers nothing publishes nothing and changes nothing, and one
/// that fails ends the logger with the process and the error, whatever the
/// buffers hold.
pub proof fn law_empty_and_failed_reads(
    logger: Logger,
    buffers: &mut LogBuffers,
    kind: LogKind,
    chunk: Vec<u8>,
    read: Result<usize, std::io::Error>,
    step: LogStep,
)
    requires
        read == Ok::<usize, std::io::Error>(0) || read is Err,
        call_ensures(Logger::work, (&logger, buffers, kind, &chunk, read), step),
    ensures
        read is Ok ==> step == LogStep::Wait,
        read matches Err(e) ==> step == LogStep::Stop(logger.proc_id, e),
        final(buffers).stdout@ == old(buffers).stdout@,
        final(buffers).stderr@ == old(buffers).stderr@,
{
    assert(final(buffers)@ == buffers@);
}

/// A logger is that of the process it was made for, and starts with nothing in
/// the buffers of its streams.
pub proof fn law_new_logger_is_empty(proc_id: ProcID, logger: Logger, buffers: LogBuffers)
    requires
        call_ensures(Logger::new, (proc_id,), logger),
        call_ensures(LogBuffers::new, (), buffers),
    ensures
        logger.proc_id == proc_id,
        buffers.stdout@.len() == 0,
        buffers.stderr@.len() == 0,
{
}

/// A chunk that completes a line in a history of reads publishes it at once, and
/// the log ends with the first line feed of what the stream has.
pub proof fn law_completed_lines_are_published_in_turn(
    logger: Logger,
    states: Seq<LogBuffersView>,
    reads: Seq<ReadRecord>,
    i: int,
    end: int,
)
    requires
        logger.history(states, reads),
        0 <= i < reads.len(),
        reads[i].chunk.len() > 0,
        is_first_feed(states[i].of(reads[i].kind) + reads[i].chunk, end),
    ensures
        ({
            let all = states[i].of(reads[i].kind) + reads[i].chunk;
            &&& reads[i].out matches Some(log) && log.data == all.take(end + 1)
            &&& states[i + 1].of(reads[i].kind) == all.skip(end + 1)
        }),
{
    let taken = match reads[i].out {
        Some(log) => Some(log.data),
        None => None,
    };
    lemma_first_line_is_taken(
        states[i].of(reads[i].kind) + reads[i].chunk,
        taken,
        states[i + 1].of(reads[i].kind),
        end,
    );
}

} // verus!
