use vstd::prelude::*;
use vstd::slice::slice_subrange;
use crate::dlt_common::{
    spec_decode_stored, DltMessage, DltMessageError, DltMessageView, DltStorageHeader,
};
use crate::dlt_filter::DltFilter;
use crate::dlt_message::{dlt_message_read_stored, lemma_decode_stored_wf, lemma_stored_roundtrip};
use crate::dlt_types::DltReturnValue;

verus! {

/// Where a scan session stands.
#[derive(Debug, Clone, Copy, PartialEq, Eq, Structural)]
pub enum DltFileState {
    /// No source was opened yet.
    Unopened,
    /// A source was opened and nothing was read from it.
    Opened,
    /// A message was read, and more may follow.
    Reading,
    /// The end of the source was reached.
    Idle,
    /// The source was closed.
    Closed,
}

/// What reading the next message found.
#[derive(Debug, Clone, Copy, PartialEq, Eq, Structural)]
pub enum DltFileRead {
    /// A message was read, and the filter lets it through.
    Matched,
    /// A message was read, and the filter holds it back.
    Filtered,
    /// No message stands between the position and the end of the source.
    EndOfInput,
    /// The session has no open source.
    Error,
}

/// The structure to organise the access to DLT files.
#[derive(Debug, Clone, PartialEq, Eq)]
pub struct DltFile {
    /// Where the session stands
    pub state: DltFileState,
    /// The content of the source
    pub data: Vec<u8>,
    /// Positions in the source of the messages that the filter let through
    pub index: Vec<usize>,
    /// Number of messages in DLT file with filter
    pub counter: usize,
    /// Number of messages in DLT file without filter
    pub counter_total: usize,
    /// Current index to message parsed in DLT file starting at 0
    pub position: usize,
    /// Length of the file
    pub file_length: usize,
    /// Current position in the file
    pub file_position: usize,
    /// Number of incomplete DLT messages found during file parsing
    pub error_messages: usize,
    /// The filter list. `None` if no filter is set
    pub filter: Option<DltFilter>,
    /// The message
    pub msg: DltMessage,
}

/// The first position at or behind `from` at which a stored message can be read from
/// `data`, or the length of `data` where there is none.
pub open spec fn spec_next_message(data: Seq<u8>, from: int) -> int
    decreases data.len() - from,
{
    if from < 0 || from >= data.len() {
        data.len() as int
    } else if spec_decode_stored(data.skip(from)) is Ok {
        from
    } else {
        spec_next_message(data, from + 1)
    }
}

/// Whether a filter, or none, lets a message through: without a filter every message
/// passes.
pub open spec fn spec_passes(filter: Option<DltFilter>, msg: DltMessageView) -> bool {
    match filter {
        None => true,
        Some(f) => f.spec_matches(msg),
    }
}

/// The positions of the messages from `from` on that the filter lets through, in the order
/// in which a scan of `data` finds them.
pub open spec fn spec_scan_index(data: Seq<u8>, filter: Option<DltFilter>, from: int) -> Seq<int>
    decreases data.len() - from,
{
    let at = spec_next_message(data, from);
    let msg = spec_decode_stored(data.skip(at))->Ok_0;
    let next = at + msg.spec_stored_size();
    if 0 <= from <= at < next <= data.len() {
        let rest = spec_scan_index(data, filter, next);
        if spec_passes(filter, msg) {
            seq![at] + rest
        } else {
            rest
        }
    } else {
        Seq::<int>::empty()
    }
}

/// The next message is found at or behind the position asked for, no message can be read
/// before it, and one can be read at it unless it is the end.
pub proof fn lemma_next_message(data: Seq<u8>, from: int)
    requires
        0 <= from <= data.len(),
    ensures
        from <= spec_next_message(data, from) <= data.len(),
        forall|i: int|
            from <= i < spec_next_message(data, from) ==> !(spec_decode_stored(data.skip(i)) is Ok),
        spec_next_message(data, from) < data.len() ==> spec_decode_stored(
            data.skip(spec_next_message(data, from)),
        ) is Ok,
    decreases data.len() - from,
{
    if from < data.len() && !(spec_decode_stored(data.skip(from)) is Ok) {
        lemma_next_message(data, from + 1);
    }
}

/// A scan of well-formed content loses nothing: where the stored form of a well-formed
/// message stands at a position, the next message is found at that very position, and it is
/// that message.
pub proof fn lemma_scan_well_formed(data: Seq<u8>, at: int, m: DltMessageView, rest: Seq<u8>)
    requires
        0 <= at <= data.len(),
        m.wf(),
        !m.found_serialheader,
        m.resync_offset == 0,
        m.storageheader.pattern@ == crate::dlt_common::dltStoragePattern@,
        data.skip(at) == m.spec_stored() + rest,
    ensures
        spec_next_message(data, at) == at,
        at < data.len(),
        spec_decode_stored(data.skip(at)) == Ok::<DltMessageView, DltMessageError>(m),
{
    lemma_stored_roundtrip(m, rest);
    assert((m.spec_stored() + rest).len() >= 16);
    assert(data.skip(at).len() == data.len() - at);
}

impl DltFile {
    /// A session is well formed when its length is that of its content, its position lies
    /// within it, its counters are consistent with that position, its filter is well formed,
    /// and a stored message can be read at every position that its index holds.
    pub open spec fn wf(&self) -> bool {
        &&& self.file_length == self.data@.len()
        &&& self.file_position <= self.file_length
        &&& self.counter <= self.counter_total
        &&& self.counter_total + self.error_messages <= self.file_position
        &&& self.index@.len() == self.counter
        &&& (self.filter matches Some(f) ==> f.wf())
        &&& forall|k: int|
            0 <= k < self.index@.len() ==> (#[trigger] self.index@[k]) < self.file_length
                && spec_decode_stored(self.data@.skip(self.index@[k] as int)) is Ok
    }

    /// Whether the session is well formed.
    pub fn is_wf(&self) -> (ok: bool)
        ensures
            ok == self.wf(),
    {
        if self.file_length != self.data.len() || self.file_position > self.file_length
            || self.counter > self.counter_total || self.counter_total > self.file_position
            || self.error_messages > self.file_position - self.counter_total || self.index.len()
            != self.counter {
            return false;
        }
        let filter_ok = match &self.filter {
            None => true,
            Some(f) => f.is_wf(),
        };
        if !filter_ok {
            return false;
        }
        let mut k: usize = 0;
        while k < self.index.len()
            invariant
                self.file_length == self.data@.len(),
                k <= self.index@.len(),
                forall|j: int|
                    0 <= j < k ==> (#[trigger] self.index@[j]) < self.file_length
                        && spec_decode_stored(self.data@.skip(self.index@[j] as int)) is Ok,
            decreases self.index@.len() - k,
        {
            let at = self.index[k];
            if at >= self.file_length {
                return false;
            }
            let tail = slice_subrange(self.data.as_slice(), at, self.file_length);
            assert(tail@ =~= self.data@.skip(at as int));
            if dlt_message_read_stored(tail).is_err() {
                return false;
            }
            k += 1;
        }
        true
    }

    /// Whether the session has a source to read from.
    pub open spec fn spec_readable(&self) -> bool {
        self.state == DltFileState::Opened || self.state == DltFileState::Reading || self.state
            == DltFileState::Idle
    }

    /// The index as a sequence of positions.
    pub open spec fn spec_index(&self) -> Seq<int> {
        Seq::new(self.index@.len(), |k: int| self.index@[k] as int)
    }

    /// The index that a scan up to the end of the source builds: what the index holds, and
    /// the positions of the messages behind the present position that the filter lets
    /// through.
    pub open spec fn spec_full_index(&self) -> Seq<int> {
        self.spec_index() + spec_scan_index(self.data@, self.filter, self.file_position as int)
    }

    /// A session without source and without filter.
    pub fn init() -> (file: DltFile)
        ensures
            file.wf(),
            file.state == DltFileState::Unopened,
            file.data@.len() == 0,
            file.filter is None,
            file.counter == 0,
            file.counter_total == 0,
            file.error_messages == 0,
            file.file_position == 0,
            file.file_length == 0,
            file.position == 0,
            file.index@.len() == 0,
            file.msg@.wf(),
            file.msg@.payload.len() == 0,
            file.msg.standardheader.htyp == 0x20,
            file.msg.standardheader.mcnt == 0,
            file.msg.storageheader == DltStorageHeader::spec_empty(),
            !file.msg.found_serialheader,
            file.msg.resync_offset == 0,
    {
        DltFile {
            state: DltFileState::Unopened,
            data: Vec::new(),
            index: Vec::new(),
            counter: 0,
            counter_total: 0,
            position: 0,
            file_length: 0,
            file_position: 0,
            error_messages: 0,
            filter: None,
            msg: DltMessage::new(),
        }
    }

    /// Sets the filter that decides which messages are counted and indexed from now on;
    /// `None` lets every message through.
    pub fn set_filter(&mut self, filter: Option<DltFilter>) -> (r: DltReturnValue)
        requires
            old(self).wf(),
            filter matches Some(f) ==> f.wf(),
        ensures
            final(self).wf(),
            r == DltReturnValue::DLT_RETURN_OK,
            final(self).filter == filter,
            final(self).state == old(self).state,
            final(self).data == old(self).data,
            final(self).index == old(self).index,
            final(self).counter == old(self).counter,
            final(self).counter_total == old(self).counter_total,
            final(self).position == old(self).position,
            final(self).file_position == old(self).file_position,
            final(self).error_messages == old(self).error_messages,
            final(self).msg == old(self).msg,
    {
        self.filter = filter;
        DltReturnValue::DLT_RETURN_OK
    }

    /// Opens a source: takes its content, sets the position to its start, and clears the
    /// counters and the index. The filter stays.
    pub fn open(&mut self, source: Vec<u8>) -> (r: DltReturnValue)
        requires
            old(self).wf(),
        ensures
            final(self).wf(),
            r == DltReturnValue::DLT_RETURN_OK,
            final(self).state == DltFileState::Opened,
            final(self).data@ == source@,
            final(self).file_length == source@.len(),
            final(self).file_position == 0,
            final(self).index@.len() == 0,
            final(self).counter == 0,
            final(self).counter_total == 0,
            final(self).position == 0,
            final(self).error_messages == 0,
            final(self).filter == old(self).filter,
            final(self).msg == old(self).msg,
    {
        self.file_length = source.len();
        self.data = source;
        self.state = DltFileState::Opened;
        self.index = Vec::new();
        self.counter = 0;
        self.counter_total = 0;
        self.position = 0;
        self.file_position = 0;
        self.error_messages = 0;
        DltReturnValue::DLT_RETURN_OK
    }

    /// Closes the source. The counters stay as the scan left them.
    /// Fails with `DLT_RETURN_ERROR`, changing nothing, where no source is open.
    pub fn close(&mut self) -> (r: DltReturnValue)
        requires
            old(self).wf(),
        ensures
            final(self).wf(),
            old(self).spec_readable() ==> r == DltReturnValue::DLT_RETURN_OK && final(self).state
                == DltFileState::Closed,
            !old(self).spec_readable() ==> r == DltReturnValue::DLT_RETURN_ERROR && final(self).state == old(self).state,
            final(self).data == old(self).data,
            final(self).index == old(self).index,
            final(self).counter == old(self).counter,
            final(self).counter_total == old(self).counter_total,
            final(self).position == old(self).position,
            final(self).file_position == old(self).file_position,
            final(self).file_length == old(self).file_length,
            final(self).error_messages == old(self).error_messages,
            final(self).filter == old(self).filter,
            final(self).msg == old(self).msg,
    {
        if !self.readable() {
            return DltReturnValue::DLT_RETURN_ERROR;
        }
        self.state = DltFileState::Closed;
        DltReturnValue::DLT_RETURN_OK
    }

    /// Whether the session has a source to read from.
    pub fn readable(&self) -> (ok: bool)
        ensures
            ok == self.spec_readable(),
    {
        match self.state {
            DltFileState::Opened => true,
            DltFileState::Reading => true,
            DltFileState::Idle => true,
            _ => false,
        }
    }

    fn passes(&self, msg: &DltMessage) -> (ok: bool)
        requires
            self.wf(),
        ensures
            ok == spec_passes(self.filter, msg@),
    {
        match &self.filter {
            None => true,
            Some(f) => f.matches(msg),
        }
    }

    /// Reads the next message.
    ///
    /// From the present position on, the first stored message that can be read is loaded
    /// and the position moves behind it. Bytes before it that are no message are skipped
    /// one by one and counted as one malformed message. A message that was read raises the
    /// total counter; where the filter lets it through, or no filter is set, it also raises
    /// the matched counter and its position is added to the index. Where no message can be
    /// read up to the end of the source, the position moves to the end and the session is
    /// idle. Without an open source the call fails and changes nothing.
    pub fn read_next(&mut self) -> (r: DltFileRead)
        requires
            old(self).wf(),
        ensures
            final(self).wf(),
            !old(self).spec_readable() ==> r == DltFileRead::Error && *final(self) == *old(self),
            old(self).spec_readable() ==> ({
                let data = old(self).data@;
                let from = old(self).file_position as int;
                let at = spec_next_message(data, from);
                let skipped: int = if at > from {
                    1
                } else {
                    0
                };
                &&& final(self).data == old(self).data
                &&& final(self).file_length == old(self).file_length
                &&& final(self).filter == old(self).filter
                &&& final(self).error_messages == old(self).error_messages + skipped
                &&& final(self).spec_full_index() == old(self).spec_full_index()
                &&& if at >= data.len() {
                    &&& r == DltFileRead::EndOfInput
                    &&& final(self).state == DltFileState::Idle
                    &&& final(self).file_position == old(self).file_length
                    &&& final(self).counter_total == old(self).counter_total
                    &&& final(self).counter == old(self).counter
                    &&& final(self).index == old(self).index
                    &&& final(self).position == old(self).position
                    &&& final(self).msg == old(self).msg
                } else {
                    let msg = spec_decode_stored(data.skip(at))->Ok_0;
                    &&& final(self).state == DltFileState::Reading
                    &&& final(self).msg@ == msg
                    &&& final(self).file_position == at + 16 + msg.standardheader.len
                    &&& final(self).counter_total == old(self).counter_total + 1
                    &&& if spec_passes(old(self).filter, msg) {
                        &&& r == DltFileRead::Matched
                        &&& final(self).counter == old(self).counter + 1
                        &&& final(self).index@ == old(self).index@.push(at as usize)
                        &&& final(self).position == old(self).counter
                    } else {
                        &&& r == DltFileRead::Filtered
                        &&& final(self).counter == old(self).counter
                        &&& final(self).index == old(self).index
                        &&& final(self).position == old(self).position
                    }
                }
            }),
    {
        if !self.readable() {
            return DltFileRead::Error;
        }
        let from = self.file_position;
        let mut at = from;
        proof {
            lemma_next_message(self.data@, from as int);
        }
        while at < self.file_length
            invariant
                *self == *old(self),
                self.wf(),
                self.spec_readable(),
                from == self.file_position,
                from <= at <= self.file_length,
                spec_next_message(self.data@, at as int) == spec_next_message(
                    self.data@,
                    from as int,
                ),
            decreases self.file_length - at,
        {
            let tail = slice_subrange(self.data.as_slice(), at, self.file_length);
            assert(tail@ =~= self.data@.skip(at as int));
            match dlt_message_read_stored(tail) {
                Ok((msg, taken)) => {
                    let ghost full = self.spec_full_index();
                    if at > from {
                        self.error_messages = self.error_messages + 1;
                    }
                    self.file_position = at + taken;
                    self.counter_total = self.counter_total + 1;
                    self.state = DltFileState::Reading;
                    let passed = self.passes(&msg);
                    self.msg = msg;
                    if passed {
                        self.position = self.counter;
                        self.index.push(at);
                        self.counter = self.counter + 1;
                        proof {
                            assert(self.spec_index() =~= old(self).spec_index().push(at as int));
                            assert(self.spec_full_index() =~= full);
                        }
                        return DltFileRead::Matched;
                    }
                    proof {
                        assert(self.spec_index() =~= old(self).spec_index());
                        assert(self.spec_full_index() =~= full);
                    }
                    return DltFileRead::Filtered;
                },
                Err(_) => {
                    at += 1;
                },
            }
        }
        let ghost full = self.spec_full_index();
        if at > from {
            self.error_messages = self.error_messages + 1;
        }
        self.file_position = self.file_length;
        self.state = DltFileState::Idle;
        proof {
            assert(self.spec_index() =~= old(self).spec_index());
            assert(spec_scan_index(self.data@, self.filter, self.file_length as int)
                =~= Seq::<int>::empty());
            assert(self.spec_full_index() =~= full);
        }
        DltFileRead::EndOfInput
    }
}

/// What a scan from `from` on reads until `want` further messages were let through, or up
/// to the end of the source: the position at which it stops, the number of messages it
/// reads, the number of runs of bytes it skips as malformed, and the position of the last
/// message it reads, -1 where it reads none.
pub open spec fn spec_scan_to(data: Seq<u8>, filter: Option<DltFilter>, from: int, want: int) -> (
    int,
    int,
    int,
    int,
)
    decreases data.len() - from,
{
    let at = spec_next_message(data, from);
    let msg = spec_decode_stored(data.skip(at))->Ok_0;
    let next = at + msg.spec_stored_size();
    let skipped: int = if at > from {
        1
    } else {
        0
    };
    if want <= 0 {
        (from, 0, 0, -1)
    } else if 0 <= from <= at < next <= data.len() {
        let rest = spec_scan_to(
            data,
            filter,
            next,
            if spec_passes(filter, msg) {
                want - 1
            } else {
                want
            },
        );
        (
            rest.0,
            rest.1 + 1,
            rest.2 + skipped,
            if rest.3 >= 0 {
                rest.3
            } else {
                at
            },
        )
    } else {
        (data.len() as int, 0, skipped, -1)
    }
}

impl DltFile {
    fn scan_to(&mut self, index: usize) -> (found: bool)
        requires
            old(self).wf(),
            old(self).spec_readable(),
            old(self).index@.len() <= index,
        ensures
            final(self).wf(),
            final(self).data == old(self).data,
            final(self).file_length == old(self).file_length,
            final(self).filter == old(self).filter,
            final(self).spec_full_index() == old(self).spec_full_index(),
            final(self).index@.len() >= old(self).index@.len(),
            final(self).state == (if found {
                DltFileState::Reading
            } else {
                DltFileState::Idle
            }),
            found ==> final(self).index@.len() == index + 1 && final(self).position == index,
            !found ==> final(self).index@.len() <= index && final(self).spec_index() == old(self).spec_full_index() && final(self).position == (if final(self).index@.len() > old(self).index@.len() {
                (final(self).index@.len() - 1) as usize
            } else {
                old(self).position
            }),
            ({
                let scan = spec_scan_to(
                    old(self).data@,
                    old(self).filter,
                    old(self).file_position as int,
                    index + 1 - old(self).index@.len(),
                );
                &&& final(self).file_position == scan.0
                &&& final(self).counter_total == old(self).counter_total + scan.1
                &&& final(self).error_messages == old(self).error_messages + scan.2
                &&& if scan.3 >= 0 {
                    spec_decode_stored(old(self).data@.skip(scan.3)) == Ok::<
                        DltMessageView,
                        DltMessageError,
                    >(final(self).msg@)
                } else {
                    final(self).msg == old(self).msg
                }
            }),
    {
        let ghost all = self.spec_full_index();
        let ghost goal = spec_scan_to(
            self.data@,
            self.filter,
            self.file_position as int,
            index + 1 - self.index@.len(),
        );
        let ghost mut last: int = -1;
        while self.index.len() <= index
            invariant
                self.wf(),
                self.spec_readable(),
                self.data == old(self).data,
                self.file_length == old(self).file_length,
                self.filter == old(self).filter,
                self.spec_full_index() == all,
                all == old(self).spec_full_index(),
                old(self).index@.len() <= self.index@.len() <= index + 1,
                self.counter_total >= old(self).counter_total,
                self.error_messages >= old(self).error_messages,
                goal == spec_scan_to(
                    old(self).data@,
                    old(self).filter,
                    old(self).file_position as int,
                    index + 1 - old(self).index@.len(),
                ),
                ({
                    let scan = spec_scan_to(
                        self.data@,
                        self.filter,
                        self.file_position as int,
                        index + 1 - self.index@.len(),
                    );
                    &&& goal.0 == scan.0
                    &&& goal.1 == self.counter_total - old(self).counter_total + scan.1
                    &&& goal.2 == self.error_messages - old(self).error_messages + scan.2
                    &&& goal.3 == (if scan.3 >= 0 {
                        scan.3
                    } else {
                        last
                    })
                }),
                last >= 0 ==> spec_decode_stored(self.data@.skip(last)) == Ok::<
                    DltMessageView,
                    DltMessageError,
                >(self.msg@),
                last < 0 ==> self.msg == old(self).msg && self.index@.len() == old(self).index@.len() && self.position == old(self).position,
                last >= 0 ==> self.state == DltFileState::Reading,
                self.index@.len() > old(self).index@.len() ==> self.position == self.index@.len()
                    - 1,
                self.index@.len() == old(self).index@.len() ==> self.position == old(self).position,
            decreases self.file_length - self.file_position,
        {
            let ghost before = *self;
            proof {
                lemma_next_message(self.data@, self.file_position as int);
                lemma_decode_stored_wf(
                    self.data@.skip(spec_next_message(self.data@, self.file_position as int)),
                );
            }
            let r = self.read_next();
            match r {
                DltFileRead::Matched => {
                    proof {
                        last = spec_next_message(before.data@, before.file_position as int);
                    }
                    assert(self.index@.len() == before.index@.len() + 1);
                    assert(self.file_position > before.file_position);
                },
                DltFileRead::Filtered => {
                    proof {
                        last = spec_next_message(before.data@, before.file_position as int);
                    }
                    assert(self.index@.len() == before.index@.len());
                    assert(self.file_position > before.file_position);
                },
                _ => {
                    proof {
                        assert(self.file_position == self.file_length);
                        assert(spec_scan_index(self.data@, self.filter, self.file_length as int)
                            =~= Seq::<int>::empty());
                        assert(self.spec_index() =~= all);
                    }
                    return false;
                },
            }
        }
        true
    }

    /// Loads the message with the given index among those that the filter lets through,
    /// counted from zero in the order of the source.
    ///
    /// Where the index that the session holds reaches `index`, the message is loaded from
    /// the position that it gives, and nothing else changes but the index of the current
    /// message. Else the index is built as far as the call needs it: messages are read as
    /// `read_next` reads them, from the present position until the index reaches `index` or
    /// the source ends. Fails with `DLT_RETURN_WRONG_PARAMETER` where the source holds no
    /// message with that index, and with `DLT_RETURN_ERROR`, changing nothing, where no
    /// source is open.
    pub fn message(&mut self, index: usize) -> (r: DltReturnValue)
        requires
            old(self).wf(),
        ensures
            final(self).wf(),
            !old(self).spec_readable() ==> r == DltReturnValue::DLT_RETURN_ERROR && *final(self)
                == *old(self),
            old(self).spec_readable() ==> ({
                let all = old(self).spec_full_index();
                &&& final(self).spec_full_index() == all
                &&& final(self).spec_index() == all.subrange(0, final(self).index@.len() as int)
                &&& r == (if index < all.len() {
                    DltReturnValue::DLT_RETURN_OK
                } else {
                    DltReturnValue::DLT_RETURN_WRONG_PARAMETER
                })
                &&& index < all.len() ==> final(self).position == index && spec_decode_stored(
                    old(self).data@.skip(all[index as int]),
                ) == Ok::<DltMessageView, DltMessageError>(final(self).msg@)
            }),
            old(self).spec_readable() && index < old(self).index@.len() ==> *final(self) == (DltFile {
                msg: final(self).msg,
                position: index,
                ..*old(self)
            }),
            old(self).spec_readable() && index >= old(self).index@.len() ==> ({
                let all = old(self).spec_full_index();
                let scan = spec_scan_to(
                    old(self).data@,
                    old(self).filter,
                    old(self).file_position as int,
                    index + 1 - old(self).index@.len(),
                );
                &&& final(self).data == old(self).data
                &&& final(self).file_length == old(self).file_length
                &&& final(self).filter == old(self).filter
                &&& final(self).file_position == scan.0
                &&& final(self).counter_total == old(self).counter_total + scan.1
                &&& final(self).error_messages == old(self).error_messages + scan.2
                &&& final(self).index@.len() == (if index < all.len() {
                    index + 1
                } else {
                    all.len() as int
                })
                &&& final(self).counter == final(self).index@.len()
                &&& final(self).state == (if index < all.len() {
                    DltFileState::Reading
                } else {
                    DltFileState::Idle
                })
                &&& index >= all.len() ==> {
                    &&& final(self).position == (if final(self).index@.len() > old(self).index@.len() {
                        (final(self).index@.len() - 1) as usize
                    } else {
                        old(self).position
                    })
                    &&& if scan.3 >= 0 {
                        spec_decode_stored(old(self).data@.skip(scan.3)) == Ok::<
                            DltMessageView,
                            DltMessageError,
                        >(final(self).msg@)
                    } else {
                        final(self).msg == old(self).msg
                    }
                }
            }),
    {
        if !self.readable() {
            return DltReturnValue::DLT_RETURN_ERROR;
        }
        let ghost all = self.spec_full_index();
        if self.index.len() <= index {
            let found = self.scan_to(index);
            if !found {
                proof {
                    assert(self.spec_index() =~= all.subrange(0, self.index@.len() as int));
                }
                return DltReturnValue::DLT_RETURN_WRONG_PARAMETER;
            }
        }
        let at = self.index[index];
        assert(all[index as int] == self.spec_index()[index as int]);
        let tail = slice_subrange(self.data.as_slice(), at, self.file_length);
        assert(tail@ =~= self.data@.skip(at as int));
        match dlt_message_read_stored(tail) {
            Ok((msg, _taken)) => {
                self.msg = msg;
                self.position = index;
                proof {
                    assert(self.spec_index() =~= all.subrange(0, self.index@.len() as int));
                }
                DltReturnValue::DLT_RETURN_OK
            },
            Err(_) => DltReturnValue::DLT_RETURN_ERROR,
        }
    }
}

/// The content of a source that holds the stored forms of messages one behind the other.
pub open spec fn spec_stored_all(messages: Seq<DltMessageView>) -> Seq<u8>
    decreases messages.len(),
{
    if messages.len() == 0 {
        Seq::<u8>::empty()
    } else {
        messages[0].spec_stored() + spec_stored_all(messages.skip(1))
    }
}

/// The number of messages that a filter, or none, lets through.
pub open spec fn spec_count_passing(messages: Seq<DltMessageView>, filter: Option<DltFilter>) -> int
    decreases messages.len(),
{
    if messages.len() == 0 {
        0
    } else {
        (if spec_passes(filter, messages[0]) {
            1int
        } else {
            0int
        }) + spec_count_passing(messages.skip(1), filter)
    }
}

/// Whether a message is one that a scan reads back as it is: well formed, with the storage
/// pattern, and without marks of a serial header.
pub open spec fn spec_storable(m: DltMessageView) -> bool {
    &&& m.wf()
    &&& !m.found_serialheader
    &&& m.resync_offset == 0
    &&& m.storageheader.pattern@ == crate::dlt_common::dltStoragePattern@
}

/// Counters of a scan over well-formed content: where the source holds, from a position
/// on, nothing but the stored forms of messages, a scan from that position to the end reads
/// every one of them, skips nothing as malformed, and indexes as many messages as the
/// filter lets through.
pub proof fn lemma_scan_counters(
    data: Seq<u8>,
    filter: Option<DltFilter>,
    from: int,
    messages: Seq<DltMessageView>,
    want: int,
)
    requires
        0 <= from <= data.len(),
        data.skip(from) == spec_stored_all(messages),
        forall|i: int| 0 <= i < messages.len() ==> spec_storable(#[trigger] messages[i]),
        want > spec_count_passing(messages, filter),
    ensures
        spec_scan_to(data, filter, from, want).0 == data.len(),
        spec_scan_to(data, filter, from, want).1 == messages.len(),
        spec_scan_to(data, filter, from, want).2 == 0,
        spec_scan_index(data, filter, from).len() == spec_count_passing(messages, filter),
    decreases messages.len(),
{
    if messages.len() == 0 {
        assert(data.skip(from).len() == 0);
        assert(from == data.len());
    } else {
        let m = messages[0];
        let rest = spec_stored_all(messages.skip(1));
        assert(spec_storable(m));
        lemma_scan_well_formed(data, from, m, rest);
        lemma_stored_roundtrip(m, rest);
        let next = from + m.spec_stored_size();
        assert(m.spec_stored().len() == m.spec_stored_size());
        assert(data.skip(from).len() == m.spec_stored().len() + rest.len());
        assert(data.skip(next) =~= rest) by {
            assert(data.skip(from).skip(m.spec_stored().len() as int) =~= rest);
            assert(data.skip(from).skip(m.spec_stored().len() as int) =~= data.skip(next));
        }
        assert forall|i: int| 0 <= i < messages.skip(1).len() implies spec_storable(
            #[trigger] messages.skip(1)[i],
        ) by {
            assert(messages.skip(1)[i] == messages[i + 1]);
        }
        lemma_scan_counters(
            data,
            filter,
            next,
            messages.skip(1),
            if spec_passes(filter, m) {
                want - 1
            } else {
                want
            },
        );
    }
}

} // verus!
