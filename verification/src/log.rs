//! The shared append log: its record format, and reading its newest records
//! by scanning backward in bounded chunks.
//!
//! A log is a flat run of records. Each record is the decimal text of a
//! process id followed by one delimiter byte; nothing else is ever written.
//! The newest record is the last one.

use crate::text::{
    decimal_text, i32_literal, is_digit, is_foreign, lemma_decimal_digits,
    lemma_decimal_text_bytes, lemma_decimal_text_roundtrip, lemma_foreign_byte_is_no_integer,
    lemma_trim_nothing, parse_i32, push_signed_decimal, trim, trim_range, MINUS,
};
use std::collections::VecDeque;
use vstd::prelude::*;
use vstd::slice::{slice_subrange, slice_to_vec};
use vstd::string::StringSliceAdditionalSpecFns;

verus! {

/// The byte that ends every record (`|`).
pub const ENTRY_DELIM: u8 = 0x7c;

/// An estimate of the length of one encoded record, delimiter included.
pub const ENCODED_SIZE_ESTIMATE: usize = 8;

/// The most bytes that are read from the log in one step.
pub const MAX_CHUNK_SIZE: usize = 1024;

/// `std::io::Error`: the library hands such a value on and never looks
/// into it.
#[verifier::external_type_specification]
#[verifier::external_body]
pub struct ExIoError(std::io::Error);

/// Why the log could not be used.
#[derive(Debug)]
pub enum LogError {
    /// Reading or writing the file failed.
    Io(std::io::Error),
    /// The log holds something that is not a record.
    InvalidFormat,
}

/// One record of the log: the process that completed a task.
#[derive(Clone, Copy, Debug, PartialEq, Eq, Structural)]
pub struct LogEntry {
    pub pid: i32,
}

/// The entry for a task completed by `pid`.
pub open spec fn entry_of(pid: i32) -> LogEntry {
    LogEntry { pid }
}

/// The process id that the bytes of a record (without its delimiter) stand
/// for: white space on either side is ignored, the rest is a decimal `i32`.
pub open spec fn record_pid(bytes: Seq<u8>) -> Option<i32> {
    i32_literal(trim(bytes))
}

/// The bytes that record the completion of a task by `pid`.
pub open spec fn encode_record(pid: i32) -> Seq<u8> {
    decimal_text(pid as int).push(ENTRY_DELIM)
}

/// Whether `s` is made of whole records only: it is empty or ends with a
/// delimiter.
pub open spec fn terminated(s: Seq<u8>) -> bool {
    s.len() == 0 || s.last() == ENTRY_DELIM
}

/// Where the record that ends just before `end` begins: after the last
/// delimiter before `end`, or at the start of `s` where there is none.
pub open spec fn record_start(s: Seq<u8>, end: int) -> int
    decreases end,
{
    if end <= 0 {
        0
    } else if s[end - 1] == ENTRY_DELIM {
        end
    } else {
        record_start(s, end - 1)
    }
}

/// The start of a record lies within `s`, follows a delimiter or the start
/// of `s`, and no delimiter lies between it and the record's end.
pub proof fn lemma_record_start(s: Seq<u8>, end: int)
    requires
        0 <= end <= s.len(),
    ensures
        0 <= record_start(s, end) <= end,
        record_start(s, end) > 0 ==> s[record_start(s, end) - 1] == ENTRY_DELIM,
        forall|i: int| record_start(s, end) <= i < end ==> #[trigger] s[i] != ENTRY_DELIM,
    decreases end,
{
    if end > 0 && s[end - 1] != ENTRY_DELIM {
        lemma_record_start(s, end - 1);
    }
}

/// A position that follows a delimiter (or is the start) with no delimiter
/// up to `end` is where the record before `end` begins.
pub proof fn lemma_record_start_is(s: Seq<u8>, start: int, end: int)
    requires
        0 <= start <= end <= s.len(),
        start > 0 ==> s[start - 1] == ENTRY_DELIM,
        forall|i: int| start <= i < end ==> #[trigger] s[i] != ENTRY_DELIM,
    ensures
        record_start(s, end) == start,
    decreases end,
{
    if end > start {
        lemma_record_start_is(s, start, end - 1);
    }
}

/// The newest `n` records of the log `s`, oldest first, or `None` where the
/// log is damaged: where it does not end with a delimiter, or one of those
/// records is not a process id. A log with fewer than `n` records gives all
/// of them. Records older than the newest `n` are not looked at.
pub open spec fn tail_entries(s: Seq<u8>, n: nat) -> Option<Seq<LogEntry>>
    decreases s.len(),
{
    if n == 0 || s.len() == 0 {
        Some(Seq::empty())
    } else if s.last() != ENTRY_DELIM {
        None
    } else {
        let end = s.len() - 1;
        let start = record_start(s, end);
        proof {
            lemma_record_start(s, end);
        }
        match (record_pid(s.subrange(start, end)), tail_entries(s.take(start), (n - 1) as nat)) {
            (Some(pid), Some(older)) => Some(older.push(LogEntry { pid })),
            _ => None,
        }
    }
}

/// `older` followed by `newer`, where both are known.
pub open spec fn join_tails(older: Option<Seq<LogEntry>>, newer: Option<Seq<LogEntry>>) -> Option<
    Seq<LogEntry>,
> {
    match (older, newer) {
        (Some(o), Some(e)) => Some(o + e),
        _ => None,
    }
}

/// The tail of a log is never longer than asked for.
pub proof fn lemma_tail_len(s: Seq<u8>, n: nat)
    ensures
        tail_entries(s, n) matches Some(e) ==> e.len() <= n,
    decreases s.len(),
{
    if n > 0 && s.len() > 0 && s.last() == ENTRY_DELIM {
        let end = s.len() - 1;
        lemma_record_start(s, end);
        lemma_tail_len(s.take(record_start(s, end)), (n - 1) as nat);
    }
}

/// Records keep their place when whole records are put in front of them.
pub proof fn lemma_record_start_append(a: Seq<u8>, r: Seq<u8>, end: int)
    requires
        terminated(a),
        0 <= end <= r.len(),
    ensures
        record_start(a + r, a.len() + end) == a.len() + record_start(r, end),
    decreases end,
{
    if end > 0 {
        assert((a + r)[a.len() + end - 1] == r[end - 1]);
        if r[end - 1] != ENTRY_DELIM {
            lemma_record_start_append(a, r, end - 1);
        }
    } else if a.len() > 0 {
        assert((a + r)[a.len() - 1] == a.last());
    }
}

/// The tail of two logs written one after the other: the tail of the newer
/// one, and where that is short of `n` records, the tail of the older one
/// before it.
pub proof fn lemma_tail_append(a: Seq<u8>, r: Seq<u8>, n: nat)
    requires
        terminated(a),
        terminated(r),
    ensures
        tail_entries(a + r, n) == (match tail_entries(r, n) {
            Some(e) => join_tails(tail_entries(a, (n - e.len()) as nat), Some(e)),
            None => None,
        }),
    decreases r.len(),
{
    lemma_tail_len(r, n);
    if r.len() == 0 {
        assert(a + r =~= a);
        if let Some(o) = tail_entries(a, n) {
            assert(o + Seq::<LogEntry>::empty() =~= o);
        }
    } else if n == 0 {
        assert(Seq::<LogEntry>::empty() + Seq::<LogEntry>::empty() =~= Seq::<LogEntry>::empty());
    } else {
        let s = a + r;
        let end = r.len() - 1;
        let start = record_start(r, end);
        lemma_record_start(r, end);
        lemma_record_start_append(a, r, end);
        assert(s.last() == r.last());
        assert(s.subrange(a.len() + start, a.len() + end) =~= r.subrange(start, end));
        assert(s.take(a.len() + start) =~= a + r.take(start));
        let older = r.take(start);
        let m = (n - 1) as nat;
        lemma_tail_append(a, older, m);
        lemma_tail_len(older, m);
        match (record_pid(r.subrange(start, end)), tail_entries(older, m)) {
            (Some(pid), Some(e)) => {
                if let Some(o) = tail_entries(a, (m - e.len()) as nat) {
                    assert(o + e.push(LogEntry { pid }) =~= (o + e).push(LogEntry { pid }));
                }
            },
            _ => {},
        }
    }
}

/// The tail of a log that holds a single record.
pub proof fn lemma_tail_single(rec: Seq<u8>, n: nat)
    requires
        n > 0,
        forall|i: int| 0 <= i < rec.len() ==> #[trigger] rec[i] != ENTRY_DELIM,
    ensures
        tail_entries(rec.push(ENTRY_DELIM), n) == (match record_pid(rec) {
            Some(pid) => Some(seq![entry_of(pid)]),
            None => None,
        }),
{
    let s = rec.push(ENTRY_DELIM);
    assert forall|i: int| 0 <= i < rec.len() implies #[trigger] s[i] != ENTRY_DELIM by {
        assert(s[i] == rec[i]);
    }
    lemma_record_start_is(s, 0, rec.len() as int);
    assert(s.subrange(0, rec.len() as int) =~= rec);
    assert(s.take(0) =~= Seq::<u8>::empty());
    assert(tail_entries(s.take(0), (n - 1) as nat) == Some(Seq::<LogEntry>::empty()));
    if let Some(pid) = record_pid(rec) {
        assert(Seq::<LogEntry>::empty().push(LogEntry { pid }) =~= seq![LogEntry { pid }]);
    }
}

/// The tail of a log with one more record in front: where the tail of the
/// rest is short of `n` records, the new record is read and comes first.
pub proof fn lemma_tail_prepend(rec: Seq<u8>, r: Seq<u8>, n: nat)
    requires
        terminated(r),
        forall|i: int| 0 <= i < rec.len() ==> #[trigger] rec[i] != ENTRY_DELIM,
    ensures
        tail_entries(rec.push(ENTRY_DELIM) + r, n) == (match tail_entries(r, n) {
            Some(e) => if e.len() < n {
                match record_pid(rec) {
                    Some(pid) => Some(seq![entry_of(pid)] + e),
                    None => None,
                }
            } else {
                Some(e)
            },
            None => None,
        }),
{
    lemma_tail_append(rec.push(ENTRY_DELIM), r, n);
    lemma_tail_len(r, n);
    if let Some(e) = tail_entries(r, n) {
        if e.len() < n {
            lemma_tail_single(rec, (n - e.len()) as nat);
        } else {
            assert(Seq::<LogEntry>::empty() + e =~= e);
        }
    }
}

impl LogError {
    /// What to tell the user about this failure.
    pub fn to_string(&self) -> (message: String)
        ensures
            self is Io ==> message@ == "while using shared logfile (maybe it was deleted?)"@,
            self is InvalidFormat ==> message@ == "corrupted logfile"@,
    {
        match self {
            LogError::Io(..) => "while using shared logfile (maybe it was deleted?)".to_owned(),
            LogError::InvalidFormat => "corrupted logfile".to_owned(),
        }
    }
}

impl vstd::std_specs::convert::FromSpecImpl<std::io::Error> for LogError {
    open spec fn obeys_from_spec() -> bool {
        true
    }

    open spec fn from_spec(e: std::io::Error) -> Self {
        LogError::Io(e)
    }
}

impl From<std::io::Error> for LogError {
    fn from(e: std::io::Error) -> (r: Self) {
        LogError::Io(e)
    }
}

impl LogEntry {
    /// An estimate of the length of one encoded record, delimiter included.
    pub const ENCODED_SIZE_ESTIMATE: usize = ENCODED_SIZE_ESTIMATE;

    /// Reads the bytes of one record, without its delimiter.
    pub fn from_bytes(bytes: &[u8]) -> (r: Result<LogEntry, LogError>)
        ensures
            match record_pid(bytes@) {
                Some(pid) => r == Ok::<LogEntry, LogError>(entry_of(pid)),
                None => r is Err && r->Err_0 is InvalidFormat,
            },
    {
        let (lo, hi) = trim_range(bytes, 0, bytes.len());
        assert(bytes@.subrange(0, bytes@.len() as int) =~= bytes@);
        match parse_i32(slice_subrange(bytes, lo, hi)) {
            Some(pid) => Ok(LogEntry { pid }),
            None => Err(LogError::InvalidFormat),
        }
    }

    /// Writes this entry as a record, delimiter included.
    pub fn encode(&self) -> (bytes: Vec<u8>)
        ensures
            bytes@ == encode_record(self.pid),
    {
        let mut bytes: Vec<u8> = Vec::new();
        push_signed_decimal(&mut bytes, self.pid as i64);
        bytes.push(ENTRY_DELIM);
        assert(bytes@ =~= encode_record(self.pid));
        bytes
    }
}

impl std::str::FromStr for LogEntry {
    type Err = LogError;

    fn from_str(s: &str) -> (r: Result<Self, Self::Err>)
        ensures
            match record_pid(s.spec_bytes()) {
                Some(pid) => r == Ok::<LogEntry, LogError>(entry_of(pid)),
                None => r is Err && r->Err_0 is InvalidFormat,
            },
    {
        LogEntry::from_bytes(s.as_bytes())
    }
}

/// A record that was written by `encode` reads back as the same entry, and
/// holds no delimiter but the one that ends it.
pub proof fn lemma_record_roundtrip(pid: i32)
    ensures
        record_pid(decimal_text(pid as int)) == Some(pid),
        forall|i: int|
            0 <= i < decimal_text(pid as int).len() ==> #[trigger] decimal_text(pid as int)[i]
                != ENTRY_DELIM,
{
    let text = decimal_text(pid as int);
    lemma_decimal_text_bytes(pid as int);
    lemma_decimal_text_roundtrip(pid as int);
    assert(is_digit(text.last())) by {
        lemma_decimal_digits((if pid < 0 {
            -pid
        } else {
            pid as int
        }) as nat);
    }
    assert(is_digit(text[0]) || text[0] == MINUS);
    lemma_trim_nothing(text);
}

/// One step of a backward scan. `buf` is followed by `settled`, and what
/// lies behind `head` in `buf` was scanned already: `entries` is its tail
/// together with `settled`. The record that ends just before `head` begins
/// at `start`; it comes in front of `entries` if it is a process id, and
/// makes the tail unreadable if it is not.
pub proof fn lemma_scan_step(
    buf: Seq<u8>,
    settled: Seq<u8>,
    head: int,
    start: int,
    count: nat,
    entries: Seq<LogEntry>,
)
    requires
        0 < head <= buf.len(),
        buf[head - 1] == ENTRY_DELIM,
        buf.last() == ENTRY_DELIM,
        terminated(settled),
        start == record_start(buf, head - 1),
        tail_entries(buf.skip(head) + settled, count) == Some(entries),
        entries.len() < count,
    ensures
        0 <= start < head,
        start > 0 ==> buf[start - 1] == ENTRY_DELIM,
        terminated(buf.skip(start) + settled),
        tail_entries(buf.skip(start) + settled, count) == (match record_pid(
            buf.subrange(start, head - 1),
        ) {
            Some(pid) => Some(seq![entry_of(pid)] + entries),
            None => None,
        }),
{
    let end = head - 1;
    lemma_record_start(buf, end);
    let rec = buf.subrange(start, end);
    let newer = buf.skip(head) + settled;
    assert(terminated(newer)) by {
        if settled.len() > 0 {
            assert(newer.last() == settled.last());
        } else if newer.len() > 0 {
            assert(newer.last() == buf.last());
        }
    }
    assert(buf.skip(start) + settled =~= rec.push(ENTRY_DELIM) + newer);
    assert((rec.push(ENTRY_DELIM) + newer).last() == ENTRY_DELIM) by {
        if newer.len() > 0 {
            assert((rec.push(ENTRY_DELIM) + newer).last() == newer.last());
        }
    }
    lemma_tail_prepend(rec, newer, count);
}

/// A log whose end is unreadable is unreadable: where `file` ends with
/// `buf` and then `settled`, whole records stand in front of `start` in
/// `buf`, and what follows has no readable tail, `file` has none.
pub proof fn lemma_damaged(
    file: Seq<u8>,
    buf: Seq<u8>,
    settled: Seq<u8>,
    start: int,
    count: nat,
)
    requires
        ends_with(file, buf + settled),
        0 <= start <= buf.len(),
        start > 0 ==> buf[start - 1] == ENTRY_DELIM,
        start == 0 ==> file.len() == buf.len() + settled.len(),
        terminated(buf.skip(start) + settled),
        tail_entries(buf.skip(start) + settled, count) is None,
    ensures
        tail_entries(file, count) is None,
{
    let read = buf + settled;
    let offset = file.len() - read.len();
    let back = buf.skip(start) + settled;
    let before = file.take(offset) + buf.take(start);
    assert(file.skip(offset) == read);
    assert(read =~= buf.take(start) + back);
    assert(file =~= file.take(offset) + read);
    assert(file =~= before + back);
    assert(terminated(before)) by {
        if start > 0 {
            assert(before.last() == buf[start - 1]);
        } else {
            assert(before.len() == 0);
        }
    }
    lemma_tail_append(before, back, count);
}

/// How many bytes are read at a time when `count` records are wanted.
pub open spec fn chunk_size_for(count: nat) -> nat {
    if count * ENCODED_SIZE_ESTIMATE < MAX_CHUNK_SIZE {
        (count * ENCODED_SIZE_ESTIMATE) as nat
    } else {
        MAX_CHUNK_SIZE as nat
    }
}

/// Whether the log `file` ends with the bytes `c`.
pub open spec fn ends_with(file: Seq<u8>, c: Seq<u8>) -> bool {
    c.len() <= file.len() && file.skip(file.len() - c.len()) == c
}

/// Finds where the record that ends just before `end` begins.
fn find_record_start(buf: &[u8], end: usize) -> (start: usize)
    requires
        end <= buf@.len(),
    ensures
        start == record_start(buf@, end as int),
{
    let mut i: usize = end;
    while i > 0 && buf[i - 1] != ENTRY_DELIM
        invariant
            i <= end <= buf@.len(),
            record_start(buf@, end as int) == record_start(buf@, i as int),
        decreases i,
    {
        i = i - 1;
    }
    i
}

/// The state of one backward read of a log.
///
/// The reader never touches a file. It says which bytes it needs next
/// (`next_read`), takes them (`feed`), and once it is `finished` hands out
/// the newest records (`into_entries`). Whoever drives it reads the chunks,
/// each one directly in front of the one before, starting at the end of the
/// log. Bytes at the start of a chunk that may belong to a record that began
/// earlier are kept and put behind the next chunk.
pub struct TailReader {
    count: usize,
    chunk_size: usize,
    offset: u64,
    rem: Vec<u8>,
    entries: VecDeque<LogEntry>,
    consumed: Ghost<Seq<u8>>,
}

impl TailReader {
    /// What was read so far is `rem` and then whole records, of which
    /// `entries` is the tail. While more records are wanted, `rem` is the
    /// one record, delimiter included, whose beginning may lie further to
    /// the front; at the start of the log nothing is kept back.
    #[verifier::type_invariant]
    spec fn inv(self) -> bool {
        let read = self.consumed@;
        let kept = self.rem@;
        &&& self.chunk_size == chunk_size_for(self.count as nat)
        &&& self.offset + read.len() <= u64::MAX
        &&& kept.len() <= read.len()
        &&& kept == read.take(kept.len() as int)
        &&& terminated(read)
        &&& terminated(kept)
        &&& self.entries@.len() <= self.count
        &&& tail_entries(read.skip(kept.len() as int), self.count as nat) == Some(self.entries@)
        &&& kept.len() == 0 ==> read.len() == 0 || self.offset == 0
        &&& self.entries@.len() < self.count ==> {
            &&& kept.len() > 0 ==> record_start(kept, kept.len() - 1) == 0
            &&& self.offset == 0 ==> kept.len() == 0
        }
    }

    /// How many records are wanted.
    pub closed spec fn count(&self) -> nat {
        self.count as nat
    }

    /// Where in the log the bytes read so far begin.
    pub closed spec fn offset(&self) -> nat {
        self.offset as nat
    }

    /// The bytes read so far: the end of the log, from `offset` on.
    pub closed spec fn consumed(&self) -> Seq<u8> {
        self.consumed@
    }

    /// The records found so far, oldest first.
    pub closed spec fn entries(&self) -> Seq<LogEntry> {
        self.entries@
    }

    /// Whether nothing more needs to be read: enough records were found, or
    /// the start of the log was reached.
    pub open spec fn finished(&self) -> bool {
        self.entries().len() >= self.count() || self.offset() == 0
    }

    /// How many bytes the next chunk holds: a full chunk, or what is left
    /// in front of `offset`.
    pub open spec fn next_len(&self) -> nat {
        if self.offset() < chunk_size_for(self.count()) {
            self.offset()
        } else {
            chunk_size_for(self.count())
        }
    }

    /// Whether `file` is a log that this reader may be reading: one of the
    /// right length that ends with the bytes read so far.
    pub open spec fn reads(&self, file: Seq<u8>) -> bool {
        file.len() == self.offset() + self.consumed().len() && ends_with(file, self.consumed())
    }

    /// Begins a read of the newest `count` records of a log of `len` bytes.
    pub fn new(count: usize, len: u64) -> (reader: TailReader)
        ensures
            reader.count() == count,
            reader.offset() == len,
            reader.consumed() == Seq::<u8>::empty(),
            reader.entries() == Seq::<LogEntry>::empty(),
    {
        let chunk_size: usize = if count < MAX_CHUNK_SIZE / ENCODED_SIZE_ESTIMATE {
            count * ENCODED_SIZE_ESTIMATE
        } else {
            MAX_CHUNK_SIZE
        };
        assert(chunk_size == chunk_size_for(count as nat)) by (nonlinear_arith)
            requires
                chunk_size == (if count < 128 {
                    count * 8
                } else {
                    1024
                }),
                chunk_size_for(count as nat) == (if count * 8 < 1024 {
                    (count * 8) as nat
                } else {
                    1024
                }),
        ;
        let ghost none = Seq::<u8>::empty();
        assert(none.take(0) =~= none && none.skip(0) =~= none);
        TailReader {
            count,
            chunk_size,
            offset: len,
            rem: Vec::new(),
            entries: VecDeque::new(),
            consumed: Ghost(none),
        }
    }

    /// Which bytes to read next, as the place of the first and how many, or
    /// `None` once the read is finished.
    pub fn next_read(&self) -> (r: Option<(u64, usize)>)
        ensures
            self.finished() ==> r is None,
            !self.finished() ==> r == Some(
                ((self.offset() - self.next_len()) as u64, self.next_len() as usize),
            ) && self.next_len() > 0,
    {
        proof {
            use_type_invariant(self);
        }
        if self.entries.len() >= self.count || self.offset == 0 {
            None
        } else {
            let len: usize = if self.offset < self.chunk_size as u64 {
                self.offset as usize
            } else {
                self.chunk_size
            };
            assert(self.count > 0);
            assert(len > 0) by (nonlinear_arith)
                requires
                    self.count > 0,
                    self.offset > 0,
                    len == self.next_len(),
                    self.chunk_size == chunk_size_for(self.count as nat),
                    self.next_len() == (if self.offset < self.chunk_size {
                        self.offset as nat
                    } else {
                        self.chunk_size as nat
                    }),
            ;
            Some((self.offset - len as u64, len))
        }
    }

    /// Takes the chunk that `next_read` asked for and reads records out of
    /// it, newest first, until enough are found or only the chunk's first
    /// record is left, which may be cut off and is kept for the next chunk.
    /// At the start of the log that record is whole and is read too.
    ///
    /// Fails where the log turns out to be damaged: then no log that ends
    /// with these bytes has a readable tail.
    pub fn feed(self, chunk: &[u8]) -> (r: Result<TailReader, LogError>)
        requires
            !self.finished(),
            chunk@.len() == self.next_len(),
        ensures
            match r {
                Ok(next) => {
                    &&& next.count() == self.count()
                    &&& next.offset() == self.offset() - chunk@.len()
                    &&& next.consumed() == chunk@ + self.consumed()
                },
                Err(e) => {
                    &&& e is InvalidFormat
                    &&& forall|file: Seq<u8>|
                        file.len() == self.offset() + self.consumed().len() && #[trigger] ends_with(
                            file,
                            chunk@ + self.consumed(),
                        ) ==> tail_entries(file, self.count()) is None
                },
            },
    {
        proof {
            use_type_invariant(&self);
        }
        let ghost old_consumed = self.consumed@;
        let ghost old_rem = self.rem@;
        let ghost settled = old_consumed.skip(old_rem.len() as int);
        let ghost consumed = chunk@ + old_consumed;
        let count: usize = self.count;
        let chunk_size: usize = self.chunk_size;
        let old_offset: u64 = self.offset;
        let offset: u64 = self.offset - chunk.len() as u64;
        let mut rem: Vec<u8> = self.rem;
        let mut entries: VecDeque<LogEntry> = self.entries;
        let mut buf: Vec<u8> = slice_to_vec(chunk);
        buf.append(&mut rem);
        let n: usize = buf.len();
        proof {
            assert(old_consumed =~= old_rem + settled);
            assert(consumed =~= buf@ + settled);
            assert(terminated(settled)) by {
                if settled.len() > 0 {
                    assert(settled.last() == old_consumed.last());
                }
            }
        }
        if buf[n - 1] != ENTRY_DELIM {
            proof {
                assert(old_rem.len() == 0);
                assert forall|file: Seq<u8>|
                    file.len() == old_offset + old_consumed.len() && #[trigger] ends_with(
                        file,
                        consumed,
                    ) implies tail_entries(file, count as nat) is None by {
                    let tail = file.skip(file.len() - consumed.len());
                    assert(tail.last() == file.last());
                }
            }
            return Err(LogError::InvalidFormat);
        }
        let mut head: usize = n;
        let mut cut: bool = false;
        while entries.len() < count && head > 0 && !cut
            invariant
                n == buf@.len(),
                head <= n,
                head > 0 ==> buf@[head - 1] == ENTRY_DELIM,
                head == 0 ==> offset == 0,
                terminated(settled),
                buf@[n - 1] == ENTRY_DELIM,
                entries@.len() <= count,
                tail_entries(buf@.skip(head as int) + settled, count as nat) == Some(entries@),
                cut ==> head > 0 && offset > 0 && record_start(buf@, head - 1) == 0,
                consumed == buf@ + settled,
                consumed == chunk@ + old_consumed,
                offset + consumed.len() == old_offset + old_consumed.len(),
                old_offset == self.offset(),
                old_consumed == self.consumed(),
                count == self.count(),
            decreases
                    head + (if cut {
                        0int
                    } else {
                        1int
                    }),
        {
            let end: usize = head - 1;
            let start: usize = find_record_start(buf.as_slice(), end);
            proof {
                lemma_scan_step(
                    buf@,
                    settled,
                    head as int,
                    start as int,
                    count as nat,
                    entries@,
                );
            }
            if start == 0 && offset > 0 {
                cut = true;
            } else {
                match LogEntry::from_bytes(slice_subrange(buf.as_slice(), start, end)) {
                    Ok(entry) => {
                        entries.push_front(entry);
                        head = start;
                    },
                    Err(_) => {
                        proof {
                            assert forall|file: Seq<u8>|
                                file.len() == old_offset + old_consumed.len()
                                    && #[trigger] ends_with(file, consumed) implies tail_entries(
                                file,
                                count as nat,
                            ) is None by {
                                lemma_damaged(file, buf@, settled, start as int, count as nat);
                            }
                        }
                        return Err(LogError::InvalidFormat);
                    },
                }
            }
        }
        let ghost whole = buf@;
        buf.truncate(head);
        proof {
            assert(buf@ =~= consumed.take(head as int));
            assert(consumed.skip(head as int) =~= whole.skip(head as int) + settled);
            if cut {
                lemma_record_start(whole, head - 1);
                lemma_record_start_is(buf@, 0, head - 1);
            }
        }
        Ok(TailReader { count, chunk_size, offset, rem: buf, entries, consumed: Ghost(consumed) })
    }

    /// The newest records of the log that was read, oldest first: of every
    /// log that this reader may have been reading, the result is the tail.
    pub fn into_entries(self) -> (entries: VecDeque<LogEntry>)
        requires
            self.finished(),
        ensures
            entries@ == self.entries(),
            forall|file: Seq<u8>| #[trigger]
                self.reads(file) ==> tail_entries(file, self.count()) == Some(entries@),
    {
        proof {
            use_type_invariant(&self);
            let c = self.consumed@;
            let x = self.rem@;
            let settled = c.skip(x.len() as int);
            assert(terminated(settled)) by {
                if settled.len() > 0 {
                    assert(settled.last() == c.last());
                }
            }
            assert forall|file: Seq<u8>| #[trigger] self.reads(file) implies tail_entries(
                file,
                self.count(),
            ) == Some(self.entries@) by {
                let before = file.take(self.offset as int) + x;
                assert(file =~= before + settled);
                if self.count > 0 {
                    assert(terminated(before)) by {
                        if x.len() > 0 {
                            assert(before.last() == x.last());
                        } else if c.len() == 0 {
                            assert(settled =~= c);
                            assert(self.entries@.len() == 0);
                        }
                    }
                    lemma_tail_append(before, settled, self.count as nat);
                    if self.entries@.len() < self.count {
                        assert(before.len() == 0);
                    }
                    assert(Seq::<LogEntry>::empty() + self.entries@ =~= self.entries@);
                }
            }
        }
        self.entries
    }

    /// Whether the read is finished.
    pub fn is_finished(&self) -> (done: bool)
        ensures
            done == self.finished(),
    {
        proof {
            use_type_invariant(self);
        }
        self.entries.len() >= self.count || self.offset == 0
    }
}

/// The contents of a log, held in memory: what the shared file holds
/// between two operations on it.
///
/// Appending and reading here are what a file-backed store does to the file
/// under its lock, so what is proved of them holds of every content that
/// the file can have.
#[derive(Debug, Clone)]
pub struct Log {
    bytes: Vec<u8>,
}

impl View for Log {
    type V = Seq<u8>;

    closed spec fn view(&self) -> Seq<u8> {
        self.bytes@
    }
}

impl Log {
    /// The byte that ends every record.
    pub const ENTRY_DELIM: u8 = ENTRY_DELIM;

    /// The most bytes that are read from the log in one step.
    pub const MAX_CHUNK_SIZE: usize = MAX_CHUNK_SIZE;

    /// A new, empty log.
    pub fn create() -> (log: Log)
        ensures
            log@ == Seq::<u8>::empty(),
    {
        Log { bytes: Vec::new() }
    }

    /// The log that holds `bytes`, whatever they are.
    pub fn from_bytes(bytes: Vec<u8>) -> (log: Log)
        ensures
            log@ == bytes@,
    {
        Log { bytes }
    }

    /// What the log holds.
    pub fn as_bytes(&self) -> (bytes: &[u8])
        ensures
            bytes@ == self@,
    {
        self.bytes.as_slice()
    }

    /// Records that the process `pid` completed a task: appends one record.
    pub fn log_task_completion(&mut self, pid: i32)
        ensures
            final(self)@ == old(self)@ + encode_record(pid),
    {
        let mut record: Vec<u8> = LogEntry { pid }.encode();
        self.bytes.append(&mut record);
    }

    /// Reads up to `count` entries from the end of the log, oldest first,
    /// chunk by chunk from the end.
    pub fn read_entries(&self, count: usize) -> (r: Result<VecDeque<LogEntry>, LogError>)
        ensures
            match tail_entries(self@, count as nat) {
                Some(entries) => r matches Ok(found) && found@ == entries,
                None => r matches Err(e) && e is InvalidFormat,
            },
    {
        let file: &[u8] = self.bytes.as_slice();
        let size: usize = file.len();
        let mut reader: TailReader = TailReader::new(count, size as u64);
        assert(file@.skip(file@.len() as int) =~= Seq::<u8>::empty());
        loop
            invariant
                file@ == self@,
                file@.len() == size,
                reader.count() == count,
                reader.reads(file@),
            decreases reader.offset(),
        {
            match reader.next_read() {
                None => {
                    return Ok(reader.into_entries());
                },
                Some((at, len)) => {
                    assert(reader.next_len() <= reader.offset() <= file@.len());
                    assert(reader.next_len() <= MAX_CHUNK_SIZE);
                    assert(at + len == reader.offset());
                    let chunk: &[u8] = slice_subrange(file, at as usize, at as usize + len);
                    assert(file@.skip(at as int) =~= chunk@ + reader.consumed());
                    assert(ends_with(file@, chunk@ + reader.consumed()));
                    match reader.feed(chunk) {
                        Ok(next) => {
                            reader = next;
                        },
                        Err(_) => {
                            return Err(LogError::InvalidFormat);
                        },
                    }
                },
            }
        }
    }
}

/// The log that holds a record for each of `pids`, in that order.
pub open spec fn log_of(pids: Seq<i32>) -> Seq<u8>
    decreases pids.len(),
{
    if pids.len() == 0 {
        Seq::empty()
    } else {
        log_of(pids.drop_last()) + encode_record(pids.last())
    }
}

/// The entries for the last `m` of `pids`.
pub open spec fn newest(pids: Seq<i32>, m: nat) -> Seq<LogEntry> {
    Seq::new(m, |i: int| entry_of(pids[pids.len() - m + i]))
}

/// A log of records is made of whole records.
pub proof fn lemma_log_of_terminated(pids: Seq<i32>)
    ensures
        terminated(log_of(pids)),
{
}

/// Reading the newest `n` entries of a log to which the processes `pids`
/// were appended one after the other gives the last `min(n, k)` of them, in
/// the order in which they were appended, where `k` is their number.
pub proof fn lemma_tail_of_appended(pids: Seq<i32>, n: nat)
    ensures
        tail_entries(log_of(pids), n) == Some(
            newest(
                pids,
                if n < pids.len() {
                    n
                } else {
                    pids.len()
                },
            ),
        ),
    decreases pids.len(),
{
    let k = pids.len();
    let m = if n < k {
        n
    } else {
        k
    };
    if n == 0 || k == 0 {
        assert(newest(pids, m) =~= Seq::<LogEntry>::empty());
    } else {
        let older = pids.drop_last();
        let text = decimal_text(pids.last() as int);
        let s = log_of(pids);
        lemma_log_of_terminated(older);
        lemma_record_roundtrip(pids.last());
        assert(s =~= (log_of(older) + text).push(ENTRY_DELIM));
        let end = s.len() - 1;
        let start = log_of(older).len() as int;
        assert forall|i: int| start <= i < end implies #[trigger] s[i] != ENTRY_DELIM by {
            assert(s[i] == text[i - start]);
        }
        lemma_record_start_is(s, start, end);
        assert(s.subrange(start, end) =~= text);
        assert(s.take(start) =~= log_of(older));
        lemma_tail_of_appended(older, (n - 1) as nat);
        let rest = newest(
            older,
            if n - 1 < older.len() {
                (n - 1) as nat
            } else {
                older.len()
            },
        );
        assert(rest.push(LogEntry { pid: pids.last() }) =~= newest(pids, m));
    }
}

/// Reading any number of entries from a log that was just created gives
/// none.
pub proof fn lemma_tail_of_created(n: nat)
    ensures
        tail_entries(Seq::<u8>::empty(), n) == Some(Seq::<LogEntry>::empty()),
{
}

/// A record that is not a process id makes the read fail while it is among
/// the newest `n`: it is not skipped. Here the record `rec` follows the
/// whole records `older`, and fewer than `n` records follow it.
pub proof fn lemma_bad_record_fails(older: Seq<u8>, rec: Seq<u8>, newer: Seq<i32>, n: nat)
    requires
        terminated(older),
        forall|i: int| 0 <= i < rec.len() ==> #[trigger] rec[i] != ENTRY_DELIM,
        record_pid(rec) is None,
        newer.len() < n,
    ensures
        tail_entries(older + rec.push(ENTRY_DELIM) + log_of(newer), n) is None,
{
    lemma_tail_of_appended(newer, n);
    lemma_log_of_terminated(newer);
    lemma_tail_prepend(rec, log_of(newer), n);
    let back = rec.push(ENTRY_DELIM) + log_of(newer);
    lemma_tail_append(older, back, n);
    assert(older + rec.push(ENTRY_DELIM) + log_of(newer) =~= older + back);
}

/// A record that holds an ASCII character that is no white space, digit
/// or sign (a letter, say) is not a process id.
pub proof fn lemma_non_numeric_is_no_pid(rec: Seq<u8>, i: int)
    requires
        0 <= i < rec.len(),
        is_foreign(rec[i]),
    ensures
        record_pid(rec) is None,
{
    lemma_foreign_byte_is_no_integer(rec, i);
}

} // verus!
