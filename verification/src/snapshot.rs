//! The decode session: the file header, the top-level record loop, and
//! the record model it produces.
//!
//! A `Snapshot` owns the buffer, decodes the header once to fix the
//! identifier width and the offset where records begin, and then decodes
//! one record per iteration until the buffer is exhausted, feeding String
//! and LoadClass records into the symbol tables.

use vstd::prelude::*;

use crate::constant;
use crate::errors::Error;
use crate::record::{
    id_step, sparse_subtags, subtag_views, SubTag, SubTagView,
};
use crate::slice::Slice;
use crate::tables::{
    empty_tables, tables_after_load_class, HprofResult, TablesView,
};
use crate::wire::{
    lemma_sparse_n_err, lemma_sparse_n_snoc, sparse_n, sread_bytes, sread_i32, sread_id,
    sread_u32, sread_u8, sread_utf8, sskip,
};

verus! {

/// One decoded top-level record. Each is produced by one iteration of the
/// record loop and is immutable once produced.
#[derive(Debug, PartialEq)]
pub enum Record {
    /// An interned string: an identifier and the UTF-8 text it names.
    StringConst { id: u64, content: String },
    /// A loaded class, tying serial number, class object and class name.
    LoadClass {
        serial_number: u32,
        object_id: u64,
        stack_trace_serial_number: u32,
        class_name_id: u64,
    },
    /// An unloaded class: present in the grammar, a no-op beyond storage.
    UnLoadClass(u32),
    /// One stack frame and the identifiers it references.
    StackFrame {
        id: u64,
        method_name_id: u64,
        method_signature_id: u64,
        source_file_name_id: u64,
        class_serial_number: u32,
        line_no: i32,
    },
    /// One stack trace: its serials and the frames it lists.
    StackTrace { serial_number: u32, thread_serial_number: u32, stack_frame_ids: Vec<u64> },
    /// A heap-dump region decoded into its sub-records.
    HeapDump(Vec<SubTag>),
    /// A record kind this decoder does not interpret: exactly its declared
    /// length of payload bytes, kept opaque so the stream stays byte-exact.
    Unknown { tag: u8, content: Vec<u8> },
}

/// The mathematical shape of a record: the same variants as `Record` with
/// sequences in place of vectors and strings. Spec-level decoding
/// produces these.
pub enum RecordView {
    StringConst { id: u64, content: Seq<char> },
    LoadClass {
        serial_number: u32,
        object_id: u64,
        stack_trace_serial_number: u32,
        class_name_id: u64,
    },
    UnLoadClass(u32),
    StackFrame {
        id: u64,
        method_name_id: u64,
        method_signature_id: u64,
        source_file_name_id: u64,
        class_serial_number: u32,
        line_no: i32,
    },
    StackTrace { serial_number: u32, thread_serial_number: u32, stack_frame_ids: Seq<u64> },
    HeapDump(Seq<SubTagView>),
    Unknown { tag: u8, content: Seq<u8> },
}

impl View for Record {
    type V = RecordView;

    open spec fn view(&self) -> RecordView {
        match self {
            Record::StringConst { id, content } => RecordView::StringConst {
                id: *id,
                content: content@,
            },
            Record::LoadClass {
                serial_number,
                object_id,
                stack_trace_serial_number,
                class_name_id,
            } => RecordView::LoadClass {
                serial_number: *serial_number,
                object_id: *object_id,
                stack_trace_serial_number: *stack_trace_serial_number,
                class_name_id: *class_name_id,
            },
            Record::UnLoadClass(serial) => RecordView::UnLoadClass(*serial),
            Record::StackFrame {
                id,
                method_name_id,
                method_signature_id,
                source_file_name_id,
                class_serial_number,
                line_no,
            } => RecordView::StackFrame {
                id: *id,
                method_name_id: *method_name_id,
                method_signature_id: *method_signature_id,
                source_file_name_id: *source_file_name_id,
                class_serial_number: *class_serial_number,
                line_no: *line_no,
            },
            Record::StackTrace { serial_number, thread_serial_number, stack_frame_ids } => (
            RecordView::StackTrace {
                serial_number: *serial_number,
                thread_serial_number: *thread_serial_number,
                stack_frame_ids: stack_frame_ids@,
            }),
            Record::HeapDump(subtags) => RecordView::HeapDump(subtag_views(subtags@)),
            Record::Unknown { tag, content } => RecordView::Unknown {
                tag: *tag,
                content: content@,
            },
        }
    }
}

/// The shapes of a run of records.
pub open spec fn record_views(v: Seq<Record>) -> Seq<RecordView> {
    v.map_values(|r: Record| r@)
}

/// The tables after one record: a String record interns its text, a
/// LoadClass record records its class under the resolved name, and every
/// other record leaves the tables alone.
pub open spec fn tables_step(t: TablesView, r: RecordView) -> TablesView {
    match r {
        RecordView::StringConst { id, content } => TablesView {
            strings: t.strings.insert(id, content),
            class_by_id: t.class_by_id,
            class_by_serial: t.class_by_serial,
        },
        RecordView::LoadClass {
            serial_number,
            object_id,
            stack_trace_serial_number,
            class_name_id,
        } => tables_after_load_class(t, serial_number, object_id, class_name_id),
        _ => t,
    }
}

/// The tables after a run of records, decoded in order.
pub open spec fn tables_fold(t: TablesView, rs: Seq<RecordView>) -> TablesView
    decreases rs.len(),
{
    if rs.len() == 0 {
        t
    } else {
        tables_step(tables_fold(t, rs.drop_last()), rs.last())
    }
}

/// The index of the first NUL byte, or -1 when there is none.
pub open spec fn first_nul(b: Seq<u8>) -> int
    decreases b.len(),
{
    if b.len() == 0 {
        -1
    } else if b[0] == 0 {
        0
    } else {
        let r = first_nul(b.drop_first());
        if r < 0 {
            -1
        } else {
            r + 1
        }
    }
}

/// `first_nul` finds the least NUL index, or reports that there is none.
pub proof fn lemma_first_nul(b: Seq<u8>)
    ensures
        first_nul(b) == -1 ==> forall|j: int| 0 <= j < b.len() ==> b[j] != 0,
        first_nul(b) >= 0 ==> 0 <= first_nul(b) < b.len() && b[first_nul(b)] == 0 && forall|
            j: int,
        | 0 <= j < first_nul(b) ==> b[j] != 0,
    decreases b.len(),
{
    if b.len() == 0 {
    } else if b[0] == 0 {
    } else {
        let rest = b.drop_first();
        lemma_first_nul(rest);
        if first_nul(rest) == -1 {
            assert forall|j: int| 0 <= j < b.len() implies b[j] != 0 by {
                if j > 0 {
                    assert(rest[j - 1] != 0);
                }
            }
        } else {
            assert forall|j: int| 0 <= j < first_nul(b) implies b[j] != 0 by {
                if j > 0 {
                    assert(rest[j - 1] != 0);
                }
            }
        }
    }
}

/// The fixed-layout file header: a NUL-terminated version string, a
/// 4-byte big-endian identifier width that must be 4 or 8, and two 4-byte
/// fields that are read but not interpreted. Yields the version text, the
/// width, and the offset where record data begins.
pub open spec fn sparse_header(b: Seq<u8>) -> Result<(Seq<char>, u32, int), Error> {
    let nul: int = first_nul(b);
    if nul < 0 {
        Err(Error::MalformedHeader)
    } else if !vstd::utf8::valid_utf8(b.subrange(0, nul)) {
        Err(Error::InvalidUtf8)
    } else {
        match sread_u32(b, nul + 1) {
            Err(e) => Err(e),
            Ok((w, p2)) => if w != 4 && w != 8 {
                Err(Error::MalformedHeader)
            } else {
                match sskip(b, p2, 8) {
                    Err(e) => Err(e),
                    Ok(p3) => Ok((vstd::utf8::decode_utf8(b.subrange(0, nul)), w, p3)),
                }
            },
        }
    }
}

/// The decoded file header: version text, session identifier width, and
/// the total header length in bytes. The record stream begins immediately
/// after `size`.
#[derive(Debug, PartialEq)]
pub struct HprofHeader {
    pub version: String,
    pub id_size: u32,
    pub size: usize,
}

impl HprofHeader {
    /// Decodes the file header from the start of the buffer.
    pub fn parse(buf: &Vec<u8>) -> (r: Result<HprofHeader, Error>)
        ensures
            match sparse_header(buf@) {
                Ok((ver, w, size)) => r matches Ok(h) && h.version@ == ver && h.id_size == w
                    && h.size as int == size,
                Err(e) => r == Err::<HprofHeader, Error>(e),
            },
    {
        let m = buf.len();
        let mut i: usize = 0;
        while i < m && buf[i] != 0
            invariant
                i <= m,
                m == buf@.len(),
                forall|j: int| 0 <= j < i ==> buf@[j] != 0,
            decreases m - i,
        {
            i = i + 1;
        }
        proof {
            lemma_first_nul(buf@);
        }
        if i == m {
            return Err(Error::MalformedHeader);
        }
        let version_bytes = vstd::slice::slice_subrange(buf.as_slice(), 0, i);
        let version = match crate::slice::utf8_to_string(version_bytes) {
            Some(s) => s,
            None => {
                return Err(Error::InvalidUtf8);
            },
        };
        let remaining1 = m - (i + 1);
        if remaining1 < 4 {
            return Err(Error::OutOfBounds { requested: 4, remaining: remaining1 });
        }
        let b0 = buf[i + 1];
        let b1 = buf[i + 2];
        let b2 = buf[i + 3];
        let b3 = buf[i + 4];
        let id_size = ((b0 as u32) << 24) | ((b1 as u32) << 16) | ((b2 as u32) << 8) | (b3 as u32);
        if id_size != 4 && id_size != 8 {
            return Err(Error::MalformedHeader);
        }
        let remaining2 = m - (i + 5);
        if remaining2 < 8 {
            return Err(Error::OutOfBounds { requested: 8, remaining: remaining2 });
        }
        Ok(HprofHeader { version, id_size, size: i + 13 })
    }
}

/// One record body of declared length `len`, read at position `p` (just
/// after the nine-byte tag, timestamp and length prefix). Known tags must
/// consume exactly `len` bytes; any mismatch with the declared length is
/// `LengthMismatch`. An unknown tag consumes exactly `len` opaque bytes.
pub open spec fn sparse_record_body(b: Seq<u8>, p: int, w: int, tag: u8, len: u32) -> Result<
    (RecordView, int),
    Error,
>
    recommends
        0 <= p <= b.len(),
{
    if tag == constant::TAG_STRING {
        match sread_id(b, p, w) {
            Err(e) => Err(e),
            Ok((id, p1)) => if (len as int) < w {
                Err(Error::LengthMismatch)
            } else {
                match sread_utf8(b, p1, len as int - w) {
                    Err(e) => Err(e),
                    Ok((content, p2)) => Ok((RecordView::StringConst { id, content }, p2)),
                }
            },
        }
    } else if tag == constant::TAG_LOAD_CLASS {
        match sread_u32(b, p) {
            Err(e) => Err(e),
            Ok((serial_number, p1)) => match sread_id(b, p1, w) {
                Err(e) => Err(e),
                Ok((object_id, p2)) => match sread_u32(b, p2) {
                    Err(e) => Err(e),
                    Ok((stack_trace_serial_number, p3)) => match sread_id(b, p3, w) {
                        Err(e) => Err(e),
                        Ok((class_name_id, p4)) => if p4 - p != len as int {
                            Err(Error::LengthMismatch)
                        } else {
                            Ok(
                                (
                                    RecordView::LoadClass {
                                        serial_number,
                                        object_id,
                                        stack_trace_serial_number,
                                        class_name_id,
                                    },
                                    p4,
                                ),
                            )
                        },
                    },
                },
            },
        }
    } else if tag == constant::TAG_UNLOAD_CLASS {
        match sread_u32(b, p) {
            Err(e) => Err(e),
            Ok((serial_number, p1)) => if p1 - p != len as int {
                Err(Error::LengthMismatch)
            } else {
                Ok((RecordView::UnLoadClass(serial_number), p1))
            },
        }
    } else if tag == constant::TAG_STACK_FRAME {
        match sread_id(b, p, w) {
            Err(e) => Err(e),
            Ok((id, p1)) => match sread_id(b, p1, w) {
                Err(e) => Err(e),
                Ok((method_name_id, p2)) => match sread_id(b, p2, w) {
                    Err(e) => Err(e),
                    Ok((method_signature_id, p3)) => match sread_id(b, p3, w) {
                        Err(e) => Err(e),
                        Ok((source_file_name_id, p4)) => match sread_u32(b, p4) {
                            Err(e) => Err(e),
                            Ok((class_serial_number, p5)) => match sread_i32(b, p5) {
                                Err(e) => Err(e),
                                Ok((line_no, p6)) => if p6 - p != len as int {
                                    Err(Error::LengthMismatch)
                                } else {
                                    Ok(
                                        (
                                            RecordView::StackFrame {
                                                id,
                                                method_name_id,
                                                method_signature_id,
                                                source_file_name_id,
                                                class_serial_number,
                                                line_no,
                                            },
                                            p6,
                                        ),
                                    )
                                },
                            },
                        },
                    },
                },
            },
        }
    } else if tag == constant::TAG_STACK_TRACE {
        match sread_u32(b, p) {
            Err(e) => Err(e),
            Ok((serial_number, p1)) => match sread_u32(b, p1) {
                Err(e) => Err(e),
                Ok((thread_serial_number, p2)) => match sread_u32(b, p2) {
                    Err(e) => Err(e),
                    Ok((count, p3)) => match sparse_n(id_step(b, w), p3, count as int) {
                        Err(e) => Err(e),
                        Ok((stack_frame_ids, p4)) => if p4 - p != len as int {
                            Err(Error::LengthMismatch)
                        } else {
                            Ok(
                                (
                                    RecordView::StackTrace {
                                        serial_number,
                                        thread_serial_number,
                                        stack_frame_ids,
                                    },
                                    p4,
                                ),
                            )
                        },
                    },
                },
            },
        }
    } else if tag == constant::TAG_HEAP_DUMP || tag == constant::TAG_HEAP_DUMP_SEGMENT {
        match sparse_subtags(b, p, w, len as int) {
            Err(e) => Err(e),
            Ok((subtags, p1)) => Ok((RecordView::HeapDump(subtags), p1)),
        }
    } else {
        match sread_bytes(b, p, len as int) {
            Err(e) => Err(e),
            Ok((content, p1)) => Ok((RecordView::Unknown { tag, content }, p1)),
        }
    }
}

/// One whole record read at position `p`: a one-byte tag, a four-byte
/// timestamp that is skipped, a four-byte big-endian body length, and the
/// body itself.
pub open spec fn sparse_record(b: Seq<u8>, p: int, w: int) -> Result<(RecordView, int), Error>
    recommends
        0 <= p <= b.len(),
{
    match sread_u8(b, p) {
        Err(e) => Err(e),
        Ok((tag, p1)) => match sskip(b, p1, 4) {
            Err(e) => Err(e),
            Ok(p2) => match sread_u32(b, p2) {
                Err(e) => Err(e),
                Ok((len, p3)) => sparse_record_body(b, p3, w, tag, len),
            },
        },
    }
}

/// The run of records from position `p` to the end of the buffer: one
/// record per step, ending exactly at the buffer's end.
pub open spec fn sparse_records(b: Seq<u8>, p: int, w: int) -> Result<(Seq<RecordView>, int), Error>
    recommends
        0 <= p <= b.len(),
    decreases b.len() - p,
{
    if p >= b.len() {
        Ok((Seq::empty(), p))
    } else {
        match sparse_record(b, p, w) {
            Err(e) => Err(e),
            Ok((r, q)) => {
                if !(p < q <= b.len()) {
                    Err(Error::LengthMismatch)
                } else {
                    match sparse_records(b, q, w) {
                        Err(e) => Err(e),
                        Ok((rs, p2)) => Ok((seq![r] + rs, p2)),
                    }
                }
            },
        }
    }
}

/// Decoding consumes the buffer exactly: a record run that succeeds ends
/// at the buffer's end, so the per-record consumed byte counts — each
/// record beginning exactly where the one before it ended — sum to the
/// whole remaining length, with no byte read twice or skipped.
pub proof fn lemma_records_consume_all(b: Seq<u8>, p: int, w: int)
    requires
        0 <= p <= b.len(),
        sparse_records(b, p, w) is Ok,
    ensures
        sparse_records(b, p, w)->Ok_0.1 == b.len(),
    decreases b.len() - p,
{
    if p < b.len() {
        let (r, q) = sparse_record(b, p, w)->Ok_0;
        lemma_records_consume_all(b, q, w);
    }
}

/// Class-name resolution: after a String record, a LoadClass record that
/// references the string's id in order resolves the class name — under
/// both the class object id and the class serial number — to exactly the
/// string's text.
pub proof fn lemma_class_name_resolution(
    t: TablesView,
    id: u64,
    text: Seq<char>,
    serial_number: u32,
    object_id: u64,
    stack_trace_serial_number: u32,
)
    ensures
        ({
            let t1 = tables_step(t, RecordView::StringConst { id, content: text });
            let t2 = tables_step(
                t1,
                RecordView::LoadClass {
                    serial_number,
                    object_id,
                    stack_trace_serial_number,
                    class_name_id: id,
                },
            );
            t2.class_by_id.contains_key(object_id) && t2.class_by_id[object_id] == text
                && t2.class_by_serial.contains_key(serial_number) && t2.class_by_serial[
                serial_number
            ] == text
        }),
{
}

/// Class-name resolution of an unknown string id: a LoadClass record
/// whose `class_name_id` has not been interned resolves to the sentinel
/// text `"unknown"` — a sentinel literal, never an error.
pub proof fn lemma_class_name_unknown(
    t: TablesView,
    serial_number: u32,
    object_id: u64,
    stack_trace_serial_number: u32,
    class_name_id: u64,
)
    requires
        !t.strings.contains_key(class_name_id),
    ensures
        ({
            let t2 = tables_step(
                t,
                RecordView::LoadClass {
                    serial_number,
                    object_id,
                    stack_trace_serial_number,
                    class_name_id,
                },
            );
            t2.class_by_id.contains_key(object_id) && t2.class_by_id[object_id] == "unknown"@
                && t2.class_by_serial.contains_key(serial_number) && t2.class_by_serial[
                serial_number
            ] == "unknown"@
        }),
{
}

/// A counted run of identifiers, read from the cursor.
#[verifier::loop_isolation(false)]
fn parse_id_run(s: &mut Slice, count: u32) -> (r: Result<Vec<u64>, Error>)
    requires
        old(s).wf(),
    ensures
        final(s).wf(),
        final(s).bytes() == old(s).bytes(),
        final(s).idw() == old(s).idw(),
        old(s).pos() <= final(s).pos(),
        match sparse_n(id_step(old(s).bytes(), old(s).idw()), old(s).pos(), count as int) {
            Ok(t) => r matches Ok(v) && v@ == t.0 && final(s).pos() == t.1,
            Err(e) => r == Err::<Vec<u64>, Error>(e),
        },
{
    let ghost b: Seq<u8> = old(s).bytes();
    let ghost w: int = old(s).idw();
    let ghost pe: int = old(s).pos();
    let mut ids: Vec<u64> = Vec::new();
    let mut i: u32 = 0;
    while i < count
        invariant
            s.wf(),
            s.bytes() == b,
            s.idw() == w,
            i <= count,
            pe <= s.pos(),
            ids@.len() == i as int,
            sparse_n(id_step(b, w), pe, i as int) == Ok::<(Seq<u64>, int), Error>((ids@, s.pos())),
        decreases count as int - i as int,
    {
        let ghost q: int = s.pos();
        match s.read_id() {
            Ok(id) => {
                proof {
                    lemma_sparse_n_snoc(id_step(b, w), pe, i as int, ids@, q);
                }
                ids.push(id);
            },
            Err(e) => {
                proof {
                    lemma_sparse_n_err(id_step(b, w), pe, i as int, count as int, ids@, q, e);
                }
                return Err(e);
            },
        }
        i = i + 1;
    }
    Ok(ids)
}

/// One decode session: the decoded header, the cursor over the whole
/// buffer, the records decoded so far, and the symbol tables they fed.
pub struct Snapshot {
    header: HprofHeader,
    slice: Slice,
    records: Vec<Record>,
    result: HprofResult,
}

impl Snapshot {
    /// The underlying buffer.
    pub closed spec fn sbytes(&self) -> Seq<u8> {
        self.slice.bytes()
    }

    /// The cursor position: monotonically non-decreasing, never rewound.
    pub closed spec fn spos(&self) -> int {
        self.slice.pos()
    }

    /// The session identifier width.
    pub closed spec fn sidw(&self) -> int {
        self.slice.idw()
    }

    /// The decoded header.
    pub closed spec fn shdr(&self) -> HprofHeader {
        self.header
    }

    /// The shapes of the records decoded so far.
    pub closed spec fn recs(&self) -> Seq<RecordView> {
        record_views(self.records@)
    }

    /// The symbol tables as populated so far.
    pub closed spec fn tables(&self) -> TablesView {
        self.result@
    }

    /// The session invariant: the cursor stays inside the buffer.
    pub closed spec fn wf(&self) -> bool {
        self.slice.wf()
    }

    /// Opens a decode session: decodes the header, fixes the identifier
    /// width for the whole session, and positions the cursor at the first
    /// record.
    pub fn new(buf: Vec<u8>) -> (r: Result<Self, Error>)
        ensures
            match sparse_header(buf@) {
                Ok((ver, w, size)) => r matches Ok(s) && s.wf() && s.sbytes() == buf@ && s.spos()
                    == size && s.sidw() == w as int && s.shdr().version@ == ver && s.shdr().id_size
                    == w && s.shdr().size as int == size && s.recs() == Seq::<RecordView>::empty()
                    && s.tables() == empty_tables(),
                Err(e) => r == Err::<Snapshot, Error>(e),
            },
    {
        let header = match HprofHeader::parse(&buf) {
            Ok(h) => h,
            Err(e) => {
                return Err(e);
            },
        };
        let mut slice = Slice::new(buf, header.id_size);
        // the decoded header fits inside the buffer, so this skip cannot
        // fail; the error arm is unreachable
        match slice.skip(header.size) {
            Ok(()) => {},
            Err(_) => {
                proof {
                    assert(false);
                }
                return Err(Error::MalformedHeader);
            },
        }
        let snapshot = Snapshot {
            header,
            slice,
            records: Vec::new(),
            result: HprofResult::new(),
        };
        proof {
            assert(record_views(snapshot.records@) =~= Seq::<RecordView>::empty());
        }
        Ok(snapshot)
    }

    /// The decoded header.
    pub fn header(&self) -> (h: &HprofHeader)
        ensures
            *h == self.shdr(),
    {
        &self.header
    }

    /// The number of bytes the record loop has not yet consumed.
    pub fn remain(&self) -> (r: usize)
        requires
            self.wf(),
        ensures
            r == self.sbytes().len() - self.spos(),
    {
        self.slice.remain()
    }

    /// The session identifier width in bytes.
    pub fn id_size(&self) -> (r: usize)
        ensures
            r == self.sidw(),
    {
        self.slice.id_size()
    }

    /// The records decoded so far, in decode order.
    pub fn records(&self) -> (r: &Vec<Record>)
        ensures
            record_views(r@) == self.recs(),
    {
        &self.records
    }

    /// The symbol tables as populated so far.
    pub fn result(&self) -> (r: &HprofResult)
        ensures
            r@ == self.tables(),
    {
        &self.result
    }

    /// Decodes exactly one record: tag, timestamp (skipped), declared
    /// body length, and the body, which must account for exactly the
    /// declared length. Returns the total bytes consumed. String and
    /// LoadClass records update the symbol tables.
    #[verifier::loop_isolation(false)]
    #[verifier::rlimit(80)]
    fn parse_record(&mut self) -> (r: Result<usize, Error>)
        requires
            old(self).wf(),
        ensures
            final(self).wf(),
            final(self).sbytes() == old(self).sbytes(),
            final(self).sidw() == old(self).sidw(),
            final(self).shdr() == old(self).shdr(),
            old(self).spos() <= final(self).spos(),
            match sparse_record(old(self).sbytes(), old(self).spos(), old(self).sidw()) {
                Ok((rv, q)) => r == Ok::<usize, Error>((q - old(self).spos()) as usize)
                    && final(self).spos() == q && q > old(self).spos()
                    && final(self).recs() == old(self).recs().push(rv)
                    && final(self).tables() == tables_step(old(self).tables(), rv),
                Err(e) => r == Err::<usize, Error>(e) && final(self).recs() == old(self).recs()
                    && final(self).tables() == old(self).tables(),
            },
    {
        let ghost b: Seq<u8> = self.slice.bytes();
        let ghost w: int = self.slice.idw();
        let ghost p0: int = self.slice.pos();
        let before = self.slice.remain();
        let tag = self.slice.read_u8()?;
        self.slice.skip(4)?;
        let len = self.slice.read_u32()?;
        let record: Record = if tag == constant::TAG_STRING {
            let id = self.slice.read_id()?;
            let id_size = self.slice.id_size();
            if (len as usize) < id_size {
                return Err(Error::LengthMismatch);
            }
            let content = self.slice.read_utf8(len as usize - id_size)?;
            self.result.add_string(id, content.clone());
            Record::StringConst { id, content }
        } else if tag == constant::TAG_LOAD_CLASS {
            let serial_number = self.slice.read_u32()?;
            let object_id = self.slice.read_id()?;
            let stack_trace_serial_number = self.slice.read_u32()?;
            let class_name_id = self.slice.read_id()?;
            let after = self.slice.remain();
            if (before - after) - 9 != len as usize {
                return Err(Error::LengthMismatch);
            }
            self.result.add_load_class(serial_number, object_id, class_name_id);
            Record::LoadClass {
                serial_number,
                object_id,
                stack_trace_serial_number,
                class_name_id,
            }
        } else if tag == constant::TAG_UNLOAD_CLASS {
            let serial_number = self.slice.read_u32()?;
            let after = self.slice.remain();
            if (before - after) - 9 != len as usize {
                return Err(Error::LengthMismatch);
            }
            Record::UnLoadClass(serial_number)
        } else if tag == constant::TAG_STACK_FRAME {
            let id = self.slice.read_id()?;
            let method_name_id = self.slice.read_id()?;
            let method_signature_id = self.slice.read_id()?;
            let source_file_name_id = self.slice.read_id()?;
            let class_serial_number = self.slice.read_u32()?;
            let line_no = self.slice.read_i32()?;
            let after = self.slice.remain();
            if (before - after) - 9 != len as usize {
                return Err(Error::LengthMismatch);
            }
            Record::StackFrame {
                id,
                method_name_id,
                method_signature_id,
                source_file_name_id,
                class_serial_number,
                line_no,
            }
        } else if tag == constant::TAG_STACK_TRACE {
            let serial_number = self.slice.read_u32()?;
            let thread_serial_number = self.slice.read_u32()?;
            let count = self.slice.read_u32()?;
            let stack_frame_ids = parse_id_run(&mut self.slice, count)?;
            let after = self.slice.remain();
            if (before - after) - 9 != len as usize {
                return Err(Error::LengthMismatch);
            }
            Record::StackTrace { serial_number, thread_serial_number, stack_frame_ids }
        } else if tag == constant::TAG_HEAP_DUMP || tag == constant::TAG_HEAP_DUMP_SEGMENT {
            let subtags = crate::record::parse_subtags(&mut self.slice, len)?;
            Record::HeapDump(subtags)
        } else {
            let content = self.slice.read_u8_array(len as usize)?;
            Record::Unknown { tag, content }
        };
        proof {
            assert(record_views(self.records@.push(record)) =~= record_views(
                self.records@,
            ).push(record@));
        }
        self.records.push(record);
        let after = self.slice.remain();
        Ok(before - after)
    }

    /// Decodes records until the buffer is exhausted: on success the
    /// cursor stands exactly at the end of the buffer, every record's
    /// shape is appended to the record stream in order, and the symbol
    /// tables hold exactly the fold of the decoded records.
    #[verifier::loop_isolation(false)]
    #[verifier::rlimit(60)]
    pub fn parse_records(&mut self) -> (r: Result<(), Error>)
        requires
            old(self).wf(),
        ensures
            final(self).wf(),
            final(self).sbytes() == old(self).sbytes(),
            final(self).sidw() == old(self).sidw(),
            final(self).shdr() == old(self).shdr(),
            old(self).recs().is_prefix_of(final(self).recs()),
            final(self).tables() == tables_fold(
                old(self).tables(),
                final(self).recs().skip(old(self).recs().len() as int),
            ),
            match sparse_records(old(self).sbytes(), old(self).spos(), old(self).sidw()) {
                Ok((rvs, q)) => r == Ok::<(), Error>(()) && final(self).recs() == old(self).recs()
                    + rvs && final(self).spos() == q && q == old(self).sbytes().len(),
                Err(e) => r == Err::<(), Error>(e),
            },
    {
        let ghost b: Seq<u8> = self.slice.bytes();
        let ghost w: int = self.slice.idw();
        let ghost p0: int = self.slice.pos();
        let ghost recs0: Seq<RecordView> = self.recs();
        let ghost t0: TablesView = self.result@;
        let total = self.remain();
        let mut count: usize = 0;
        while count < total
            invariant
                self.wf(),
                self.sbytes() == b,
                self.sidw() == w,
                self.shdr() == old(self).shdr(),
                p0 <= self.spos() <= b.len(),
                count as int == self.spos() - p0,
                total as int == b.len() - p0,
                recs0.is_prefix_of(self.recs()),
                self.tables() == tables_fold(t0, self.recs().skip(recs0.len() as int)),
                sparse_records(b, p0, w) == (match sparse_records(b, self.spos(), w) {
                    Ok((rest, pe)) => Ok::<(Seq<RecordView>, int), Error>(
                        (self.recs().skip(recs0.len() as int) + rest, pe),
                    ),
                    Err(e) => Err::<(Seq<RecordView>, int), Error>(e),
                }),
            decreases b.len() - self.spos(),
        {
            let ghost cur: int = self.spos();
            let ghost added_prev: Seq<RecordView> = self.recs().skip(recs0.len() as int);
            let consumed = self.parse_record()?;
            count = count + consumed;
            proof {
                let (rv, q) = sparse_record(b, cur, w)->Ok_0;
                assert(self.recs().skip(recs0.len() as int) =~= added_prev.push(rv));
                assert(added_prev.push(rv).drop_last() =~= added_prev);
                if sparse_records(b, q, w) is Ok {
                    let (rest, pe) = sparse_records(b, q, w)->Ok_0;
                    assert(added_prev + (seq![rv] + rest) =~= added_prev.push(rv) + rest);
                }
            }
        }
        proof {
            assert(self.recs().skip(recs0.len() as int) + Seq::<RecordView>::empty() =~= self.recs(
            ).skip(recs0.len() as int));
            assert(recs0 + self.recs().skip(recs0.len() as int) =~= self.recs());
        }
        Ok(())
    }
}

} // verus!
