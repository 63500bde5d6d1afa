//! Line-based exchange over a named pipe: bounded reading, waiting and retrying.
use vstd::prelude::*;
use vstd::string::*;
use vstd::utf8::*;
use vstd::arithmetic::power2::*;
use crate::encoding;
use crate::error::{ErrorKind, MirrorStarError};
use crate::text;
use crate::time::Delay;

verus! {

/// The most bytes that one line may have.
pub const MAX_LINE_BYTES: usize = 1_048_576;

/// The byte that ends a line.
pub const NEWLINE: u8 = 10;

/// What a buffered reader holds: the bytes that were not consumed yet, how many
/// of them stand in its buffer, and how many the buffer can take.
#[verifier::ext_equal]
pub struct ReaderView {
    pub rest: Seq<u8>,
    pub buffered: nat,
    pub capacity: nat,
}

impl ReaderView {
    /// The reader once its buffer was filled, if it was empty.
    pub open spec fn filled(self) -> ReaderView {
        if self.buffered > 0 {
            self
        } else if self.rest.len() <= self.capacity {
            ReaderView { buffered: self.rest.len(), ..self }
        } else {
            ReaderView { buffered: self.capacity, ..self }
        }
    }

    /// The bytes in the buffer.
    pub open spec fn buffer(self) -> Seq<u8> {
        self.rest.take(self.buffered as int)
    }

    /// The reader after `n` bytes of its buffer were used up.
    pub open spec fn consumed(self, n: nat) -> ReaderView {
        ReaderView {
            rest: self.rest.skip(n as int),
            buffered: (self.buffered - n) as nat,
            ..self
        }
    }

    /// The buffer holds bytes that are there, and has room.
    pub open spec fn wf(self) -> bool {
        self.buffered <= self.rest.len() && self.capacity > 0
    }
}

/// Bytes in memory, handed out through a buffer of limited size.
pub struct ByteReader {
    data: Vec<u8>,
    pos: usize,
    end: usize,
    capacity: usize,
}

impl View for ByteReader {
    type V = ReaderView;

    closed spec fn view(&self) -> ReaderView {
        ReaderView {
            rest: self.data@.skip(self.pos as int),
            buffered: (self.end - self.pos) as nat,
            capacity: self.capacity as nat,
        }
    }
}

impl ByteReader {
    #[verifier::type_invariant]
    spec fn inv(self) -> bool {
        self.pos <= self.end <= self.data.len() && self.capacity > 0
    }

    /// A reader of `data` whose buffer takes all of it at once.
    pub fn new(data: Vec<u8>) -> (r: ByteReader)
        ensures
            r@ == (ReaderView { rest: data@, buffered: 0, capacity: usize::MAX as nat }),
    {
        let r = ByteReader { data, pos: 0, end: 0, capacity: usize::MAX };
        assert(r.data@.skip(0) =~= data@);
        r
    }

    /// A reader of `data` whose buffer takes `capacity` bytes.
    pub fn with_capacity(capacity: usize, data: Vec<u8>) -> (r: ByteReader)
        requires
            capacity > 0,
        ensures
            r@ == (ReaderView { rest: data@, buffered: 0, capacity: capacity as nat }),
    {
        let r = ByteReader { data, pos: 0, end: 0, capacity };
        assert(r.data@.skip(0) =~= data@);
        r
    }

    /// Fills the buffer if it is empty.
    pub fn fill_buf(&mut self)
        ensures
            final(self)@ == old(self)@.filled(),
            final(self)@.wf(),
    {
        proof {
            use_type_invariant(&*self);
        }
        if self.pos == self.end {
            if self.data.len() - self.pos <= self.capacity {
                self.end = self.data.len();
            } else {
                self.end = self.pos + self.capacity;
            }
        }
    }

    /// The bytes in the buffer.
    pub fn buffer(&self) -> (r: &[u8])
        ensures
            r@ == self@.buffer(),
    {
        proof {
            use_type_invariant(self);
        }
        assert(self.data@.subrange(self.pos as int, self.end as int) =~= self.data@.skip(
            self.pos as int,
        ).take(self.end - self.pos));
        vstd::slice::slice_subrange(self.data.as_slice(), self.pos, self.end)
    }

    /// Uses up `n` bytes of the buffer.
    pub fn consume(&mut self, n: usize)
        requires
            n <= old(self)@.buffered,
        ensures
            final(self)@ == old(self)@.consumed(n as nat),
    {
        proof {
            use_type_invariant(&*self);
        }
        assert(self.data@.skip(self.pos + n) =~= self.data@.skip(self.pos as int).skip(n as int));
        self.pos = self.pos + n;
    }
}

/// What is known of a line at the point where no more bytes are announced.
#[derive(Clone, Copy, Debug, PartialEq, Eq, Structural)]
pub enum Boundary {
    /// The bytes read so far are handed back.
    Complete,
    /// More bytes have to be read.
    More,
    /// The bytes can never become valid text.
    Invalid,
}

/// Whether reading goes on after `bytes`, when `total_avail` bytes were announced:
/// it does below that number, and beyond it while a character is incomplete.
pub open spec fn boundary(bytes: Seq<u8>, total_avail: nat) -> Boundary {
    if bytes.len() < total_avail {
        Boundary::More
    } else if valid_utf8(bytes) {
        Boundary::Complete
    } else if encoding::ends_mid_char(bytes) {
        Boundary::More
    } else {
        Boundary::Invalid
    }
}

/// How many bytes a line may still take after `bytes`, unless a newline comes: those that
/// are left of the announced ones; after these, those that a character which was cut
/// in two is missing.
pub open spec fn room_left(bytes: Seq<u8>, total_avail: nat) -> nat {
    if bytes.len() < total_avail {
        (total_avail - bytes.len()) as nat
    } else {
        encoding::missing_bytes(bytes)
    }
}

/// How many of the bytes at hand belong to the line, when `bytes` were taken before:
/// up to a newline if there is one; else as many as there is room for.
pub open spec fn take_len(bytes: Seq<u8>, total_avail: nat, available: Seq<u8>) -> nat {
    if available.contains(NEWLINE) {
        (available.index_of_first(NEWLINE)->0 + 1) as nat
    } else if available.len() <= room_left(bytes, total_avail) {
        available.len()
    } else {
        room_left(bytes, total_avail)
    }
}

/// The words for a line of `len` bytes where `max_bytes` are allowed.
pub open spec fn too_long_text(max_bytes: nat, len: nat) -> Seq<char> {
    "IPC 单行超过 "@ + text::decimal(max_bytes) + " 字节上限（当前 "@ + text::decimal(len)
        + " 字节）"@
}

/// The words for bytes that are not text.
pub open spec fn not_utf8_text(detail: Seq<char>) -> Seq<char> {
    "IPC 响应非有效 UTF-8: "@ + detail
}

/// How an attempt to read a line ends.
pub enum LineOutcome {
    /// These bytes were read.
    Line(Seq<u8>),
    /// The line would have had this many bytes, which are too many.
    TooLong(nat),
    /// These bytes can never become valid text.
    NotUtf8(Seq<u8>),
}

/// How reading goes on from `reader` after `bytes` of the line were read, and the
/// reader that it leaves.
pub open spec fn line_outcome(
    bytes: Seq<u8>,
    reader: ReaderView,
    max_bytes: nat,
    total_avail: nat,
) -> (LineOutcome, ReaderView)
    decreases reader.rest.len(),
{
    match boundary(bytes, total_avail) {
        Boundary::Complete => (LineOutcome::Line(bytes), reader),
        Boundary::Invalid => (LineOutcome::NotUtf8(bytes), reader),
        Boundary::More => {
            let filled = reader.filled();
            let available = filled.buffer();
            let n = take_len(bytes, total_avail, available);
            if available.len() == 0 {
                (LineOutcome::Line(bytes), filled)
            } else if bytes.len() + n > max_bytes {
                (LineOutcome::TooLong(bytes.len() + n), filled)
            } else if available.contains(NEWLINE) {
                (LineOutcome::Line(bytes + available.take(n as int)), filled.consumed(n))
            } else if 0 < n <= filled.rest.len() {
                line_outcome(
                    bytes + available.take(n as int),
                    filled.consumed(n),
                    max_bytes,
                    total_avail,
                )
            } else {
                (LineOutcome::Line(bytes), filled)
            }
        },
    }
}

/// The result of reading a line is this outcome.
pub open spec fn is_outcome(r: Result<Vec<u8>, MirrorStarError>, outcome: LineOutcome, max_bytes: nat)
    -> bool {
    match outcome {
        LineOutcome::Line(bytes) => r matches Ok(v) && v@ == bytes,
        LineOutcome::TooLong(len) => r matches Err(e) && e@ == (
            ErrorKind::IpcError,
            too_long_text(max_bytes, len),
        ),
        LineOutcome::NotUtf8(bytes) => r matches Err(e) && e@ == (
            ErrorKind::IpcError,
            not_utf8_text(encoding::utf8_error_text(bytes)),
        ),
    }
}

/// What became of the bytes that were offered to a line.
#[derive(Clone, Copy, Debug, PartialEq, Eq, Structural)]
pub struct Taken {
    /// How many bytes were used up.
    pub consumed: usize,
    /// The line is finished.
    pub finished: bool,
}

/// A line that is being read.
pub struct LineBuffer {
    bytes: Vec<u8>,
    max_bytes: usize,
    total_avail: usize,
}

impl LineBuffer {
    #[verifier::type_invariant]
    spec fn inv(self) -> bool {
        self.bytes.len() <= self.max_bytes
    }

    /// The bytes read so far.
    pub closed spec fn bytes(self) -> Seq<u8> {
        self.bytes@
    }

    /// The most bytes that the line may have.
    pub closed spec fn max_bytes(self) -> nat {
        self.max_bytes as nat
    }

    /// The number of bytes that were announced.
    pub closed spec fn total_avail(self) -> nat {
        self.total_avail as nat
    }

    /// An empty line of at most `max_bytes` bytes, `total_avail` bytes being announced.
    pub fn new(max_bytes: usize, total_avail: usize) -> (r: LineBuffer)
        ensures
            r.bytes() == Seq::<u8>::empty(),
            r.max_bytes() == max_bytes,
            r.total_avail() == total_avail,
    {
        LineBuffer { bytes: Vec::new(), max_bytes, total_avail }
    }

    /// Whether the line is to be handed back before anything more is read; an error
    /// if it can never become text.
    pub fn is_complete(&self) -> (r: Result<bool, MirrorStarError>)
        ensures
            match boundary(self.bytes(), self.total_avail()) {
                Boundary::Complete => r matches Ok(b) && b,
                Boundary::More => r matches Ok(b) && !b,
                Boundary::Invalid => r matches Err(e) && e@ == (
                    ErrorKind::IpcError,
                    not_utf8_text(encoding::utf8_error_text(self.bytes())),
                ),
            },
    {
        if self.bytes.len() < self.total_avail {
            return Ok(false);
        }
        match encoding::utf8_fault(self.bytes.as_slice()) {
            None => Ok(true),
            Some(fault) => {
                if fault.error_len.is_none() {
                    Ok(false)
                } else {
                    Err(
                        MirrorStarError::IpcError(
                            text::join2(
                                "IPC 响应非有效 UTF-8: ",
                                encoding::fault_text(fault).as_str(),
                            ),
                        ),
                    )
                }
            },
        }
    }

    /// Takes what belongs to the line from the bytes at hand; no bytes mean that the
    /// other side is done. The length is checked before anything is copied.
    pub fn accept(&mut self, available: &[u8]) -> (r: Result<Taken, MirrorStarError>)
        ensures
            ({
                let have = old(self).bytes().len();
                let n = take_len(old(self).bytes(), old(self).total_avail(), available@);
                if available@.len() == 0 {
                    &&& r matches Ok(t) && t.consumed == 0 && t.finished
                    &&& *final(self) == *old(self)
                } else if have + n > old(self).max_bytes() {
                    &&& r matches Err(e) && e@ == (
                        ErrorKind::IpcError,
                        too_long_text(old(self).max_bytes(), have + n),
                    )
                    &&& *final(self) == *old(self)
                } else {
                    &&& r matches Ok(t) && t.consumed == n && t.finished == available@.contains(
                        NEWLINE,
                    )
                    &&& final(self).bytes() == old(self).bytes() + available@.take(n as int)
                    &&& final(self).max_bytes() == old(self).max_bytes()
                    &&& final(self).total_avail() == old(self).total_avail()
                }
            }),
    {
        proof {
            use_type_invariant(&*self);
        }
        let len = available.len();
        if len == 0 {
            return Ok(Taken { consumed: 0, finished: true });
        }
        let mut pos: usize = 0;
        while pos < len && available[pos] != NEWLINE
            invariant
                len == available.len(),
                pos <= len,
                forall|k: int| 0 <= k < pos ==> available@[k] != NEWLINE,
            decreases len - pos,
        {
            pos += 1;
        }
        let found = pos < len;
        let have = self.bytes.len();
        let n: usize;
        if found {
            n = pos + 1;
            proof {
                assert(available@[pos as int] == NEWLINE);
                available@.index_of_first_ensures(NEWLINE);
            }
        } else {
            let room: usize = if have < self.total_avail {
                self.total_avail - have
            } else {
                encoding::missing_len(self.bytes.as_slice())
            };
            n = if len <= room {
                len
            } else {
                room
            };
        }
        assert(n == take_len(self.bytes@, self.total_avail as nat, available@));
        if n > self.max_bytes - have {
            let mut m = String::from_str("IPC 单行超过 ");
            m.append(text::decimal_text(self.max_bytes as u128).as_str());
            m.append(" 字节上限（当前 ");
            m.append(text::decimal_text(have as u128 + n as u128).as_str());
            m.append(" 字节）");
            return Err(MirrorStarError::IpcError(m));
        }
        let ghost before = self.bytes@;
        let mut bytes: Vec<u8> = Vec::new();
        std::mem::swap(&mut bytes, &mut self.bytes);
        let mut i: usize = 0;
        while i < n
            invariant
                i <= n <= available.len(),
                bytes@ == before + available@.take(i as int),
            decreases n - i,
        {
            bytes.push(available[i]);
            i += 1;
        }
        self.bytes = bytes;
        Ok(Taken { consumed: n, finished: found })
    }

    /// The bytes read.
    pub fn into_bytes(self) -> (r: Vec<u8>)
        ensures
            r@ == self.bytes(),
            r@.len() <= self.max_bytes(),
    {
        proof {
            use_type_invariant(&self);
        }
        self.bytes
    }
}

/// Reads one line, newline included, of at most `max_bytes` bytes, when `total_avail`
/// bytes are announced to be there. Without a newline the bytes announced come
/// back, so that the caller can wait for the rest; a character that the
/// announced number cuts in two is completed first, by the bytes it is missing.
pub fn read_line_with_limit(
    reader: &mut ByteReader,
    max_bytes: usize,
    total_avail: usize,
) -> (r: Result<Vec<u8>, MirrorStarError>)
    ensures
        is_outcome(
            r,
            line_outcome(Seq::empty(), old(reader)@, max_bytes as nat, total_avail as nat).0,
            max_bytes as nat,
        ),
        final(reader)@ == line_outcome(
            Seq::empty(),
            old(reader)@,
            max_bytes as nat,
            total_avail as nat,
        ).1,
{
    let mut line = LineBuffer::new(max_bytes, total_avail);
    proof {
        use_type_invariant(&*reader);
    }
    loop
        invariant
            reader@.wf(),
            line.max_bytes() == max_bytes,
            line.total_avail() == total_avail,
            line_outcome(line.bytes(), reader@, max_bytes as nat, total_avail as nat)
                == line_outcome(Seq::empty(), old(reader)@, max_bytes as nat, total_avail as nat),
        decreases reader@.rest.len(),
    {
        match line.is_complete() {
            Err(e) => {
                return Err(e);
            },
            Ok(done) => {
                if done {
                    return Ok(line.into_bytes());
                }
            },
        }
        reader.fill_buf();
        let ghost available = reader@.buffer();
        let ghost have = line.bytes();
        match line.accept(reader.buffer()) {
            Err(e) => {
                return Err(e);
            },
            Ok(t) => {
                assert(t.consumed <= reader@.buffered) by {
                    if available.contains(NEWLINE) {
                        available.index_of_first_ensures(NEWLINE);
                    }
                }
                assert(reader@.consumed(0) =~= reader@);
                proof {
                    if have.len() >= total_avail {
                        lemma_cut_is_short(have);
                    }
                }
                reader.consume(t.consumed);
                if t.finished {
                    return Ok(line.into_bytes());
                }
            },
        }
    }
}

/// A character that is cut in two is missing one to three bytes.
proof fn lemma_cut_is_short(bytes: Seq<u8>)
    requires
        encoding::ends_mid_char(bytes),
    ensures
        1 <= encoding::missing_bytes(bytes) <= 3,
{
    let rest = choose|rest: Seq<u8>| 1 <= rest.len() <= 3 && #[trigger] valid_utf8(bytes + rest);
    encoding::law_missing_bytes(bytes, rest);
}

/// Bytes that go into a character that was cut in two leave it in want of so many fewer.
proof fn lemma_cut_is_filled(bytes: Seq<u8>, more: Seq<u8>)
    requires
        encoding::ends_mid_char(bytes),
        encoding::ends_mid_char(bytes + more),
        more.len() <= encoding::missing_bytes(bytes),
    ensures
        encoding::missing_bytes(bytes + more) + more.len() <= encoding::missing_bytes(bytes),
{
    let rest = choose|rest: Seq<u8>|
        1 <= rest.len() <= 3 && #[trigger] valid_utf8(bytes + more + rest);
    let m = encoding::missing_bytes(bytes) as int;
    assert(bytes + (more + rest) =~= bytes + more + rest);
    encoding::law_missing_bytes(bytes, more + rest);
    let filled = (more + rest).take(m);
    if more.len() == m {
        assert(filled =~= more);
    }
    let left = filled.skip(more.len() as int);
    assert(filled =~= more + left);
    assert(bytes + more + left =~= bytes + filled);
    encoding::law_missing_bytes(bytes + more, left);
}

/// What is true of any line that was read from `reader`, after `bytes` of it.
proof fn lemma_line_outcome(bytes: Seq<u8>, reader: ReaderView, max_bytes: nat, total_avail: nat)
    requires
        reader.wf(),
        bytes.len() <= max_bytes,
        !bytes.contains(NEWLINE),
    ensures
        ({
            let (outcome, after) = line_outcome(bytes, reader, max_bytes, total_avail);
            &&& after.wf()
            &&& match outcome {
                LineOutcome::Line(line) => {
                    &&& line + after.rest == bytes + reader.rest
                    &&& line.len() <= max_bytes
                    &&& forall|k: int| 0 <= k < line.len() - 1 ==> line[k] != NEWLINE
                    &&& (line.len() > 0 && line.last() == NEWLINE) || after.rest.len() == 0 || (
                    line.len() >= total_avail && valid_utf8(line))
                },
                LineOutcome::TooLong(len) => len > max_bytes,
                LineOutcome::NotUtf8(line) => {
                    &&& line.len() >= total_avail
                    &&& line.is_prefix_of(bytes + reader.rest)
                    &&& !valid_utf8(line)
                    &&& !encoding::ends_mid_char(line)
                },
            }
        }),
    decreases reader.rest.len(),
{
    match boundary(bytes, total_avail) {
        Boundary::Complete => {},
        Boundary::Invalid => {},
        Boundary::More => {
            let filled = reader.filled();
            let available = filled.buffer();
            let n = take_len(bytes, total_avail, available);
            if available.len() != 0 && bytes.len() + n <= max_bytes {
                let taken = available.take(n as int);
                if available.contains(NEWLINE) {
                    available.index_of_first_ensures(NEWLINE);
                    assert((bytes + taken).last() == NEWLINE);
                    assert(bytes + taken + filled.consumed(n).rest =~= bytes + reader.rest);
                } else {
                    assert(!(bytes + taken).contains(NEWLINE)) by {
                        if (bytes + taken).contains(NEWLINE) {
                            let k = choose|k: int|
                                0 <= k < (bytes + taken).len() && (bytes + taken)[k] == NEWLINE;
                            if k < bytes.len() {
                                assert(bytes[k] == NEWLINE);
                            } else {
                                assert(available[k - bytes.len()] == NEWLINE);
                            }
                        }
                    }
                    assert(bytes + taken + filled.consumed(n).rest =~= bytes + reader.rest);
                    if bytes.len() >= total_avail {
                        lemma_cut_is_short(bytes);
                    }
                    lemma_line_outcome(bytes + taken, filled.consumed(n), max_bytes, total_avail);
                }
            }
        },
    }
}

/// Reading a line loses and invents nothing: the line read and what the reader still
/// holds are together what the reader held before. The line has at most
/// `max_bytes` bytes, and a newline only at its end. A line without one ends
/// where the reader ended, or holds at least the announced bytes, as valid text.
pub proof fn law_line_read(reader: ReaderView, max_bytes: nat, total_avail: nat)
    requires
        reader.wf(),
    ensures
        line_outcome(Seq::empty(), reader, max_bytes, total_avail).0 matches LineOutcome::Line(
            line,
        ) ==> {
            let after = line_outcome(Seq::empty(), reader, max_bytes, total_avail).1;
            &&& line + after.rest == reader.rest
            &&& line.len() <= max_bytes
            &&& forall|k: int| 0 <= k < line.len() - 1 ==> line[k] != NEWLINE
            &&& (line.len() > 0 && line.last() == NEWLINE) || after.rest.len() == 0 || (line.len()
                >= total_avail && valid_utf8(line))
        },
{
    lemma_line_outcome(Seq::empty(), reader, max_bytes, total_avail);
    assert(Seq::<u8>::empty() + reader.rest =~= reader.rest);
}

/// How far past the announced number a line without a newline can go.
proof fn lemma_line_is_bounded(bytes: Seq<u8>, reader: ReaderView, max_bytes: nat, total_avail: nat)
    requires
        reader.wf(),
        bytes.len() > total_avail ==> bytes.len() + (if encoding::ends_mid_char(bytes) {
            encoding::missing_bytes(bytes)
        } else {
            0
        }) <= total_avail + 3,
    ensures
        line_outcome(bytes, reader, max_bytes, total_avail).0 matches LineOutcome::Line(line) ==> (
        line.len() > 0 && line.last() == NEWLINE) || line.len() <= total_avail + 3,
    decreases reader.rest.len(),
{
    if boundary(bytes, total_avail) == Boundary::More {
        let filled = reader.filled();
        let available = filled.buffer();
        let n = take_len(bytes, total_avail, available);
        let taken = available.take(n as int);
        if available.len() == 0 || bytes.len() + n > max_bytes {
        } else if available.contains(NEWLINE) {
            available.index_of_first_ensures(NEWLINE);
            assert((bytes + taken).last() == NEWLINE);
        } else {
            if bytes.len() >= total_avail {
                lemma_cut_is_short(bytes);
                if encoding::ends_mid_char(bytes + taken) {
                    lemma_cut_is_filled(bytes, taken);
                }
            }
            lemma_line_is_bounded(bytes + taken, filled.consumed(n), max_bytes, total_avail);
        }
    }
}

/// Reading never goes far past the announced number: a line without a newline has at most
/// three bytes more, which are those that complete its last character.
pub proof fn law_line_near_announced(reader: ReaderView, max_bytes: nat, total_avail: nat)
    requires
        reader.wf(),
    ensures
        line_outcome(Seq::empty(), reader, max_bytes, total_avail).0 matches LineOutcome::Line(
            line,
        ) ==> (line.len() > 0 && line.last() == NEWLINE) || line.len() <= total_avail + 3,
{
    lemma_line_is_bounded(Seq::empty(), reader, max_bytes, total_avail);
}

/// The first line of some bytes, newline included; all of them if there is no newline.
pub open spec fn first_line(s: Seq<u8>) -> Seq<u8> {
    if s.contains(NEWLINE) {
        s.take(s.index_of_first(NEWLINE)->0 + 1)
    } else {
        s
    }
}

/// Bytes without a newline before some bytes belong to the first line.
proof fn lemma_first_line(a: Seq<u8>, b: Seq<u8>)
    requires
        !a.contains(NEWLINE),
    ensures
        first_line(a + b) == a + first_line(b),
{
    let s = a + b;
    assert forall|k: int| 0 <= k < a.len() implies s[k] != NEWLINE by {
        assert(a.contains(a[k]));
    }
    s.index_of_first_ensures(NEWLINE);
    b.index_of_first_ensures(NEWLINE);
    if b.contains(NEWLINE) {
        let j = b.index_of_first(NEWLINE)->0;
        assert(s[a.len() + j] == NEWLINE);
        assert(s.contains(NEWLINE));
        let i = s.index_of_first(NEWLINE)->0;
        assert(b[i - a.len()] == s[i]);
        assert(s[a.len() + j] == b[j]);
        assert(i == a.len() + j) by {
            if i > a.len() + j {
                assert(s[a.len() + j] != NEWLINE);
            }
            if i < a.len() + j {
                assert(b[i - a.len()] != NEWLINE);
            }
        }
        assert(s.take(i + 1) =~= a + b.take(j + 1));
    } else {
        if s.contains(NEWLINE) {
            let i = s.index_of_first(NEWLINE)->0;
            assert(b[i - a.len()] == NEWLINE);
        }
    }
}

/// With room for all bytes, and more announced than there are, the first line is read.
proof fn lemma_whole_line(bytes: Seq<u8>, reader: ReaderView, max_bytes: nat, total_avail: nat)
    requires
        reader.wf(),
        !bytes.contains(NEWLINE),
        bytes.len() + reader.rest.len() <= max_bytes,
        bytes.len() + reader.rest.len() < total_avail,
    ensures
        line_outcome(bytes, reader, max_bytes, total_avail).0 == LineOutcome::Line(
            bytes + first_line(reader.rest),
        ),
    decreases reader.rest.len(),
{
    let filled = reader.filled();
    let available = filled.buffer();
    let n = take_len(bytes, total_avail, available);
    if available.len() == 0 {
        assert(bytes + first_line(reader.rest) =~= bytes);
    } else if available.contains(NEWLINE) {
        available.index_of_first_ensures(NEWLINE);
        let j = available.index_of_first(NEWLINE)->0;
        let head = available.take(j);
        assert(!head.contains(NEWLINE)) by {
            if head.contains(NEWLINE) {
                let k = choose|k: int| 0 <= k < head.len() && head[k] == NEWLINE;
                assert(available[k] == NEWLINE);
            }
        }
        let tail = reader.rest.skip(j);
        assert(reader.rest =~= head + tail);
        lemma_first_line(head, tail);
        assert(tail[0] == NEWLINE);
        assert(tail.contains(NEWLINE));
        tail.index_of_first_ensures(NEWLINE);
        assert(tail.index_of_first(NEWLINE) == Some(0int));
        assert(available.take(n as int) =~= head + tail.take(1));
    } else {
        let next = bytes + available;
        assert(available.take(n as int) =~= available);
        assert(!next.contains(NEWLINE)) by {
            if next.contains(NEWLINE) {
                let k = choose|k: int| 0 <= k < next.len() && next[k] == NEWLINE;
                if k < bytes.len() {
                    assert(bytes.contains(bytes[k]));
                } else {
                    assert(available.contains(available[k - bytes.len()]));
                }
            }
        }
        lemma_whole_line(next, filled.consumed(n), max_bytes, total_avail);
        let tail = filled.consumed(n).rest;
        assert(reader.rest =~= available + tail);
        lemma_first_line(available, tail);
        assert(next + first_line(tail) =~= bytes + first_line(reader.rest));
    }
}

/// A line that comes in two reads is whole: if the first read, whatever was announced to
/// it, ended before the newline, it and the next one together are the first line of
/// what the reader held, as long as that one has room for it and more bytes are
/// announced to it than there are.
pub proof fn law_partial_reads_join(
    reader: ReaderView,
    max_bytes: nat,
    total_avail: nat,
    next_max_bytes: nat,
    next_total_avail: nat,
)
    requires
        reader.wf(),
        reader.rest.len() <= next_max_bytes,
        reader.rest.len() < next_total_avail,
    ensures
        ({
            let (first, between) = line_outcome(Seq::empty(), reader, max_bytes, total_avail);
            let next = line_outcome(Seq::empty(), between, next_max_bytes, next_total_avail).0;
            first matches LineOutcome::Line(a) ==> (a.len() > 0 && a.last() == NEWLINE) || (
            next matches LineOutcome::Line(b) && a + b == first_line(reader.rest))
        }),
{
    lemma_line_outcome(Seq::empty(), reader, max_bytes, total_avail);
    assert(Seq::<u8>::empty() + reader.rest =~= reader.rest);
    let (first, between) = line_outcome(Seq::empty(), reader, max_bytes, total_avail);
    if let LineOutcome::Line(a) = first {
        if !(a.len() > 0 && a.last() == NEWLINE) {
            assert(!a.contains(NEWLINE));
            lemma_whole_line(Seq::empty(), between, next_max_bytes, next_total_avail);
            lemma_first_line(a, between.rest);
            assert(Seq::<u8>::empty() + first_line(between.rest) =~= first_line(between.rest));
        }
    }
}

/// A line is refused for its length only beyond the limit, and as text only where its
/// bytes are wrong for good, not merely cut short.
pub proof fn law_line_refused(reader: ReaderView, max_bytes: nat, total_avail: nat)
    requires
        reader.wf(),
    ensures
        match line_outcome(Seq::empty(), reader, max_bytes, total_avail).0 {
            LineOutcome::Line(_) => true,
            LineOutcome::TooLong(len) => len > max_bytes,
            LineOutcome::NotUtf8(line) => line.is_prefix_of(reader.rest) && !valid_utf8(line)
                && !encoding::ends_mid_char(line),
        },
{
    lemma_line_outcome(Seq::empty(), reader, max_bytes, total_avail);
    assert(Seq::<u8>::empty() + reader.rest =~= reader.rest);
}

/// The first wait between two looks at a pipe, in milliseconds.
pub const POLL_INITIAL_BACKOFF_MS: u64 = 10;

/// The longest wait between two looks at a pipe, in milliseconds.
pub const POLL_MAX_BACKOFF_MS: u64 = 100;

/// Waits that double each time, up to a limit.
#[derive(Clone, Copy, Debug)]
pub struct Backoff {
    max: Delay,
    current: Delay,
}

/// The wait after `current`: twice as long, but at most `max`.
pub open spec fn next_wait(current: int, max: int) -> int {
    if 2 * current <= max {
        2 * current
    } else {
        max
    }
}

/// The wait number `k`, counted from zero, of waits that start with `initial`.
pub open spec fn nth_wait(initial: int, max: int, k: nat) -> int
    decreases k,
{
    if k == 0 {
        initial
    } else {
        next_wait(nth_wait(initial, max, (k - 1) as nat), max)
    }
}

impl Backoff {
    /// The longest wait, in nanoseconds.
    pub closed spec fn max(self) -> int {
        self.max.nanos as int
    }

    /// The next wait, in nanoseconds.
    pub closed spec fn current(self) -> int {
        self.current.nanos as int
    }

    /// Waits are never empty and never exceed the limit.
    pub closed spec fn wf(self) -> bool {
        self.max.wf() && 0 < self.current.nanos <= self.max.nanos
    }

    /// Waits that start with `initial` and reach at most `max`.
    pub fn new(initial: Delay, max: Delay) -> (r: Backoff)
        requires
            initial.wf(),
            max.wf(),
            initial.nanos > 0,
            max.nanos >= initial.nanos,
        ensures
            r.wf(),
            r.max() == max.nanos,
            r.current() == initial.nanos,
    {
        Backoff { max, current: initial }
    }

    /// The next wait; the one after it is twice as long, up to the limit.
    pub fn next_delay(&mut self) -> (r: Delay)
        requires
            old(self).wf(),
        ensures
            final(self).wf(),
            r.wf(),
            r.nanos == old(self).current(),
            final(self).max() == old(self).max(),
            final(self).current() == next_wait(old(self).current(), old(self).max()),
    {
        let cur = self.current;
        let doubled = cur.saturating_double();
        if doubled.nanos <= self.max.nanos {
            self.current = doubled;
        } else {
            self.current = self.max;
        }
        cur
    }
}

impl Default for Backoff {
    /// The waits between two looks at a pipe.
    fn default() -> (r: Self)
        ensures
            r.wf(),
            r.current() == POLL_INITIAL_BACKOFF_MS * 1_000_000,
            r.current() == 10_000_000,
            r.max() == POLL_MAX_BACKOFF_MS * 1_000_000,
            r.max() == 100_000_000,
    {
        Backoff::new(
            Delay::from_millis(POLL_INITIAL_BACKOFF_MS),
            Delay::from_millis(POLL_MAX_BACKOFF_MS),
        )
    }
}

/// Waits never shrink, never exceed the limit, and once at the limit stay there.
pub proof fn law_backoff(initial: int, max: int, k: nat)
    requires
        0 < initial <= max,
    ensures
        initial <= nth_wait(initial, max, k) <= max,
        nth_wait(initial, max, k) <= nth_wait(initial, max, k + 1),
        nth_wait(initial, max, k) == max ==> nth_wait(initial, max, k + 1) == max,
    decreases k,
{
    if k > 0 {
        law_backoff(initial, max, (k - 1) as nat);
    }
}

/// Wait number `k`, counted from zero, is the first one doubled `k` times, up to the limit.
pub proof fn law_backoff_doubles(initial: int, max: int, k: nat)
    requires
        0 < initial <= max,
    ensures
        nth_wait(initial, max, k) == if initial * pow2(k) <= max {
            initial * pow2(k)
        } else {
            max
        },
    decreases k,
{
    if k > 0 {
        let before = (k - 1) as nat;
        law_backoff_doubles(initial, max, before);
        lemma_pow2_unfold(k);
        lemma_pow2_pos(before);
        assert(initial * pow2(k) == 2 * (initial * pow2(before))) by (nonlinear_arith)
            requires
                pow2(k) == 2 * pow2(before),
        ;
        assert(initial * pow2(before) > 0) by (nonlinear_arith)
            requires
                initial > 0,
                pow2(before) > 0,
        ;
    } else {
        lemma2_to64();
    }
}

/// Waits whose first is already the longest are all the same.
pub proof fn law_backoff_constant(initial: int, k: nat)
    requires
        0 < initial,
    ensures
        nth_wait(initial, initial, k) == initial,
    decreases k,
{
    if k > 0 {
        law_backoff_constant(initial, (k - 1) as nat);
    }
}

/// Why a look at a pipe failed.
#[derive(Debug)]
pub struct PeekFailure {
    /// The system's result code.
    pub code: i32,
    /// The system's words.
    pub text: String,
}

/// The system's number for a pipe whose other end is gone.
pub const ERROR_BROKEN_PIPE: u32 = 109;

/// The system's number for a pipe that is being closed.
pub const ERROR_NO_DATA: u32 = 232;

/// The system's error number within a result code: its sixteen lowest bits.
pub open spec fn win32_code(code: i32) -> int {
    (code as int) % 65536
}

/// Whether a result code says that the other end of the pipe is closed.
pub open spec fn is_end_of_pipe(code: i32) -> bool {
    win32_code(code) == ERROR_BROKEN_PIPE || win32_code(code) == ERROR_NO_DATA
}

/// Whether a result code says that the other end of the pipe is closed.
fn end_of_pipe(code: i32) -> (r: bool)
    ensures
        r == is_end_of_pipe(code),
{
    let bits: u32 = code as u32;
    let low: u32 = bits & 0xffff;
    assert(code >= 0 ==> bits == code) by (bit_vector)
        requires
            bits == code as u32,
    ;
    assert(code < 0 ==> bits == code + 0x1_0000_0000) by (bit_vector)
        requires
            bits == code as u32,
    ;
    assert(low == bits % 65536) by (bit_vector)
        requires
            low == bits & 0xffff,
    ;
    low == ERROR_BROKEN_PIPE || low == ERROR_NO_DATA
}

/// The result of ending a line with these bytes.
pub open spec fn is_decoded(r: Result<String, MirrorStarError>, bytes: Seq<u8>) -> bool {
    if valid_utf8(bytes) {
        r matches Ok(s) && s@ == decode_utf8(bytes)
    } else {
        r matches Err(e) && e@ == (
            ErrorKind::IpcError,
            not_utf8_text(encoding::utf8_error_text(bytes)),
        )
    }
}

/// The text of a complete line.
fn decode_line(bytes: Vec<u8>) -> (r: Result<String, MirrorStarError>)
    ensures
        is_decoded(r, bytes@),
{
    match encoding::decode_text(bytes) {
        Ok(s) => Ok(s),
        Err(t) => Err(
            MirrorStarError::IpcError(text::join2("IPC 响应非有效 UTF-8: ", t.as_str())),
        ),
    }
}

/// What to do after a look at the pipe.
#[derive(Debug)]
pub enum PollStep {
    /// Read with these limits, and report what came.
    Read {
        /// The most bytes that may be read.
        max_bytes: usize,
        /// The bytes that are there.
        total_avail: usize,
    },
    /// Nothing is there: look at the clock.
    Idle,
    /// The wait for the line is over.
    Finished(Result<String, MirrorStarError>),
}

/// What a piece of a line does to the bytes that came before it.
pub enum ChunkEffect {
    /// The line is over, with these bytes.
    Complete(Seq<u8>),
    /// The wait goes on, with these bytes.
    Partial(Seq<u8>),
}

/// An empty piece means that the pipe is closed, a piece that ends in a newline
/// completes the line, any other is kept.
pub open spec fn chunk_effect(partial: Seq<u8>, chunk: Seq<u8>) -> ChunkEffect {
    if chunk.len() == 0 {
        ChunkEffect::Complete(partial)
    } else if chunk.last() == NEWLINE {
        ChunkEffect::Complete(partial + chunk)
    } else {
        ChunkEffect::Partial(partial + chunk)
    }
}

/// The bytes kept after a number of pieces that did not complete the line.
pub open spec fn kept_after(chunks: Seq<Seq<u8>>) -> Seq<u8>
    decreases chunks.len(),
{
    if chunks.len() == 0 {
        Seq::empty()
    } else {
        match chunk_effect(kept_after(chunks.drop_last()), chunks.last()) {
            ChunkEffect::Complete(bytes) => bytes,
            ChunkEffect::Partial(bytes) => bytes,
        }
    }
}

/// A line that came in pieces is the pieces put together, in order.
pub proof fn law_pieces_join(chunks: Seq<Seq<u8>>)
    ensures
        kept_after(chunks) == chunks.flatten(),
    decreases chunks.len(),
{
    if chunks.len() > 0 {
        law_pieces_join(chunks.drop_last());
        chunks.lemma_flatten_and_flatten_alt_are_equivalent();
        chunks.drop_last().lemma_flatten_and_flatten_alt_are_equivalent();
        assert(kept_after(chunks) =~= kept_after(chunks.drop_last()) + chunks.last());
    } else {
        assert(kept_after(chunks) =~= chunks.flatten());
    }
}

/// A line that is awaited from a pipe, piece by piece, until a deadline.
///
/// The caller looks at the pipe (`on_peek`), reads where told and reports the
/// piece (`on_chunk`), then looks at the clock (`on_clock`) and sleeps as long
/// as told before the next look.
pub struct LineWait {
    partial: Vec<u8>,
    backoff: Backoff,
    deadline: u128,
}

/// Starts to wait for a line from `now` on, for `timeout` at most.
pub fn read_line_with_timeout(now: u128, timeout: Delay) -> (r: LineWait)
    requires
        now + timeout.nanos <= u128::MAX,
    ensures
        r.partial() == Seq::<u8>::empty(),
        r.deadline() == now + timeout.nanos,
        r.backoff().wf(),
        r.backoff().current() == POLL_INITIAL_BACKOFF_MS * 1_000_000,
        r.backoff().current() == 10_000_000,
        r.backoff().max() == POLL_MAX_BACKOFF_MS * 1_000_000,
        r.backoff().max() == 100_000_000,
{
    LineWait { partial: Vec::new(), backoff: Backoff::default(), deadline: now + timeout.nanos }
}

impl LineWait {
    /// The bytes of the line that have come.
    pub closed spec fn partial(self) -> Seq<u8> {
        self.partial@
    }

    /// The waits to come.
    pub closed spec fn backoff(self) -> Backoff {
        self.backoff
    }

    /// When the wait is given up.
    pub closed spec fn deadline(self) -> int {
        self.deadline as int
    }

    /// How many more bytes the line may get.
    pub open spec fn room(self) -> int {
        if self.partial().len() < MAX_LINE_BYTES {
            MAX_LINE_BYTES - self.partial().len()
        } else {
            0
        }
    }

    /// What to do after a look at the pipe, which has `buffered` bytes in the reader's
    /// buffer and told how many more are there, or failed.
    pub fn on_peek(&mut self, buffered: usize, peeked: Result<u32, PeekFailure>) -> (r: PollStep)
        requires
            peeked matches Ok(n) ==> buffered + n <= usize::MAX,
        ensures
            match peeked {
                Ok(n) => {
                    &&& *final(self) == *old(self)
                    &&& if buffered + n == 0 {
                        r is Idle
                    } else if old(self).room() == 0 {
                        r matches PollStep::Finished(Err(e)) && e@ == (
                            ErrorKind::IpcError,
                            "IPC 单行超过 "@ + text::decimal(MAX_LINE_BYTES as nat)
                                + " 字节上限"@,
                        )
                    } else {
                        r matches PollStep::Read { max_bytes, total_avail } && max_bytes == old(
                            self,
                        ).room() && total_avail == buffered + n
                    }
                },
                Err(failure) => if is_end_of_pipe(failure.code) {
                    r matches PollStep::Finished(line) && is_decoded(line, old(self).partial())
                } else {
                    r matches PollStep::Finished(Err(e)) && e@ == (
                        ErrorKind::IpcError,
                        "PeekNamedPipe 失败: "@ + failure.text@ + " (code="@
                            + text::signed_decimal(failure.code as int) + ")"@,
                    )
                },
            },
    {
        match peeked {
            Ok(n) => {
                let total_avail: usize = buffered + n as usize;
                if total_avail == 0 {
                    return PollStep::Idle;
                }
                if self.partial.len() >= MAX_LINE_BYTES {
                    let mut m = String::from_str("IPC 单行超过 ");
                    m.append(text::decimal_text(MAX_LINE_BYTES as u128).as_str());
                    m.append(" 字节上限");
                    return PollStep::Finished(Err(MirrorStarError::IpcError(m)));
                }
                PollStep::Read { max_bytes: MAX_LINE_BYTES - self.partial.len(), total_avail }
            },
            Err(failure) => {
                if end_of_pipe(failure.code) {
                    let mut partial: Vec<u8> = Vec::new();
                    std::mem::swap(&mut partial, &mut self.partial);
                    PollStep::Finished(decode_line(partial))
                } else {
                    let mut m = String::from_str("PeekNamedPipe 失败: ");
                    m.append(failure.text.as_str());
                    m.append(" (code=");
                    m.append(text::signed_decimal_text(failure.code as i64).as_str());
                    m.append(")");
                    PollStep::Finished(Err(MirrorStarError::IpcError(m)))
                }
            },
        }
    }

    /// Takes a piece of the line. An empty piece means that the pipe is closed, a piece
    /// that ends in a newline completes the line; otherwise the wait goes on.
    pub fn on_chunk(&mut self, chunk: Vec<u8>) -> (r: Option<Result<String, MirrorStarError>>)
        ensures
            match chunk_effect(old(self).partial(), chunk@) {
                ChunkEffect::Complete(bytes) => r matches Some(line) && is_decoded(line, bytes),
                ChunkEffect::Partial(bytes) => {
                    &&& r is None
                    &&& final(self).partial() == bytes
                    &&& final(self).backoff() == old(self).backoff()
                    &&& final(self).deadline() == old(self).deadline()
                },
            },
    {
        let mut chunk = chunk;
        let ghost given = chunk@;
        let n = chunk.len();
        let ended = n > 0 && chunk[n - 1] == NEWLINE;
        self.partial.append(&mut chunk);
        if n == 0 || ended {
            let mut partial: Vec<u8> = Vec::new();
            std::mem::swap(&mut partial, &mut self.partial);
            assert(n == 0 ==> partial@ =~= old(self).partial@);
            Some(decode_line(partial))
        } else {
            None
        }
    }

    /// Gives up at the deadline; before it, tells how long to sleep.
    pub fn on_clock(&mut self, now: u128) -> (r: Result<Delay, MirrorStarError>)
        requires
            old(self).backoff().wf(),
        ensures
            final(self).backoff().wf(),
            final(self).partial() == old(self).partial(),
            final(self).deadline() == old(self).deadline(),
            if now >= old(self).deadline() {
                &&& r matches Err(e) && e@ == (ErrorKind::IpcTimeout, "IPC 读取超时"@)
                &&& *final(self) == *old(self)
            } else {
                &&& r matches Ok(d) && d.nanos == old(self).backoff().current()
                &&& final(self).backoff().current() == next_wait(
                    old(self).backoff().current(),
                    old(self).backoff().max(),
                )
                &&& final(self).backoff().max() == old(self).backoff().max()
            },
    {
        if now >= self.deadline {
            return Err(MirrorStarError::IpcTimeout(String::from_str("IPC 读取超时")));
        }
        Ok(self.backoff.next_delay())
    }
}

/// A client of a named pipe. The pipe itself is opened, written and read by the
/// caller; the client knows its path, whether it is open, and the next request
/// number. The type parameter keeps clients of different protocols apart.
pub struct NamedPipeClient<T> {
    pipe_path: String,
    connected: bool,
    request_id: u64,
    protocol: std::marker::PhantomData<T>,
}

/// The request number after `id`; the highest is followed by zero.
pub open spec fn id_after(id: u64) -> int {
    if id < u64::MAX {
        id + 1
    } else {
        0
    }
}

impl<T> NamedPipeClient<T> {
    /// The full path of the pipe.
    pub closed spec fn path(self) -> Seq<char> {
        self.pipe_path@
    }

    /// Whether the pipe is open.
    pub closed spec fn connected(self) -> bool {
        self.connected
    }

    /// The number that the next request gets.
    pub closed spec fn next_id(self) -> u64 {
        self.request_id
    }

    /// A client of the pipe named `pipe_name`, not connected yet.
    pub fn new(pipe_name: &str) -> (r: Self)
        ensures
            r.path() == "\\\\.\\pipe\\"@ + pipe_name@,
            !r.connected(),
            r.next_id() == 1,
    {
        NamedPipeClient {
            pipe_path: text::join2("\\\\.\\pipe\\", pipe_name),
            connected: false,
            request_id: 1,
            protocol: std::marker::PhantomData,
        }
    }

    /// The attempts to open the pipe: one, and up to `retry_count` more, each
    /// `retry_interval_ms` milliseconds after the one before.
    pub fn connect(&self, retry_count: u32, retry_interval_ms: u64) -> (r: ConnectRetry)
        ensures
            r.path() == self.path(),
            r.attempts() == 0,
            r.retry_count() == retry_count,
            r.retry_interval_ms() == retry_interval_ms,
    {
        ConnectRetry {
            path: self.pipe_path.clone(),
            attempts: 0,
            retry_count,
            retry_interval_ms,
        }
    }

    /// Records that the pipe was opened.
    pub fn opened(&mut self)
        ensures
            final(self).connected(),
            final(self).path() == old(self).path(),
            final(self).next_id() == old(self).next_id(),
    {
        self.connected = true;
    }

    /// Forgets the connection, if there is one.
    pub fn disconnect(&mut self)
        ensures
            !final(self).connected(),
            final(self).path() == old(self).path(),
            final(self).next_id() == old(self).next_id(),
    {
        self.connected = false;
    }

    /// The full path of the pipe.
    pub fn pipe_path(&self) -> (r: &str)
        ensures
            r@ == self.path(),
    {
        self.pipe_path.as_str()
    }

    /// The number of the next request, which is used up.
    pub fn next_request_id(&mut self) -> (r: u64)
        ensures
            r == old(self).next_id(),
            final(self).next_id() == id_after(r),
            final(self).path() == old(self).path(),
            final(self).connected() == old(self).connected(),
    {
        let id = self.request_id;
        self.request_id = if id < u64::MAX {
            id + 1
        } else {
            0
        };
        id
    }

    /// The bytes that send `json` as one line; an error without a connection.
    pub fn send_line(&self, json: &str) -> (r: Result<Vec<u8>, MirrorStarError>)
        ensures
            is_line(r, self.connected(), json@),
    {
        if !self.connected {
            return Err(MirrorStarError::IpcNotConnected(String::from_str("IPC 未连接")));
        }
        let mut bytes = json.as_bytes_vec();
        bytes.push(NEWLINE);
        Ok(bytes)
    }

    /// The wait for a response from `now` on, for `timeout` in all; an error without a
    /// connection.
    pub fn read_response_line_with_timeout(&self, now: u128, timeout: Delay) -> (r: Result<
        ResponseWait,
        MirrorStarError,
    >)
        requires
            now + timeout.nanos <= u128::MAX,
        ensures
            if self.connected() {
                r matches Ok(w) && w.deadline() == now + timeout.nanos
            } else {
                r matches Err(e) && e@ == (ErrorKind::IpcNotConnected, "IPC 未连接"@)
            },
    {
        if !self.connected {
            return Err(MirrorStarError::IpcNotConnected(String::from_str("IPC 未连接")));
        }
        Ok(ResponseWait { deadline: now + timeout.nanos })
    }
}

/// The bytes of a line made of `json`, or the error for a missing connection.
pub open spec fn is_line(
    r: Result<Vec<u8>, MirrorStarError>,
    connected: bool,
    json: Seq<char>,
) -> bool {
    if connected {
        r matches Ok(bytes) && bytes@ == encode_utf8(json).push(NEWLINE)
    } else {
        r matches Err(e) && e@ == (ErrorKind::IpcNotConnected, "IPC 未连接"@)
    }
}

/// The attempts to open a pipe.
pub struct ConnectRetry {
    path: String,
    attempts: u32,
    retry_count: u32,
    retry_interval_ms: u64,
}

impl ConnectRetry {
    /// The full path of the pipe.
    pub closed spec fn path(self) -> Seq<char> {
        self.path@
    }

    /// How many attempts failed.
    pub closed spec fn attempts(self) -> int {
        self.attempts as int
    }

    /// How many attempts may fail.
    pub closed spec fn retry_count(self) -> int {
        self.retry_count as int
    }

    /// The milliseconds between two attempts.
    pub closed spec fn retry_interval_ms(self) -> int {
        self.retry_interval_ms as int
    }

    /// Takes the failure of an attempt: how long to wait before the next one, or the
    /// error once more attempts failed than may.
    pub fn on_failure(&mut self, error: &str) -> (r: Result<Delay, MirrorStarError>)
        requires
            old(self).attempts() < u32::MAX,
        ensures
            final(self).path() == old(self).path(),
            final(self).retry_count() == old(self).retry_count(),
            final(self).retry_interval_ms() == old(self).retry_interval_ms(),
            final(self).attempts() == old(self).attempts() + 1,
            if old(self).attempts() + 1 > old(self).retry_count() {
                r matches Err(e) && e@ == (
                    ErrorKind::IpcError,
                    "连接命名管道失败 (已重试 "@ + text::decimal(
                        old(self).retry_count() as nat,
                    ) + " 次): "@ + error@ + " (path="@ + old(self).path() + ")"@,
                )
            } else {
                r matches Ok(d) && d.nanos == old(self).retry_interval_ms() * 1_000_000
            },
    {
        self.attempts = self.attempts + 1;
        if self.attempts > self.retry_count {
            let mut m = String::from_str("连接命名管道失败 (已重试 ");
            m.append(text::decimal_text(self.retry_count as u128).as_str());
            m.append(" 次): ");
            m.append(error);
            m.append(" (path=");
            m.append(self.path.as_str());
            m.append(")");
            return Err(MirrorStarError::IpcError(m));
        }
        Ok(Delay::from_millis(self.retry_interval_ms))
    }
}

/// The error for an open pipe whose handle could not be cloned for reading.
pub fn clone_failure(error: &str) -> (r: MirrorStarError)
    ensures
        r@ == (ErrorKind::IpcError, "克隆管道文件句柄失败: "@ + error@),
{
    MirrorStarError::IpcError(text::join2("克隆管道文件句柄失败: ", error))
}

/// The wait for a response, over any number of lines, until a deadline.
///
/// Before each line the caller looks at the clock (`check`), then reads a line
/// within the time that is left (`remaining`) and reports it (`on_line`).
pub struct ResponseWait {
    deadline: u128,
}

impl ResponseWait {
    /// When the wait is given up.
    pub closed spec fn deadline(self) -> int {
        self.deadline as int
    }

    /// An error once the deadline has come.
    pub fn check(&self, now: u128) -> (r: Result<(), MirrorStarError>)
        ensures
            if now >= self.deadline() {
                r matches Err(e) && e@ == (ErrorKind::IpcTimeout, "IPC 读取超时"@)
            } else {
                r is Ok
            },
    {
        if now >= self.deadline {
            return Err(MirrorStarError::IpcTimeout(String::from_str("IPC 读取超时")));
        }
        Ok(())
    }

    /// The time that is left.
    pub fn remaining(&self, now: u128) -> (r: Delay)
        ensures
            r.nanos == if now < self.deadline() {
                self.deadline() - now
            } else {
                0
            },
    {
        Delay { nanos: crate::time::elapsed(self.deadline, now) }
    }

    /// Takes a line: an empty one means that the pipe is closed, a blank one is
    /// skipped, any other is the response, without the white space at its ends.
    pub fn on_line(&self, line: &str) -> (r: Option<Result<String, MirrorStarError>>)
        ensures
            if line@.len() == 0 {
                r matches Some(Err(e)) && e@ == (ErrorKind::IpcDisconnected, "管道已关闭"@)
            } else {
                match r {
                    None => text::is_trimmed(line@, Seq::empty()),
                    Some(Ok(s)) => s@.len() > 0 && text::is_trimmed(line@, s@),
                    Some(Err(_)) => false,
                }
            },
    {
        if line.is_empty() {
            return Some(Err(MirrorStarError::IpcDisconnected(String::from_str("管道已关闭"))));
        }
        let trimmed = text::trim_text(line);
        if trimmed.as_str().is_empty() {
            assert(trimmed@ =~= Seq::<char>::empty());
            return None;
        }
        Some(Ok(trimmed))
    }
}

/// With room for all bytes and more announced than there are, exactly the first line is read,
/// its newline included, and all bytes if there is none.
pub proof fn law_whole_line_read(
    reader: ReaderView,
    line: Seq<u8>,
    more: Seq<u8>,
    max_bytes: nat,
    total_avail: nat,
)
    requires
        reader.wf(),
        reader.rest.len() <= max_bytes,
        reader.rest.len() < total_avail,
        forall|i: int| 0 <= i < line.len() ==> line[i] != 10,
    ensures
        reader.rest == line + seq![10u8] + more ==> line_outcome(
            Seq::empty(),
            reader,
            max_bytes,
            total_avail,
        ).0 == LineOutcome::Line(line + seq![10u8]),
        reader.rest == line ==> line_outcome(Seq::empty(), reader, max_bytes, total_avail).0
            == LineOutcome::Line(line),
{
    lemma_whole_line(Seq::empty(), reader, max_bytes, total_avail);
    let s = reader.rest;
    assert(Seq::<u8>::empty() + first_line(s) =~= first_line(s));
    if s == line + seq![10u8] + more {
        let k = line.len() as int;
        assert(s[k] == 10);
        assert(s.contains(NEWLINE));
        s.index_of_first_ensures(NEWLINE);
        let i = s.index_of_first(NEWLINE)->0;
        if i < k {
            assert(s[i] == line[i]);
            assert(false);
        }
        assert(i == k);
        assert(s.take(k + 1) =~= line + seq![10u8]);
    }
    if s == line {
        if s.contains(NEWLINE) {
            let i = choose|i: int| 0 <= i < s.len() && s[i] == NEWLINE;
            assert(line[i] != 10);
        }
    }
}

/// A piece ends the line exactly if it is empty or its last byte is a newline; either way
/// everything that came is kept, in order.
pub proof fn law_piece(partial: Seq<u8>, chunk: Seq<u8>)
    ensures
        chunk.len() == 0 || chunk[chunk.len() - 1] == 10 ==> chunk_effect(partial, chunk)
            == ChunkEffect::Complete(partial + chunk),
        chunk.len() > 0 && chunk[chunk.len() - 1] != 10 ==> chunk_effect(partial, chunk)
            == ChunkEffect::Partial(partial + chunk),
{
    if chunk.len() == 0 {
        assert(partial + chunk =~= partial);
    }
}

/// The other side has gone exactly if the lowest 16 bits of the system's code are 109, a
/// broken pipe, or 232, a pipe that is being closed, whatever the bits above.
pub proof fn law_end_of_pipe(code: i32, high: int)
    requires
        code == 0x10000 * high + code as int % 0x10000,
    ensures
        is_end_of_pipe(code) <==> code == 0x10000 * high + 109 || code == 0x10000 * high + 232,
{
}

/// The number of the k-th command after one with the number `id`.
pub open spec fn nth_id(id: u64, k: nat) -> int
    decreases k,
{
    if k == 0 {
        id as int
    } else {
        id_after(nth_id(id, (k - 1) as nat) as u64)
    }
}

/// Commands are numbered on by one each, and from the largest number again from zero, so
/// that of 2^64 commands in a row no two have the same number.
pub proof fn law_numbers(id: u64, k: nat)
    ensures
        nth_id(id, k) == (id + k) % 0x1_0000_0000_0000_0000,
    decreases k,
{
    if k > 0 {
        law_numbers(id, (k - 1) as nat);
    }
}

/// What is sent is the text in UTF-8 and one newline behind it, and nothing if there is no
/// connection: the other side reads back exactly the text.
pub proof fn law_sent_line(r: Result<Vec<u8>, MirrorStarError>, connected: bool, json: Seq<char>)
    requires
        is_line(r, connected, json),
    ensures
        r is Ok <==> connected,
        r matches Ok(bytes) ==> bytes@.len() > 0 && bytes@.last() == 10 && decode_utf8(
            bytes@.drop_last(),
        ) == json,
        r matches Err(e) ==> e@.0 == ErrorKind::IpcNotConnected,
{
    if let Ok(bytes) = r {
        encode_utf8_decode_utf8(json);
        assert(bytes@.drop_last() =~= encode_utf8(json));
    }
}

/// What a read hands out: exactly the bytes of a line; a line that is too long or wrong is an
/// error of the connection.
pub proof fn law_read_result(
    r: Result<Vec<u8>, MirrorStarError>,
    outcome: LineOutcome,
    max_bytes: nat,
)
    requires
        is_outcome(r, outcome, max_bytes),
    ensures
        r is Ok <==> outcome is Line,
        r matches Ok(v) ==> outcome == LineOutcome::Line(v@),
        r matches Err(e) ==> e@.0 == ErrorKind::IpcError,
{
}

/// A line is decoded exactly if it is valid UTF-8, and then to the text with these bytes.
pub proof fn law_line_decoded(r: Result<String, MirrorStarError>, bytes: Seq<u8>)
    requires
        is_decoded(r, bytes),
    ensures
        r is Ok <==> valid_utf8(bytes),
        r matches Ok(s) ==> encode_utf8(s@) == bytes,
        r matches Err(e) ==> e@.0 == ErrorKind::IpcError,
{
    if valid_utf8(bytes) {
        decode_utf8_encode_utf8(bytes);
    }
}

/// A line may get as many more bytes as take it to one megabyte, and none beyond.
pub proof fn law_room(wait: LineWait)
    ensures
        wait.partial().len() <= 1024 * 1024 ==> wait.partial().len() + wait.room() == 1024 * 1024,
        wait.partial().len() > 1024 * 1024 ==> wait.room() == 0,
{
}

/// A newline among the bytes that are at hand ends the line, however few bytes were announced,
/// and nothing behind it is taken. If that line is too long, it is refused. If nothing was
/// announced, nothing is read.
pub proof fn law_buffered_line(reader: ReaderView, j: int, max_bytes: nat, total_avail: nat)
    requires
        reader.wf(),
        0 <= j < reader.rest.len(),
        reader.rest[j] == 10,
        forall|i: int| 0 <= i < j ==> reader.rest[i] != 10,
        reader.buffered > 0 ==> j < reader.buffered,
        reader.buffered == 0 ==> j < reader.capacity,
    ensures
        total_avail > 0 && j + 1 <= max_bytes ==> {
            &&& line_outcome(Seq::empty(), reader, max_bytes, total_avail).0 == LineOutcome::Line(
                reader.rest.take(j + 1),
            )
            &&& line_outcome(Seq::empty(), reader, max_bytes, total_avail).1.rest
                == reader.rest.skip(j + 1)
        },
        total_avail > 0 && j + 1 > max_bytes ==> line_outcome(
            Seq::empty(),
            reader,
            max_bytes,
            total_avail,
        ).0 == LineOutcome::TooLong((j + 1) as nat),
        total_avail == 0 ==> line_outcome(Seq::empty(), reader, max_bytes, total_avail) == (
            LineOutcome::Line(Seq::<u8>::empty()),
            reader,
        ),
{
    let filled = reader.filled();
    let available = filled.buffer();
    assert(available[j] == NEWLINE);
    assert(available.contains(NEWLINE));
    available.index_of_first_ensures(NEWLINE);
    let k = available.index_of_first(NEWLINE)->0;
    if k < j {
        assert(reader.rest[k] == available[k]);
        assert(false);
    }
    assert(k == j);
    assert(Seq::<u8>::empty() + available.take(j + 1) =~= reader.rest.take(j + 1));
    assert(valid_utf8(Seq::<u8>::empty()));
}

/// A line that is longer than allowed is refused, however it comes in pieces, if more bytes
/// are announced than there are.
pub proof fn law_long_line_refused(reader: ReaderView, max_bytes: nat, total_avail: nat)
    requires
        reader.wf(),
        reader.rest.len() > max_bytes,
        reader.rest.len() < total_avail,
        forall|i: int| 0 <= i < max_bytes ==> reader.rest[i] != 10,
    ensures
        line_outcome(Seq::empty(), reader, max_bytes, total_avail).0 is TooLong,
{
    lemma_long_line(Seq::empty(), reader, max_bytes, total_avail);
}

proof fn lemma_long_line(bytes: Seq<u8>, reader: ReaderView, max_bytes: nat, total_avail: nat)
    requires
        reader.wf(),
        bytes.len() <= max_bytes,
        bytes.len() + reader.rest.len() > max_bytes,
        bytes.len() + reader.rest.len() < total_avail,
        forall|i: int| 0 <= i < max_bytes - bytes.len() ==> reader.rest[i] != 10,
    ensures
        line_outcome(bytes, reader, max_bytes, total_avail).0 is TooLong,
    decreases reader.rest.len(),
{
    let filled = reader.filled();
    let available = filled.buffer();
    let n = take_len(bytes, total_avail, available);
    if available.contains(NEWLINE) {
        available.index_of_first_ensures(NEWLINE);
        let j = available.index_of_first(NEWLINE)->0;
        assert(reader.rest[j] == available[j]);
        assert(j >= max_bytes - bytes.len());
    } else if bytes.len() + n <= max_bytes {
        assert(n == available.len());
        let next = filled.consumed(n);
        assert forall|i: int| 0 <= i < max_bytes - (bytes.len() + n) implies next.rest[i] != 10 by {
            assert(next.rest[i] == reader.rest[n + i]);
        }
        assert(available.take(n as int) =~= available);
        lemma_long_line(bytes + available.take(n as int), next, max_bytes, total_avail);
    }
}

} // verus!
