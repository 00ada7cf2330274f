use vstd::prelude::*;

use crate::models::{now_utc, LogEvent};

verus! {

/// The byte that terminates a line.
pub const NEWLINE: u8 = 10;

/// Whitespace bytes: space, horizontal tab, carriage return, line feed.
pub open spec fn is_whitespace_byte(b: u8) -> bool {
    b == 32 || b == 9 || b == 13 || b == 10
}

/// A line is blank when every byte of it is whitespace.
pub open spec fn is_blank(line: Seq<u8>) -> bool {
    forall|i: int| 0 <= i < line.len() ==> is_whitespace_byte(#[trigger] line[i])
}

/// The line with its trailing whitespace removed.
pub open spec fn trimmed_end(line: Seq<u8>) -> Seq<u8>
    decreases line.len(),
{
    if line.len() == 0 {
        line
    } else if is_whitespace_byte(line.last()) {
        trimmed_end(line.drop_last())
    } else {
        line
    }
}

/// The index of the first newline at or after `from`, or `data.len()` if
/// there is none.
pub open spec fn find_newline(data: Seq<u8>, from: int) -> int
    decreases data.len() - from,
{
    if from < 0 || from >= data.len() {
        data.len() as int
    } else if data[from] == NEWLINE {
        from
    } else {
        find_newline(data, from + 1)
    }
}

pub proof fn lemma_find_newline(data: Seq<u8>, from: int)
    requires
        0 <= from <= data.len(),
    ensures
        from <= find_newline(data, from) <= data.len(),
        find_newline(data, from) < data.len() ==> data[find_newline(data, from)] == NEWLINE,
        forall|j: int| from <= j < find_newline(data, from) ==> data[j] != NEWLINE,
    decreases data.len() - from,
{
    if from < data.len() && data[from] != NEWLINE {
        lemma_find_newline(data, from + 1);
    }
}

/// The complete (newline-terminated) lines of `data` starting at index `from`,
/// each including its terminator.
pub open spec fn complete_lines_from(data: Seq<u8>, from: int) -> Seq<Seq<u8>>
    decreases data.len() - from,
    via complete_lines_from_decreases
{
    if from < 0 || from >= data.len() {
        Seq::empty()
    } else {
        let i = find_newline(data, from);
        if i >= data.len() {
            Seq::empty()
        } else {
            seq![data.subrange(from, i + 1)] + complete_lines_from(data, i + 1)
        }
    }
}

#[via_fn]
proof fn complete_lines_from_decreases(data: Seq<u8>, from: int) {
    if 0 <= from < data.len() {
        lemma_find_newline(data, from);
    }
}

/// The complete lines of `data`, in file order, each including its terminator.
pub open spec fn complete_lines(data: Seq<u8>) -> Seq<Seq<u8>> {
    complete_lines_from(data, 0)
}

/// The bytes after the last newline of `data` starting at `from`: the
/// unterminated trailing fragment.
pub open spec fn line_rest_from(data: Seq<u8>, from: int) -> Seq<u8>
    decreases data.len() - from,
    via line_rest_from_decreases
{
    if from < 0 || from > data.len() {
        Seq::empty()
    } else {
        let i = find_newline(data, from);
        if i >= data.len() {
            data.subrange(from, data.len() as int)
        } else {
            line_rest_from(data, i + 1)
        }
    }
}

#[via_fn]
proof fn line_rest_from_decreases(data: Seq<u8>, from: int) {
    if 0 <= from < data.len() {
        lemma_find_newline(data, from);
    }
}

/// The unterminated trailing fragment of `data`.
pub open spec fn line_rest(data: Seq<u8>) -> Seq<u8> {
    line_rest_from(data, 0)
}

/// How many bytes of `data` belong to complete lines.
pub open spec fn consumed_len(data: Seq<u8>) -> int {
    data.len() - line_rest(data).len()
}

/// Of a list of lines, the contents that are emitted: the non-blank ones,
/// in order, each with its trailing whitespace removed.
pub open spec fn kept_outputs(lines: Seq<Seq<u8>>) -> Seq<Seq<u8>>
    decreases lines.len(),
{
    if lines.len() == 0 {
        Seq::empty()
    } else if is_blank(lines.first()) {
        kept_outputs(lines.drop_first())
    } else {
        seq![trimmed_end(lines.first())] + kept_outputs(lines.drop_first())
    }
}

/// The contents emitted for `data`: its complete lines, the blank ones
/// dropped, the rest trimmed, in file order.
pub open spec fn outputs(data: Seq<u8>) -> Seq<Seq<u8>> {
    kept_outputs(complete_lines(data))
}

/// The characters that stand for a sequence of bytes: what decoding produces.
pub uninterp spec fn utf8_decode_of(bytes: Seq<u8>) -> Seq<char>;

/// Relies on `String::from_utf8_lossy`: the result is a function of the bytes
/// alone; an empty input gives an empty string; bytes that are all ASCII are
/// valid UTF-8 and decode one byte to one character.
#[verifier::external_body]
pub(crate) fn utf8_lossy(bytes: &[u8]) -> (r: String)
    ensures
        r@ == utf8_decode_of(bytes@),
        bytes@.len() == 0 ==> r@.len() == 0,
        (forall|i: int| 0 <= i < bytes@.len() ==> #[trigger] bytes@[i] < 128) ==> (r@.len()
            == bytes@.len() && (forall|i: int|
            0 <= i < bytes@.len() ==> #[trigger] r@[i] as u32 == bytes@[i] as u32)),
{
    String::from_utf8_lossy(bytes).into_owned()
}

/// Trimming removes exactly the whitespace tail: if everything from `k` on is
/// whitespace and the byte before `k` (if any) is not, the trimmed line is the
/// first `k` bytes.
proof fn lemma_trimmed_end_take(line: Seq<u8>, k: int)
    requires
        0 <= k <= line.len(),
        forall|j: int| k <= j < line.len() ==> is_whitespace_byte(#[trigger] line[j]),
        k > 0 ==> !is_whitespace_byte(line[k - 1]),
    ensures
        trimmed_end(line) == line.take(k),
    decreases line.len(),
{
    if line.len() == 0 {
        assert(line.take(0) =~= line);
    } else if k == line.len() {
        assert(!is_whitespace_byte(line.last()));
        assert(line.take(k) =~= line);
    } else {
        assert(is_whitespace_byte(line.last()));
        let l2 = line.drop_last();
        assert(forall|j: int| k <= j < l2.len() ==> is_whitespace_byte(#[trigger] l2[j]));
        lemma_trimmed_end_take(l2, k);
        assert(l2.take(k) =~= line.take(k));
    }
}

/// Unfolds `kept_outputs` over a first line followed by the remaining lines.
proof fn lemma_kept_outputs_cons(l: Seq<u8>, rest: Seq<Seq<u8>>)
    ensures
        kept_outputs(seq![l] + rest) == if is_blank(l) {
            kept_outputs(rest)
        } else {
            seq![trimmed_end(l)] + kept_outputs(rest)
        },
{
    let s = seq![l] + rest;
    assert(s.first() == l);
    assert(s.drop_first() =~= rest);
}

/// Whether `b` is one of the whitespace bytes.
pub(crate) fn is_ws(b: u8) -> (r: bool)
    ensures
        r == is_whitespace_byte(b),
{
    b == 32 || b == 9 || b == 13 || b == 10
}

/// The first newline is where the scan that found no earlier newline says it is.
proof fn lemma_find_newline_is(data: Seq<u8>, from: int, i: int)
    requires
        0 <= from <= i <= data.len(),
        forall|j: int| from <= j < i ==> #[trigger] data[j] != NEWLINE,
        i < data.len() ==> data[i] == NEWLINE,
    ensures
        find_newline(data, from) == i,
{
    lemma_find_newline(data, from);
}

/// Splitting lines from index `from` is splitting the lines of the suffix.
proof fn lemma_lines_from_skip(x: Seq<u8>, from: int)
    requires
        0 <= from <= x.len(),
    ensures
        complete_lines_from(x, from) == complete_lines(x.skip(from)),
        line_rest_from(x, from) == line_rest(x.skip(from)),
    decreases x.len() - from,
{
    let y = x.skip(from);
    let i = find_newline(x, from);
    lemma_find_newline(x, from);
    assert(forall|j: int| 0 <= j < i - from ==> #[trigger] y[j] != NEWLINE);
    if i == x.len() {
        lemma_find_newline_is(y, 0, y.len() as int);
        assert(x.subrange(from, x.len() as int) =~= y.subrange(0, y.len() as int));
    } else {
        assert(y[i - from] == NEWLINE);
        lemma_find_newline_is(y, 0, i - from);
        assert(x.subrange(from, i + 1) =~= y.subrange(0, i - from + 1));
        lemma_lines_from_skip(x, i + 1);
        lemma_lines_from_skip(y, i - from + 1);
        assert(y.skip(i - from + 1) =~= x.skip(i + 1));
        assert(complete_lines_from(y, 0) == seq![y.subrange(0, i - from + 1)]
            + complete_lines_from(y, i - from + 1));
        assert(complete_lines_from(x, from) == seq![x.subrange(from, i + 1)]
            + complete_lines_from(x, i + 1));
    }
}

/// The trailing fragment holds no newline.
pub proof fn lemma_line_rest_no_newline(data: Seq<u8>, from: int)
    requires
        0 <= from <= data.len(),
    ensures
        forall|j: int| 0 <= j < line_rest_from(data, from).len()
            ==> #[trigger] line_rest_from(data, from)[j] != NEWLINE,
    decreases data.len() - from,
{
    let i = find_newline(data, from);
    lemma_find_newline(data, from);
    if i < data.len() {
        lemma_line_rest_no_newline(data, i + 1);
        let r = line_rest_from(data, from);
        assert(r == line_rest_from(data, i + 1));
        assert forall|j: int| 0 <= j < r.len() implies #[trigger] r[j] != NEWLINE by {
            assert(line_rest_from(data, i + 1)[j] != NEWLINE);
        }
    } else {
        let r = line_rest_from(data, from);
        assert(r == data.subrange(from, data.len() as int));
        assert forall|j: int| 0 <= j < r.len() implies #[trigger] r[j] != NEWLINE by {
            assert(r[j] == data[from + j]);
        }
    }
}

/// A sequence without newlines has no complete line, so it emits nothing.
pub proof fn lemma_no_newline_no_outputs(x: Seq<u8>)
    requires
        forall|j: int| 0 <= j < x.len() ==> #[trigger] x[j] != NEWLINE,
    ensures
        complete_lines(x) == Seq::<Seq<u8>>::empty(),
        outputs(x) == Seq::<Seq<u8>>::empty(),
{
    lemma_find_newline_is(x, 0, x.len() as int);
    assert(complete_lines_from(x, 0) =~= Seq::<Seq<u8>>::empty());
    assert(kept_outputs(Seq::<Seq<u8>>::empty()) =~= Seq::<Seq<u8>>::empty());
}

/// Emitted contents concatenate line list by line list.
proof fn lemma_kept_outputs_add(a: Seq<Seq<u8>>, b: Seq<Seq<u8>>)
    ensures
        kept_outputs(a + b) == kept_outputs(a) + kept_outputs(b),
    decreases a.len(),
{
    if a.len() == 0 {
        assert(a + b =~= b);
        assert(kept_outputs(a) =~= Seq::<Seq<u8>>::empty());
        assert(kept_outputs(a) + kept_outputs(b) =~= kept_outputs(b));
    } else {
        assert((a + b).first() == a.first());
        assert((a + b).drop_first() =~= a.drop_first() + b);
        lemma_kept_outputs_add(a.drop_first(), b);
        if !is_blank(a.first()) {
            assert(seq![trimmed_end(a.first())] + (kept_outputs(a.drop_first()) + kept_outputs(b))
                =~= (seq![trimmed_end(a.first())] + kept_outputs(a.drop_first())) + kept_outputs(
                b,
            ));
        }
    }
}

/// Line completeness: however the file's bytes are cut into reads, the
/// complete lines come out the same. Reading `a` and then `b` yields the
/// complete lines of `a`, then the complete lines of `a`'s unterminated
/// fragment joined with `b` — exactly the complete lines of `a + b` — and
/// leaves the same trailing fragment.
pub proof fn lemma_line_completeness(a: Seq<u8>, b: Seq<u8>)
    ensures
        complete_lines(a + b) == complete_lines(a) + complete_lines(line_rest(a) + b),
        line_rest(a + b) == line_rest(line_rest(a) + b),
    decreases a.len(),
{
    let ab = a + b;
    let i = find_newline(a, 0);
    lemma_find_newline(a, 0);
    if i == a.len() {
        assert(complete_lines(a) =~= Seq::<Seq<u8>>::empty());
        assert(line_rest(a) == a.subrange(0, a.len() as int));
        assert(line_rest(a) =~= a);
        assert(line_rest(a) + b =~= ab);
        assert(complete_lines(a) + complete_lines(ab) =~= complete_lines(ab));
    } else {
        assert(forall|j: int| 0 <= j < i ==> #[trigger] ab[j] != NEWLINE);
        assert(ab[i] == NEWLINE);
        lemma_find_newline_is(ab, 0, i);
        assert(complete_lines_from(a, 0) == seq![a.subrange(0, i + 1)] + complete_lines_from(
            a,
            i + 1,
        ));
        assert(complete_lines_from(ab, 0) == seq![ab.subrange(0, i + 1)] + complete_lines_from(
            ab,
            i + 1,
        ));
        assert(ab.subrange(0, i + 1) =~= a.subrange(0, i + 1));
        lemma_lines_from_skip(a, i + 1);
        lemma_lines_from_skip(ab, i + 1);
        assert(ab.skip(i + 1) =~= a.skip(i + 1) + b);
        lemma_line_completeness(a.skip(i + 1), b);
        assert((seq![a.subrange(0, i + 1)] + complete_lines(a.skip(i + 1))) + complete_lines(
            line_rest(a) + b,
        ) =~= seq![a.subrange(0, i + 1)] + (complete_lines(a.skip(i + 1)) + complete_lines(
            line_rest(a) + b,
        )));
    }
}

/// Line completeness, stated over what is emitted: reading `a` then `b`
/// emits the same contents, in the same order, as reading `a + b` at once.
pub proof fn lemma_outputs_compose(a: Seq<u8>, b: Seq<u8>)
    ensures
        outputs(a + b) == outputs(a) + outputs(line_rest(a) + b),
{
    lemma_line_completeness(a, b);
    lemma_kept_outputs_add(complete_lines(a), complete_lines(line_rest(a) + b));
}

/// What a look at the file's current metadata means for the tail cursor.
#[derive(Clone, Copy, Debug, PartialEq, Eq, Structural)]
pub enum FileCheck {
    /// The path now names a different file: reopen it and read from offset 0.
    Rotated,
    /// The same file shrank below the read offset: read it again from offset 0.
    Truncated,
    /// Nothing changed: keep waiting for the next notification.
    Unchanged,
}

/// The tail cursor for one source file: which file is being followed, how far
/// into it the complete lines have been consumed, and the unterminated
/// trailing fragment seen so far.
#[derive(Debug)]
pub struct Collector {
    /// The label of the source, stamped on every emitted event.
    pub label: String,
    /// The byte offset just past the last consumed complete line.
    pub position: u64,
    /// The platform identity of the file the cursor tracks.
    pub file_id: u64,
    /// Bytes read from the file at `position` that no newline has closed yet.
    pub pending: Vec<u8>,
}

impl Collector {
    /// The cursor's offsets stay within `u64`.
    pub open spec fn wf(&self) -> bool {
        self.position + self.pending@.len() <= u64::MAX
    }

    /// The file offset the next read should start from.
    pub open spec fn spec_read_offset(&self) -> int {
        self.position + self.pending@.len()
    }

    /// Start tailing a file: `position` is where reading begins (the file's
    /// current length for a fresh source, 0 after a reopen), `file_id` its
    /// platform identity.
    pub fn new(label: String, position: u64, file_id: u64) -> (c: Collector)
        ensures
            c.label == label,
            c.position == position,
            c.file_id == file_id,
            c.pending@ == Seq::<u8>::empty(),
            c.wf(),
    {
        Collector { label, position, file_id, pending: Vec::new() }
    }

    /// The file offset the next read should start from.
    pub fn read_offset(&self) -> (r: u64)
        requires
            self.wf(),
        ensures
            r == self.spec_read_offset(),
    {
        self.position + self.pending.len() as u64
    }

    /// What the file's current identity and length mean for this cursor:
    /// a changed identity is a rotation; a shrunken same-identity file is a
    /// truncation; anything else leaves the cursor waiting.
    pub open spec fn spec_file_check(&self, current_file_id: u64, current_len: u64) -> FileCheck {
        if current_file_id != self.file_id {
            FileCheck::Rotated
        } else if current_len < self.position {
            FileCheck::Truncated
        } else {
            FileCheck::Unchanged
        }
    }

    /// Decide what the file's current metadata means, without moving the
    /// cursor: the caller reopens the file first and commits the cursor with
    /// [`Collector::check_file`] only once the reopen succeeded.
    pub fn peek_file(&self, current_file_id: u64, current_len: u64) -> (r: FileCheck)
        ensures
            r == self.spec_file_check(current_file_id, current_len),
    {
        if current_file_id != self.file_id {
            FileCheck::Rotated
        } else if current_len < self.position {
            FileCheck::Truncated
        } else {
            FileCheck::Unchanged
        }
    }

    /// Commit the file's current identity and length to the cursor. On a
    /// rotation or a truncation the cursor restarts at offset 0 of the (new
    /// or emptied) file: the position resets and the buffered fragment is
    /// dropped — the replaced file's unread bytes are intentionally not
    /// recovered, and nothing stale may prefix the file's first line.
    pub fn check_file(&mut self, current_file_id: u64, current_len: u64) -> (r: FileCheck)
        ensures
            r == old(self).spec_file_check(current_file_id, current_len),
            final(self).label == old(self).label,
            current_file_id != old(self).file_id ==> {
                &&& final(self).file_id == current_file_id
                &&& final(self).position == 0
                &&& final(self).pending@ == Seq::<u8>::empty()
                &&& final(self).spec_read_offset() == 0
            },
            current_file_id == old(self).file_id && current_len < old(self).position ==> {
                &&& final(self).file_id == old(self).file_id
                &&& final(self).position == 0
                &&& final(self).pending@ == Seq::<u8>::empty()
                &&& final(self).spec_read_offset() == 0
            },
            current_file_id == old(self).file_id && current_len >= old(self).position
                ==> *final(self) == *old(self),
            old(self).wf() ==> final(self).wf(),
    {
        if current_file_id != self.file_id {
            self.file_id = current_file_id;
            self.position = 0;
            self.pending = Vec::new();
            FileCheck::Rotated
        } else if current_len < self.position {
            self.position = 0;
            self.pending = Vec::new();
            FileCheck::Truncated
        } else {
            FileCheck::Unchanged
        }
    }

    /// Consume the bytes the file offered at the read offset. Every complete
    /// non-blank line in the buffered fragment plus `chunk` becomes one event,
    /// in file order, its content trimmed of trailing whitespace and stamped
    /// with the capture time; the position advances past the complete lines;
    /// what follows the last newline stays buffered.
    pub fn ingest(&mut self, chunk: &[u8]) -> (events: Vec<LogEvent>)
        requires
            old(self).wf(),
            old(self).spec_read_offset() + chunk@.len() <= u64::MAX,
        ensures
            final(self).wf(),
            final(self).label == old(self).label,
            final(self).file_id == old(self).file_id,
            ({
                let data = old(self).pending@ + chunk@;
                let outs = outputs(data);
                &&& final(self).pending@ == line_rest(data)
                &&& final(self).position == old(self).position + consumed_len(data)
                &&& events@.len() == outs.len()
                &&& (forall|i: int| #![auto]
                    0 <= i < outs.len() ==> events@[i].content@ == utf8_decode_of(outs[i]))
                &&& (forall|i: int| #![auto]
                    0 <= i < outs.len() ==> events@[i].label@ == old(self).label@)
                &&& (forall|i: int| #![auto]
                    0 <= i < outs.len() ==> events@[i].timestamp.nanos <= 1_999_999_999)
            }),
    {
        let ghost pend0 = self.pending@;
        let ghost label0 = self.label;
        let ghost pos0 = self.position;
        let ghost fid0 = self.file_id;

        // bring the chunk into the buffer
        let mut k: usize = 0;
        while k < chunk.len()
            invariant
                k <= chunk@.len(),
                self.pending@ == pend0 + chunk@.subrange(0, k as int),
                self.label == label0,
                self.position == pos0,
                self.file_id == fid0,
            decreases chunk@.len() - k,
        {
            proof {
                assert(pend0 + chunk@.subrange(0, k + 1 as int) =~= (pend0 + chunk@.subrange(
                    0,
                    k as int,
                )).push(chunk@[k as int]));
            }
            let b = chunk[k];
            self.pending.push(b);
            k += 1;
        }
        proof {
            assert(pend0 + chunk@.subrange(0, chunk@.len() as int) =~= pend0 + chunk@);
            assert(self.pending@ =~= pend0 + chunk@);
        }
        let ghost data = self.pending@;

        let n: usize = self.pending.len();
        let mut events: Vec<LogEvent> = Vec::new();
        let mut start: usize = 0;
        let mut more = true;
        let ghost mut done: Seq<Seq<u8>> = Seq::empty();

        proof {
            assert(done + kept_outputs(complete_lines_from(data, 0)) =~= kept_outputs(
                complete_lines_from(data, 0),
            ));
        }

        while more
            invariant
                start <= n,
                n == data.len(),
                self.pending@ == data,
                self.label == label0,
                self.position == pos0,
                self.file_id == fid0,
                outputs(data) == done + kept_outputs(complete_lines_from(data, start as int)),
                line_rest(data) == line_rest_from(data, start as int),
                events@.len() == done.len(),
                forall|i: int| #![auto]
                    0 <= i < done.len() ==> events@[i].content@ == utf8_decode_of(done[i]),
                forall|i: int| #![auto] 0 <= i < done.len() ==> events@[i].label@ == label0@,
                forall|i: int| #![auto]
                    0 <= i < done.len() ==> events@[i].timestamp.nanos <= 1_999_999_999,
                !more ==> find_newline(data, start as int) == n,
            decreases n - start + (if more { 1int } else { 0int }),
        {
            // find the next newline
            let mut nl: usize = start;
            while nl < n && self.pending[nl] != NEWLINE
                invariant
                    start <= nl <= n,
                    n == data.len(),
                    self.pending@ == data,
                    forall|j: int| start <= j < nl ==> #[trigger] data[j] != NEWLINE,
                decreases n - nl,
            {
                nl += 1;
            }

            if nl == n {
                proof {
                    lemma_find_newline(data, start as int);
                }
                more = false;
            } else {
                // the line runs from `start` through the newline at `nl`;
                // find where its trailing whitespace begins
                let mut t: usize = nl + 1;
                while t > start && is_ws(self.pending[t - 1])
                    invariant
                        start <= t <= nl + 1,
                        nl < n,
                        n == data.len(),
                        self.pending@ == data,
                        forall|j: int| t <= j <= nl ==> is_whitespace_byte(#[trigger] data[j]),
                    decreases t,
                {
                    t -= 1;
                }

                let ghost line = data.subrange(start as int, nl as int + 1);
                proof {
                    lemma_find_newline(data, start as int);
                    assert(data[nl as int] == NEWLINE);
                    assert(find_newline(data, start as int) == nl as int);
                    assert(complete_lines_from(data, start as int) == seq![line]
                        + complete_lines_from(data, nl as int + 1));
                    lemma_kept_outputs_cons(line, complete_lines_from(data, nl as int + 1));
                    // trimming the line keeps its first t - start bytes
                    assert(forall|j: int|
                        t - start <= j < line.len() ==> is_whitespace_byte(#[trigger] line[j]));
                    lemma_trimmed_end_take(line, t - start as int);
                    assert(line.take(t - start as int) =~= data.subrange(start as int, t as int));
                }

                if t > start {
                    proof {
                        assert(!is_whitespace_byte(line[t - start - 1 as int]));
                        assert(!is_blank(line));
                    }
                    let mut content_bytes: Vec<u8> = Vec::new();
                    let mut j: usize = start;
                    proof {
                        assert(content_bytes@ =~= data.subrange(start as int, start as int));
                    }
                    while j < t
                        invariant
                            start <= j <= t,
                            t <= n,
                            n == data.len(),
                            self.pending@ == data,
                            content_bytes@ == data.subrange(start as int, j as int),
                        decreases t - j,
                    {
                        proof {
                            assert(data.subrange(start as int, j + 1 as int) =~= data.subrange(
                                start as int,
                                j as int,
                            ).push(data[j as int]));
                        }
                        let b = self.pending[j];
                        content_bytes.push(b);
                        j += 1;
                    }
                    let content = utf8_lossy(content_bytes.as_slice());
                    let stamp = now_utc();
                    let label_copy = self.label.clone();
                    events.push(LogEvent { label: label_copy, content, timestamp: stamp });
                    proof {
                        assert(content_bytes@ == trimmed_end(line));
                        done = done.push(trimmed_end(line));
                        assert(done + kept_outputs(complete_lines_from(data, nl as int + 1))
                            =~= done.drop_last() + (seq![trimmed_end(line)] + kept_outputs(
                            complete_lines_from(data, nl as int + 1),
                        )));
                    }
                } else {
                    proof {
                        assert(forall|i: int|
                            0 <= i < line.len() ==> is_whitespace_byte(#[trigger] line[i]));
                        assert(is_blank(line));
                    }
                }
                start = nl + 1;
            }
        }

        // everything after the last newline stays buffered
        proof {
            assert(complete_lines_from(data, start as int) =~= Seq::<Seq<u8>>::empty());
            assert(kept_outputs(complete_lines_from(data, start as int)) =~= Seq::<
                Seq<u8>,
            >::empty());
            assert(done + kept_outputs(complete_lines_from(data, start as int)) =~= done);
            assert(outputs(data) == done);
            assert(line_rest_from(data, start as int) == data.subrange(start as int, n as int));
        }

        let mut rest: Vec<u8> = Vec::new();
        let mut j: usize = start;
        proof {
            assert(rest@ =~= data.subrange(start as int, start as int));
        }
        while j < n
            invariant
                start <= j <= n,
                n == data.len(),
                self.pending@ == data,
                rest@ == data.subrange(start as int, j as int),
            decreases n - j,
        {
            proof {
                assert(data.subrange(start as int, j + 1 as int) =~= data.subrange(
                    start as int,
                    j as int,
                ).push(data[j as int]));
            }
            let b = self.pending[j];
            rest.push(b);
            j += 1;
        }
        self.pending = rest;
        self.position = self.position + start as u64;

        proof {
            assert(line_rest(data).len() == n - start);
            assert(consumed_len(data) == start as int);
        }

        events
    }
}

} // verus!
