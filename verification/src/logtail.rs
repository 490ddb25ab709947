//! The tail of a growing job log, kept as complete lines and one pending partial line.

use vstd::prelude::*;

use crate::ports::LogChunk;
use crate::text::{char_pos, chars_of, lemma_char_pos, string_of};

verus! {

/// How far a log has been read, the partial line not yet ended, and the last complete lines.
#[derive(Debug, Clone, PartialEq, Eq)]
pub struct LogCursor {
    pub offset: u64,
    pub pending: String,
    pub lines: Vec<String>,
}

/// What a `LogCursor` holds.
pub struct LogCursorView {
    pub offset: u64,
    pub pending: Seq<char>,
    pub lines: Seq<Seq<char>>,
}

impl View for LogCursor {
    type V = LogCursorView;

    open spec fn view(&self) -> LogCursorView {
        LogCursorView { offset: self.offset, pending: self.pending@, lines: self.lines.deep_view() }
    }
}

impl Default for LogCursor {
    /// Nothing read yet.
    fn default() -> (c: LogCursor)
        ensures
            c@.offset == 0,
            c@.pending == Seq::<char>::empty(),
            c@.lines == Seq::<Seq<char>>::empty(),
    {
        let c = LogCursor { offset: 0, pending: String::new(), lines: Vec::new() };
        assert(c@.lines =~= Seq::<Seq<char>>::empty());
        c
    }
}

/// The text that `String::from_utf8_lossy` makes of some bytes.
pub uninterp spec fn utf8_lossy(bytes: Seq<u8>) -> Seq<char>;

/// `String::from_utf8_lossy`: the bytes as text, with each invalid sequence replaced by
/// U+FFFD; valid UTF-8 decodes exactly.
#[verifier::external_body]
pub(crate) fn lossy_text(bytes: &Vec<u8>) -> (s: String)
    ensures
        s@ == utf8_lossy(bytes@),
        vstd::utf8::valid_utf8(bytes@) ==> s@ == vstd::utf8::decode_utf8(bytes@),
{
    String::from_utf8_lossy(bytes.as_slice()).into_owned()
}

/// `line` without one trailing carriage return.
pub open spec fn strip_cr(line: Seq<char>) -> Seq<char> {
    if line.len() > 0 && line.last() == '\r' {
        line.drop_last()
    } else {
        line
    }
}

/// The complete lines of `text` (each without its `\n` and one trailing `\r`) and what
/// follows the last `\n`.
pub open spec fn split_lines(text: Seq<char>) -> (Seq<Seq<char>>, Seq<char>)
    decreases text.len(),
{
    let i = char_pos(text, '\n');
    if i < 0 {
        (seq![], text)
    } else {
        proof {
            lemma_char_pos(text, '\n');
        }
        let rest = split_lines(text.skip(i + 1));
        (seq![strip_cr(text.take(i))] + rest.0, rest.1)
    }
}

/// The last `n` items of `s`, or all of them where there are fewer.
pub open spec fn keep_last<A>(s: Seq<A>, n: nat) -> Seq<A> {
    if s.len() > n {
        s.skip(s.len() - n)
    } else {
        s
    }
}

/// The cursor after reading `text`, which ends at `next_offset`: a log that shrank starts
/// over; the pending line and `text` are cut into lines; the last `limit` lines stay.
pub open spec fn appended(c: LogCursorView, text: Seq<char>, next_offset: u64, limit: nat) -> LogCursorView {
    let restart = next_offset < c.offset;
    let lines = if restart {
        Seq::<Seq<char>>::empty()
    } else {
        c.lines
    };
    let pending = if restart {
        Seq::<char>::empty()
    } else {
        c.pending
    };
    let cut = split_lines(pending + text);
    LogCursorView { offset: next_offset, pending: cut.1, lines: keep_last(lines + cut.0, limit) }
}

/// The lines to show: the complete lines and a non-empty pending line, the last `limit`.
pub open spec fn shown_lines(c: LogCursorView, limit: nat) -> Seq<Seq<char>> {
    let all = if c.pending.len() > 0 {
        c.lines.push(c.pending)
    } else {
        c.lines
    };
    keep_last(all, limit)
}

/// Position, counted from `from`, of the first `c` at or after `from`.
fn find_char_from(v: &Vec<char>, from: usize, c: char) -> (r: Option<usize>)
    requires
        from <= v@.len(),
    ensures
        match r {
            Some(j) => from <= j < v@.len() && j - from == char_pos(v@.skip(from as int), c),
            None => char_pos(v@.skip(from as int), c) == -1,
        },
{
    let ghost rest = v@.skip(from as int);
    proof {
        lemma_char_pos(rest, c);
    }
    let mut i = from;
    while i < v.len()
        invariant
            from <= i <= v@.len(),
            rest == v@.skip(from as int),
            forall|k: int| from <= k < i ==> v@[k] != c,
            -1 <= char_pos(rest, c) < rest.len(),
            char_pos(rest, c) == -1 <==> !rest.contains(c),
            char_pos(rest, c) >= 0 ==> rest[char_pos(rest, c)] == c,
            forall|j: int| 0 <= j < char_pos(rest, c) ==> rest[j] != c,
        decreases v@.len() - i,
    {
        if v[i] == c {
            assert(rest[i - from] == c);
            assert(rest.contains(c));
            let ghost p = char_pos(rest, c);
            assert(p == i - from) by {
                if p < i - from {
                    assert(v@[from + p] != c);
                }
                if p > i - from {
                    assert(rest[i - from] != c);
                }
            }
            return Some(i);
        }
        i = i + 1;
    }
    assert(!rest.contains(c)) by {
        if rest.contains(c) {
            let j = choose|j: int| 0 <= j < rest.len() && rest[j] == c;
            assert(v@[from + j] == c);
        }
    }
    None
}

/// Reads a chunk of the log into the cursor.
pub fn append_log(cursor: &mut LogCursor, chunk: &LogChunk, limit: usize)
    ensures
        final(cursor)@ == appended(old(cursor)@, utf8_lossy(chunk.bytes@), chunk.next_offset, limit as nat),
{
    let ghost restart = chunk.next_offset < old(cursor)@.offset;
    if chunk.next_offset < cursor.offset {
        cursor.lines.clear();
        cursor.pending = String::new();
    }
    let ghost lines0 = cursor.lines.deep_view();
    assert(lines0 =~= (if restart { Seq::<Seq<char>>::empty() } else { old(cursor)@.lines }));
    cursor.offset = chunk.next_offset;
    let text = lossy_text(&chunk.bytes);
    let mut all = chars_of(cursor.pending.as_str());
    let more = chars_of(text.as_str());
    let ghost pending0 = all@;
    let mut k: usize = 0;
    while k < more.len()
        invariant
            k <= more@.len(),
            all@ == pending0 + more@.take(k as int),
        decreases more@.len() - k,
    {
        all.push(more[k]);
        assert(more@.take(k + 1) =~= more@.take(k as int).push(more@[k as int]));
        k = k + 1;
    }
    assert(more@.take(more@.len() as int) =~= more@);
    let ghost whole = all@;
    let total = all.len();
    assert(whole.skip(0) =~= whole);
    let mut start: usize = 0;
    let ghost mut produced: Seq<Seq<char>> = Seq::empty();
    loop
        invariant
            all@ == whole,
            whole.len() == total,
            cursor.offset == chunk.next_offset,
            start <= whole.len(),
            cursor.lines.deep_view() == lines0 + produced,
            split_lines(whole) == (produced + split_lines(whole.skip(start as int)).0, split_lines(
                whole.skip(start as int),
            ).1),
        ensures
            char_pos(whole.skip(start as int), '\n') == -1,
        decreases whole.len() - start,
    {
        match find_char_from(&all, start, '\n') {
            None => {
                break ;
            },
            Some(j) => {
                let ghost rest = whole.skip(start as int);
                proof {
                    lemma_char_pos(rest, '\n');
                    assert(rest.take(j - start) =~= whole.subrange(start as int, j as int));
                    assert(rest.skip(j - start + 1) =~= whole.skip(j + 1));
                }
                let end = if j > start && all[j - 1] == '\r' {
                    j - 1
                } else {
                    j
                };
                let line = string_of(&all, start, end);
                proof {
                    assert(line@ == strip_cr(whole.subrange(start as int, j as int))) by {
                        if j > start && whole[j - 1] == '\r' {
                            assert(whole.subrange(start as int, j as int).drop_last()
                                =~= whole.subrange(start as int, end as int));
                        }
                    }
                }
                let ghost before = cursor.lines.deep_view();
                cursor.lines.push(line);
                assert(cursor.lines.deep_view() =~= before.push(line@));
                proof {
                    let old_produced = produced;
                    produced = produced.push(line@);
                    assert(split_lines(rest).0 =~= seq![line@] + split_lines(whole.skip(j + 1)).0);
                    assert(old_produced + split_lines(rest).0 =~= produced + split_lines(
                        whole.skip(j + 1),
                    ).0);
                    assert(cursor.lines.deep_view() =~= lines0 + produced);
                }
                start = j + 1;
            },
        }
    }
    let n = all.len();
    cursor.pending = string_of(&all, start, n);
    proof {
        assert(whole.skip(start as int) =~= whole.subrange(start as int, n as int));
        assert(split_lines(whole.skip(start as int)).0 =~= Seq::<Seq<char>>::empty());
        assert(produced + Seq::<Seq<char>>::empty() =~= produced);
    }
    if cursor.lines.len() > limit {
        let drop_n = cursor.lines.len() - limit;
        let ghost full = cursor.lines.deep_view();
        let kept = cursor.lines.split_off(drop_n);
        cursor.lines = kept;
        assert(cursor.lines.deep_view() =~= full.skip(drop_n as int));
    }
    proof {
        let target = appended(old(cursor)@, utf8_lossy(chunk.bytes@), chunk.next_offset, limit as nat);
        assert(pending0 == (if restart { Seq::<char>::empty() } else { old(cursor)@.pending }));
        assert(whole == pending0 + utf8_lossy(chunk.bytes@));
        assert(split_lines(whole).1 == whole.skip(start as int));
        assert(split_lines(whole).0 == produced);
        assert(cursor@.pending == target.pending);
        assert(cursor@.lines == target.lines);
        assert(cursor@.offset == target.offset);
    }
}

/// The lines to show for this cursor, at most `limit` of them.
pub fn display_lines(cursor: &LogCursor, limit: usize) -> (lines: Vec<String>)
    ensures
        lines.deep_view() == shown_lines(cursor@, limit as nat),
{
    let mut lines = cursor.lines.clone();
    assert(lines.deep_view() =~= cursor.lines.deep_view());
    let ghost all = if cursor@.pending.len() > 0 {
        cursor@.lines.push(cursor@.pending)
    } else {
        cursor@.lines
    };
    if !cursor.pending.as_str().is_empty() {
        let ghost before = lines.deep_view();
        lines.push(cursor.pending.clone());
        assert(lines.deep_view() =~= before.push(cursor@.pending));
    }
    assert(lines.deep_view() == all);
    if lines.len() > limit {
        let at = lines.len() - limit;
        let tail = lines.split_off(at);
        assert(tail.deep_view() =~= all.skip(at as int));
        tail
    } else {
        lines
    }
}

/// The lines of `text` as `str::lines` gives them: cut at each `\n`, a `\r` before it
/// dropped, and a last line without `\n` kept as it is where it is not empty.
pub open spec fn text_lines(text: Seq<char>) -> Seq<Seq<char>> {
    let cut = split_lines(text);
    if cut.1.len() > 0 {
        cut.0.push(cut.1)
    } else {
        cut.0
    }
}

/// The last `tail` lines of a whole log.
pub fn log_tail_lines(bytes: &Vec<u8>, tail: usize) -> (lines: Vec<String>)
    ensures
        lines.deep_view() == keep_last(text_lines(utf8_lossy(bytes@)), tail as nat),
{
    let mut cursor = LogCursor { offset: 0, pending: String::new(), lines: Vec::new() };
    assert(cursor@.lines =~= Seq::<Seq<char>>::empty());
    let chunk = LogChunk { bytes: bytes.clone(), next_offset: 0 };
    assert(chunk.bytes@ == bytes@);
    let n = usize::MAX;
    append_log(&mut cursor, &chunk, n);
    proof {
        let cut = split_lines(Seq::<char>::empty() + utf8_lossy(bytes@));
        assert(Seq::<char>::empty() + utf8_lossy(bytes@) =~= utf8_lossy(bytes@));
        assert(Seq::<Seq<char>>::empty() + cut.0 =~= cut.0);
    }
    display_lines(&cursor, tail)
}

/// After any read, at most `limit` complete lines are kept, and at most `limit` are shown.
pub proof fn lemma_tail_is_bounded(c: LogCursorView, text: Seq<char>, next_offset: u64, limit: nat)
    ensures
        appended(c, text, next_offset, limit).lines.len() <= limit,
        shown_lines(c, limit).len() <= limit,
{
}

proof fn lemma_char_pos_in_prefix(x: Seq<char>, y: Seq<char>, c: char)
    requires
        char_pos(x, c) >= 0,
    ensures
        char_pos(x + y, c) == char_pos(x, c),
{
    lemma_char_pos(x, c);
    lemma_char_pos(x + y, c);
    let i = char_pos(x, c);
    assert((x + y)[i] == c);
    assert((x + y).contains(c));
    let k = char_pos(x + y, c);
    if k < i {
        assert((x + y)[k] == x[k]);
    }
    if k > i {
        assert((x + y)[i] != c);
    }
}

/// Cutting `x + y` into lines is cutting `x`, then cutting what `x` left pending together with `y`.
proof fn lemma_split_lines_append(x: Seq<char>, y: Seq<char>)
    ensures
        split_lines(x + y) == (split_lines(x).0 + split_lines(split_lines(x).1 + y).0, split_lines(
            split_lines(x).1 + y,
        ).1),
    decreases x.len(),
{
    lemma_char_pos(x, '\n');
    let i = char_pos(x, '\n');
    if i < 0 {
        assert(split_lines(x).0 =~= Seq::<Seq<char>>::empty());
        assert(Seq::<Seq<char>>::empty() + split_lines(x + y).0 =~= split_lines(x + y).0);
    } else {
        lemma_char_pos_in_prefix(x, y, '\n');
        lemma_char_pos(x + y, '\n');
        assert((x + y).take(i) =~= x.take(i));
        assert((x + y).skip(i + 1) =~= x.skip(i + 1) + y);
        lemma_split_lines_append(x.skip(i + 1), y);
        let rest = split_lines(x.skip(i + 1));
        assert(split_lines(x).1 == rest.1);
        assert(split_lines(x + y).0 =~= split_lines(x).0 + split_lines(split_lines(x).1 + y).0);
    }
}

proof fn lemma_keep_last_twice<A>(a: Seq<A>, b: Seq<A>, n: nat)
    ensures
        keep_last(keep_last(a, n) + b, n) == keep_last(a + b, n),
{
    let ka = keep_last(a, n);
    if a.len() > n {
        assert(keep_last(ka + b, n) =~= keep_last(a + b, n));
    }
}

/// Reading a log in two pieces leaves the cursor as reading it at once would, as long as
/// the log did not shrink in between.
pub proof fn lemma_read_in_pieces(
    c: LogCursorView,
    first: Seq<char>,
    second: Seq<char>,
    mid_offset: u64,
    end_offset: u64,
    limit: nat,
)
    requires
        c.offset <= mid_offset <= end_offset,
    ensures
        appended(appended(c, first, mid_offset, limit), second, end_offset, limit) == appended(
            c,
            first + second,
            end_offset,
            limit,
        ),
{
    let x = c.pending + first;
    lemma_split_lines_append(x, second);
    assert(c.pending + (first + second) =~= x + second);
    let c1 = appended(c, first, mid_offset, limit);
    let s1 = split_lines(x);
    let s2 = split_lines(s1.1 + second);
    lemma_keep_last_twice(c.lines + s1.0, s2.0, limit);
    assert(c.lines + s1.0 + s2.0 =~= c.lines + (s1.0 + s2.0));
}

} // verus!
