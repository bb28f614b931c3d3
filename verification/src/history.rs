//! Translation history: one JSONL file per session, a meta line first and then one line
//! per finished sentence. Reading and writing the files, and turning a line into a
//! record, is the caller's part; which file an id names, which lines of a file are
//! records, and the order in which sessions are listed are decided here.

use vstd::prelude::*;
use crate::text::{
    chars_of, equal_chars, is_blank, lemma_line_len_at, lemma_lines_concat, lines, lines_of, string_of,
    strip_cr, sub_chars, trimmed, views,
};

verus! {

/// The file's first line: what the session was translating, and with what.
pub struct Meta {
    /// File format version, so a later reader can tell old lines from new ones.
    pub v: u32,
    pub at: i64,
    pub source: String,
    pub target: String,
    pub model: String,
    /// Where the audio came from: `device` or `file`.
    pub kind: String,
}

/// One finished sentence: its transcript and its translation.
pub struct Entry {
    pub at: i64,
    pub source: String,
    pub target: String,
}

/// What the history panel lists: the session's own meta line plus what it costs.
pub struct Session {
    /// File stem, and the handle every other command takes.
    pub id: String,
    /// `None` when the first line is missing or unreadable. The session is still listed:
    /// the panel just falls back to showing the id.
    pub meta: Option<Meta>,
    /// Sentences, i.e. lines after the meta one.
    pub count: usize,
    pub bytes: u64,
}

/// A character that may stand in a history id: an ASCII letter or digit, `-` or `_`.
pub open spec fn is_slug_char(c: char) -> bool {
    ||| ('a' <= c && c <= 'z')
    ||| ('A' <= c && c <= 'Z')
    ||| ('0' <= c && c <= '9')
    ||| c == '-'
    ||| c == '_'
}

/// Whether `id` may name a history file: one to 64 characters, each of them a slug
/// character. (Slug characters are ASCII, so this is also one to 64 bytes.)
pub open spec fn is_slug(id: Seq<char>) -> bool {
    &&& 0 < id.len() <= 64
    &&& forall|i: int| 0 <= i < id.len() ==> is_slug_char(#[trigger] id[i])
}

/// An accepted id cannot leave the history folder: it is not empty and holds no dot and
/// no path separator, so neither `..` nor a directory can be spelled with it.
pub proof fn lemma_slug_stays_in_folder(id: Seq<char>)
    requires
        is_slug(id),
    ensures
        0 < id.len() <= 64,
        !id.contains('.'),
        !id.contains('/'),
        !id.contains('\\'),
{
    if id.contains('.') {
        let i = choose|i: int| 0 <= i < id.len() && id[i] == '.';
        assert(is_slug_char(id[i]));
    }
    if id.contains('/') {
        let i = choose|i: int| 0 <= i < id.len() && id[i] == '/';
        assert(is_slug_char(id[i]));
    }
    if id.contains('\\') {
        let i = choose|i: int| 0 <= i < id.len() && id[i] == '\\';
        assert(is_slug_char(id[i]));
    }
}

/// Ids come from the front end and become a file name, so a bad one is refused
/// outright rather than scrubbed.
pub fn slug_ok(id: &str) -> (r: bool)
    ensures
        r == is_slug(id@),
{
    let cs = chars_of(id);
    if cs.len() == 0 || cs.len() > 64 {
        return false;
    }
    let mut i: usize = 0;
    while i < cs.len()
        invariant
            cs@ == id@,
            i <= cs.len(),
            forall|j: int| 0 <= j < i ==> is_slug_char(#[trigger] cs@[j]),
        decreases cs.len() - i,
    {
        let c = cs[i];
        let ok = ('a' <= c && c <= 'z') || ('A' <= c && c <= 'Z') || ('0' <= c && c <= '9') || c
            == '-' || c == '_';
        if !ok {
            assert(!is_slug_char(cs@[i as int]));
            return false;
        }
        i = i + 1;
    }
    true
}

/// The name of the file that holds the session `id`, or the error that refuses the id.
pub fn file_name(id: &str) -> (r: Result<String, String>)
    ensures
        is_slug(id@) ==> (r matches Ok(name) && name@ == id@ + ".jsonl"@),
        !is_slug(id@) ==> (r matches Err(e) && e@ == "bad history id: "@ + id@),
{
    if !slug_ok(id) {
        let mut e = String::from_str("bad history id: ");
        e.append(id);
        return Err(e);
    }
    let name = String::from_str(id);
    Ok(name.concat(".jsonl"))
}

/// The lines of `ls` that hold more than whitespace, in order.
pub open spec fn nonblank(ls: Seq<Seq<char>>) -> Seq<Seq<char>>
    decreases ls.len(),
{
    if ls.len() == 0 {
        seq![]
    } else if is_blank(ls.last()) {
        nonblank(ls.drop_last())
    } else {
        nonblank(ls.drop_last()).push(ls.last())
    }
}

/// The records of a history file: its lines that hold more than whitespace. The first
/// is the meta line, the others are sentences.
pub open spec fn records(text: Seq<char>) -> Seq<Seq<char>> {
    nonblank(lines(text))
}

/// What appending a record writes: the record's line and a line feed, so that one
/// record stays one line.
pub fn as_record(line: &str) -> (r: String)
    ensures
        r@ == line@ + "\n"@,
{
    let r = String::from_str(line);
    r.concat("\n")
}

/// A line fit to be one record: it holds more than whitespace, no line feed, and does not
/// end with a carriage return (a JSON text written by `serde_json` is such a line).
pub open spec fn is_record_line(l: Seq<char>) -> bool {
    &&& !is_blank(l)
    &&& !l.contains('\n')
    &&& (l.len() == 0 || l.last() != '\r')
}

/// A text of whole lines: empty, or ending with a line feed.
pub open spec fn whole_lines(text: Seq<char>) -> bool {
    text.len() == 0 || text.last() == '\n'
}

/// Appending a record line to a file of whole lines adds exactly that one record, and
/// leaves the file made of whole lines.
pub proof fn lemma_append_adds_one_record(text: Seq<char>, line: Seq<char>)
    requires
        whole_lines(text),
        is_record_line(line),
    ensures
        records(text + (line + "\n"@)) == records(text).push(line),
        whole_lines(text + (line + "\n"@)),
{
    reveal_strlit("\n");
    let w = line + "\n"@;
    assert forall|i: int| 0 <= i < line.len() implies w[i] != '\n' by {
        assert(w[i] == line[i]);
        if line[i] == '\n' {
            assert(line.contains('\n'));
        }
    }
    assert(w[line.len() as int] == '\n');
    lemma_line_len_at(w, line.len() as int);
    assert(w.take(line.len() as int) =~= line);
    let e = w.skip(line.len() + 1 as int);
    assert(e.len() == 0);
    assert(lines(e) =~= Seq::<Seq<char>>::empty());
    assert(w.len() > 0);
    assert(strip_cr(line) == line);
    assert(lines(w) =~= seq![line]);
    lemma_lines_concat(text, w);
    assert(lines(text + w) =~= lines(text).push(line));
    assert(lines(text).push(line).drop_last() =~= lines(text));
    assert((text + w).last() == '\n');
}

/// The text of a history file written record by record.
pub open spec fn written_file(ls: Seq<Seq<char>>) -> Seq<char>
    decreases ls.len(),
{
    if ls.len() == 0 {
        seq![]
    } else {
        written_file(ls.drop_last()) + (ls.last() + "\n"@)
    }
}

/// A file written record by record reads back as exactly those records, in order: the
/// meta line first, then every sentence, none split in two and none lost.
pub proof fn lemma_written_records_read_back(ls: Seq<Seq<char>>)
    requires
        forall|i: int| 0 <= i < ls.len() ==> is_record_line(#[trigger] ls[i]),
    ensures
        records(written_file(ls)) == ls,
        whole_lines(written_file(ls)),
    decreases ls.len(),
{
    if ls.len() == 0 {
        assert(lines(Seq::<char>::empty()) =~= Seq::<Seq<char>>::empty());
        assert(records(written_file(ls)) =~= ls);
    } else {
        let init = ls.drop_last();
        assert forall|i: int| 0 <= i < init.len() implies is_record_line(#[trigger] init[i]) by {
            assert(init[i] == ls[i]);
        }
        lemma_written_records_read_back(init);
        assert(is_record_line(ls[ls.len() - 1]));
        lemma_append_adds_one_record(written_file(init), ls.last());
        assert(init.push(ls.last()) =~= ls);
    }
}

/// The lines of `text` that hold more than whitespace, in order.
fn nonblank_lines(text: &str) -> (r: Vec<Vec<char>>)
    ensures
        views(r@) == records(text@),
{
    let cs = chars_of(text);
    let ls = lines_of(&cs);
    let ghost all = views(ls@);
    let mut out: Vec<Vec<char>> = Vec::new();
    let mut i: usize = 0;
    while i < ls.len()
        invariant
            i <= ls.len(),
            all == views(ls@),
            all == lines(text@),
            views(out@) == nonblank(all.take(i as int)),
        decreases ls.len() - i,
    {
        let t = trimmed(&ls[i]);
        proof {
            assert(all.take(i + 1).drop_last() =~= all.take(i as int));
            assert(all.take(i + 1).last() == ls@[i as int]@);
        }
        if t.len() > 0 {
            let ghost before = views(out@);
            out.push(sub_chars(&ls[i], 0, ls[i].len()));
            assert(ls@[i as int]@.subrange(0, ls@[i as int]@.len() as int) =~= ls@[i as int]@);
            assert(views(out@) =~= before.push(ls@[i as int]@));
        }
        i = i + 1;
    }
    assert(all.take(ls.len() as int) =~= all);
    out
}

/// What the history panel needs of a session file's text: its meta line and the number
/// of sentences after it, or `None` for a file with no record at all (it is not listed).
pub fn summarize(text: &str) -> (r: Option<(String, usize)>)
    ensures
        records(text@).len() == 0 ==> r is None,
        records(text@).len() > 0 ==> (r matches Some((first, count)) && first@ == records(
            text@,
        )[0] && count == records(text@).len() - 1),
{
    let recs = nonblank_lines(text);
    if recs.len() == 0 {
        None
    } else {
        Some((string_of(&recs[0]), recs.len() - 1))
    }
}

/// The sentence lines of a session file, in order: its records after the meta line. A
/// line that does not read as a sentence is the reader's to drop.
pub fn sentence_lines(text: &str) -> (r: Vec<String>)
    ensures
        records(text@).len() == 0 ==> r@.len() == 0,
        records(text@).len() > 0 ==> r@.map_values(|s: String| s@) == records(text@).skip(1),
{
    let recs = nonblank_lines(text);
    let mut out: Vec<String> = Vec::new();
    if recs.len() == 0 {
        return out;
    }
    let ghost all = views(recs@);
    let mut i: usize = 1;
    while i < recs.len()
        invariant
            1 <= i <= recs.len(),
            all == views(recs@),
            out@.map_values(|s: String| s@) == all.subrange(1, i as int),
        decreases recs.len() - i,
    {
        let s = string_of(&recs[i]);
        let ghost before = out@.map_values(|s: String| s@);
        assert(all[i as int] == recs@[i as int]@);
        out.push(s);
        assert(out@.map_values(|s: String| s@) =~= before.push(s@));
        assert(all.subrange(1, i + 1) =~= all.subrange(1, i as int).push(all[i as int]));
        i = i + 1;
    }
    assert(all.subrange(1, recs.len() as int) =~= all.skip(1));
    out
}

/// Whether `a` comes before `b` in lexicographic order of characters, the order in which
/// Rust compares strings.
pub open spec fn text_lt(a: Seq<char>, b: Seq<char>) -> bool
    decreases a.len(),
{
    if a.len() == 0 {
        b.len() > 0
    } else if b.len() == 0 {
        false
    } else if a[0] != b[0] {
        (a[0] as int) < (b[0] as int)
    } else {
        text_lt(a.drop_first(), b.drop_first())
    }
}

/// Texts are ordered lexicographically by code point: where `a` and `b` agree on their
/// first `i` characters and part there (one of them ends, or their characters differ),
/// `a` comes first exactly where `a` ends there while `b` goes on, or where both go on
/// and `a`'s next character has the lower code point.
pub proof fn lemma_text_order_is_lexicographic(a: Seq<char>, b: Seq<char>, i: int)
    requires
        0 <= i <= a.len(),
        i <= b.len(),
        a.take(i) == b.take(i),
        i == a.len() || i == b.len() || a[i] != b[i],
    ensures
        text_lt(a, b) <==> ((i == a.len() && i < b.len()) || (i < a.len() && i < b.len() && (
        a[i] as int) < (b[i] as int))),
    decreases i,
{
    if i > 0 {
        assert(a[0] == a.take(i)[0] && b[0] == b.take(i)[0]);
        let a1 = a.drop_first();
        let b1 = b.drop_first();
        assert(a1.take(i - 1) =~= a.take(i).drop_first());
        assert(b1.take(i - 1) =~= b.take(i).drop_first());
        if i - 1 < a1.len() && i - 1 < b1.len() {
            assert(a1[i - 1] == a[i] && b1[i - 1] == b[i]);
        }
        lemma_text_order_is_lexicographic(a1, b1, i - 1);
    }
}

/// `a` comes no later than `b`.
pub open spec fn text_le(a: Seq<char>, b: Seq<char>) -> bool {
    text_lt(a, b) || a == b
}

proof fn lemma_text_lt_irreflexive(a: Seq<char>)
    ensures
        !text_lt(a, a),
    decreases a.len(),
{
    if a.len() > 0 {
        lemma_text_lt_irreflexive(a.drop_first());
    }
}

proof fn lemma_text_lt_transitive(a: Seq<char>, b: Seq<char>, c: Seq<char>)
    requires
        text_lt(a, b),
        text_lt(b, c),
    ensures
        text_lt(a, c),
    decreases a.len(),
{
    if a.len() > 0 && b.len() > 0 && c.len() > 0 {
        if a[0] == b[0] && b[0] == c[0] {
            lemma_text_lt_transitive(a.drop_first(), b.drop_first(), c.drop_first());
        }
    }
}

proof fn lemma_text_lt_total(a: Seq<char>, b: Seq<char>)
    ensures
        text_lt(a, b) || text_lt(b, a) || a == b,
    decreases a.len(),
{
    if a.len() > 0 && b.len() > 0 {
        if a[0] == b[0] {
            lemma_text_lt_total(a.drop_first(), b.drop_first());
            if a.drop_first() == b.drop_first() {
                assert(a =~= seq![a[0]] + a.drop_first());
                assert(b =~= seq![b[0]] + b.drop_first());
            }
        } else {
            assert((a[0] as int) != (b[0] as int));
        }
    } else if a.len() == 0 && b.len() == 0 {
        assert(a =~= b);
    }
}

/// Whether `a` comes before `b` in lexicographic order (`a < b` on strings).
pub fn text_less(a: &str, b: &str) -> (r: bool)
    ensures
        r == text_lt(a@, b@),
{
    let x = chars_of(a);
    let y = chars_of(b);
    let mut i: usize = 0;
    proof {
        assert(a@.skip(0) =~= a@);
        assert(b@.skip(0) =~= b@);
    }
    while i < x.len() && i < y.len() && x[i] == y[i]
        invariant
            x@ == a@,
            y@ == b@,
            i <= x.len(),
            i <= y.len(),
            text_lt(a@, b@) == text_lt(a@.skip(i as int), b@.skip(i as int)),
        decreases x.len() - i,
    {
        proof {
            assert(a@.skip(i as int).drop_first() =~= a@.skip(i + 1));
            assert(b@.skip(i as int).drop_first() =~= b@.skip(i + 1));
        }
        i = i + 1;
    }
    if i == x.len() {
        i < y.len()
    } else if i == y.len() {
        false
    } else {
        x[i] < y[i]
    }
}

/// Whether the ids of `s` come in descending order: newest first, since an id is an ISO
/// timestamp and lexical order is chronological order.
pub open spec fn newest_first(s: Seq<Session>) -> bool {
    forall|i: int, j: int| 0 <= i < j < s.len() ==> text_le(#[trigger] s[j].id@, #[trigger] s[i].id@)
}

/// Inserting `s` after every session whose id is no earlier and before every session
/// whose id is earlier keeps the sessions newest first.
#[verifier::rlimit(60)]
proof fn lemma_insert_keeps_order(before: Seq<Session>, p: int, s: Session)
    requires
        0 <= p <= before.len(),
        newest_first(before),
        forall|q: int| 0 <= q < p ==> !text_lt(#[trigger] before[q].id@, s.id@),
        p < before.len() ==> text_lt(before[p].id@, s.id@),
    ensures
        newest_first(before.insert(p, s)),
        forall|q: int| p <= q < before.len() ==> text_lt(#[trigger] before[q].id@, s.id@),
{
    assert forall|q: int| 0 <= q < p implies text_le(s.id@, #[trigger] before[q].id@) by {
        lemma_text_lt_total(before[q].id@, s.id@);
    }
    assert forall|q: int| p <= q < before.len() implies text_lt(
        #[trigger] before[q].id@,
        s.id@,
    ) by {
        if q > p {
            assert(text_le(before[q].id@, before[p].id@));
            if before[q].id@ != before[p].id@ {
                lemma_text_lt_transitive(before[q].id@, before[p].id@, s.id@);
            }
        }
    }
    let after = before.insert(p, s);
    before.insert_ensures(p, s);
    assert forall|i: int, j: int| 0 <= i < j < after.len() implies text_le(
        #[trigger] after[j].id@,
        #[trigger] after[i].id@,
    ) by {
        if j < p {
            assert(after[i] == before[i] && after[j] == before[j]);
        } else if j == p {
            assert(after[i] == before[i]);
        } else if i == p {
            assert(after[j] == before[j - 1]);
        } else if i < p {
            assert(after[i] == before[i] && after[j] == before[j - 1]);
            assert(text_le(s.id@, before[i].id@));
            assert(text_lt(before[j - 1].id@, s.id@));
            if before[i].id@ != s.id@ {
                lemma_text_lt_transitive(before[j - 1].id@, s.id@, before[i].id@);
            }
        } else {
            assert(after[i] == before[i - 1] && after[j] == before[j - 1]);
        }
    }
}

/// Inserting an element anywhere adds it to the multiset.
proof fn lemma_insert_multiset(before: Seq<Session>, p: int, s: Session)
    requires
        0 <= p <= before.len(),
    ensures
        before.insert(p, s).to_multiset() == before.to_multiset().insert(s),
{
    let after = before.insert(p, s);
    before.insert_ensures(p, s);
    assert(after.remove(p) =~= before);
    after.to_multiset_ensures();
}

/// The sessions of `s` whose id is `x`, in their order in `s`.
pub open spec fn with_id(s: Seq<Session>, x: Seq<char>) -> Seq<Session>
    decreases s.len(),
{
    if s.len() == 0 {
        seq![]
    } else if s.last().id@ == x {
        with_id(s.drop_last(), x).push(s.last())
    } else {
        with_id(s.drop_last(), x)
    }
}

proof fn lemma_with_id_concat(a: Seq<Session>, b: Seq<Session>, x: Seq<char>)
    ensures
        with_id(a + b, x) == with_id(a, x) + with_id(b, x),
    decreases b.len(),
{
    if b.len() == 0 {
        assert(a + b =~= a);
        assert(with_id(a, x) + with_id(b, x) =~= with_id(a, x));
    } else {
        assert((a + b).drop_last() =~= a + b.drop_last());
        lemma_with_id_concat(a, b.drop_last(), x);
        if b.last().id@ == x {
            assert(with_id(a, x) + with_id(b.drop_last(), x).push(b.last()) =~= (with_id(a, x)
                + with_id(b.drop_last(), x)).push(b.last()));
        }
    }
}

proof fn lemma_with_id_none(b: Seq<Session>, x: Seq<char>)
    requires
        forall|q: int| 0 <= q < b.len() ==> (#[trigger] b[q]).id@ != x,
    ensures
        with_id(b, x) == Seq::<Session>::empty(),
    decreases b.len(),
{
    if b.len() > 0 {
        let c = b.drop_last();
        assert forall|q: int| 0 <= q < c.len() implies (#[trigger] c[q]).id@ != x by {
            assert(c[q] == b[q]);
        }
        lemma_with_id_none(c, x);
        assert(b.last() == b[b.len() - 1]);
    }
}

/// Inserting `s` before every session whose id is earlier than its own puts it after
/// every session with the same id.
proof fn lemma_insert_with_id(before: Seq<Session>, p: int, s: Session, x: Seq<char>)
    requires
        0 <= p <= before.len(),
        forall|q: int| p <= q < before.len() ==> text_lt(#[trigger] before[q].id@, s.id@),
    ensures
        with_id(before.insert(p, s), x) == if s.id@ == x {
            with_id(before, x).push(s)
        } else {
            with_id(before, x)
        },
{
    let a = before.subrange(0, p);
    let b = before.subrange(p, before.len() as int);
    assert(before =~= a + b);
    assert(before.insert(p, s) =~= a.push(s) + b);
    lemma_with_id_concat(a, b, x);
    lemma_with_id_concat(a.push(s), b, x);
    assert(a.push(s).drop_last() =~= a);
    if s.id@ == x {
        assert forall|q: int| 0 <= q < b.len() implies (#[trigger] b[q]).id@ != x by {
            assert(b[q] == before[p + q]);
            assert(text_lt(before[p + q].id@, s.id@));
            lemma_text_lt_irreflexive(s.id@);
        }
        lemma_with_id_none(b, x);
        assert(with_id(a, x) + with_id(b, x) =~= with_id(a, x));
        assert(with_id(a.push(s), x) + with_id(b, x) =~= with_id(a.push(s), x));
    }
}

/// The sessions, newest first: the same sessions, ordered by descending id; sessions with
/// the same id keep their order.
pub fn sort_newest_first(sessions: Vec<Session>) -> (r: Vec<Session>)
    ensures
        r@.to_multiset() == sessions@.to_multiset(),
        newest_first(r@),
        forall|x: Seq<char>| #[trigger] with_id(r@, x) == with_id(sessions@, x),
{
    let ghost input = sessions@;
    let mut out: Vec<Session> = Vec::new();
    proof {
        assert(input.take(0) =~= Seq::<Session>::empty());
    }
    for s in it: sessions
        invariant
            it.seq() == input,
            out@.to_multiset() == input.take(it.index() as int).to_multiset(),
            newest_first(out@),
            forall|x: Seq<char>| #[trigger] with_id(out@, x) == with_id(
                input.take(it.index() as int),
                x,
            ),
    {
        let ghost k = it.index() as int;
        let mut p: usize = 0;
        while p < out.len() && !text_less(out[p].id.as_str(), s.id.as_str())
            invariant
                p <= out.len(),
                forall|q: int| 0 <= q < p ==> !text_lt(#[trigger] out@[q].id@, s.id@),
            decreases out.len() - p,
        {
            p = p + 1;
        }
        let ghost before = out@;
        proof {
            lemma_insert_keeps_order(before, p as int, s);
            lemma_insert_multiset(before, p as int, s);
            assert(input.take(k + 1) =~= input.take(k).push(s));
            input.take(k).to_multiset_ensures();
            assert forall|x: Seq<char>| #[trigger] with_id(before.insert(p as int, s), x) == with_id(
                input.take(k + 1),
                x,
            ) by {
                lemma_insert_with_id(before, p as int, s, x);
                assert(input.take(k + 1).drop_last() =~= input.take(k));
                assert(input.take(k + 1).last() == s);
            }
        }
        out.insert(p, s);
    }
    proof {
        assert(input.take(input.len() as int) =~= input);
    }
    out
}

} // verus!

verus! {

/// The session id that a file name in the history folder stands for: the name without
/// its `.jsonl` extension, where it has that extension after a non-empty stem; `None` for
/// any other file, which is not listed.
pub fn session_id_of(file: &str) -> (r: Option<String>)
    ensures
        r matches Some(id) ==> id@.len() > 0 && file@ == id@ + ".jsonl"@,
        r is None ==> forall|id: Seq<char>| id.len() > 0 ==> file@ != id + ".jsonl"@,
{
    let cs = chars_of(file);
    let ext = chars_of(".jsonl");
    if cs.len() <= ext.len() {
        proof {
            assert forall|id: Seq<char>| id.len() > 0 implies file@ != id + ".jsonl"@ by {
                assert((id + ".jsonl"@).len() > cs.len());
            }
        }
        return None;
    }
    let n: usize = cs.len() - ext.len();
    let tail = sub_chars(&cs, n, cs.len());
    if !equal_chars(&tail, &ext) {
        proof {
            assert forall|id: Seq<char>| id.len() > 0 implies file@ != id + ".jsonl"@ by {
                if file@ == id + ".jsonl"@ {
                    assert(id.len() == n);
                    assert(file@.subrange(n as int, file@.len() as int) =~= ".jsonl"@);
                }
            }
        }
        return None;
    }
    let stem = sub_chars(&cs, 0, n);
    assert(file@ =~= stem@ + ".jsonl"@);
    Some(string_of(&stem))
}

/// Listing gives back the id that named a file: the file of an accepted id is listed
/// under that id.
pub proof fn lemma_listed_under_its_id(id: Seq<char>, listed: Seq<char>)
    requires
        is_slug(id),
        listed.len() > 0,
        id + ".jsonl"@ == listed + ".jsonl"@,
    ensures
        listed == id,
{
    let a = id + ".jsonl"@;
    assert(a.len() == id.len() + (".jsonl"@).len());
    assert((listed + ".jsonl"@).len() == listed.len() + (".jsonl"@).len());
    assert(id.len() == listed.len());
    assert forall|i: int| 0 <= i < id.len() implies id[i] == listed[i] by {
        assert(a[i] == id[i]);
        assert((listed + ".jsonl"@)[i] == listed[i]);
    }
    assert(id =~= listed);
}

} // verus!
