//! System audio on Linux through the PulseAudio protocol (which PipeWire also serves):
//! what `pactl` prints is read here; running `pactl` and `parec` is the caller's part.
//!
//! `pactl list sources` prints one record per source. A "Source #N" header starts each
//! record; within one, "Name" is the id `parec -d` wants, "Description" the label the user
//! sees, and "Monitor of Sink" marks the record as a monitor (plain inputs carry `n/a`).
//! Localised output translates the values, never these keys.

use vstd::prelude::*;
use crate::text::{lemma_lines_concat, chars_of, equal_chars, has_prefix, is_blank, lines, lines_of, string_of, starts_with, strip_prefix, trim, trimmed, views};

verus! {

/// A monitor source: `name` is what `parec -d` wants, `label` is what the user should see.
pub struct Monitor {
    pub name: String,
    pub label: String,
}

impl View for Monitor {
    type V = (Seq<char>, Seq<char>);

    open spec fn view(&self) -> (Seq<char>, Seq<char>) {
        (self.name@, self.label@)
    }
}

/// The key that starts a record.
pub open spec fn header_key() -> Seq<char> {
    "Source #"@
}

pub open spec fn name_key() -> Seq<char> {
    "Name: "@
}

pub open spec fn description_key() -> Seq<char> {
    "Description: "@
}

pub open spec fn monitor_key() -> Seq<char> {
    "Monitor of Sink: "@
}

/// What an ordinary input carries after the monitor key.
pub open spec fn not_a_monitor() -> Seq<char> {
    "n/a"@
}

/// Whether a line of `pactl` output starts a new record.
pub open spec fn is_header(line: Seq<char>) -> bool {
    has_prefix(trim(line), header_key())
}

/// Whether a line says that its record is a monitor.
pub open spec fn marks_monitor(line: Seq<char>) -> bool {
    let t = trim(line);
    &&& !has_prefix(t, header_key())
    &&& !has_prefix(t, name_key())
    &&& !has_prefix(t, description_key())
    &&& has_prefix(t, monitor_key())
    &&& trim(t.skip(monitor_key().len() as int)) != not_a_monitor()
}

/// The record being read: its name, its description, and whether it is a monitor.
pub type Pending = (Option<Seq<char>>, Option<Seq<char>>, bool);

/// The monitors found so far, each as (name, label), and the record being read.
pub type ScanState = (Seq<(Seq<char>, Seq<char>)>, Pending);

pub open spec fn no_record() -> Pending {
    (None, None, false)
}

/// `out` followed by the record `p` where it is a monitor with a name; its label is
/// its description, or its name where it has none.
pub open spec fn close_record(out: Seq<(Seq<char>, Seq<char>)>, p: Pending) -> Seq<
    (Seq<char>, Seq<char>),
> {
    match p.0 {
        Some(n) => if p.2 {
            out.push(
                (
                    n,
                    match p.1 {
                        Some(d) => d,
                        None => n,
                    },
                ),
            )
        } else {
            out
        },
        None => out,
    }
}

/// One line of `pactl` output read into the state: a header closes the record; a name,
/// description or monitor line sets that part of the record (the last one wins); any
/// other line changes nothing.
pub open spec fn scan_line(st: ScanState, line: Seq<char>) -> ScanState {
    let t = trim(line);
    let p = st.1;
    if has_prefix(t, header_key()) {
        (close_record(st.0, p), no_record())
    } else if has_prefix(t, name_key()) {
        (st.0, (Some(trim(t.skip(name_key().len() as int))), p.1, p.2))
    } else if has_prefix(t, description_key()) {
        (st.0, (p.0, Some(trim(t.skip(description_key().len() as int))), p.2))
    } else if has_prefix(t, monitor_key()) {
        (st.0, (p.0, p.1, trim(t.skip(monitor_key().len() as int)) != not_a_monitor()))
    } else {
        st
    }
}

/// The state after reading `ls` from the start.
pub open spec fn scan(ls: Seq<Seq<char>>) -> ScanState
    decreases ls.len(),
{
    if ls.len() == 0 {
        (seq![], no_record())
    } else {
        scan_line(scan(ls.drop_last()), ls.last())
    }
}

/// The monitors that the lines `ls` describe, in order; the last record is closed by the
/// end of the text.
pub open spec fn monitors_in(ls: Seq<Seq<char>>) -> Seq<(Seq<char>, Seq<char>)> {
    let st = scan(ls);
    close_record(st.0, st.1)
}

/// The monitors that the text of `pactl list sources` describes.
pub open spec fn monitors_listed(text: Seq<char>) -> Seq<(Seq<char>, Seq<char>)> {
    monitors_in(lines(text))
}

/// Reading a line keeps what was already found in front of what it adds.
proof fn lemma_scan_line_prefix(
    before: Seq<(Seq<char>, Seq<char>)>,
    st: ScanState,
    line: Seq<char>,
)
    ensures
        scan_line((before + st.0, st.1), line) == (
            before + scan_line(st, line).0,
            scan_line(st, line).1,
        ),
{
    let p = st.1;
    assert(close_record(before + st.0, p) =~= before + close_record(st.0, p));
}

/// Records do not reach across a header: what follows one is read as if from the start.
proof fn lemma_scan_after_header(a: Seq<Seq<char>>, b: Seq<Seq<char>>)
    requires
        b.len() > 0,
        is_header(b[0]),
    ensures
        scan(a + b) == (monitors_in(a) + scan(b).0, scan(b).1),
    decreases b.len(),
{
    if b.len() == 1 {
        assert((a + b).drop_last() =~= a);
        assert(b.drop_last() =~= Seq::<Seq<char>>::empty());
        assert(scan(b.drop_last()) == (Seq::<(Seq<char>, Seq<char>)>::empty(), no_record()));
        assert(b.last() == b[0]);
        assert(scan(b).0 =~= Seq::<(Seq<char>, Seq<char>)>::empty());
        assert(monitors_in(a) + scan(b).0 =~= monitors_in(a));
    } else {
        let b1 = b.drop_last();
        assert((a + b).drop_last() =~= a + b1);
        assert(b1[0] == b[0]);
        lemma_scan_after_header(a, b1);
        lemma_scan_line_prefix(monitors_in(a), scan(b1), b.last());
    }
}

/// Each record stands alone: listing `a` and then records that start with a header finds
/// the monitors of `a` followed by those of the rest.
pub proof fn lemma_records_are_independent(a: Seq<Seq<char>>, b: Seq<Seq<char>>)
    requires
        b.len() > 0,
        is_header(b[0]),
    ensures
        monitors_in(a + b) == monitors_in(a) + monitors_in(b),
{
    lemma_scan_after_header(a, b);
    let st = scan(b);
    assert(close_record(monitors_in(a) + st.0, st.1) =~= monitors_in(a) + close_record(
        st.0,
        st.1,
    ));
}

/// The last record is not lost for want of a header after it: a trailing header adds
/// nothing to what a listing yields.
pub proof fn lemma_trailing_header_adds_nothing(a: Seq<Seq<char>>, h: Seq<char>)
    requires
        is_header(h),
    ensures
        monitors_in(a.push(h)) == monitors_in(a),
{
    let b = seq![h];
    assert(a + b =~= a.push(h));
    lemma_records_are_independent(a, b);
    assert(b.drop_last() =~= Seq::<Seq<char>>::empty());
    assert(scan(b.drop_last()) == (Seq::<(Seq<char>, Seq<char>)>::empty(), no_record()));
    assert(b.last() == h);
    assert(monitors_in(b) =~= Seq::<(Seq<char>, Seq<char>)>::empty());
    assert(monitors_in(a) + monitors_in(b) =~= monitors_in(a));
}

/// Only a record marked as a monitor is offered: lines none of which marks one yield none.
pub proof fn lemma_no_marker_no_monitor(ls: Seq<Seq<char>>)
    requires
        forall|i: int| 0 <= i < ls.len() ==> !marks_monitor(#[trigger] ls[i]),
    ensures
        monitors_in(ls).len() == 0,
    decreases ls.len(),
{
    if ls.len() > 0 {
        let l = ls.drop_last();
        assert forall|i: int| 0 <= i < l.len() implies !marks_monitor(#[trigger] l[i]) by {
            assert(l[i] == ls[i]);
        }
        lemma_no_marker_no_monitor(l);
        lemma_scan_no_marker(ls);
    }
}

proof fn lemma_scan_no_marker(ls: Seq<Seq<char>>)
    requires
        forall|i: int| 0 <= i < ls.len() ==> !marks_monitor(#[trigger] ls[i]),
    ensures
        scan(ls).0.len() == 0,
        !scan(ls).1.2,
    decreases ls.len(),
{
    if ls.len() > 0 {
        let l = ls.drop_last();
        assert forall|i: int| 0 <= i < l.len() implies !marks_monitor(#[trigger] l[i]) by {
            assert(l[i] == ls[i]);
        }
        lemma_scan_no_marker(l);
        assert(!marks_monitor(ls[ls.len() - 1]));
    }
}

/// The same independence for the text of a listing: where `a` is empty or ends with a
/// line feed and `b` starts with a header line, listing `a` followed by `b` finds the
/// monitors of `a` followed by those of `b`.
pub proof fn lemma_listings_are_independent(a: Seq<char>, b: Seq<char>)
    requires
        a.len() == 0 || a.last() == '\n',
        lines(b).len() > 0,
        is_header(lines(b)[0]),
    ensures
        monitors_listed(a + b) == monitors_listed(a) + monitors_listed(b),
{
    lemma_lines_concat(a, b);
    lemma_records_are_independent(lines(a), lines(b));
}

/// `out` followed by the record read so far, where it is a named monitor.
fn close_pending(
    out: &mut Vec<Monitor>,
    name: Option<Vec<char>>,
    desc: Option<Vec<char>>,
    is_monitor: bool,
)
    ensures
        final(out)@.map_values(|m: Monitor| m@) == close_record(
            old(out)@.map_values(|m: Monitor| m@),
            (
                match name {
                    Some(n) => Some(n@),
                    None => None,
                },
                match desc {
                    Some(d) => Some(d@),
                    None => None,
                },
                is_monitor,
            ),
        ),
{
    let ghost before = old(out)@.map_values(|m: Monitor| m@);
    if let Some(n) = name {
        if is_monitor {
            let label = match desc {
                Some(d) => string_of(&d),
                None => string_of(&n),
            };
            let m = Monitor { name: string_of(&n), label };
            out.push(m);
            assert(out@.map_values(|m: Monitor| m@) =~= before.push(m@));
        }
    }
}

/// The monitor sources that the text of `pactl list sources` lists, in the order
/// listed: for each record whose "Monitor of Sink" is not `n/a` and that has a name, its
/// name and, as its label, its description (its name where it has none).
pub fn parse_sources(text: &str) -> (r: Vec<Monitor>)
    ensures
        r@.map_values(|m: Monitor| m@) == monitors_listed(text@),
{
    let cs = chars_of(text);
    let ls = lines_of(&cs);
    let header = chars_of("Source #");
    let name_tag = chars_of("Name: ");
    let desc_tag = chars_of("Description: ");
    let mon_tag = chars_of("Monitor of Sink: ");
    let absent = chars_of("n/a");
    let mut out: Vec<Monitor> = Vec::new();
    let mut name: Option<Vec<char>> = None;
    let mut desc: Option<Vec<char>> = None;
    let mut is_monitor = false;
    let ghost all = views(ls@);
    let mut i: usize = 0;
    while i < ls.len()
        invariant
            i <= ls.len(),
            all == views(ls@),
            all == lines(text@),
            header@ == header_key(),
            name_tag@ == name_key(),
            desc_tag@ == description_key(),
            mon_tag@ == monitor_key(),
            absent@ == not_a_monitor(),
            scan(all.take(i as int)) == (
                out@.map_values(|m: Monitor| m@),
                (
                    match name {
                        Some(n) => Some(n@),
                        None => None,
                    },
                    match desc {
                        Some(d) => Some(d@),
                        None => None,
                    },
                    is_monitor,
                ),
            ),
        decreases ls.len() - i,
    {
        let t = trimmed(&ls[i]);
        proof {
            assert(all.take(i + 1).drop_last() =~= all.take(i as int));
            assert(all.take(i + 1).last() == ls@[i as int]@);
        }
        if starts_with(&t, &header) {
            let n = name;
            let d = desc;
            close_pending(&mut out, n, d, is_monitor);
            name = None;
            desc = None;
            is_monitor = false;
        } else if let Some(v) = strip_prefix(&t, &name_tag) {
            name = Some(trimmed(&v));
        } else if let Some(v) = strip_prefix(&t, &desc_tag) {
            desc = Some(trimmed(&v));
        } else if let Some(v) = strip_prefix(&t, &mon_tag) {
            let w = trimmed(&v);
            is_monitor = !equal_chars(&w, &absent);
        }
        i = i + 1;
    }
    proof {
        assert(all.take(ls.len() as int) =~= all);
    }
    close_pending(&mut out, name, desc, is_monitor);
    out
}

/// The monitor of the default sink, from what `pactl get-default-sink` printed: the sink's
/// name with `.monitor` appended, or `None` where it printed nothing but whitespace.
pub fn monitor_of_default_sink(output: &str) -> (r: Option<String>)
    ensures
        is_blank(output@) ==> r is None,
        !is_blank(output@) ==> (r matches Some(m) && m@ == trim(output@) + ".monitor"@),
{
    let cs = chars_of(output);
    let sink = trimmed(&cs);
    if sink.len() == 0 {
        None
    } else {
        let s = string_of(&sink);
        Some(s.concat(".monitor"))
    }
}

/// What reading into a buffer does next.
pub enum ReadStep {
    /// The buffer is full.
    Filled,
    /// Read again, into the buffer from this index on.
    More(usize),
    /// The stream ended before the buffer was full.
    EndOfStream,
}

/// One step of filling a buffer of `len` bytes of which `filled` are filled, after a read
/// that delivered `got` bytes: a read of nothing before the buffer is full is the end of
/// the stream rather than a reason to read forever.
pub fn read_step(len: usize, filled: usize, got: usize) -> (r: ReadStep)
    requires
        filled <= len,
        got <= len - filled,
    ensures
        filled == len ==> r is Filled,
        filled < len && got == 0 ==> r is EndOfStream,
        filled < len && got > 0 && filled + got == len ==> r is Filled,
        filled < len && got > 0 && filled + got < len ==> r == ReadStep::More(
            (filled + got) as usize,
        ),
{
    if filled == len {
        ReadStep::Filled
    } else if got == 0 {
        ReadStep::EndOfStream
    } else if filled + got == len {
        ReadStep::Filled
    } else {
        ReadStep::More(filled + got)
    }
}

} // verus!
