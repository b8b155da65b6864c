//! Turning a running server's output into log lines: every line the
//! server writes arrives as a separate entry, whether it ends in `\n`,
//! `\r\n` or a bare `\r` (as progress bars do), and lines that hold only
//! whitespace or control bytes are dropped.

use vstd::prelude::*;
use vstd::utf8::{decode_utf8, valid_utf8};
use crate::text::strings_view;
use std::sync::mpsc::Receiver;

verus! {

/// Bytes that `u8::is_ascii_whitespace` accepts: space, tab, line feed,
/// form feed and carriage return.
pub open spec fn is_ascii_space_byte(b: u8) -> bool {
    b == 0x20 || b == 0x09 || b == 0x0A || b == 0x0C || b == 0x0D
}

/// Bytes that `u8::is_ascii_control` accepts: 0x00 to 0x1F, and 0x7F.
pub open spec fn is_ascii_control_byte(b: u8) -> bool {
    b < 0x20 || b == 0x7F
}

/// Bytes that carry nothing to show: ASCII whitespace or control bytes.
pub open spec fn is_blank_byte(b: u8) -> bool {
    is_ascii_space_byte(b) || is_ascii_control_byte(b)
}

/// Whether `s` holds only whitespace and control bytes (the empty slice is
/// blank).
pub open spec fn spec_is_blank(s: Seq<u8>) -> bool {
    forall|i: int| 0 <= i < s.len() ==> is_blank_byte(#[trigger] s[i])
}

/// Returns true if the byte slice contains only whitespace / control bytes.
pub fn is_blank(buf: &[u8]) -> (blank: bool)
    ensures
        blank == spec_is_blank(buf@),
{
    let n = buf.len();
    let mut i: usize = 0;
    while i < n
        invariant
            n == buf@.len(),
            i <= n,
            forall|k: int| 0 <= k < i ==> is_blank_byte(#[trigger] buf@[k]),
        decreases n - i,
    {
        let b = buf[i];
        let space = b == 0x20 || b == 0x09 || b == 0x0A || b == 0x0C || b == 0x0D;
        let control = b < 0x20 || b == 0x7F;
        if !(space || control) {
            return false;
        }
        i = i + 1;
    }
    true
}

/// The pieces of `s` between carriage returns, in order: one more piece
/// than there are carriage returns, empty pieces included.
pub open spec fn split_cr(s: Seq<u8>) -> Seq<Seq<u8>>
    decreases s.len(),
{
    if s.len() == 0 {
        seq![Seq::empty()]
    } else {
        let front = split_cr(s.drop_last());
        if s.last() == 0x0D {
            front.push(Seq::empty())
        } else {
            front.update(front.len() - 1, front.last().push(s.last()))
        }
    }
}

/// The pieces that are not blank, in order.
pub open spec fn non_blank(pieces: Seq<Seq<u8>>) -> Seq<Seq<u8>>
    decreases pieces.len(),
{
    if pieces.len() == 0 {
        Seq::empty()
    } else if spec_is_blank(pieces.last()) {
        non_blank(pieces.drop_last())
    } else {
        non_blank(pieces.drop_last()).push(pieces.last())
    }
}

/// The log lines carried by one `\n`-terminated segment of server output:
/// its pieces between carriage returns that are not blank.
pub open spec fn segment_lines(segment: Seq<u8>) -> Seq<Seq<u8>> {
    non_blank(split_cr(segment))
}

/// What `String::from_utf8_lossy` makes of a byte sequence.
pub uninterp spec fn utf8_lossy(bytes: Seq<u8>) -> Seq<char>;

/// Decodes bytes as UTF-8, replacing invalid sequences.
/// Calls `String::from_utf8_lossy` and takes ownership of the text. Its
/// result is named `utf8_lossy`; std documents that bytes that are valid
/// UTF-8 decode to exactly the text they encode. How invalid sequences are
/// replaced is left unsaid.
#[verifier::external_body]
pub fn decode_lossy(bytes: &[u8]) -> (text: String)
    ensures
        text@ == utf8_lossy(bytes@),
        valid_utf8(bytes@) ==> text@ == decode_utf8(bytes@),
{
    String::from_utf8_lossy(bytes).into_owned()
}

/// The decoded text of each byte line.
pub open spec fn decoded_lines(lines: Seq<Seq<u8>>) -> Seq<Seq<char>> {
    lines.map_values(|l: Seq<u8>| utf8_lossy(l))
}

proof fn lemma_split_cr_nonempty(s: Seq<u8>)
    ensures
        split_cr(s).len() >= 1,
    decreases s.len(),
{
    if s.len() > 0 {
        lemma_split_cr_nonempty(s.drop_last());
    }
}

proof fn lemma_push_line(lines: Seq<String>, text: String, emitted: Seq<Seq<u8>>, piece: Seq<u8>)
    requires
        strings_view(lines) == decoded_lines(emitted),
        text@ == utf8_lossy(piece),
    ensures
        strings_view(lines.push(text)) == decoded_lines(emitted.push(piece)),
{
    assert(strings_view(lines.push(text)) =~= strings_view(lines).push(text@));
    assert(decoded_lines(emitted.push(piece)) =~= decoded_lines(emitted).push(utf8_lossy(piece)));
}

/// Splits one segment of server output (the bytes between two line feeds)
/// on carriage returns, drops blank pieces and decodes the rest, in order.
pub fn split_segment(raw: &[u8]) -> (lines: Vec<String>)
    ensures
        strings_view(lines@) == decoded_lines(segment_lines(raw@)),
{
    let n = raw.len();
    let mut lines: Vec<String> = Vec::new();
    let mut start: usize = 0;
    let mut i: usize = 0;
    let ghost mut emitted: Seq<Seq<u8>> = Seq::empty();
    proof {
        assert(raw@.take(0) =~= Seq::<u8>::empty());
    }
    while i < n
        invariant
            n == raw@.len(),
            start <= i <= n,
            split_cr(raw@.take(i as int)).last() == raw@.subrange(start as int, i as int),
            non_blank(split_cr(raw@.take(i as int)).drop_last()) == emitted,
            strings_view(lines@) == decoded_lines(emitted),
        decreases n - i,
    {
        let ghost prev = raw@.take(i as int);
        let ghost pieces = split_cr(prev);
        proof {
            lemma_split_cr_nonempty(prev);
            assert(raw@.take(i + 1).drop_last() =~= prev);
        }
        if raw[i] == 0x0D {
            let piece = &raw[start..i];
            if !is_blank(piece) {
                let text = decode_lossy(piece);
                let ghost before_lines = lines@;
                lines.push(text);
                proof {
                    assert(pieces.drop_last().push(pieces.last()) =~= pieces);
                    lemma_push_line(before_lines, text, emitted, piece@);
                    emitted = emitted.push(piece@);
                }
            } else {
                proof {
                    assert(pieces.drop_last().push(pieces.last()) =~= pieces);
                }
            }
            proof {
                assert(split_cr(raw@.take(i + 1)).drop_last() =~= pieces);
            }
            start = i + 1;
            proof {
                assert(raw@.subrange(start as int, i + 1) =~= Seq::<u8>::empty());
            }
        } else {
            proof {
                let nx = split_cr(raw@.take(i + 1));
                assert(nx.drop_last() =~= pieces.drop_last());
                assert(nx.last() =~= raw@.subrange(start as int, i + 1));
            }
        }
        i = i + 1;
    }
    proof {
        assert(raw@.take(n as int) =~= raw@);
    }
    let ghost pieces = split_cr(raw@);
    proof {
        lemma_split_cr_nonempty(raw@);
        assert(pieces.drop_last().push(pieces.last()) =~= pieces);
    }
    let last = &raw[start..n];
    if !is_blank(last) {
        let text = decode_lossy(last);
        let ghost before_lines = lines@;
        lines.push(text);
        proof {
            lemma_push_line(before_lines, text, emitted, last@);
            emitted = emitted.push(last@);
        }
    }
    lines
}

/// The receiving end of a channel, as std provides it.
#[verifier::external_type_specification]
#[verifier::external_body]
#[verifier::reject_recursive_types(T)]
pub struct ExReceiver<T>(Receiver<T>);

/// Takes one line from the channel if one is waiting.
/// Calls `Receiver::try_recv`, which never blocks; both of its errors
/// (nothing waiting, every sender gone) come back as `None`. What arrives
/// depends on the reader threads, so nothing is said of it.
#[verifier::external_body]
fn try_receive(receiver: &Receiver<String>) -> (line: Option<String>) {
    receiver.try_recv().ok()
}

/// One poll's outcome taken into the lines gathered so far: a line that
/// arrived is added after them and polling goes on; when none arrived the
/// lines stay as they are and polling stops.
pub fn take_polled(lines: &mut Vec<String>, got: Option<String>) -> (more: bool)
    ensures
        match got {
            Some(line) => final(lines)@ == old(lines)@.push(line) && more,
            None => final(lines)@ == old(lines)@ && !more,
        },
{
    match got {
        Some(line) => {
            lines.push(line);
            true
        },
        None => false,
    }
}

/// Takes up to `max_lines` waiting log lines from the channel, in the order
/// they arrive, stopping at the first poll that finds none waiting.
pub fn poll_lines(receiver: &Receiver<String>, max_lines: usize) -> (lines: Vec<String>)
    ensures
        lines@.len() <= max_lines,
{
    let mut lines: Vec<String> = Vec::new();
    while lines.len() < max_lines
        invariant
            lines@.len() <= max_lines,
        decreases max_lines - lines@.len(),
    {
        let got = try_receive(receiver);
        if !take_polled(&mut lines, got) {
            break;
        }
    }
    lines
}

/// Whether `p` holds a byte that is neither ASCII whitespace (0x20, 0x09,
/// 0x0A, 0x0C, 0x0D) nor an ASCII control byte (below 0x20, or 0x7F).
pub open spec fn shows_something(p: Seq<u8>) -> bool {
    exists|i: int| 0 <= i < p.len() && {
        let b = #[trigger] p[i];
        !(b == 0x20 || b == 0x09 || b == 0x0A || b == 0x0C || b == 0x0D || b < 0x20 || b == 0x7F)
    }
}

/// The pieces that show something, in order.
pub open spec fn pieces_showing(pieces: Seq<Seq<u8>>) -> Seq<Seq<u8>>
    decreases pieces.len(),
{
    if pieces.len() == 0 {
        Seq::empty()
    } else if shows_something(pieces.last()) {
        pieces_showing(pieces.drop_last()).push(pieces.last())
    } else {
        pieces_showing(pieces.drop_last())
    }
}

proof fn lemma_non_blank_is_showing(pieces: Seq<Seq<u8>>)
    ensures
        non_blank(pieces) == pieces_showing(pieces),
    decreases pieces.len(),
{
    if pieces.len() > 0 {
        lemma_non_blank_is_showing(pieces.drop_last());
        let p = pieces.last();
        if spec_is_blank(p) {
            if shows_something(p) {
                let i = choose|i: int| 0 <= i < p.len() && {
                    let b = #[trigger] p[i];
                    !(b == 0x20 || b == 0x09 || b == 0x0A || b == 0x0C || b == 0x0D || b < 0x20 || b == 0x7F)
                };
                assert(is_blank_byte(p[i]));
            }
        } else {
            let i = choose|i: int| 0 <= i < p.len() && !is_blank_byte(#[trigger] p[i]);
            assert(p[i] == p[i]);
        }
    }
}

/// A segment's log lines are exactly its pieces between carriage returns
/// that hold some byte other than ASCII whitespace (0x20, 0x09, 0x0A, 0x0C,
/// 0x0D) and ASCII control bytes (below 0x20, and 0x7F), in order: only
/// pieces made of such bytes alone are dropped, and every other piece
/// (a row of progress dots, say) becomes a line.
pub proof fn law_segment_keeps_every_showing_piece(segment: Seq<u8>)
    ensures
        segment_lines(segment) == pieces_showing(split_cr(segment)),
{
    lemma_non_blank_is_showing(split_cr(segment));
}

/// A segment without carriage returns that shows something is one log
/// line, the whole segment.
pub proof fn law_plain_segment_is_one_line(segment: Seq<u8>)
    requires
        forall|i: int| 0 <= i < segment.len() ==> #[trigger] segment[i] != 0x0Du8,
        shows_something(segment),
    ensures
        segment_lines(segment) == seq![segment],
{
    lemma_split_cr_plain(segment);
    law_segment_keeps_every_showing_piece(segment);
    let e: Seq<Seq<u8>> = Seq::empty();
    assert(seq![segment].drop_last() =~= e);
    assert(pieces_showing(e) == e);
    assert(seq![segment].last() == segment);
    assert(e.push(segment) =~= seq![segment]);
}

proof fn lemma_split_cr_plain(s: Seq<u8>)
    requires
        forall|i: int| 0 <= i < s.len() ==> #[trigger] s[i] != 0x0Du8,
    ensures
        split_cr(s) == seq![s],
    decreases s.len(),
{
    if s.len() > 0 {
        let f = s.drop_last();
        assert forall|i: int| 0 <= i < f.len() implies #[trigger] f[i] != 0x0Du8 by {
            assert(f[i] == s[i]);
        }
        lemma_split_cr_plain(f);
        assert(s[s.len() - 1] != 0x0Du8);
        assert(f.push(s.last()) =~= s);
        assert(seq![f].update(0, f.push(s.last())) =~= seq![s]);
    } else {
        assert(s =~= Seq::<u8>::empty());
    }
}

/// The pieces joined back together, a carriage return between each two.
pub open spec fn join_cr(pieces: Seq<Seq<u8>>) -> Seq<u8>
    decreases pieces.len(),
{
    if pieces.len() == 0 {
        Seq::empty()
    } else if pieces.len() == 1 {
        pieces[0]
    } else {
        join_cr(pieces.drop_last()) + seq![0x0Du8] + pieces.last()
    }
}

/// Splitting on carriage returns loses nothing but the carriage returns:
/// the pieces joined back with carriage returns give the segment again.
pub proof fn law_split_cr_rejoins(s: Seq<u8>)
    ensures
        join_cr(split_cr(s)) == s,
    decreases s.len(),
{
    if s.len() > 0 {
        let front = s.drop_last();
        law_split_cr_rejoins(front);
        lemma_split_cr_nonempty(front);
        let p = split_cr(front);
        if s.last() == 0x0D {
            assert(split_cr(s).drop_last() =~= p);
            if p.len() == 1 {
                assert(join_cr(p) == p[0]);
            }
            assert(join_cr(split_cr(s)) =~= join_cr(p) + seq![0x0Du8] + Seq::<u8>::empty());
            assert(s =~= front.push(0x0Du8));
        } else {
            let q = split_cr(s);
            if p.len() == 1 {
                assert(q[0] =~= p[0].push(s.last()));
                assert(s =~= front.push(s.last()));
            } else {
                assert(q.drop_last() =~= p.drop_last());
                assert(q.last() =~= p.last().push(s.last()));
                assert(join_cr(q) =~= join_cr(p.drop_last()) + seq![0x0Du8] + p.last().push(s.last()));
                assert(join_cr(p) == join_cr(p.drop_last()) + seq![0x0Du8] + p.last());
                assert(s =~= front.push(s.last()));
            }
        }
    }
}

proof fn lemma_split_cr_no_cr(s: Seq<u8>)
    ensures
        forall|k: int, j: int|
            0 <= k < split_cr(s).len() && 0 <= j < split_cr(s)[k].len() ==> #[trigger] split_cr(s)[k][j] != 0x0D,
    decreases s.len(),
{
    if s.len() > 0 {
        lemma_split_cr_no_cr(s.drop_last());
        lemma_split_cr_nonempty(s.drop_last());
        let p = split_cr(s.drop_last());
        let q = split_cr(s);
        assert forall|k: int, j: int| 0 <= k < q.len() && 0 <= j < q[k].len() implies #[trigger] q[k][j] != 0x0D by {
            if s.last() == 0x0D {
                if k < p.len() {
                    assert(q[k] == p[k]);
                }
            } else if k < p.len() - 1 {
                assert(q[k] == p[k]);
            } else if j < p.last().len() {
                assert(q[k][j] == p[k][j]);
            }
        }
    }
}

proof fn lemma_non_blank_members(pieces: Seq<Seq<u8>>)
    ensures
        forall|k: int| 0 <= k < non_blank(pieces).len() ==> exists|m: int|
            0 <= m < pieces.len() && pieces[m] == #[trigger] non_blank(pieces)[k] && !spec_is_blank(pieces[m]),
    decreases pieces.len(),
{
    if pieces.len() > 0 {
        let front = pieces.drop_last();
        lemma_non_blank_members(front);
        let r = non_blank(pieces);
        assert forall|k: int| 0 <= k < r.len() implies exists|m: int|
            0 <= m < pieces.len() && pieces[m] == #[trigger] r[k] && !spec_is_blank(pieces[m]) by {
            if k < non_blank(front).len() {
                assert(r[k] == non_blank(front)[k]);
                let m = choose|m: int| 0 <= m < front.len() && front[m] == non_blank(front)[k] && !spec_is_blank(front[m]);
                assert(pieces[m] == front[m]);
            } else {
                assert(pieces[pieces.len() - 1] == r[k]);
            }
        }
    }
}

/// Every log line taken from a segment is a non-blank run of bytes that
/// holds no carriage return: progress-bar updates separated by a bare `\r`
/// never merge into one line, and blank lines never reach the log.
pub proof fn law_segment_lines_are_clean(segment: Seq<u8>)
    ensures
        forall|k: int| 0 <= k < segment_lines(segment).len() ==> {
            &&& !spec_is_blank(#[trigger] segment_lines(segment)[k])
            &&& !segment_lines(segment)[k].contains(0x0Du8)
        },
{
    lemma_split_cr_no_cr(segment);
    lemma_non_blank_members(split_cr(segment));
    let r = segment_lines(segment);
    let p = split_cr(segment);
    assert forall|k: int| 0 <= k < r.len() implies {
        &&& !spec_is_blank(#[trigger] r[k])
        &&& !r[k].contains(0x0Du8)
    } by {
        let m = choose|m: int| 0 <= m < p.len() && p[m] == r[k] && !spec_is_blank(p[m]);
        if r[k].contains(0x0Du8) {
            let j = choose|j: int| 0 <= j < r[k].len() && r[k][j] == 0x0Du8;
            assert(p[m][j] != 0x0D);
        }
    }
}

} // verus!
