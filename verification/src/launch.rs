//! Splitting a model's launch-argument line into the separate arguments
//! handed to the server process, shell style: separators outside double
//! quotes end an argument, double quotes group text (separators included)
//! into the argument they stand in, and the quotes themselves are dropped.

use vstd::prelude::*;
use crate::text::{push_char, strings_view};

verus! {

/// Characters that separate arguments outside double quotes.
pub open spec fn is_arg_space(c: char) -> bool {
    c == ' ' || c == '\t' || c == '\n' || c == '\r'
}

/// The tokenizer's state after some prefix of the input: the finished
/// arguments, the argument being collected, whether a double quote is
/// open, and whether an argument has begun (a closed pair of quotes begins
/// one, even an empty one; an opening quote alone does not).
pub type ScanState = (Seq<Seq<char>>, Seq<char>, bool, bool);

/// One character of input applied to the tokenizer's state.
/// - A double quote opens a quote, or closes the open one and so begins an
///   argument; it is not part of the argument.
/// - A separator outside quotes ends the argument begun, if any.
/// - Any other character, and a separator inside quotes, extends the
///   current argument.
pub open spec fn scan_step(st: ScanState, c: char) -> ScanState {
    let (args, cur, quoted, started) = st;
    if c == '"' {
        if quoted {
            (args, cur, false, true)
        } else {
            (args, cur, true, started)
        }
    } else if is_arg_space(c) && !quoted {
        if started {
            (args.push(cur), Seq::empty(), false, false)
        } else {
            st
        }
    } else {
        (args, cur.push(c), quoted, true)
    }
}

/// The tokenizer's state after reading all of `s`.
pub open spec fn scan(s: Seq<char>) -> ScanState
    decreases s.len(),
{
    if s.len() == 0 {
        (Seq::empty(), Seq::empty(), false, false)
    } else {
        scan_step(scan(s.drop_last()), s.last())
    }
}

/// The arguments of a launch line: those the scan finished, and the one
/// begun at the end, if any (text after an unclosed quote still yields its
/// argument; a lone unclosed quote yields none).
pub open spec fn spec_parse_args(s: Seq<char>) -> Seq<Seq<char>> {
    let (args, cur, _, started) = scan(s);
    if started {
        args.push(cur)
    } else {
        args
    }
}

/// Parses a shell-style argument line into separate arguments, respecting
/// double quotes.
pub fn parse_args(raw: &str) -> (args: Vec<String>)
    ensures
        strings_view(args@) == spec_parse_args(raw@),
{
    let mut args: Vec<String> = Vec::new();
    let mut current = String::new();
    let mut in_quotes = false;
    let mut started = false;
    let ghost text = raw@;
    for ch in it: raw.chars()
        invariant
            text == raw@,
            it.seq() == text,
            (strings_view(args@), current@, in_quotes, started) == scan(text.take(it.index())),
    {
        let ghost before = text.take(it.index());
        assert(text.take(it.index() + 1).drop_last() =~= before);
        if ch == '"' {
            if in_quotes {
                started = true;
            }
            in_quotes = !in_quotes;
        } else if (ch == ' ' || ch == '\t' || ch == '\n' || ch == '\r') && !in_quotes {
            if started {
                args.push(current);
                current = String::new();
                started = false;
            }
        } else {
            push_char(&mut current, ch);
            started = true;
        }
        assert(strings_view(args@) =~= scan(text.take(it.index() + 1)).0);
    }
    assert(text.take(text.len() as int) =~= text);
    if started {
        args.push(current);
    }
    assert(strings_view(args@) =~= spec_parse_args(text));
    args
}

/// Whether `s` holds no double quote.
pub open spec fn free_of_quote_chars(s: Seq<char>) -> bool {
    forall|i: int| 0 <= i < s.len() ==> #[trigger] s[i] != '"'
}

/// Whether `s` holds none of space, tab, line feed, carriage return and
/// double quote: an argument that needs no quoting.
pub open spec fn is_plain_word(s: Seq<char>) -> bool {
    forall|i: int| 0 <= i < s.len() ==> {
        let c = #[trigger] s[i];
        c != ' ' && c != '\t' && c != '\n' && c != '\r' && c != '"'
    }
}

/// How many double quotes `s` holds.
pub open spec fn quote_count(s: Seq<char>) -> nat
    decreases s.len(),
{
    if s.len() == 0 {
        0
    } else if s.last() == '"' {
        quote_count(s.drop_last()) + 1
    } else {
        quote_count(s.drop_last())
    }
}

/// The words joined by single spaces.
pub open spec fn join_with_spaces(words: Seq<Seq<char>>) -> Seq<char>
    decreases words.len(),
{
    if words.len() == 0 {
        Seq::empty()
    } else if words.len() == 1 {
        words[0]
    } else {
        join_with_spaces(words.drop_last()) + seq![' '] + words.last()
    }
}

proof fn lemma_scan_push(p: Seq<char>, c: char)
    ensures
        scan(p.push(c)) == scan_step(scan(p), c),
{
    assert(p.push(c).drop_last() =~= p);
}

/// What holds of every scan: a quote is open exactly after an odd number of
/// quotes, and nothing is collected before an argument begins.
proof fn lemma_scan_facts(s: Seq<char>)
    ensures
        scan(s).2 == (quote_count(s) % 2 == 1),
        !scan(s).3 ==> scan(s).1.len() == 0,
    decreases s.len(),
{
    if s.len() > 0 {
        lemma_scan_facts(s.drop_last());
    }
}

/// Reading text without double quotes inside an open quote adds all of it
/// to the current argument, separators included.
proof fn lemma_scan_quoted(p: Seq<char>, x: Seq<char>)
    requires
        free_of_quote_chars(x),
        scan(p).2,
    ensures
        scan(p + x) == (scan(p).0, scan(p).1 + x, true, scan(p).3 || x.len() > 0),
    decreases x.len(),
{
    if x.len() == 0 {
        assert(p + x =~= p);
        assert(scan(p).1 + x =~= scan(p).1);
    } else {
        let y = x.drop_last();
        assert(free_of_quote_chars(y)) by {
            assert forall|i: int| 0 <= i < y.len() implies #[trigger] y[i] != '"' by {
                assert(y[i] == x[i]);
            }
        }
        lemma_scan_quoted(p, y);
        assert(p + x =~= (p + y).push(x.last()));
        lemma_scan_push(p + y, x.last());
        assert(x[x.len() - 1] != '"');
        assert((scan(p).1 + y).push(x.last()) =~= scan(p).1 + x);
    }
}

/// Reading a plain word outside quotes adds it to the current argument and
/// begins an argument.
proof fn lemma_scan_plain(p: Seq<char>, x: Seq<char>)
    requires
        is_plain_word(x),
        x.len() > 0,
        !scan(p).2,
    ensures
        scan(p + x) == (scan(p).0, scan(p).1 + x, false, true),
    decreases x.len(),
{
    let y = x.drop_last();
    assert(is_plain_word(y)) by {
        assert forall|i: int| 0 <= i < y.len() implies {
            let c = #[trigger] y[i];
            c != ' ' && c != '\t' && c != '\n' && c != '\r' && c != '"'
        } by {
            assert(y[i] == x[i]);
        }
    }
    assert(p + x =~= (p + y).push(x.last()));
    assert(!is_arg_space(x[x.len() - 1]) && x[x.len() - 1] != '"');
    if y.len() == 0 {
        assert(p + y =~= p);
        lemma_scan_push(p, x.last());
        assert(scan(p).1.push(x.last()) =~= scan(p).1 + x);
    } else {
        lemma_scan_plain(p, y);
        lemma_scan_push(p + y, x.last());
        assert((scan(p).1 + y).push(x.last()) =~= scan(p).1 + x);
    }
}

/// Scanning after a point where no argument is begun and no quote is open
/// goes on as a fresh scan would, after the arguments already finished.
proof fn lemma_scan_resumes(p: Seq<char>, b: Seq<char>)
    requires
        !scan(p).2,
        !scan(p).3,
        scan(p).1.len() == 0,
    ensures
        scan(p + b) == (scan(p).0 + scan(b).0, scan(b).1, scan(b).2, scan(b).3),
    decreases b.len(),
{
    let a = scan(p).0;
    if b.len() == 0 {
        assert(p + b =~= p);
        assert(a + Seq::<Seq<char>>::empty() =~= a);
        assert(scan(p).1 =~= Seq::<char>::empty());
    } else {
        let c = b.last();
        let bb = b.drop_last();
        lemma_scan_resumes(p, bb);
        assert(p + b =~= (p + bb).push(c));
        lemma_scan_push(p + bb, c);
        lemma_scan_push(bb, c);
        assert(bb.push(c) =~= b);
        let st = scan(bb);
        assert((a + st.0).push(st.1) =~= a + st.0.push(st.1));
    }
}

/// A double-quoted text keeps everything it holds: for any text without
/// double quotes, separators anywhere in it included, parsing it enclosed
/// in double quotes gives exactly that text as the one argument.
pub proof fn law_parse_quoted_argument(w: Seq<char>)
    requires
        free_of_quote_chars(w),
    ensures
        spec_parse_args(seq!['"'] + w + seq!['"']) == seq![w],
{
    let empty: Seq<char> = Seq::empty();
    let open = seq!['"'];
    lemma_scan_push(empty, '"');
    assert(empty.push('"') =~= open);
    assert(scan(open) == (Seq::<Seq<char>>::empty(), empty, true, false));
    lemma_scan_quoted(open, w);
    lemma_scan_push(open + w, '"');
    assert((open + w).push('"') =~= open + w + seq!['"']);
    assert(empty + w =~= w);
    assert(Seq::<Seq<char>>::empty().push(w) =~= seq![w]);
}

/// A line cut at a separator that stands outside quotes parses as its two
/// parts do: when the first part holds an even number of double quotes,
/// parsing the first part, a separator and the second part gives the
/// first part's arguments followed by the second part's.
pub proof fn law_parse_split_at_separator(a: Seq<char>, sep: char, b: Seq<char>)
    requires
        is_arg_space(sep),
        quote_count(a) % 2 == 0,
    ensures
        spec_parse_args(a + seq![sep] + b) == spec_parse_args(a) + spec_parse_args(b),
{
    lemma_scan_facts(a);
    lemma_scan_push(a, sep);
    let p = a.push(sep);
    assert(a + seq![sep] =~= p);
    let sa = scan(a);
    assert(scan(p).0 == spec_parse_args(a));
    lemma_scan_resumes(p, b);
    assert(a + seq![sep] + b =~= p + b);
    let sb = scan(b);
    assert((spec_parse_args(a) + sb.0).push(sb.1) =~= spec_parse_args(a) + sb.0.push(sb.1));
}

/// Only space, tab, line feed and carriage return separate arguments: a
/// non-empty word holding none of those characters and no double quote
/// parses to exactly itself, whatever else it holds (commas, `=`, `-`,
/// dots, any other character).
pub proof fn law_plain_word_parses_to_itself(w: Seq<char>)
    requires
        w.len() > 0,
        forall|i: int| 0 <= i < w.len() ==> {
            let c = #[trigger] w[i];
            c != ' ' && c != '\t' && c != '\n' && c != '\r' && c != '"'
        },
    ensures
        spec_parse_args(w) == seq![w],
{
    let empty: Seq<char> = Seq::empty();
    lemma_scan_plain(empty, w);
    assert(empty + w =~= w);
    assert(Seq::<Seq<char>>::empty().push(w) =~= seq![w]);
}

proof fn lemma_quote_free_count(s: Seq<char>)
    requires
        free_of_quote_chars(s),
    ensures
        quote_count(s) == 0,
    decreases s.len(),
{
    if s.len() > 0 {
        let y = s.drop_last();
        assert forall|i: int| 0 <= i < y.len() implies #[trigger] y[i] != '"' by {
            assert(y[i] == s[i]);
        }
        lemma_quote_free_count(y);
        assert(s[s.len() - 1] != '"');
    }
}

proof fn lemma_join_quote_free(words: Seq<Seq<char>>)
    requires
        forall|i: int| 0 <= i < words.len() ==> is_plain_word(#[trigger] words[i]),
    ensures
        free_of_quote_chars(join_with_spaces(words)),
    decreases words.len(),
{
    if words.len() == 1 {
        assert(is_plain_word(words[0]));
    } else if words.len() > 1 {
        let front = words.drop_last();
        assert forall|i: int| 0 <= i < front.len() implies is_plain_word(#[trigger] front[i]) by {
            assert(front[i] == words[i]);
        }
        lemma_join_quote_free(front);
        let j = join_with_spaces(front);
        let last = words.last();
        assert(is_plain_word(words[words.len() - 1]));
        let r = j + seq![' '] + last;
        assert forall|i: int| 0 <= i < r.len() implies #[trigger] r[i] != '"' by {
            if i < j.len() {
                assert(r[i] == j[i]);
            } else if i > j.len() {
                assert(r[i] == last[i - j.len() - 1]);
            }
        }
    }
}

/// Space-separated plain arguments read back as themselves: joining
/// non-empty arguments that hold no separator and no double quote with
/// single spaces, then parsing the line, gives back exactly those arguments.
pub proof fn law_parse_joined_plain_words(words: Seq<Seq<char>>)
    requires
        forall|i: int| 0 <= i < words.len() ==> (#[trigger] words[i]).len() > 0 && is_plain_word(words[i]),
    ensures
        spec_parse_args(join_with_spaces(words)) == words,
    decreases words.len(),
{
    if words.len() == 0 {
        assert(scan(Seq::empty()) == (Seq::<Seq<char>>::empty(), Seq::<char>::empty(), false, false));
    } else if words.len() == 1 {
        assert(words[0].len() > 0 && is_plain_word(words[0]));
        law_plain_word_parses_to_itself(words[0]);
        assert(seq![words[0]] =~= words);
    } else {
        let front = words.drop_last();
        assert forall|i: int| 0 <= i < front.len() implies (#[trigger] front[i]).len() > 0 && is_plain_word(front[i]) by {
            assert(front[i] == words[i]);
        }
        law_parse_joined_plain_words(front);
        assert forall|i: int| 0 <= i < front.len() implies is_plain_word(#[trigger] front[i]) by {
            assert(front[i] == words[i]);
        }
        lemma_join_quote_free(front);
        lemma_quote_free_count(join_with_spaces(front));
        law_parse_split_at_separator(join_with_spaces(front), ' ', words.last());
        assert(words[words.len() - 1].len() > 0 && is_plain_word(words[words.len() - 1]));
        law_plain_word_parses_to_itself(words.last());
        assert(front + seq![words.last()] =~= words);
    }
}

/// Whether no argument in the list holds a double quote.
pub open spec fn free_of_quotes(args: Seq<Seq<char>>) -> bool {
    forall|i: int, j: int| 0 <= i < args.len() && 0 <= j < args[i].len() ==> #[trigger] args[i][j] != '"'
}

proof fn lemma_scan_free_of_quotes(s: Seq<char>)
    ensures
        free_of_quotes(scan(s).0),
        free_of_quote_chars(scan(s).1),
    decreases s.len(),
{
    if s.len() > 0 {
        lemma_scan_free_of_quotes(s.drop_last());
        let st = scan(s.drop_last());
        let nx = scan(s);
        assert forall|i: int, j: int| 0 <= i < nx.0.len() && 0 <= j < nx.0[i].len() implies #[trigger] nx.0[i][j] != '"' by {
            if i < st.0.len() {
                assert(nx.0[i] == st.0[i]);
            } else {
                assert(nx.0[i] == st.1);
            }
        }
        assert forall|j: int| 0 <= j < nx.1.len() implies #[trigger] nx.1[j] != '"' by {
            if j < st.1.len() {
                assert(nx.1[j] == st.1[j]);
            }
        }
    }
}

/// Double quotes only group: no parsed argument ever contains one.
pub proof fn law_parsed_args_hold_no_quotes(s: Seq<char>)
    ensures
        free_of_quotes(spec_parse_args(s)),
{
    lemma_scan_free_of_quotes(s);
    let st = scan(s);
    let r = spec_parse_args(s);
    assert forall|i: int, j: int| 0 <= i < r.len() && 0 <= j < r[i].len() implies #[trigger] r[i][j] != '"' by {
        if i < st.0.len() {
            assert(r[i] == st.0[i]);
        } else {
            assert(r[i] == st.1);
        }
    }
}

} // verus!
