//! Character-level text utilities: whitespace, words, joining and trimming.

use vstd::prelude::*;

verus! {

/// Whether a character has the Unicode `White_Space` property, the test
/// that `char::is_whitespace` makes.
pub open spec fn white_space(c: char) -> bool {
    ('\u{9}' <= c && c <= '\u{d}') || c == ' ' || c == '\u{85}' || c == '\u{a0}' || c
        == '\u{1680}' || ('\u{2000}' <= c && c <= '\u{200a}') || c == '\u{2028}' || c
        == '\u{2029}' || c == '\u{202f}' || c == '\u{205f}' || c == '\u{3000}'
}

/// Whether `c` has the Unicode `White_Space` property.
pub fn is_white_space(c: char) -> (r: bool)
    ensures
        r == white_space(c),
{
    ('\u{9}' <= c && c <= '\u{d}') || c == ' ' || c == '\u{85}' || c == '\u{a0}' || c
        == '\u{1680}' || ('\u{2000}' <= c && c <= '\u{200a}') || c == '\u{2028}' || c
        == '\u{2029}' || c == '\u{202f}' || c == '\u{205f}' || c == '\u{3000}'
}

/// Relies on `String::push`: appends one character at the end.
#[verifier::external_body]
pub(crate) fn push_char(s: &mut String, c: char)
    ensures
        final(s)@ == old(s)@.push(c),
{
    s.push(c)
}

/// The maximal runs of non-whitespace characters of `s`, in order.
pub open spec fn words(s: Seq<char>) -> Seq<Seq<char>>
    decreases s.len(),
{
    if s.len() == 0 {
        seq![]
    } else {
        let p = words(s.drop_last());
        let c = s.last();
        if white_space(c) {
            p
        } else if s.len() >= 2 && !white_space(s[s.len() - 2]) {
            p.drop_last().push(p.last().push(c))
        } else {
            p.push(seq![c])
        }
    }
}

/// `ws` joined with the separator `sep` between consecutive items.
pub open spec fn join(ws: Seq<Seq<char>>, sep: Seq<char>) -> Seq<char>
    decreases ws.len(),
{
    if ws.len() == 0 {
        seq![]
    } else if ws.len() == 1 {
        ws[0]
    } else {
        join(ws.drop_last(), sep) + sep + ws.last()
    }
}

/// Splits `s` into its whitespace-separated words.
pub fn split_words(s: &str) -> (r: Vec<String>)
    ensures
        views(r@) == words(s@),
{
    let mut out: Vec<String> = Vec::new();
    let mut cur = String::new();
    let mut in_word = false;
    let ghost mut seen: Seq<char> = seq![];
    for c in it: s.chars()
        invariant
            seen == s@.take(it.index() as int),
            in_word <==> (seen.len() > 0 && !white_space(seen.last())),
            in_word ==> out@.map_values(|w: String| w@).push(cur@) == words(seen),
            !in_word ==> out@.map_values(|w: String| w@) == words(seen),
            !in_word ==> cur@ == Seq::<char>::empty(),
            it.seq() == s@,
    {
        let ghost prev = seen;
        let ghost prev_out = out@.map_values(|w: String| w@);
        proof {
            seen = seen.push(c);
            assert(seen.drop_last() =~= prev);
            assert(seen =~= s@.take(it.index() as int + 1));
        }
        if is_white_space(c) {
            if in_word {
                out.push(cur);
                assert(out@.map_values(|w: String| w@) =~= prev_out.push(cur@));
                cur = String::new();
                in_word = false;
            }
        } else {
            push_char(&mut cur, c);
            if in_word {
                assert(words(prev).drop_last() =~= prev_out);
            } else {
                assert(cur@ =~= seq![c]);
            }
            in_word = true;
        }
    }
    if in_word {
        let ghost prev_out = out@.map_values(|w: String| w@);
        out.push(cur);
        assert(out@.map_values(|w: String| w@) =~= prev_out.push(cur@));
    }
    assert(seen =~= s@);
    out
}

/// The views of a vector of strings.
pub open spec fn views(v: Seq<String>) -> Seq<Seq<char>> {
    v.map_values(|w: String| w@)
}

/// Joins `ws[lo..hi]` with `sep` between consecutive items.
pub fn join_range(ws: &Vec<String>, lo: usize, hi: usize, sep: &str) -> (r: String)
    requires
        lo <= hi <= ws@.len(),
    ensures
        r@ == join(views(ws@).subrange(lo as int, hi as int), sep@),
{
    let mut r = String::new();
    let mut i: usize = lo;
    while i < hi
        invariant
            lo <= i <= hi <= ws@.len(),
            r@ == join(views(ws@).subrange(lo as int, i as int), sep@),
        decreases hi - i,
    {
        let ghost before = views(ws@).subrange(lo as int, i as int);
        let ghost after = views(ws@).subrange(lo as int, i + 1);
        assert(after.drop_last() =~= before);
        if i > lo {
            r.append(sep);
        }
        r.append(ws[i].as_str());
        i = i + 1;
    }
    r
}

/// The character of a decimal digit.
pub open spec fn digit_char(d: nat) -> char {
    if d == 0 { '0' }
    else if d == 1 { '1' }
    else if d == 2 { '2' }
    else if d == 3 { '3' }
    else if d == 4 { '4' }
    else if d == 5 { '5' }
    else if d == 6 { '6' }
    else if d == 7 { '7' }
    else if d == 8 { '8' }
    else { '9' }
}

/// The decimal representation of `n`, without leading zeros.
pub open spec fn decimal(n: nat) -> Seq<char>
    decreases n,
{
    if n < 10 {
        seq![digit_char(n)]
    } else {
        decimal(n / 10).push(digit_char(n % 10))
    }
}

fn digit(d: u64) -> (c: char)
    requires
        d < 10,
    ensures
        c == digit_char(d as nat),
{
    if d == 0 { '0' }
    else if d == 1 { '1' }
    else if d == 2 { '2' }
    else if d == 3 { '3' }
    else if d == 4 { '4' }
    else if d == 5 { '5' }
    else if d == 6 { '6' }
    else if d == 7 { '7' }
    else if d == 8 { '8' }
    else { '9' }
}

/// Renders `n` in decimal.
pub fn decimal_string(n: u64) -> (r: String)
    ensures
        r@ == decimal(n as nat),
    decreases n,
{
    if n < 10 {
        let mut r = String::new();
        push_char(&mut r, digit(n));
        assert(r@ =~= seq![digit_char(n as nat)]);
        r
    } else {
        let mut r = decimal_string(n / 10);
        push_char(&mut r, digit(n % 10));
        r
    }
}


/// The number of whitespace characters that `s` starts with.
pub open spec fn leading_ws(s: Seq<char>) -> nat
    decreases s.len(),
{
    if s.len() > 0 && white_space(s[0]) {
        1 + leading_ws(s.drop_first())
    } else {
        0
    }
}

/// `s` without its leading whitespace.
pub open spec fn trim_start(s: Seq<char>) -> Seq<char> {
    s.skip(leading_ws(s) as int)
}

/// At most the first `n` characters of `s`.
pub open spec fn prefix(s: Seq<char>, n: nat) -> Seq<char> {
    if s.len() <= n {
        s
    } else {
        s.take(n as int)
    }
}

/// Whether every character of `s` is whitespace.
pub open spec fn is_blank(s: Seq<char>) -> bool {
    forall|i: int| 0 <= i < s.len() ==> white_space(#[trigger] s[i])
}

proof fn lemma_leading_ws(s: Seq<char>, k: nat)
    requires
        k <= s.len(),
        forall|j: int| 0 <= j < k ==> white_space(#[trigger] s[j]),
        k == s.len() || !white_space(s[k as int]),
    ensures
        leading_ws(s) == k,
    decreases k,
{
    if k > 0 {
        let t = s.drop_first();
        assert forall|j: int| 0 <= j < k - 1 implies white_space(#[trigger] t[j]) by {
            assert(t[j] == s[j + 1]);
        }
        if k < s.len() {
            assert(t[k - 1] == s[k as int]);
        }
        lemma_leading_ws(t, (k - 1) as nat);
    }
}

/// Counts the whitespace characters that `s` starts with.
pub fn count_leading_ws(s: &str) -> (r: usize)
    ensures
        r == leading_ws(s@),
        r <= s@.len(),
{
    let n = s.unicode_len();
    let mut k: usize = 0;
    let mut done = false;
    for c in it: s.chars()
        invariant
            it.seq() == s@,
            n == s@.len(),
            k <= it.index(),
            forall|j: int| 0 <= j < k ==> white_space(#[trigger] s@[j]),
            done ==> k < s@.len() && !white_space(s@[k as int]),
            !done ==> k == it.index(),
    {
        if !done {
            if is_white_space(c) {
                k = k + 1;
            } else {
                done = true;
            }
        }
    }
    proof {
        lemma_leading_ws(s@, k as nat);
    }
    k
}

/// Whether `s` holds whitespace only.
pub fn blank(s: &str) -> (r: bool)
    ensures
        r == is_blank(s@),
{
    let k = count_leading_ws(s);
    proof {
        lemma_leading_ws_all(s@);
    }
    k == s.unicode_len()
}

proof fn lemma_leading_ws_all(s: Seq<char>)
    ensures
        leading_ws(s) <= s.len(),
        forall|j: int| 0 <= j < leading_ws(s) ==> white_space(#[trigger] s[j]),
        leading_ws(s) < s.len() ==> !white_space(s[leading_ws(s) as int]),
    decreases s.len(),
{
    if s.len() > 0 && white_space(s[0]) {
        let t = s.drop_first();
        lemma_leading_ws_all(t);
        assert forall|j: int| 0 <= j < leading_ws(s) implies white_space(#[trigger] s[j]) by {
            if j > 0 {
                assert(s[j] == t[j - 1]);
            }
        }
        if leading_ws(s) < s.len() {
            assert(s[leading_ws(s) as int] == t[leading_ws(t) as int]);
        }
    }
}

/// The characters of `s` in the range `lo..hi`.
pub fn char_range(s: &str, lo: usize, hi: usize) -> (r: String)
    requires
        lo <= hi <= s@.len(),
    ensures
        r@ == s@.subrange(lo as int, hi as int),
{
    String::from_str(s.substring_char(lo, hi))
}

/// The number of whitespace characters that `s` ends with.
pub open spec fn trailing_ws(s: Seq<char>) -> nat
    decreases s.len(),
{
    if s.len() > 0 && white_space(s.last()) {
        1 + trailing_ws(s.drop_last())
    } else {
        0
    }
}

proof fn lemma_trailing_ws_len(s: Seq<char>)
    ensures
        trailing_ws(s) <= s.len(),
    decreases s.len(),
{
    if s.len() > 0 {
        lemma_trailing_ws_len(s.drop_last());
    }
}

/// `s` without leading and trailing whitespace.
pub open spec fn trimmed(s: Seq<char>) -> Seq<char> {
    let t = trim_start(s);
    t.take(t.len() - trailing_ws(t))
}

/// Counts the whitespace characters that `s` ends with.
pub fn count_trailing_ws(s: &str) -> (r: usize)
    ensures
        r == trailing_ws(s@),
        r <= s@.len(),
{
    let n = s.unicode_len();
    let mut k: usize = 0;
    for c in it: s.chars()
        invariant
            it.seq() == s@,
            n == s@.len(),
            k == trailing_ws(s@.take(it.index() as int)),
            k <= it.index(),
    {
        proof {
            assert(s@.take(it.index() + 1).drop_last() =~= s@.take(it.index() as int));
        }
        if is_white_space(c) {
            k = k + 1;
        } else {
            k = 0;
        }
    }
    assert(s@.take(n as int) =~= s@);
    k
}

/// `s` without leading and trailing whitespace.
pub fn trim(s: &str) -> (r: String)
    ensures
        r@ == trimmed(s@),
{
    let lead = count_leading_ws(s);
    let len = s.unicode_len();
    let t = char_range(s, lead, len);
    let trail = count_trailing_ws(t.as_str());
    let tlen = t.as_str().unicode_len();
    char_range(t.as_str(), 0, tlen - trail)
}

/// The pieces of `s` between line feeds; there is always at least one.
pub open spec fn segments(s: Seq<char>) -> Seq<Seq<char>>
    decreases s.len(),
{
    if s.len() == 0 {
        seq![seq![]]
    } else {
        let p = segments(s.drop_last());
        if s.last() == '\n' {
            p.push(seq![])
        } else {
            p.drop_last().push(p.last().push(s.last()))
        }
    }
}

proof fn lemma_segments_nonempty(s: Seq<char>)
    ensures
        segments(s).len() >= 1,
    decreases s.len(),
{
    if s.len() > 0 {
        lemma_segments_nonempty(s.drop_last());
    }
}

/// Whether a sequence of characters is not empty, as a predicate.
pub open spec fn nonempty_pred() -> spec_fn(Seq<char>) -> bool {
    |l: Seq<char>| l.len() > 0
}

/// The lines of `s`, each trimmed, with the empty ones left out.
pub open spec fn kept_lines(lines: Seq<Seq<char>>) -> Seq<Seq<char>> {
    lines.map_values(|l: Seq<char>| trimmed(l)).filter(nonempty_pred())
}

/// `s` with every line trimmed, empty lines dropped, and the rest joined
/// with single line feeds.
pub open spec fn clean_lines(s: Seq<char>) -> Seq<char> {
    join(kept_lines(segments(s)), "\n"@)
}

proof fn lemma_kept_push(lines: Seq<Seq<char>>, l: Seq<char>)
    ensures
        kept_lines(lines.push(l)) == if trimmed(l).len() > 0 {
            kept_lines(lines).push(trimmed(l))
        } else {
            kept_lines(lines)
        },
{
    reveal(Seq::filter);
    let m = lines.push(l).map_values(|l: Seq<char>| trimmed(l));
    assert(m.drop_last() =~= lines.map_values(|l: Seq<char>| trimmed(l)));
}

/// Trims every line of `s`, drops the empty ones and joins the rest with
/// single line feeds.
pub fn clean_text(s: &str) -> (r: String)
    ensures
        r@ == clean_lines(s@),
{
    let mut kept: Vec<String> = Vec::new();
    let mut cur = String::new();
    for c in it: s.chars()
        invariant
            it.seq() == s@,
            views(kept@) == kept_lines(segments(s@.take(it.index() as int)).drop_last()),
            cur@ == segments(s@.take(it.index() as int)).last(),
    {
        let ghost seen = s@.take(it.index() as int);
        proof {
            assert(s@.take(it.index() + 1).drop_last() =~= seen);
            lemma_segments_nonempty(seen);
        }
        if c == '\n' {
            let t = trim(cur.as_str());
            proof {
                lemma_kept_push(segments(seen).drop_last(), cur@);
                assert(segments(seen).drop_last().push(cur@) =~= segments(seen));
            }
            if t.as_str().unicode_len() > 0 {
                let ghost before = views(kept@);
                kept.push(t);
                assert(views(kept@) =~= before.push(trimmed(cur@)));
            }
            cur = String::new();
            assert(cur@ =~= Seq::<char>::empty());
            assert(segments(s@.take(it.index() + 1)).drop_last() =~= segments(seen));
        } else {
            push_char(&mut cur, c);
            assert(segments(s@.take(it.index() + 1)).drop_last() =~= segments(seen).drop_last());
        }
    }
    let ghost all = s@;
    assert(s@.take(s@.len() as int) =~= all);
    proof {
        lemma_segments_nonempty(all);
        lemma_kept_push(segments(all).drop_last(), cur@);
        assert(segments(all).drop_last().push(cur@) =~= segments(all));
    }
    let t = trim(cur.as_str());
    if t.as_str().unicode_len() > 0 {
        let ghost before = views(kept@);
        kept.push(t);
        assert(views(kept@) =~= before.push(trimmed(cur@)));
    }
    let r = join_range(&kept, 0, kept.len(), "\n");
    assert(views(kept@).subrange(0, kept@.len() as int) =~= views(kept@));
    r
}

} // verus!
