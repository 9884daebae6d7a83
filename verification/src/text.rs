//! Text on the level of characters: searching, trimming, splitting into lines and words,
//! and decimal numerals.
use vstd::prelude::*;
use vstd::string::*;

verus! {

/// `pat` stands in `s` at `i`.
pub open spec fn occurs_at(s: Seq<char>, pat: Seq<char>, i: int) -> bool {
    &&& 0 <= i
    &&& i + pat.len() <= s.len()
    &&& s.subrange(i, i + pat.len()) == pat
}

/// `pat` stands in `s` at `i` and nowhere before.
pub open spec fn first_at(s: Seq<char>, pat: Seq<char>, i: int) -> bool {
    &&& occurs_at(s, pat, i)
    &&& forall|j: int| 0 <= j < i ==> !occurs_at(s, pat, j)
}

/// `pat` stands somewhere in `s`.
pub open spec fn has_text(s: Seq<char>, pat: Seq<char>) -> bool {
    exists|i: int| occurs_at(s, pat, i)
}

/// Where `pat` stands first in `s`.
pub open spec fn position(s: Seq<char>, pat: Seq<char>) -> Option<int> {
    if has_text(s, pat) {
        Some(choose|i: int| first_at(s, pat, i))
    } else {
        None
    }
}

/// A place where `pat` stands first is what `position` gives.
pub proof fn lemma_first_is_position(s: Seq<char>, pat: Seq<char>, i: int)
    requires
        first_at(s, pat, i),
    ensures
        position(s, pat) == Some(i),
{
    let k = choose|k: int| first_at(s, pat, k);
    assert(first_at(s, pat, k));
    if k < i {
        assert(!occurs_at(s, pat, k));
    }
    if i < k {
        assert(!occurs_at(s, pat, i));
    }
}

proof fn lemma_least(s: Seq<char>, pat: Seq<char>, i: int)
    requires
        occurs_at(s, pat, i),
    ensures
        exists|k: int| first_at(s, pat, k),
    decreases i,
{
    if exists|j: int| 0 <= j < i && occurs_at(s, pat, j) {
        let j = choose|j: int| 0 <= j < i && occurs_at(s, pat, j);
        lemma_least(s, pat, j);
    } else {
        assert(first_at(s, pat, i));
    }
}

/// What `position` gives is the first place, and it gives one whenever there is one.
pub proof fn lemma_position(s: Seq<char>, pat: Seq<char>)
    ensures
        position(s, pat) is Some <==> has_text(s, pat),
        position(s, pat) matches Some(k) ==> first_at(s, pat, k) && 0 <= k && k + pat.len()
            <= s.len(),
{
    if has_text(s, pat) {
        let i = choose|i: int| occurs_at(s, pat, i);
        lemma_least(s, pat, i);
    }
}

/// The characters of `s`.
pub fn chars_of(s: &str) -> (r: Vec<char>)
    ensures
        r@ == s@,
{
    let mut out: Vec<char> = Vec::new();
    for c in it: s.chars()
        invariant
            out@ == s@.take(it.index() as int),
            it.seq() == s@,
    {
        out.push(c);
    }
    assert(s@.take(s@.len() as int) == s@);
    out
}

/// `String::push` adds one character at the end.
pub assume_specification[ String::push ](s: &mut String, c: char)
    ensures
        final(s)@ == old(s)@.push(c),
;

fn matches_at(s: &Vec<char>, pat: &Vec<char>, i: usize) -> (r: bool)
    requires
        i + pat@.len() <= s@.len(),
    ensures
        r == occurs_at(s@, pat@, i as int),
{
    let size: usize = s.len();
    let mut k: usize = 0;
    while k < pat.len()
        invariant
            k <= pat@.len(),
            size == s@.len(),
            i + pat@.len() <= size,
            forall|j: int| 0 <= j < k ==> s@[i + j] == pat@[j],
        decreases pat@.len() - k,
    {
        if s[i + k] != pat[k] {
            assert(s@.subrange(i as int, i + pat@.len())[k as int] != pat@[k as int]);
            return false;
        }
        k += 1;
    }
    assert(s@.subrange(i as int, i + pat@.len()) =~= pat@);
    true
}

/// The number of characters before the first place where `pat` stands in `s`.
pub fn find(s: &str, pat: &str) -> (r: Option<usize>)
    ensures
        r is Some <==> position(s@, pat@) is Some,
        r matches Some(k) ==> position(s@, pat@) == Some(k as int) && k + pat@.len() <= s@.len(),
{
    let text = chars_of(s);
    let want = chars_of(pat);
    if want.len() > text.len() {
        return None;
    }
    let last: usize = text.len() - want.len();
    let mut i: usize = 0;
    loop
        invariant
            i <= last,
            text@ == s@,
            want@ == pat@,
            last == text@.len() - want@.len(),
            forall|j: int| 0 <= j < i ==> !occurs_at(s@, pat@, j),
        decreases last - i,
    {
        if matches_at(&text, &want, i) {
            proof {
                lemma_first_is_position(s@, pat@, i as int);
            }
            return Some(i);
        }
        if i == last {
            return None;
        }
        i += 1;
    }
}

/// Whether `pat` stands somewhere in `s`.
pub fn contains(s: &str, pat: &str) -> (r: bool)
    ensures
        r == has_text(s@, pat@),
{
    find(s, pat).is_some()
}

/// Whether `s` begins with `pat`.
pub fn starts_with(s: &str, pat: &str) -> (r: bool)
    ensures
        r == pat@.is_prefix_of(s@),
{
    let text = chars_of(s);
    let want = chars_of(pat);
    if want.len() > text.len() {
        return false;
    }
    let r = matches_at(&text, &want, 0);
    assert(0int + pat@.len() == pat@.len());
    r
}

/// Whether `a` and `b` are the same text.
pub fn same(a: &str, b: &str) -> (r: bool)
    ensures
        r == (a@ == b@),
{
    a.to_owned() == b.to_owned()
}

/// The characters of `s` from `from` up to `to`.
pub fn part(s: &str, from: usize, to: usize) -> (r: String)
    requires
        from <= to <= s@.len(),
    ensures
        r@ == s@.subrange(from as int, to as int),
{
    s.substring_char(from, to).to_owned()
}

/// The number of bytes that `s` takes in UTF-8.
pub fn byte_len(s: &str) -> (r: usize)
    ensures
        r == s.spec_bytes().len(),
{
    s.as_bytes().len()
}

// ---- Whitespace ---------------------------------------------------------------------------

/// The characters with the Unicode property `White_Space`.
pub open spec fn is_white(c: char) -> bool {
    ||| '\u{9}' <= c <= '\u{d}'
    ||| c == ' '
    ||| c == '\u{85}'
    ||| c == '\u{a0}'
    ||| c == '\u{1680}'
    ||| '\u{2000}' <= c <= '\u{200a}'
    ||| c == '\u{2028}'
    ||| c == '\u{2029}'
    ||| c == '\u{202f}'
    ||| c == '\u{205f}'
    ||| c == '\u{3000}'
}

/// Whether a character has the Unicode property `White_Space`.
pub fn is_whitespace(c: char) -> (r: bool)
    ensures
        r == is_white(c),
{
    ('\u{9}' <= c && c <= '\u{d}') || c == ' ' || c == '\u{85}' || c == '\u{a0}' || c == '\u{1680}'
        || ('\u{2000}' <= c && c <= '\u{200a}') || c == '\u{2028}' || c == '\u{2029}' || c
        == '\u{202f}' || c == '\u{205f}' || c == '\u{3000}'
}

/// `s` without the whitespace at its start.
pub open spec fn trim_start(s: Seq<char>) -> Seq<char>
    decreases s.len(),
{
    if s.len() > 0 && is_white(s[0]) {
        trim_start(s.skip(1))
    } else {
        s
    }
}

/// `s` without the whitespace at its end.
pub open spec fn trim_end(s: Seq<char>) -> Seq<char>
    decreases s.len(),
{
    if s.len() > 0 && is_white(s.last()) {
        trim_end(s.drop_last())
    } else {
        s
    }
}

/// `s` without the whitespace at either end.
pub open spec fn trimmed(s: Seq<char>) -> Seq<char> {
    trim_end(trim_start(s))
}

/// The characters of `s` before the first whitespace.
pub open spec fn leading_word(s: Seq<char>) -> Seq<char>
    decreases s.len(),
{
    if s.len() > 0 && !is_white(s[0]) {
        seq![s[0]] + leading_word(s.skip(1))
    } else {
        Seq::empty()
    }
}

/// The first of the words that whitespace parts in `s`, empty where there is none.
pub open spec fn first_word(s: Seq<char>) -> Seq<char> {
    leading_word(trim_start(s))
}

/// `s` without the characters at its end that stand in `set`.
pub open spec fn strip_end(s: Seq<char>, set: Seq<char>) -> Seq<char>
    decreases s.len(),
{
    if s.len() > 0 && set.contains(s.last()) {
        strip_end(s.drop_last(), set)
    } else {
        s
    }
}

fn white_prefix(text: &Vec<char>) -> (n: usize)
    ensures
        n <= text@.len(),
        trim_start(text@) == text@.skip(n as int),
{
    let mut n: usize = 0;
    assert(text@.skip(0) == text@);
    while n < text.len() && is_whitespace(text[n])
        invariant
            n <= text@.len(),
            trim_start(text@) == trim_start(text@.skip(n as int)),
        decreases text@.len() - n,
    {
        assert(text@.skip(n as int).skip(1) == text@.skip(n + 1));
        n += 1;
    }
    n
}

/// `s` without the whitespace at either end.
pub fn trim(s: &str) -> (r: String)
    ensures
        r@ == trimmed(s@),
{
    let text = chars_of(s);
    let from: usize = white_prefix(&text);
    let mut to: usize = text.len();
    let ghost whole = s@.skip(from as int);
    assert(s@.subrange(from as int, to as int) == whole);
    while to > from && is_whitespace(text[to - 1])
        invariant
            from <= to <= text@.len(),
            text@ == s@,
            trim_end(whole) == trim_end(s@.subrange(from as int, to as int)),
        decreases to - from,
    {
        assert(s@.subrange(from as int, to as int).drop_last() == s@.subrange(
            from as int,
            to - 1,
        ));
        to -= 1;
    }
    part(s, from, to)
}

proof fn lemma_leading_word(s: Seq<char>, n: int)
    requires
        0 <= n <= s.len(),
        forall|j: int| 0 <= j < n ==> !is_white(#[trigger] s[j]),
        n < s.len() ==> is_white(s[n]),
    ensures
        leading_word(s) == s.take(n),
    decreases n,
{
    if n > 0 {
        lemma_leading_word(s.skip(1), n - 1);
        assert(s.take(n) == seq![s[0]] + s.skip(1).take(n - 1));
    } else {
        assert(s.take(0) == Seq::<char>::empty());
    }
}

/// The first of the words that whitespace parts in `s`, empty where there is none.
pub fn word(s: &str) -> (r: String)
    ensures
        r@ == first_word(s@),
{
    let text = chars_of(s);
    let from: usize = white_prefix(&text);
    let mut to: usize = from;
    while to < text.len() && !is_whitespace(text[to])
        invariant
            from <= to <= text@.len(),
            forall|j: int| from <= j < to ==> !is_white(#[trigger] text@[j]),
        decreases text@.len() - to,
    {
        to += 1;
    }
    proof {
        let rest = s@.skip(from as int);
        lemma_leading_word(rest, to - from);
        assert(rest.take(to - from) == s@.subrange(from as int, to as int));
    }
    part(s, from, to)
}

/// `s` without the characters at its end that stand in `set`.
pub fn trim_end_of(s: &str, set: &str) -> (r: String)
    ensures
        r@ == strip_end(s@, set@),
{
    let text = chars_of(s);
    let mut to: usize = text.len();
    assert(s@.subrange(0, to as int) == s@);
    while to > 0 && has_char(set, text[to - 1])
        invariant
            to <= text@.len(),
            text@ == s@,
            strip_end(s@, set@) == strip_end(s@.subrange(0, to as int), set@),
        decreases to,
    {
        assert(s@.subrange(0, to as int).drop_last() == s@.subrange(0, to - 1));
        to -= 1;
    }
    part(s, 0, to)
}

/// Whether `c` is one of the characters of `s`.
pub fn has_char(s: &str, c: char) -> (r: bool)
    ensures
        r == s@.contains(c),
{
    let text = chars_of(s);
    let mut i: usize = 0;
    while i < text.len()
        invariant
            i <= text@.len(),
            text@ == s@,
            forall|j: int| 0 <= j < i ==> s@[j] != c,
        decreases text@.len() - i,
    {
        if text[i] == c {
            assert(s@[i as int] == c);
            return true;
        }
        i += 1;
    }
    false
}

// ---- Lines --------------------------------------------------------------------------------

/// `s` without a carriage return at its end.
pub open spec fn without_return(s: Seq<char>) -> Seq<char> {
    if s.len() > 0 && s.last() == '\r' {
        s.drop_last()
    } else {
        s
    }
}

/// The lines of `s`: each ends with a line feed, or a carriage return and a line feed, which
/// do not belong to it; the end of the last one may be missing.
pub open spec fn lines_of(s: Seq<char>) -> Seq<Seq<char>>
    decreases s.len(),
    via lines_of_decreases
{
    if s.len() == 0 {
        Seq::empty()
    } else {
        match position(s, seq!['\n']) {
            Some(k) => seq![without_return(s.take(k))] + lines_of(s.skip(k + 1)),
            None => seq![s],
        }
    }
}

#[via_fn]
proof fn lines_of_decreases(s: Seq<char>) {
    lemma_position(s, seq!['\n']);
}

/// The first line of `s` and what follows it.
pub fn next_line(s: &str) -> (r: (String, String))
    requires
        s@.len() > 0,
    ensures
        lines_of(s@) == seq![r.0@] + lines_of(r.1@),
        r.1@.len() < s@.len(),
{
    proof {
        lemma_position(s@, seq!['\n']);
        reveal_strlit("\n");
        assert("\n"@ =~= seq!['\n']);
    }
    let n: usize = s.unicode_len();
    match find(s, "\n") {
        Some(k) => {
            let mut to: usize = k;
            if k > 0 && s.get_char(k - 1) == '\r' {
                to = k - 1;
            }
            assert(s@.subrange(0, to as int) == without_return(s@.take(k as int)));
            assert(s@.subrange(k + 1, n as int) == s@.skip(k + 1));
            (part(s, 0, to), part(s, k + 1, n))
        },
        None => {
            assert(lines_of(Seq::<char>::empty()) == Seq::<Seq<char>>::empty());
            assert(seq![s@] + Seq::<Seq<char>>::empty() == seq![s@]);
            (s.to_owned(), String::new())
        },
    }
}

// ---- Numerals -----------------------------------------------------------------------------

/// The decimal digit of `d`.
pub open spec fn digit(d: nat) -> char {
    (('0' as u32) + d) as char
}

/// The decimal numeral of `n`.
pub open spec fn decimal(n: nat) -> Seq<char>
    decreases n,
{
    if n < 10 {
        seq![digit(n)]
    } else {
        decimal(n / 10).push(digit(n % 10))
    }
}

/// The decimal numeral of `n`, with a sign where `n` is negative.
pub open spec fn signed_decimal(n: int) -> Seq<char> {
    if n < 0 {
        seq!['-'] + decimal((-n) as nat)
    } else {
        decimal(n as nat)
    }
}

fn digit_char(d: u32) -> (c: char)
    requires
        d < 10,
    ensures
        c == digit(d as nat),
{
    match d {
        0 => '0',
        1 => '1',
        2 => '2',
        3 => '3',
        4 => '4',
        5 => '5',
        6 => '6',
        7 => '7',
        8 => '8',
        _ => '9',
    }
}

/// The decimal numeral of `n`.
pub fn decimal_text(n: u32) -> (r: String)
    ensures
        r@ == decimal(n as nat),
    decreases n,
{
    let mut out: String = if n < 10 {
        String::new()
    } else {
        decimal_text(n / 10)
    };
    out.push(digit_char(n % 10));
    assert(Seq::<char>::empty().push(digit(n as nat)) == seq![digit(n as nat)]);
    out
}

/// The decimal numeral of `n`, with a sign where `n` is negative.
pub fn signed_decimal_text(n: i32) -> (r: String)
    ensures
        r@ == signed_decimal(n as int),
{
    if n < 0 {
        let mut out: String = String::new();
        out.push('-');
        let size: u32 = if n == i32::MIN {
            0x8000_0000
        } else {
            (-n) as u32
        };
        out.append(decimal_text(size).as_str());
        assert(Seq::<char>::empty().push('-') == seq!['-']);
        out
    } else {
        decimal_text(n as u32)
    }
}

// ---- Laws ---------------------------------------------------------------------------------

/// A text stands in another exactly where that one is made of something before it, the text, and
/// something behind it; the place where it stands first is the one with the least before it.
pub proof fn law_found(s: Seq<char>, pat: Seq<char>)
    ensures
        has_text(s, pat) <==> exists|a: Seq<char>, b: Seq<char>| s == #[trigger] (a + pat + b),
        position(s, pat) is Some <==> has_text(s, pat),
        position(s, pat) matches Some(k) ==> {
            &&& 0 <= k
            &&& k + pat.len() <= s.len()
            &&& s == s.take(k) + pat + s.skip(k + pat.len())
            &&& forall|a: Seq<char>, b: Seq<char>| s == #[trigger] (a + pat + b) ==> k <= a.len()
        },
{
    lemma_position(s, pat);
    if has_text(s, pat) {
        let k = position(s, pat)->0;
        let a = s.take(k);
        let b = s.skip(k + pat.len());
        assert(s =~= a + pat + b) by {
            assert(s.subrange(k, k + pat.len()) == pat);
            assert forall|i: int| 0 <= i < s.len() implies s[i] == (a + pat + b)[i] by {
                if k <= i < k + pat.len() {
                    assert(s[i] == s.subrange(k, k + pat.len())[i - k]);
                }
            }
        }
    }
    assert forall|a: Seq<char>, b: Seq<char>| s == #[trigger] (a + pat + b) implies has_text(s, pat)
        && occurs_at(s, pat, a.len() as int) by {
        assert(s.subrange(a.len() as int, (a.len() + pat.len()) as int) =~= pat);
        assert(occurs_at(s, pat, a.len() as int));
    }
}

/// Text that begins with something else than itself is found behind any text in which it does not
/// stand.
pub(crate) proof fn lemma_found_behind(before: Seq<char>, tag: Seq<char>, rest: Seq<char>)
    requires
        tag.len() > 0,
        forall|i: int| 0 < i < tag.len() ==> #[trigger] tag[i] != tag[0],
        !has_text(before, tag),
    ensures
        position(before + tag + rest, tag) == Some(before.len() as int),
{
    let s = before + tag + rest;
    let n = before.len() as int;
    assert(s.subrange(n, n + tag.len()) =~= tag);
    assert forall|j: int| 0 <= j < n implies !occurs_at(s, tag, j) by {
        if occurs_at(s, tag, j) {
            let at = s.subrange(j, j + tag.len());
            if j + tag.len() <= n {
                assert(before.subrange(j, j + tag.len()) =~= at);
                assert(occurs_at(before, tag, j));
            } else {
                assert(at[n - j] == s[n]);
                assert(s[n] == tag[0]);
                assert(tag[n - j] == tag[0]);
            }
        }
    }
    lemma_first_is_position(s, tag, n);
}

/// Every character of `s` is whitespace.
pub open spec fn all_white(s: Seq<char>) -> bool {
    forall|i: int| 0 <= i < s.len() ==> is_white(#[trigger] s[i])
}

/// No character of `s` is whitespace.
pub open spec fn none_white(s: Seq<char>) -> bool {
    forall|i: int| 0 <= i < s.len() ==> !is_white(#[trigger] s[i])
}

proof fn lemma_trim_start(lead: Seq<char>, rest: Seq<char>)
    requires
        all_white(lead),
        rest.len() > 0 ==> !is_white(rest[0]),
    ensures
        trim_start(lead + rest) == rest,
    decreases lead.len(),
{
    if lead.len() > 0 {
        assert((lead + rest)[0] == lead[0]);
        assert((lead + rest).skip(1) =~= lead.skip(1) + rest);
        lemma_trim_start(lead.skip(1), rest);
    } else {
        assert(lead + rest =~= rest);
    }
}

proof fn lemma_trim_end(rest: Seq<char>, trail: Seq<char>)
    requires
        all_white(trail),
        rest.len() > 0 ==> !is_white(rest.last()),
    ensures
        trim_end(rest + trail) == rest,
    decreases trail.len(),
{
    if trail.len() > 0 {
        assert((rest + trail).last() == trail.last());
        assert((rest + trail).drop_last() =~= rest + trail.drop_last());
        assert forall|i: int| 0 <= i < trail.drop_last().len() implies is_white(
            #[trigger] trail.drop_last()[i],
        ) by {
            assert(trail.drop_last()[i] == trail[i]);
        }
        lemma_trim_end(rest, trail.drop_last());
    } else {
        assert(rest + trail =~= rest);
    }
}

/// To trim takes away the whitespace at either end and nothing else.
pub proof fn law_trimmed(lead: Seq<char>, body: Seq<char>, trail: Seq<char>)
    requires
        all_white(lead),
        all_white(trail),
        body.len() > 0 ==> !is_white(body[0]) && !is_white(body.last()),
    ensures
        trimmed(lead + body + trail) == body,
{
    if body.len() > 0 {
        assert(lead + body + trail =~= lead + (body + trail));
        lemma_trim_start(lead, body + trail);
        lemma_trim_end(body, trail);
    } else {
        let all = lead + body + trail;
        assert(all_white(all));
        assert(all + Seq::empty() =~= all);
        lemma_trim_start(all, Seq::empty());
    }
}

/// The first word is all that stands between the whitespace at the start, if any, and the next
/// whitespace or the end.
pub proof fn law_first_word(lead: Seq<char>, w: Seq<char>, rest: Seq<char>)
    requires
        all_white(lead),
        none_white(w),
        w.len() > 0 || rest.len() == 0,
        rest.len() > 0 ==> is_white(rest[0]),
    ensures
        first_word(lead + w + rest) == w,
{
    let s = w + rest;
    assert(lead + w + rest =~= lead + s);
    if w.len() > 0 {
        assert(s[0] == w[0]);
    }
    lemma_trim_start(lead, s);
    assert forall|j: int| 0 <= j < w.len() implies !is_white(#[trigger] s[j]) by {
        assert(s[j] == w[j]);
    }
    lemma_leading_word(s, w.len() as int);
    assert(s.take(w.len() as int) =~= w);
}

/// What is taken off the end is all that stands there of the set, and nothing else.
pub proof fn law_strip_end(s: Seq<char>, tail: Seq<char>, set: Seq<char>)
    requires
        forall|i: int| 0 <= i < tail.len() ==> set.contains(#[trigger] tail[i]),
        s.len() > 0 ==> !set.contains(s.last()),
    ensures
        strip_end(s + tail, set) == s,
    decreases tail.len(),
{
    if tail.len() > 0 {
        assert((s + tail).last() == tail.last());
        assert((s + tail).drop_last() =~= s + tail.drop_last());
        assert forall|i: int| 0 <= i < tail.drop_last().len() implies set.contains(
            #[trigger] tail.drop_last()[i],
        ) by {
            assert(tail.drop_last()[i] == tail[i]);
        }
        law_strip_end(s, tail.drop_last(), set);
    } else {
        assert(s + tail =~= s);
    }
}

/// A text without a line feed is one line, an empty one none.
pub proof fn law_one_line(line: Seq<char>)
    requires
        !line.contains('\n'),
    ensures
        lines_of(line) == if line.len() == 0 {
            Seq::empty()
        } else {
            seq![line]
        },
{
    lemma_position(line, seq!['\n']);
    if let Some(k) = position(line, seq!['\n']) {
        assert(line.subrange(k, k + 1)[0] == '\n');
        assert(line[k] == '\n');
    }
}

/// A line feed, or a carriage return and a line feed, ends a line; the lines behind it are those
/// of the rest.
pub proof fn law_line_ends(line: Seq<char>, rest: Seq<char>)
    requires
        !line.contains('\n'),
    ensures
        (line.len() == 0 || line.last() != '\r') ==> lines_of(line + seq!['\n'] + rest) == seq![line]
            + lines_of(rest),
        lines_of(line + seq!['\r'] + seq!['\n'] + rest) == seq![line] + lines_of(rest),
{
    lemma_line_ends(line, rest);
    let returned = line + seq!['\r'];
    assert forall|i: int| 0 <= i < returned.len() implies returned[i] != '\n' by {
        if i < line.len() {
            assert(returned[i] == line[i]);
            assert(line.contains(line[i]));
        }
    }
    lemma_line_ends(returned, rest);
    assert(returned.drop_last() =~= line);
}

proof fn lemma_line_ends(line: Seq<char>, rest: Seq<char>)
    requires
        !line.contains('\n'),
    ensures
        lines_of(line + seq!['\n'] + rest) == seq![without_return(line)] + lines_of(rest),
{
    let feed = seq!['\n'];
    lemma_position(line, feed);
    if has_text(line, feed) {
        let k = position(line, feed)->0;
        assert(line.subrange(k, k + 1)[0] == '\n');
        assert(line[k] == '\n');
    }
    lemma_found_behind(line, feed, rest);
    let s = line + feed + rest;
    assert(s.take(line.len() as int) =~= line);
    assert(s.skip((line.len() + 1) as int) =~= rest);
}

/// A numeral is that of a tenth and one digit more.
pub proof fn law_decimal(n: nat, d: nat)
    requires
        d < 10,
    ensures
        decimal(d) == seq!["0123456789"@[d as int]],
        n > 0 ==> decimal(10 * n + d) == decimal(n).push("0123456789"@[d as int]),
        n > 0 ==> signed_decimal(n as int) == decimal(n) && signed_decimal(-(n as int)) == seq!['-']
            + decimal(n),
        signed_decimal(0) == seq!['0'],
{
    reveal_strlit("0123456789");
    assert("0123456789"@[d as int] == digit(d)) by {
        assert(d == 0 || d == 1 || d == 2 || d == 3 || d == 4 || d == 5 || d == 6 || d == 7 || d == 8
            || d == 9);
    }
    assert((10 * n + d) / 10 == n);
    assert((10 * n + d) % 10 == d);
}

} // verus!
