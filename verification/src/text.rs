//! Text handling on sequences of characters.
//!
//! Every function here works on the characters of a string. The specification
//! functions say what a piece of text is; the executable ones compute it.

use vstd::prelude::*;

use crate::order::texts;

verus! {

/// A character with the Unicode White_Space property.
pub open spec fn whitespace(c: char) -> bool {
    let n = c as u32;
    ||| 0x9 <= n <= 0xd
    ||| n == 0x20 || n == 0x85 || n == 0xa0 || n == 0x1680
    ||| 0x2000 <= n <= 0x200a
    ||| n == 0x2028 || n == 0x2029 || n == 0x202f || n == 0x205f || n == 0x3000
}

/// `char::is_whitespace`: whether a character has the Unicode White_Space
/// property.
pub assume_specification[ char::is_whitespace ](c: char) -> (is_blank: bool)
    ensures
        is_blank == whitespace(c),
;

/// What `str::to_lowercase` makes of a text.
pub uninterp spec fn lowered(s: Seq<char>) -> Seq<char>;

/// `str::to_lowercase`: the Unicode lowercase of a text, a function of the
/// text alone.
#[verifier::external_body]
pub(crate) fn to_lowercase(s: &str) -> (r: String)
    ensures
        r@ == lowered(s@),
{
    s.to_lowercase()
}

/// What `str::to_uppercase` makes of a text.
pub uninterp spec fn raised(s: Seq<char>) -> Seq<char>;

/// `str::to_uppercase`: the Unicode uppercase of a text, a function of the
/// text alone.
#[verifier::external_body]
pub(crate) fn to_uppercase(s: &str) -> (r: String)
    ensures
        r@ == raised(s@),
{
    s.to_uppercase()
}

/// `String::push`: appends one character.
pub assume_specification[ String::push ](s: &mut String, c: char)
    ensures
        final(s)@ == old(s)@.push(c),
;

/// The characters of a text.
pub fn chars_of(s: &str) -> (r: Vec<char>)
    ensures
        r@ == s@,
{
    let mut out: Vec<char> = Vec::new();
    for c in it: s.chars()
        invariant
            out@ == s@.take(it.index()),
            it.seq() == s@,
    {
        out.push(c);
        assert(s@.take(it.index()).push(c) =~= s@.take(it.index() + 1));
    }
    assert(s@.take(s@.len() as int) =~= s@);
    out
}

/// The text between two positions of a character vector.
pub fn slice(v: &Vec<char>, from: usize, to: usize) -> (r: String)
    requires
        from <= to <= v.len(),
    ensures
        r@ == v@.subrange(from as int, to as int),
{
    let mut out = String::new();
    let mut i: usize = from;
    while i < to
        invariant
            from <= i <= to <= v.len(),
            out@ == v@.subrange(from as int, i as int),
        decreases to - i,
    {
        out.push(v[i]);
        assert(v@.subrange(from as int, i as int).push(v@[i as int]) =~= v@.subrange(
            from as int,
            i + 1,
        ));
        i = i + 1;
    }
    out
}

/// Whether two texts are the same.
pub fn same(a: &str, b: &str) -> (r: bool)
    ensures
        r == (a@ == b@),
{
    a.to_owned() == b.to_owned()
}

/// The decimal digit of a number below ten.
pub open spec fn digit(n: nat) -> char {
    (48 + n) as char
}

/// A number in decimal, without leading zeros.
pub open spec fn digits(n: nat) -> Seq<char>
    decreases n,
{
    if n < 10 {
        seq![digit(n)]
    } else {
        digits(n / 10).push(digit(n % 10))
    }
}

/// A number in decimal.
pub fn decimal_wide(n: u128) -> (r: String)
    ensures
        r@ == digits(n as nat),
    decreases n,
{
    let c = (48u8 + (n % 10) as u8) as char;
    if n < 10 {
        let mut out = String::new();
        out.push(c);
        assert(out@ =~= seq![digit(n as nat)]);
        out
    } else {
        let mut out = decimal_wide(n / 10);
        out.push(c);
        out
    }
}

/// A number in decimal.
pub fn decimal(n: u64) -> (r: String)
    ensures
        r@ == digits(n as nat),
{
    decimal_wide(n as u128)
}

/// A power of ten.
pub open spec fn tens(k: nat) -> nat
    decreases k,
{
    if k == 0 {
        1
    } else {
        10 * tens((k - 1) as nat)
    }
}

/// A number below a power of ten has at most as many digits as the power.
pub proof fn lemma_digits_len(n: nat, k: nat)
    requires
        n < tens(k),
        k > 0,
    ensures
        1 <= digits(n).len() <= k,
        forall|i: int| 0 <= i < digits(n).len() ==> (#[trigger] digits(n)[i] as u32) < 128,
    decreases k,
{
    if n >= 10 {
        assert(k > 1) by {
            if k == 1 {
                reveal_with_fuel(tens, 2);
            }
        }
        assert(n / 10 < tens((k - 1) as nat));
        lemma_digits_len(n / 10, (k - 1) as nat);
    }
}

/// The decimal of a whole number.
pub open spec fn whole(n: int) -> Seq<char> {
    if n < 0 {
        "-"@ + digits((-n) as nat)
    } else {
        digits(n as nat)
    }
}

/// The decimal of a whole number.
pub fn whole_decimal(n: i64) -> (r: String)
    ensures
        r@ == whole(n as int),
{
    if n < 0 {
        let size: i128 = -(n as i128);
        "-".to_owned().concat(decimal(size as u64).as_str())
    } else {
        decimal(n as u64)
    }
}

/// A text without the whitespace it begins with.
pub open spec fn trimmed_start(s: Seq<char>) -> Seq<char>
    decreases s.len(),
{
    if s.len() > 0 && whitespace(s[0]) {
        trimmed_start(s.drop_first())
    } else {
        s
    }
}

/// A text without the whitespace it ends with.
pub open spec fn trimmed_end(s: Seq<char>) -> Seq<char>
    decreases s.len(),
{
    if s.len() > 0 && whitespace(s.last()) {
        trimmed_end(s.drop_last())
    } else {
        s
    }
}

/// A text without the whitespace around it.
pub open spec fn trimmed(s: Seq<char>) -> Seq<char> {
    trimmed_end(trimmed_start(s))
}

/// Strips the whitespace around a text.
pub fn trim(s: &str) -> (r: String)
    ensures
        r@ == trimmed(s@),
{
    let v = chars_of(s);
    let mut from: usize = 0;
    assert(v@.skip(0) =~= v@);
    while from < v.len() && v[from].is_whitespace()
        invariant
            from <= v.len(),
            trimmed_start(v@) == trimmed_start(v@.skip(from as int)),
        decreases v.len() - from,
    {
        assert(v@.skip(from as int).drop_first() =~= v@.skip(from + 1));
        from = from + 1;
    }
    let mut to: usize = v.len();
    let ghost body = v@.skip(from as int);
    assert(body.len() > 0 ==> body[0] == v@[from as int]);
    assert(v@.subrange(from as int, to as int) =~= body);
    while from < to && v[to - 1].is_whitespace()
        invariant
            from <= to <= v.len(),
            trimmed_end(body) == trimmed_end(v@.subrange(from as int, to as int)),
        decreases to - from,
    {
        let ghost cut = v@.subrange(from as int, to as int);
        assert(cut.drop_last() =~= v@.subrange(from as int, to - 1));
        to = to - 1;
    }
    let ghost cut = v@.subrange(from as int, to as int);
    assert(cut.len() > 0 ==> cut.last() == v@[to - 1]);
    slice(&v, from, to)
}

/// A text without the copies of a character that it begins with.
pub open spec fn stripped_start(s: Seq<char>, c: char) -> Seq<char>
    decreases s.len(),
{
    if s.len() > 0 && s[0] == c {
        stripped_start(s.drop_first(), c)
    } else {
        s
    }
}

/// A text without the copies of a character that it ends with.
pub open spec fn stripped_end(s: Seq<char>, c: char) -> Seq<char>
    decreases s.len(),
{
    if s.len() > 0 && s.last() == c {
        stripped_end(s.drop_last(), c)
    } else {
        s
    }
}

/// Strips the copies of a character that a text begins with.
pub fn strip_start(s: &str, c: char) -> (r: String)
    ensures
        r@ == stripped_start(s@, c),
{
    let v = chars_of(s);
    let mut from: usize = 0;
    assert(v@.skip(0) =~= v@);
    while from < v.len() && v[from] == c
        invariant
            from <= v.len(),
            stripped_start(v@, c) == stripped_start(v@.skip(from as int), c),
        decreases v.len() - from,
    {
        assert(v@.skip(from as int).drop_first() =~= v@.skip(from + 1));
        from = from + 1;
    }
    assert(v@.subrange(from as int, v@.len() as int) =~= v@.skip(from as int));
    let ghost body = v@.skip(from as int);
    assert(body.len() > 0 ==> body[0] == v@[from as int]);
    slice(&v, from, v.len())
}

/// Strips the copies of a character that a text ends with.
pub fn strip_end(s: &str, c: char) -> (r: String)
    ensures
        r@ == stripped_end(s@, c),
{
    let v = chars_of(s);
    let mut to: usize = v.len();
    assert(v@.take(to as int) =~= v@);
    while to > 0 && v[to - 1] == c
        invariant
            to <= v.len(),
            stripped_end(v@, c) == stripped_end(v@.take(to as int), c),
        decreases to,
    {
        assert(v@.take(to as int).drop_last() =~= v@.take(to - 1));
        to = to - 1;
    }
    assert(v@.subrange(0, to as int) =~= v@.take(to as int));
    let ghost cut = v@.take(to as int);
    assert(cut.len() > 0 ==> cut.last() == v@[to - 1]);
    slice(&v, 0, to)
}

/// How many characters stand before the first copy of `c`; all of them where
/// there is none.
pub open spec fn first(s: Seq<char>, c: char) -> int
    decreases s.len(),
{
    if s.len() == 0 || s[0] == c {
        0
    } else {
        1 + first(s.drop_first(), c)
    }
}

/// `first` points at the first copy of the character.
pub proof fn lemma_first(s: Seq<char>, c: char)
    ensures
        0 <= first(s, c) <= s.len(),
        first(s, c) < s.len() ==> s[first(s, c)] == c,
        forall|i: int| 0 <= i < first(s, c) ==> s[i] != c,
        first(s, c) < s.len() <==> s.contains(c),
    decreases s.len(),
{
    if s.len() > 0 && s[0] != c {
        let t = s.drop_first();
        lemma_first(t, c);
        assert forall|i: int| 0 <= i < first(s, c) implies s[i] != c by {
            if i > 0 {
                assert(t[i - 1] == s[i]);
            }
        }
        if s.contains(c) {
            let i = choose|i: int| 0 <= i < s.len() && s[i] == c;
            assert(t[i - 1] == c);
        }
        if first(s, c) < s.len() {
            assert(s[first(s, c)] == c);
        }
    } else if s.len() > 0 {
        assert(s[0] == c);
    }
}

/// The position of the first copy of a character.
pub fn find(v: &Vec<char>, c: char) -> (r: Option<usize>)
    ensures
        match r {
            Some(i) => i == first(v@, c) && i < v.len(),
            None => first(v@, c) == v.len() && !v@.contains(c),
        },
{
    proof {
        lemma_first(v@, c);
    }
    let mut i: usize = 0;
    while i < v.len()
        invariant
            i <= v.len(),
            forall|j: int| 0 <= j < i ==> v@[j] != c,
            0 <= first(v@, c) <= v@.len(),
            first(v@, c) < v@.len() ==> v@[first(v@, c)] == c,
            forall|j: int| 0 <= j < first(v@, c) ==> v@[j] != c,
        decreases v.len() - i,
    {
        if v[i] == c {
            return Some(i);
        }
        i = i + 1;
    }
    None
}

/// The two sides of the first copy of a character.
pub open spec fn halves(s: Seq<char>, c: char) -> Option<(Seq<char>, Seq<char>)> {
    let i = first(s, c);
    if i < s.len() {
        Some((s.take(i), s.skip(i + 1)))
    } else {
        None
    }
}

/// Splits a text at the first copy of a character.
pub fn split_once(s: &str, c: char) -> (r: Option<(String, String)>)
    ensures
        match r {
            Some((a, b)) => halves(s@, c) == Some((a@, b@)),
            None => halves(s@, c) is None,
        },
{
    let v = chars_of(s);
    match find(&v, c) {
        Some(i) => {
            assert(v@.subrange(0, i as int) =~= v@.take(i as int));
            assert(v@.subrange(i + 1, v@.len() as int) =~= v@.skip(i + 1));
            Some((slice(&v, 0, i), slice(&v, i + 1, v.len())))
        },
        None => None,
    }
}

/// The pieces of a text between the copies of a character.
pub open spec fn pieces(s: Seq<char>, c: char) -> Seq<Seq<char>>
    decreases s.len(),
{
    if s.len() == 0 {
        seq![Seq::empty()]
    } else {
        let p = pieces(s.drop_last(), c);
        if s.last() == c {
            p.push(Seq::empty())
        } else {
            p.drop_last().push(p.last().push(s.last()))
        }
    }
}

/// A text has at least one piece.
pub proof fn lemma_pieces(s: Seq<char>, c: char)
    ensures
        pieces(s, c).len() >= 1,
    decreases s.len(),
{
    if s.len() > 0 {
        lemma_pieces(s.drop_last(), c);
    }
}

/// Splits a text at every copy of a character.
pub fn split(s: &str, c: char) -> (r: Vec<String>)
    ensures
        texts(r@) == pieces(s@, c),
{
    let v = chars_of(s);
    let mut out: Vec<String> = Vec::new();
    let mut current = String::new();
    let mut i: usize = 0;
    assert(texts(out@).push(current@) =~= pieces(v@.take(0), c));
    while i < v.len()
        invariant
            i <= v.len(),
            texts(out@).push(current@) == pieces(v@.take(i as int), c),
        decreases v.len() - i,
    {
        assert(v@.take(i + 1).drop_last() =~= v@.take(i as int));
        let ghost prior = texts(out@).push(current@);
        assert(prior.drop_last() =~= texts(out@));
        if v[i] == c {
            out.push(current);
            current = String::new();
            assert(texts(out@) =~= prior);
        } else {
            current.push(v[i]);
        }
        i = i + 1;
    }
    assert(v@.take(i as int) =~= v@);
    let ghost so_far = texts(out@);
    out.push(current);
    assert(texts(out@) =~= so_far.push(current@));
    out
}

/// Whether `t` stands somewhere in `s`.
pub open spec fn has(s: Seq<char>, t: Seq<char>) -> bool {
    exists|i: int| 0 <= i && i + t.len() <= s.len() && #[trigger] s.subrange(i, i + t.len()) == t
}

/// Whether a vector of characters holds another at a position.
fn stands_at(v: &Vec<char>, w: &Vec<char>, at: usize) -> (r: bool)
    requires
        at + w.len() <= v.len(),
    ensures
        r == (v@.subrange(at as int, at + w.len()) == w@),
{
    let ghost cut = v@.subrange(at as int, at + w.len());
    let mut j: usize = 0;
    while j < w.len()
        invariant
            j <= w.len(),
            at + w.len() <= v.len(),
            cut == v@.subrange(at as int, at + w.len()),
            forall|k: int| 0 <= k < j ==> cut[k] == w@[k],
        decreases w.len() - j,
    {
        assert(cut[j as int] == v@[at + j]);
        if v[at + j] != w[j] {
            return false;
        }
        j = j + 1;
    }
    assert(cut =~= w@);
    true
}

/// Whether one text stands somewhere in another.
pub fn contains(s: &str, t: &str) -> (r: bool)
    ensures
        r == has(s@, t@),
{
    let v = chars_of(s);
    let w = chars_of(t);
    if w.len() > v.len() {
        return false;
    }
    let mut i: usize = 0;
    let last: usize = v.len() - w.len();
    while i <= last
        invariant
            v@ == s@,
            w@ == t@,
            w.len() <= v.len(),
            last == v.len() - w.len(),
            i <= last + 1,
            forall|k: int| 0 <= k < i ==> #[trigger] v@.subrange(k, k + w.len()) != w@,
        decreases last + 1 - i,
    {
        if stands_at(&v, &w, i) {
            return true;
        }
        if i == last {
            return false;
        }
        i = i + 1;
    }
    false
}

/// Whether a text begins with another.
pub fn starts_with(s: &str, p: &str) -> (r: bool)
    ensures
        r == p@.is_prefix_of(s@),
{
    let v = chars_of(s);
    let w = chars_of(p);
    if w.len() > v.len() {
        return false;
    }
    stands_at(&v, &w, 0)
}

/// The texts of a list, with a separator between two of them.
pub open spec fn joined(parts: Seq<Seq<char>>, sep: Seq<char>) -> Seq<char>
    decreases parts.len(),
{
    if parts.len() == 0 {
        Seq::empty()
    } else if parts.len() == 1 {
        parts[0]
    } else {
        joined(parts.drop_last(), sep) + sep + parts.last()
    }
}

/// Joins texts with a separator.
pub fn join(parts: &Vec<String>, sep: &str) -> (r: String)
    ensures
        r@ == joined(texts(parts@), sep@),
{
    let mut out = String::new();
    let mut i: usize = 0;
    let ghost all = texts(parts@);
    while i < parts.len()
        invariant
            i <= parts.len(),
            all == texts(parts@),
            out@ == joined(all.take(i as int), sep@),
        decreases parts.len() - i,
    {
        assert(all.take(i + 1).drop_last() =~= all.take(i as int));
        assert(all[i as int] == parts@[i as int]@);
        if i > 0 {
            out = out.concat(sep);
        } else {
            assert(out@ + parts@[0]@ =~= parts@[0]@);
        }
        out = out.concat(parts[i].as_str());
        i = i + 1;
    }
    assert(all.take(i as int) =~= all);
    out
}

/// A character with the ASCII capitals made small.
pub open spec fn ascii_small(c: char) -> char {
    if 'A' <= c && c <= 'Z' {
        (c as u32 + 32) as char
    } else {
        c
    }
}

/// A text with the ASCII capitals made small.
pub open spec fn ascii_lowered(s: Seq<char>) -> Seq<char> {
    s.map_values(|c: char| ascii_small(c))
}

/// Makes an ASCII capital small.
pub fn small(c: char) -> (r: char)
    ensures
        r == ascii_small(c),
{
    if 'A' <= c && c <= 'Z' {
        (c as u8 + 32) as char
    } else {
        c
    }
}

/// Makes the ASCII capitals of a text small.
pub fn to_ascii_lowercase(s: &str) -> (r: String)
    ensures
        r@ == ascii_lowered(s@),
{
    let v = chars_of(s);
    let mut out = String::new();
    let mut i: usize = 0;
    while i < v.len()
        invariant
            i <= v.len(),
            out@ == ascii_lowered(v@.take(i as int)),
        decreases v.len() - i,
    {
        out.push(small(v[i]));
        assert(out@ =~= ascii_lowered(v@.take(i + 1)));
        i = i + 1;
    }
    assert(v@.take(i as int) =~= v@);
    out
}

/// Whether two texts are the same but for ASCII case.
pub fn same_ignoring_case(a: &str, b: &str) -> (r: bool)
    ensures
        r == (ascii_lowered(a@) == ascii_lowered(b@)),
{
    to_ascii_lowercase(a) == to_ascii_lowercase(b)
}

/// The words of a text that are complete, and the one that it ends in.
pub open spec fn runs(s: Seq<char>) -> (Seq<Seq<char>>, Seq<char>)
    decreases s.len(),
{
    if s.len() == 0 {
        (Seq::empty(), Seq::empty())
    } else {
        let (done, current) = runs(s.drop_last());
        if whitespace(s.last()) {
            if current.len() > 0 {
                (done.push(current), Seq::empty())
            } else {
                (done, current)
            }
        } else {
            (done, current.push(s.last()))
        }
    }
}

/// The words of a text: the longest stretches without whitespace.
pub open spec fn words(s: Seq<char>) -> Seq<Seq<char>> {
    let (done, current) = runs(s);
    if current.len() > 0 {
        done.push(current)
    } else {
        done
    }
}

/// Splits a text at its whitespace.
pub fn split_whitespace(s: &str) -> (r: Vec<String>)
    ensures
        texts(r@) == words(s@),
{
    let v = chars_of(s);
    let mut out: Vec<String> = Vec::new();
    let mut current = String::new();
    let mut i: usize = 0;
    assert(v@.take(0) =~= Seq::empty());
    assert(texts(out@) =~= Seq::<Seq<char>>::empty());
    while i < v.len()
        invariant
            i <= v.len(),
            (texts(out@), current@) == runs(v@.take(i as int)),
        decreases v.len() - i,
    {
        assert(v@.take(i + 1).drop_last() =~= v@.take(i as int));
        assert(v@.take(i + 1).last() == v@[i as int]);
        if v[i].is_whitespace() {
            if !current.as_str().is_empty() {
                let ghost prior = texts(out@);
                out.push(current);
                assert(texts(out@) =~= prior.push(current@));
                current = String::new();
            }
        } else {
            current.push(v[i]);
        }
        i = i + 1;
    }
    assert(v@.take(i as int) =~= v@);
    if !current.as_str().is_empty() {
        let ghost prior = texts(out@);
        out.push(current);
        assert(texts(out@) =~= prior.push(current@));
    }
    out
}

/// Strips the whitespace at the end of a text.
pub fn trim_end(s: &str) -> (r: String)
    ensures
        r@ == trimmed_end(s@),
{
    let v = chars_of(s);
    let mut to: usize = v.len();
    assert(v@.take(to as int) =~= v@);
    while to > 0 && v[to - 1].is_whitespace()
        invariant
            to <= v.len(),
            trimmed_end(v@) == trimmed_end(v@.take(to as int)),
        decreases to,
    {
        assert(v@.take(to as int).drop_last() =~= v@.take(to - 1));
        to = to - 1;
    }
    assert(v@.subrange(0, to as int) =~= v@.take(to as int));
    let ghost cut = v@.take(to as int);
    assert(cut.len() > 0 ==> cut.last() == v@[to - 1]);
    slice(&v, 0, to)
}

/// Strips the whitespace at the beginning of a text.
pub fn trim_start(s: &str) -> (r: String)
    ensures
        r@ == trimmed_start(s@),
{
    let v = chars_of(s);
    let mut from: usize = 0;
    assert(v@.skip(0) =~= v@);
    while from < v.len() && v[from].is_whitespace()
        invariant
            from <= v.len(),
            trimmed_start(v@) == trimmed_start(v@.skip(from as int)),
        decreases v.len() - from,
    {
        assert(v@.skip(from as int).drop_first() =~= v@.skip(from + 1));
        from = from + 1;
    }
    assert(v@.subrange(from as int, v@.len() as int) =~= v@.skip(from as int));
    let ghost body = v@.skip(from as int);
    assert(body.len() > 0 ==> body[0] == v@[from as int]);
    slice(&v, from, v.len())
}

/// `t` stands at position `i` of `s`.
pub open spec fn stands(s: Seq<char>, t: Seq<char>, i: int) -> bool {
    0 <= i && i + t.len() <= s.len() && s.subrange(i, i + t.len()) == t
}

/// The first position from `i` on at which `t` stands in `s`; none is past the
/// end.
pub open spec fn next_place(s: Seq<char>, t: Seq<char>, i: int) -> int
    decreases s.len() - i,
{
    if i + t.len() > s.len() || i >= s.len() {
        s.len() as int
    } else if stands(s, t, i) {
        i
    } else {
        next_place(s, t, i + 1)
    }
}

/// The two sides of the first copy of a text, which is not empty.
pub open spec fn sides(s: Seq<char>, t: Seq<char>) -> Option<(Seq<char>, Seq<char>)> {
    let i = next_place(s, t, 0);
    if i < s.len() {
        Some((s.take(i), s.skip(i + t.len())))
    } else {
        None
    }
}

/// Splits a text at the first copy of another.
pub fn split_at_first(s: &str, t: &str) -> (r: Option<(String, String)>)
    requires
        t@.len() > 0,
    ensures
        match r {
            Some((a, b)) => sides(s@, t@) == Some((a@, b@)),
            None => sides(s@, t@) is None,
        },
{
    let v = chars_of(s);
    let w = chars_of(t);
    let mut i: usize = 0;
    while w.len() <= v.len() && i <= v.len() - w.len()
        invariant
            v@ == s@,
            w@ == t@,
            w.len() > 0,
            i <= v.len(),
            next_place(s@, t@, 0) == next_place(s@, t@, i as int),
        decreases v.len() - i,
    {
        if stands_at(&v, &w, i) {
            assert(v@.subrange(0, i as int) =~= v@.take(i as int));
            assert(v@.subrange(i + w.len(), v@.len() as int) =~= v@.skip(i + w.len()));
            return Some((slice(&v, 0, i), slice(&v, i + w.len(), v.len())));
        }
        i = i + 1;
    }
    None
}

/// The last position before `i` at which `t` stands in `s`; none is -1.
pub open spec fn last_place(s: Seq<char>, t: Seq<char>, i: int) -> int
    decreases i,
{
    if i <= 0 {
        -1
    } else if stands(s, t, i - 1) {
        i - 1
    } else {
        last_place(s, t, i - 1)
    }
}

/// The two sides of the last copy of a text.
pub open spec fn last_sides(s: Seq<char>, t: Seq<char>) -> Option<(Seq<char>, Seq<char>)> {
    let i = last_place(s, t, s.len() as int);
    if i >= 0 {
        Some((s.take(i), s.skip(i + t.len())))
    } else {
        None
    }
}

/// Splits a text at the last copy of another.
pub fn split_at_last(s: &str, t: &str) -> (r: Option<(String, String)>)
    ensures
        match r {
            Some((a, b)) => last_sides(s@, t@) == Some((a@, b@)),
            None => last_sides(s@, t@) is None,
        },
{
    let v = chars_of(s);
    let w = chars_of(t);
    let mut i: usize = v.len();
    while i > 0
        invariant
            v@ == s@,
            w@ == t@,
            i <= v.len(),
            last_place(s@, t@, s@.len() as int) == last_place(s@, t@, i as int),
        decreases i,
    {
        i = i - 1;
        if w.len() <= v.len() - i && stands_at(&v, &w, i) {
            assert(v@.subrange(0, i as int) =~= v@.take(i as int));
            assert(v@.subrange(i + w.len(), v@.len() as int) =~= v@.skip(i + w.len()));
            return Some((slice(&v, 0, i), slice(&v, i + w.len(), v.len())));
        }
    }
    None
}

/// Pieces are what stands between the copies of a character: none holds it, and put
/// together with it they are the text.
pub proof fn pieces_make_up_the_text(s: Seq<char>, c: char)
    ensures
        joined(pieces(s, c), seq![c]) == s,
        forall|i: int| 0 <= i < pieces(s, c).len() ==> !(#[trigger] pieces(s, c)[i]).contains(c),
        !s.contains(c) ==> pieces(s, c) == seq![s],
    decreases s.len(),
{
    lemma_pieces(s, c);
    if s.len() > 0 {
        let t = s.drop_last();
        pieces_make_up_the_text(t, c);
        lemma_pieces(t, c);
        let p = pieces(t, c);
        let q = pieces(s, c);
        if s.last() == c {
            assert(q.drop_last() =~= p);
            assert(s =~= t + seq![c] + Seq::<char>::empty());
            assert forall|i: int| 0 <= i < q.len() implies !(#[trigger] q[i]).contains(c) by {
                if i < p.len() {
                    assert(q[i] == p[i]);
                }
            }
            assert(s[s.len() - 1] == c);
        } else {
            let grown = p.last().push(s.last());
            assert(q.drop_last() =~= p.drop_last());
            assert(q.last() == grown);
            if p.len() == 1 {
                assert(q =~= seq![grown]);
                assert(s =~= grown);
            } else {
                let head = joined(p.drop_last(), seq![c]) + seq![c];
                assert(t == head + p.last());
                assert(s =~= t.push(s.last()));
                assert(head + grown =~= (head + p.last()).push(s.last()));
            }
            assert forall|i: int| 0 <= i < q.len() implies !(#[trigger] q[i]).contains(c) by {
                if i < p.len() - 1 {
                    assert(q[i] == p[i]);
                } else {
                    assert(q[i] == grown);
                    assert(!p[p.len() - 1].contains(c));
                    assert forall|k: int| 0 <= k < grown.len() implies grown[k] != c by {
                        if k < p.last().len() {
                            assert(grown[k] == p.last()[k]);
                        }
                    }
                }
            }
            if !s.contains(c) {
                assert forall|k: int| 0 <= k < t.len() implies t[k] != c by {
                    assert(t[k] == s[k]);
                }
                assert(q =~= seq![s]);
            }
        }
    } else {
        assert(s =~= Seq::empty());
    }
}

/// The two sides of a character make up the text with it, and it is its first copy.
pub proof fn halves_make_up_the_text(s: Seq<char>, c: char)
    ensures
        halves(s, c) is Some <==> s.contains(c),
        halves(s, c) matches Some((a, b)) ==> s == a.push(c) + b && !a.contains(c),
{
    lemma_first(s, c);
    let i = first(s, c);
    if i < s.len() {
        assert(s =~= s.take(i).push(c) + s.skip(i + 1));
    }
}

proof fn lemma_trimmed_start(s: Seq<char>)
    ensures
        trimmed_start(s).len() <= s.len(),
        trimmed_start(s) == s.skip(s.len() - trimmed_start(s).len()),
        trimmed_start(s).len() > 0 ==> !whitespace(trimmed_start(s)[0]),
        forall|i: int|
            0 <= i < s.len() - trimmed_start(s).len() ==> whitespace(#[trigger] s[i]),
    decreases s.len(),
{
    if s.len() > 0 && whitespace(s[0]) {
        let t = s.drop_first();
        lemma_trimmed_start(t);
        let n = trimmed_start(t).len();
        assert(t.skip(t.len() - n) =~= s.skip(s.len() - n));
        assert forall|i: int| 0 <= i < s.len() - n implies whitespace(#[trigger] s[i]) by {
            if i > 0 {
                assert(t[i - 1] == s[i]);
            }
        }
    } else {
        assert(s.skip(0) =~= s);
    }
}

proof fn lemma_trimmed_end(s: Seq<char>)
    ensures
        trimmed_end(s).len() <= s.len(),
        trimmed_end(s) == s.take(trimmed_end(s).len() as int),
        trimmed_end(s).len() > 0 ==> !whitespace(trimmed_end(s).last()),
        forall|i: int| trimmed_end(s).len() <= i < s.len() ==> whitespace(#[trigger] s[i]),
    decreases s.len(),
{
    if s.len() > 0 && whitespace(s.last()) {
        let t = s.drop_last();
        lemma_trimmed_end(t);
        let n = trimmed_end(t).len();
        assert(t.take(n as int) =~= s.take(n as int));
        assert forall|i: int| n <= i < s.len() implies whitespace(#[trigger] s[i]) by {
            if i < t.len() {
                assert(t[i] == s[i]);
            }
        }
    } else {
        assert(s.take(s.len() as int) =~= s);
    }
}

/// Trimming takes whitespace off both ends and nothing else: what is left begins and
/// ends with something else, and only whitespace stood around it.
pub proof fn trimming_takes_off_whitespace(s: Seq<char>)
    ensures
        trimmed(s).len() > 0 ==> !whitespace(trimmed(s)[0]) && !whitespace(trimmed(s).last()),
        exists|i: int, j: int|
            0 <= i <= j <= s.len() && trimmed(s) == #[trigger] s.subrange(i, j) && (forall|k: int|
                0 <= k < i || j <= k < s.len() ==> whitespace(#[trigger] s[k])),
{
    lemma_trimmed_start(s);
    let t = trimmed_start(s);
    lemma_trimmed_end(t);
    let i = s.len() - t.len();
    let j = i + trimmed(s).len();
    assert(trimmed(s) =~= s.subrange(i, j));
    assert forall|k: int| 0 <= k < i || j <= k < s.len() implies whitespace(#[trigger] s[k]) by {
        if k >= j {
            assert(t[k - i] == s[k]);
        }
    }
    if trimmed(s).len() > 0 {
        assert(trimmed(s)[0] == t[0]);
    }
}

/// Where a text stands and stands nowhere before, it is found.
pub proof fn lemma_next_place(s: Seq<char>, t: Seq<char>, from: int, at: int)
    requires
        0 <= from <= at,
        t.len() > 0,
        stands(s, t, at),
        forall|k: int| from <= k < at ==> !#[trigger] stands(s, t, k),
    ensures
        next_place(s, t, from) == at,
    decreases at - from,
{
    if from < at {
        lemma_next_place(s, t, from + 1, at);
    }
}

/// Where a text stands and stands nowhere behind, it is found.
pub proof fn lemma_last_place(s: Seq<char>, t: Seq<char>, upto: int, at: int)
    requires
        0 <= at < upto,
        stands(s, t, at),
        forall|k: int| at < k < upto ==> !#[trigger] stands(s, t, k),
    ensures
        last_place(s, t, upto) == at,
    decreases upto - at,
{
    if at < upto - 1 {
        lemma_last_place(s, t, upto - 1, at);
    }
}

/// A text, a character that it does not hold and another text are parted again at the
/// character.
pub proof fn what_is_put_together_is_parted_again(a: Seq<char>, c: char, b: Seq<char>)
    requires
        !a.contains(c),
    ensures
        halves(a + seq![c] + b, c) == Some((a, b)),
{
    let s = a + seq![c] + b;
    lemma_first(s, c);
    let n = a.len() as int;
    assert(s[n] == c);
    let i = first(s, c);
    if i < n {
        assert(a[i] == s[i]);
    }
    assert(s.take(n) =~= a);
    assert(s.skip(n + 1) =~= b);
}

/// The words of a text hold no whitespace, and none is empty; a text without whitespace
/// is one word.
pub proof fn words_hold_no_whitespace(s: Seq<char>)
    ensures
        forall|i: int, j: int|
            0 <= i < words(s).len() && 0 <= j < words(s)[i].len() ==> !whitespace(
                #[trigger] words(s)[i][j],
            ),
        forall|i: int| 0 <= i < words(s).len() ==> (#[trigger] words(s)[i]).len() > 0,
        s.len() > 0 && (forall|i: int| 0 <= i < s.len() ==> !whitespace(#[trigger] s[i])) ==> words(
            s,
        ) == seq![s],
{
    lemma_runs(s);
}

proof fn lemma_runs(s: Seq<char>)
    ensures
        forall|i: int, j: int|
            0 <= i < runs(s).0.len() && 0 <= j < runs(s).0[i].len() ==> !whitespace(
                #[trigger] runs(s).0[i][j],
            ),
        forall|i: int| 0 <= i < runs(s).0.len() ==> (#[trigger] runs(s).0[i]).len() > 0,
        forall|j: int| 0 <= j < runs(s).1.len() ==> !whitespace(#[trigger] runs(s).1[j]),
        (forall|i: int| 0 <= i < s.len() ==> !whitespace(#[trigger] s[i])) ==> runs(s).0.len() == 0
            && runs(s).1 == s,
    decreases s.len(),
{
    if s.len() > 0 {
        let less = s.drop_last();
        lemma_runs(less);
        if forall|i: int| 0 <= i < s.len() ==> !whitespace(#[trigger] s[i]) {
            assert forall|i: int| 0 <= i < less.len() implies !whitespace(#[trigger] less[i]) by {
                assert(less[i] == s[i]);
            }
            assert(s[s.len() - 1] == s.last());
            assert(less.push(s.last()) =~= s);
        }
    } else {
        assert(s =~= Seq::empty());
    }
}

/// A word and what follows it behind whitespace are told apart.
pub proof fn whitespace_ends_a_word(s: Seq<char>, c: char)
    ensures
        whitespace(c) ==> words(s.push(c)) == words(s),
        !whitespace(c) ==> words(s.push(c)).len() > 0 && words(s.push(c)).last().last() == c,
{
    assert(s.push(c).drop_last() =~= s);
    assert(s.push(c).last() == c);
}

/// Capitals become the small letters that belong to them, and nothing else changes.
pub proof fn only_capitals_are_made_small(s: Seq<char>, i: int)
    requires
        0 <= i < s.len(),
    ensures
        ascii_lowered(s).len() == s.len(),
        65 <= s[i] as u32 <= 90 ==> ascii_lowered(s)[i] as u32 == s[i] as u32 + 32,
        !(65 <= s[i] as u32 <= 90) ==> ascii_lowered(s)[i] == s[i],
        ascii_lowered(ascii_lowered(s)) == ascii_lowered(s),
{
    assert(ascii_lowered(ascii_lowered(s)) =~= ascii_lowered(s));
}

/// Texts are joined in their order, with the separator between two of them.
pub proof fn texts_are_joined_in_their_order(parts: Seq<Seq<char>>, sep: Seq<char>, t: Seq<char>)
    ensures
        joined(Seq::empty(), sep) == Seq::<char>::empty(),
        joined(seq![t], sep) == t,
        parts.len() > 0 ==> joined(parts.push(t), sep) == joined(parts, sep) + sep + t,
{
    assert(parts.push(t).drop_last() =~= parts);
}

/// A number is written with the digits of its value, the lowest last, and without
/// leading zeros; one below zero gets a sign.
pub proof fn a_number_is_written_in_decimal(n: nat, d: nat)
    requires
        d < 10,
    ensures
        n > 0 ==> digits(n * 10 + d) == digits(n).push("0123456789"@[d as int]),
        digits(d) == seq!["0123456789"@[d as int]],
        n > 0 ==> digits(n)[0] != '0',
        n > 0 ==> whole(-(n as int)) == "-"@ + digits(n),
        whole(n as int) == digits(n),
{
    reveal_strlit("0123456789");
    assert(digit(d) == "0123456789"@[d as int]) by {
        if d == 0 {
        } else if d == 1 {
        } else if d == 2 {
        } else if d == 3 {
        } else if d == 4 {
        } else if d == 5 {
        } else if d == 6 {
        } else if d == 7 {
        } else if d == 8 {
        } else {
            assert(d == 9);
        }
    }
    if n > 0 {
        assert((n * 10 + d) / 10 == n);
        assert((n * 10 + d) % 10 == d);
        lemma_no_leading_zero(n);
    }
}

proof fn lemma_no_leading_zero(n: nat)
    requires
        n > 0,
    ensures
        digits(n).len() > 0,
        digits(n)[0] != '0',
    decreases n,
{
    if n < 10 {
        assert(digits(n)[0] as u32 == 48 + n);
    } else {
        lemma_no_leading_zero(n / 10);
    }
}

/// A text is parted at the first copy of another, and at the last.
pub proof fn a_text_is_parted_at_a_copy(s: Seq<char>, t: Seq<char>)
    requires
        t.len() > 0,
    ensures
        sides(s, t) matches Some((a, b)) ==> s == a + t + b && forall|k: int|
            0 <= k < a.len() ==> !#[trigger] stands(s, t, k),
        last_sides(s, t) matches Some((a, b)) ==> s == a + t + b && forall|k: int|
            a.len() < k < s.len() ==> !#[trigger] stands(s, t, k),
        sides(s, t) is None ==> !crate::text::has(s, t),
        last_sides(s, t) is None ==> !crate::text::has(s, t),
{
    lemma_next_found(s, t, 0);
    lemma_last_found(s, t, s.len() as int);
    let i = next_place(s, t, 0);
    if i < s.len() {
        assert(s.take(i) + t + s.skip(i + t.len()) =~= s);
    }
    let j = last_place(s, t, s.len() as int);
    if j >= 0 {
        assert(s.take(j) + t + s.skip(j + t.len()) =~= s);
    }
    if has(s, t) {
        let k = choose|k: int|
            0 <= k && k + t.len() <= s.len() && #[trigger] s.subrange(k, k + t.len()) == t;
        assert(stands(s, t, k));
    }
}

proof fn lemma_next_found(s: Seq<char>, t: Seq<char>, i: int)
    requires
        0 <= i,
        t.len() > 0,
    ensures
        i < s.len() ==> i <= next_place(s, t, i) <= s.len(),
        i >= s.len() ==> next_place(s, t, i) == s.len(),
        next_place(s, t, i) < s.len() ==> stands(s, t, next_place(s, t, i)),
        forall|k: int| i <= k < next_place(s, t, i) ==> !#[trigger] stands(s, t, k),
    decreases s.len() - i,
{
    if i + t.len() <= s.len() && i < s.len() && !stands(s, t, i) {
        lemma_next_found(s, t, i + 1);
    }
}

proof fn lemma_last_found(s: Seq<char>, t: Seq<char>, i: int)
    requires
        0 <= i <= s.len(),
    ensures
        last_place(s, t, i) < i,
        last_place(s, t, i) >= 0 ==> stands(s, t, last_place(s, t, i)),
        forall|k: int| 0 <= k && last_place(s, t, i) < k < i ==> !#[trigger] stands(s, t, k),
    decreases i,
{
    if i > 0 && !stands(s, t, i - 1) {
        lemma_last_found(s, t, i - 1);
    }
}

} // verus!
