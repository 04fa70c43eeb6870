//! Text over sequences of characters: trimming, searching, splitting, joining.
use vstd::prelude::*;

verus! {

/// The characters with the Unicode `White_Space` property.
pub open spec fn is_white(c: char) -> bool {
    ||| '\u{9}' <= c <= '\u{d}'
    ||| c == ' '
    ||| c == '\u{85}'
    ||| c == '\u{a0}'
    ||| c == '\u{1680}'
    ||| '\u{2000}' <= c <= '\u{200a}'
    ||| c == '\u{2028}'
    ||| c == '\u{2029}'
    ||| c == '\u{202f}'
    ||| c == '\u{205f}'
    ||| c == '\u{3000}'
}

/// `char::is_whitespace` answers whether a character has the Unicode
/// `White_Space` property, that is whether it is one of those of [`is_white`].
pub assume_specification[ char::is_whitespace ](c: char) -> (b: bool)
    ensures
        b == is_white(c),
;

/// `String::push` appends one character.
pub assume_specification[ String::push ](s: &mut String, c: char)
    ensures
        final(s)@ == old(s)@.push(c),
;

/// The characters of `s`, in order.
pub fn chars_of(s: &str) -> (v: Vec<char>)
    ensures
        v@ == s@,
{
    let mut v: Vec<char> = Vec::new();
    for c in it: s.chars()
        invariant
            v@ == s@.take(it.index()),
            it.seq() == s@,
    {
        v.push(c);
        assert(s@.take(it.index() + 1) == s@.take(it.index()).push(c));
    }
    v
}

/// The string made of the characters `from..to` of `v`.
pub fn string_of(v: &Vec<char>, from: usize, to: usize) -> (s: String)
    requires
        from <= to <= v.len(),
    ensures
        s@ == v@.subrange(from as int, to as int),
{
    let mut s = String::new();
    let mut i: usize = from;
    while i < to
        invariant
            from <= i <= to <= v.len(),
            s@ == v@.subrange(from as int, i as int),
        decreases to - i,
    {
        s.push(v[i]);
        i = i + 1;
        assert(v@.subrange(from as int, i as int) == v@.subrange(from as int, i - 1).push(
            v@[i - 1],
        ));
    }
    s
}

// ---------------------------------------------------------------------------
// Trimming
// ---------------------------------------------------------------------------

/// `s` without its leading white space.
pub open spec fn trimmed_start(s: Seq<char>) -> Seq<char>
    decreases s.len(),
{
    if s.len() > 0 && is_white(s[0]) {
        trimmed_start(s.drop_first())
    } else {
        s
    }
}

/// `s` without its trailing white space.
pub open spec fn trimmed_end(s: Seq<char>) -> Seq<char>
    decreases s.len(),
{
    if s.len() > 0 && is_white(s.last()) {
        trimmed_end(s.drop_last())
    } else {
        s
    }
}

/// `s` without white space at either end.
pub open spec fn trimmed(s: Seq<char>) -> Seq<char> {
    trimmed_end(trimmed_start(s))
}

/// Whether `s` holds nothing but white space.
pub open spec fn is_blank(s: Seq<char>) -> bool {
    trimmed(s).len() == 0
}

proof fn lemma_trimmed_start_at(s: Seq<char>, k: int)
    requires
        0 <= k <= s.len(),
        forall|i: int| 0 <= i < k ==> is_white(#[trigger] s[i]),
        k < s.len() ==> !is_white(s[k]),
    ensures
        trimmed_start(s) == s.subrange(k, s.len() as int),
    decreases s.len(),
{
    if k == 0 {
        assert(s.subrange(0, s.len() as int) == s);
    } else {
        let t = s.drop_first();
        assert(forall|i: int| 0 <= i < k - 1 ==> #[trigger] t[i] == s[i + 1]);
        lemma_trimmed_start_at(t, k - 1);
        assert(t.subrange(k - 1, t.len() as int) == s.subrange(k, s.len() as int));
    }
}

proof fn lemma_trimmed_end_at(s: Seq<char>, k: int)
    requires
        0 <= k <= s.len(),
        forall|i: int| k <= i < s.len() ==> is_white(#[trigger] s[i]),
        k > 0 ==> !is_white(s[k - 1]),
    ensures
        trimmed_end(s) == s.subrange(0, k),
    decreases s.len(),
{
    if k == s.len() {
        assert(s.subrange(0, k) == s);
    } else {
        let t = s.drop_last();
        lemma_trimmed_end_at(t, k);
        assert(t.subrange(0, k) == s.subrange(0, k));
    }
}

/// The number of leading white space characters of `v`.
fn leading_white(v: &Vec<char>) -> (k: usize)
    ensures
        k <= v.len(),
        forall|i: int| 0 <= i < k ==> is_white(#[trigger] v@[i]),
        k < v.len() ==> !is_white(v@[k as int]),
{
    let mut k: usize = 0;
    while k < v.len() && v[k].is_whitespace()
        invariant
            k <= v.len(),
            forall|i: int| 0 <= i < k ==> is_white(#[trigger] v@[i]),
        decreases v.len() - k,
    {
        k = k + 1;
    }
    k
}

/// The end of the last character of `v`, from `start` on, that is not white
/// space.
fn end_of_text(v: &Vec<char>, start: usize) -> (k: usize)
    requires
        start <= v.len(),
    ensures
        start <= k <= v.len(),
        forall|i: int| k <= i < v.len() ==> is_white(#[trigger] v@[i]),
        k > start ==> !is_white(v@[k - 1]),
{
    let mut k: usize = v.len();
    while k > start && v[k - 1].is_whitespace()
        invariant
            start <= k <= v.len(),
            forall|i: int| k <= i < v.len() ==> is_white(#[trigger] v@[i]),
        decreases k,
    {
        k = k - 1;
    }
    k
}

/// `s` without its leading white space.
pub fn trim_start(s: &str) -> (r: String)
    ensures
        r@ == trimmed_start(s@),
{
    let v = chars_of(s);
    let k = leading_white(&v);
    proof {
        lemma_trimmed_start_at(s@, k as int);
    }
    string_of(&v, k, v.len())
}

/// `s` without white space at either end.
pub fn trim(s: &str) -> (r: String)
    ensures
        r@ == trimmed(s@),
{
    let v = chars_of(s);
    let k = leading_white(&v);
    let e = end_of_text(&v, k);
    proof {
        lemma_trimmed_start_at(s@, k as int);
        let t = s@.subrange(k as int, s@.len() as int);
        assert forall|i: int| e - k <= i < t.len() implies is_white(#[trigger] t[i]) by {
            assert(t[i] == s@[i + k]);
        }
        lemma_trimmed_end_at(t, e - k);
        assert(t.subrange(0, e - k) == s@.subrange(k as int, e as int));
    }
    string_of(&v, k, e)
}

/// Whether `s` holds nothing but white space.
pub fn blank(s: &str) -> (b: bool)
    ensures
        b == is_blank(s@),
{
    let t = trim(s);
    t.as_str().is_empty()
}

/// The ends of a trimmed text are not white space.
pub proof fn trimmed_has_no_white_ends(s: Seq<char>)
    ensures
        trimmed(s).len() > 0 ==> !is_white(trimmed(s)[0]) && !is_white(trimmed(s).last()),
{
    lemma_start_not_white(s);
    lemma_end_not_white(trimmed_start(s));
}

proof fn lemma_start_not_white(s: Seq<char>)
    ensures
        trimmed_start(s).len() > 0 ==> !is_white(trimmed_start(s)[0]),
    decreases s.len(),
{
    if s.len() > 0 && is_white(s[0]) {
        lemma_start_not_white(s.drop_first());
    }
}

proof fn lemma_end_not_white(s: Seq<char>)
    ensures
        trimmed_end(s).len() > 0 ==> !is_white(trimmed_end(s).last()),
        trimmed_end(s).len() <= s.len(),
        trimmed_end(s) == s.take(trimmed_end(s).len() as int),
    decreases s.len(),
{
    if s.len() > 0 && is_white(s.last()) {
        lemma_end_not_white(s.drop_last());
        assert(s.drop_last().take(trimmed_end(s).len() as int) == s.take(
            trimmed_end(s).len() as int,
        ));
    } else {
        assert(s.take(s.len() as int) == s);
    }
}

/// Trimming twice changes nothing more.
pub proof fn trimming_is_idempotent(s: Seq<char>)
    ensures
        trimmed(trimmed(s)) == trimmed(s),
{
    let t = trimmed(s);
    trimmed_has_no_white_ends(s);
    lemma_trimmed_start_at(t, 0);
    assert(t.subrange(0, t.len() as int) == t);
}

// ---------------------------------------------------------------------------
// Searching
// ---------------------------------------------------------------------------

/// Whether `pat` stands in `s` at position `i`.
pub open spec fn occurs_at(s: Seq<char>, pat: Seq<char>, i: int) -> bool {
    0 <= i && i + pat.len() <= s.len() && s.subrange(i, i + pat.len()) == pat
}

/// Whether `pat` stands somewhere in `s`.
pub open spec fn has(s: Seq<char>, pat: Seq<char>) -> bool {
    exists|i: int| occurs_at(s, pat, i)
}

/// Whether `s` begins with `pat`.
pub open spec fn begins(s: Seq<char>, pat: Seq<char>) -> bool {
    occurs_at(s, pat, 0)
}

/// Whether `s` ends with `pat`.
pub open spec fn ends(s: Seq<char>, pat: Seq<char>) -> bool {
    occurs_at(s, pat, s.len() - pat.len())
}

/// The first position of `s`, from `from` on, at which `pat` stands.
pub open spec fn first_from(s: Seq<char>, pat: Seq<char>, from: int) -> Option<int>
    decreases s.len() - from + 1,
{
    if from < 0 || from + pat.len() > s.len() {
        None
    } else if occurs_at(s, pat, from) {
        Some(from)
    } else {
        first_from(s, pat, from + 1)
    }
}

/// The first position of `s` at which `pat` stands.
pub open spec fn first(s: Seq<char>, pat: Seq<char>) -> Option<int> {
    first_from(s, pat, 0)
}

/// [`first_from`] is the least position at which `pat` stands, or nothing where
/// it stands nowhere.
pub proof fn first_from_is_least(s: Seq<char>, pat: Seq<char>, from: int)
    requires
        from >= 0,
    ensures
        match first_from(s, pat, from) {
            Some(i) => from <= i && occurs_at(s, pat, i) && forall|j: int|
                from <= j < i ==> !occurs_at(s, pat, j),
            None => forall|j: int| from <= j ==> !occurs_at(s, pat, j),
        },
    decreases s.len() - from + 1,
{
    if from + pat.len() <= s.len() && !occurs_at(s, pat, from) {
        first_from_is_least(s, pat, from + 1);
    }
}

/// Whether `pat` stands in `v` at position `i`.
fn stands_at(v: &Vec<char>, pat: &Vec<char>, i: usize) -> (b: bool)
    requires
        i <= v.len(),
    ensures
        b == occurs_at(v@, pat@, i as int),
{
    if v.len() - i < pat.len() {
        return false;
    }
    let mut k: usize = 0;
    while k < pat.len()
        invariant
            k <= pat.len(),
            i + pat.len() <= v.len(),
            forall|j: int| 0 <= j < k ==> v@[i + j] == #[trigger] pat@[j],
        decreases pat.len() - k,
    {
        if v[i + k] != pat[k] {
            assert(v@.subrange(i as int, i + pat@.len())[k as int] != pat@[k as int]);
            return false;
        }
        k = k + 1;
    }
    assert(v@.subrange(i as int, i + pat@.len()) == pat@);
    true
}

/// The first position of `v`, from `from` on, at which `pat` stands.
fn position_from(v: &Vec<char>, pat: &Vec<char>, from: usize) -> (r: Option<usize>)
    requires
        from <= v.len(),
    ensures
        match r {
            Some(i) => first_from(v@, pat@, from as int) == Some(i as int) && i + pat.len() <= v.len(),
            None => first_from(v@, pat@, from as int) is None,
        },
{
    let mut i: usize = from;
    while pat.len() <= v.len() - i
        invariant
            from <= i <= v.len(),
            first_from(v@, pat@, from as int) == first_from(v@, pat@, i as int),
        decreases v.len() - i,
    {
        if stands_at(v, pat, i) {
            return Some(i);
        }
        if i == v.len() {
            assert(v@.subrange(i as int, i + pat@.len()) == pat@);
            return None;
        }
        i = i + 1;
    }
    None
}

/// The first position, in characters, of `s` at which `pat` stands.
pub fn find(s: &str, pat: &str) -> (r: Option<usize>)
    ensures
        match r {
            Some(i) => first(s@, pat@) == Some(i as int) && i + pat@.len() <= s@.len(),
            None => first(s@, pat@) is None,
        },
{
    let v = chars_of(s);
    let p = chars_of(pat);
    position_from(&v, &p, 0)
}

/// What follows the first occurrence of `pat` in `s`.
pub fn after_first(s: &str, pat: &str) -> (r: Option<String>)
    ensures
        match r {
            Some(t) => first(s@, pat@) is Some && t@ == s@.skip(
                first(s@, pat@).unwrap() + pat@.len(),
            ),
            None => first(s@, pat@) is None,
        },
{
    let v = chars_of(s);
    let p = chars_of(pat);
    match position_from(&v, &p, 0) {
        Some(i) => {
            assert(s@.skip(i + pat@.len()) == s@.subrange(i + pat@.len(), s@.len() as int));
            Some(string_of(&v, i + p.len(), v.len()))
        },
        None => None,
    }
}

/// Whether `pat` stands somewhere in `s`.
pub fn contains(s: &str, pat: &str) -> (b: bool)
    ensures
        b == has(s@, pat@),
{
    let r = find(s, pat);
    proof {
        first_from_is_least(s@, pat@, 0);
        if r is None {
            assert forall|i: int| !occurs_at(s@, pat@, i) by {
                if i >= 0 {
                    assert(!occurs_at(s@, pat@, i));
                }
            }
        }
    }
    r.is_some()
}

/// Whether `s` begins with `pat`.
pub fn starts_with(s: &str, pat: &str) -> (b: bool)
    ensures
        b == begins(s@, pat@),
{
    let v = chars_of(s);
    let p = chars_of(pat);
    stands_at(&v, &p, 0)
}

/// Whether `s` ends with `pat`.
pub fn ends_with(s: &str, pat: &str) -> (b: bool)
    ensures
        b == ends(s@, pat@),
{
    let v = chars_of(s);
    let p = chars_of(pat);
    if p.len() > v.len() {
        return false;
    }
    stands_at(&v, &p, v.len() - p.len())
}

/// Whether two texts are the same.
pub fn same(a: &str, b: &str) -> (r: bool)
    ensures
        r == (a@ == b@),
{
    let v = chars_of(a);
    let w = chars_of(b);
    let r = v.len() == w.len() && stands_at(&v, &w, 0);
    proof {
        if v@.len() == w@.len() {
            assert(v@.subrange(0, v@.len() as int) == v@);
        }
    }
    r
}

/// `s` with every occurrence of `pat` taken out, from left to right.
pub open spec fn without(s: Seq<char>, pat: Seq<char>) -> Seq<char>
    decreases s.len(),
{
    if pat.len() == 0 {
        s
    } else {
        match first(s, pat) {
            Some(i) => if 0 <= i && i + pat.len() <= s.len() {
                s.take(i) + without(s.skip(i + pat.len()), pat)
            } else {
                s
            },
            None => s,
        }
    }
}

/// `s` with every occurrence of `pat` taken out, from left to right.
pub fn remove_all(s: &str, pat: &str) -> (r: String)
    requires
        pat@.len() > 0,
    ensures
        r@ == without(s@, pat@),
{
    let v = chars_of(s);
    let p = chars_of(pat);
    let mut out = String::new();
    let mut from: usize = 0;
    assert(v@.skip(0) == v@);
    loop
        invariant
            from <= v.len(),
            v@ == s@,
            p@ == pat@,
            p@.len() > 0,
            without(s@, pat@) == out@ + without(v@.skip(from as int), pat@),
        decreases v.len() - from,
    {
        let at = position_from(&v, &p, from);
        proof {
            lemma_first_shift(v@, p@, from as int, 0);
        }
        match at {
            Some(i) => {
                proof {
                    first_from_is_least(v@, p@, from as int);
                    assert(v@.skip(from as int).take(i - from) == v@.subrange(from as int, i as int));
                    assert(v@.skip(from as int).skip(i - from + p@.len()) == v@.skip(i + p@.len()));
                }
                let piece = string_of(&v, from, i);
                out.append(piece.as_str());
                from = i + p.len();
            },
            None => {
                assert(v@.skip(from as int) == v@.subrange(from as int, v@.len() as int));
                let piece = string_of(&v, from, v.len());
                out.append(piece.as_str());
                return out;
            },
        }
    }
}

/// Searching `s` from `from + k` on is searching what follows `from`, from `k` on.
proof fn lemma_first_shift(s: Seq<char>, pat: Seq<char>, from: int, k: int)
    requires
        0 <= from <= s.len(),
        0 <= k,
    ensures
        first_from(s, pat, from + k) == match first_from(s.skip(from), pat, k) {
            Some(i) => Some(i + from),
            None => None::<int>,
        },
    decreases s.len() - from - k + 1,
{
    let t = s.skip(from);
    if from + k + pat.len() <= s.len() {
        assert(t.subrange(k, k + pat.len()) == s.subrange(from + k, from + k + pat.len()));
        if !occurs_at(s, pat, from + k) {
            lemma_first_shift(s, pat, from, k + 1);
        }
    }
}

// ---------------------------------------------------------------------------
// Splitting and joining
// ---------------------------------------------------------------------------

/// The position of the first `\n` of `s`, or its length where there is none.
pub open spec fn line_end(s: Seq<char>) -> int
    decreases s.len(),
{
    if s.len() == 0 || s[0] == '\n' {
        0
    } else {
        1 + line_end(s.drop_first())
    }
}

/// A line without the `\r` that may end it.
pub open spec fn without_cr(s: Seq<char>) -> Seq<char> {
    if s.len() > 0 && s.last() == '\r' {
        s.drop_last()
    } else {
        s
    }
}

/// The lines of `s`: each ends at a `\n` or a `\r\n`, which is not part of it;
/// the last one may end with the text instead.
pub open spec fn lines_of(s: Seq<char>) -> Seq<Seq<char>>
    decreases s.len(),
{
    let e = line_end(s);
    if s.len() == 0 {
        Seq::empty()
    } else if 0 <= e < s.len() {
        seq![without_cr(s.take(e))] + lines_of(s.skip(e + 1))
    } else {
        seq![s]
    }
}

/// `parts` one after the other, with `sep` between two of them.
pub open spec fn joined(parts: Seq<Seq<char>>, sep: Seq<char>) -> Seq<char>
    decreases parts.len(),
{
    if parts.len() == 0 {
        Seq::empty()
    } else if parts.len() == 1 {
        parts[0]
    } else {
        joined(parts.drop_last(), sep) + sep + parts.last()
    }
}

/// The texts of `v`.
pub open spec fn texts(v: Seq<String>) -> Seq<Seq<char>> {
    v.map_values(|s: String| s@)
}

/// `parts` one after the other, with `sep` between two of them.
pub fn join(parts: &Vec<String>, sep: &str) -> (r: String)
    ensures
        r@ == joined(texts(parts@), sep@),
{
    let mut r = String::new();
    let mut i: usize = 0;
    assert(texts(parts@).take(0) == Seq::<Seq<char>>::empty());
    while i < parts.len()
        invariant
            i <= parts.len(),
            r@ == joined(texts(parts@).take(i as int), sep@),
        decreases parts.len() - i,
    {
        if i > 0 {
            r.append(sep);
        }
        r.append(parts[i].as_str());
        i = i + 1;
        proof {
            let t = texts(parts@).take(i as int);
            assert(t.drop_last() == texts(parts@).take(i - 1));
            assert(t.last() == parts@[i - 1]@);
            if i == 1 {
                assert(t[0] == parts@[0]@);
            }
        }
    }
    assert(texts(parts@).take(parts@.len() as int) == texts(parts@));
    r
}

/// The lines of `s`.
pub fn lines(s: &str) -> (r: Vec<String>)
    ensures
        texts(r@) == lines_of(s@),
{
    let v = chars_of(s);
    let mut out: Vec<String> = Vec::new();
    let mut from: usize = 0;
    assert(v@.skip(0) == v@);
    assert(texts(out@) + lines_of(s@) == lines_of(s@));
    while from < v.len()
        invariant
            from <= v.len(),
            v@ == s@,
            lines_of(s@) == texts(out@) + lines_of(v@.skip(from as int)),
        decreases v.len() - from,
    {
        let e = line_break(&v, from);
        let ghost rest = v@.skip(from as int);
        let ghost before = out@;
        if e == v.len() {
            let line = string_of(&v, from, e);
            assert(line@ == rest);
            out.push(line);
            assert(texts(out@) == texts(before).push(rest));
            assert(v@.skip(e as int).len() == 0);
            assert(texts(out@) + Seq::<Seq<char>>::empty() == texts(before) + seq![rest]);
            from = e;
        } else {
            let mut to: usize = e;
            if e > from && v[e - 1] == '\r' {
                to = e - 1;
            }
            let line = string_of(&v, from, to);
            proof {
                assert(rest.take(e - from) == v@.subrange(from as int, e as int));
                assert(without_cr(rest.take(e - from)) == v@.subrange(from as int, to as int));
                assert(rest.skip(e - from + 1) == v@.skip(e + 1));
            }
            out.push(line);
            assert(texts(out@) == texts(before).push(line@));
            assert(texts(before) + (seq![line@] + lines_of(v@.skip(e + 1))) == texts(out@)
                + lines_of(v@.skip(e + 1)));
            from = e + 1;
        }
    }
    assert(v@.skip(from as int).len() == 0);
    assert(texts(out@) + Seq::<Seq<char>>::empty() == texts(out@));
    out
}

/// The position of the first `\n` of `v` from `from` on, or the length of `v`.
pub fn line_break(v: &Vec<char>, from: usize) -> (e: usize)
    requires
        from <= v.len(),
    ensures
        from <= e <= v.len(),
        e - from == line_end(v@.skip(from as int)),
        e < v.len() ==> v@[e as int] == '\n',
{
    let mut e: usize = from;
    while e < v.len() && v[e] != '\n'
        invariant
            from <= e <= v.len(),
            line_end(v@.skip(from as int)) == e - from + line_end(v@.skip(e as int)),
        decreases v.len() - e,
    {
        assert(v@.skip(e as int).drop_first() == v@.skip(e + 1));
        e = e + 1;
    }
    e
}

/// The last `n` lines of `s`, one per line.
pub open spec fn last_lines(s: Seq<char>, n: nat) -> Seq<char> {
    let all = lines_of(s);
    joined(all.skip(if all.len() > n { all.len() - n } else { 0 }), "\n"@)
}

/// The last `n` lines of `s`, one per line.
pub fn keep_last_lines(s: &str, n: usize) -> (r: String)
    ensures
        r@ == last_lines(s@, n as nat),
{
    let all = lines(s);
    let mut from: usize = 0;
    if all.len() > n {
        from = all.len() - n;
    }
    let mut kept: Vec<String> = Vec::new();
    let mut i: usize = from;
    while i < all.len()
        invariant
            from <= i <= all.len(),
            texts(kept@) == texts(all@).subrange(from as int, i as int),
        decreases all.len() - i,
    {
        let ghost before = kept@;
        kept.push(all[i].clone());
        i = i + 1;
        assert(texts(kept@) == texts(before).push(all@[i - 1]@));
        assert(texts(all@).subrange(from as int, i as int) == texts(all@).subrange(
            from as int,
            i - 1,
        ).push(all@[i - 1]@));
    }
    assert(texts(all@).subrange(from as int, all@.len() as int) == texts(all@).skip(from as int));
    join(&kept, "\n")
}

/// `a` followed by `b`.
pub fn concat(a: &str, b: &str) -> (r: String)
    ensures
        r@ == a@ + b@,
{
    let mut r = a.to_string();
    r.append(b);
    r
}

/// `a`, `b` and `c`, one after the other.
pub fn concat3(a: &str, b: &str, c: &str) -> (r: String)
    ensures
        r@ == a@ + b@ + c@,
{
    let mut r = a.to_string();
    r.append(b);
    r.append(c);
    r
}

// ---------------------------------------------------------------------------
// Numbers
// ---------------------------------------------------------------------------

/// The character of a decimal digit.
pub open spec fn digit_char(d: nat) -> char {
    ('0' as nat + d) as char
}

/// The decimal notation of `n`.
pub open spec fn decimal(n: nat) -> Seq<char>
    decreases n,
{
    if n < 10 {
        seq![digit_char(n)]
    } else {
        decimal(n / 10).push(digit_char(n % 10))
    }
}

/// The decimal notation of `n`.
pub fn decimal_of(n: u64) -> (r: String)
    ensures
        r@ == decimal(n as nat),
    decreases n,
{
    let d: u8 = (n % 10) as u8;
    let c: char = (48 + d) as char;
    let mut r = String::new();
    if n >= 10 {
        r = decimal_of(n / 10);
    }
    r.push(c);
    assert(n < 10 ==> r@ == seq![c]);
    r
}

/// The value of the decimal digits `s`, or nothing where one of them is no digit.
pub open spec fn digits_value(s: Seq<char>) -> Option<nat>
    decreases s.len(),
{
    if s.len() == 0 {
        Some(0)
    } else {
        match digits_value(s.drop_last()) {
            Some(v) => if '0' <= s.last() <= '9' {
                Some((v * 10 + (s.last() as nat - '0' as nat)) as nat)
            } else {
                None
            },
            None => None,
        }
    }
}

/// The number that `s` denotes: decimal digits, at least one, after an optional
/// `+`, with a value that fits in 32 bits.
pub open spec fn number(s: Seq<char>) -> Option<nat> {
    let digits = if s.len() > 0 && s[0] == '+' {
        s.drop_first()
    } else {
        s
    };
    if digits.len() == 0 {
        None
    } else {
        match digits_value(digits) {
            Some(v) => if v <= u32::MAX {
                Some(v)
            } else {
                None
            },
            None => None,
        }
    }
}

/// Digits that follow can only raise the value, or make it no number.
proof fn lemma_digits_grow(s: Seq<char>, k: int)
    requires
        0 <= k <= s.len(),
    ensures
        match (digits_value(s.take(k)), digits_value(s)) {
            (Some(a), Some(b)) => a <= b,
            (None, b) => b is None,
            _ => true,
        },
    decreases s.len(),
{
    if k == s.len() {
        assert(s.take(k) == s);
    } else {
        lemma_digits_grow(s.drop_last(), k);
        assert(s.drop_last().take(k) == s.take(k));
    }
}

/// The number that `s` denotes (see [`number`]).
pub fn parse_number(s: &str) -> (r: Option<u32>)
    ensures
        match r {
            Some(n) => number(s@) == Some(n as nat),
            None => number(s@) is None,
        },
{
    let v = chars_of(s);
    let mut from: usize = 0;
    if v.len() > 0 && v[0] == '+' {
        from = 1;
    }
    let ghost digits = v@.skip(from as int);
    assert(from == 0 ==> digits == v@);
    assert(from == 1 ==> digits == v@.drop_first());
    if from == v.len() {
        return None;
    }
    let mut acc: u64 = 0;
    let mut i: usize = from;
    assert(digits.take(0).len() == 0);
    while i < v.len()
        invariant
            from <= i <= v.len(),
            digits == v@.skip(from as int),
            digits_value(digits.take(i - from)) == Some(acc as nat),
            acc <= u32::MAX,
            number(v@) == (match digits_value(digits) {
                Some(v) => if v <= u32::MAX {
                    Some(v)
                } else {
                    None
                },
                None => None,
            }),
            v@ == s@,
        decreases v.len() - i,
    {
        let c = v[i];
        proof {
            assert(digits.take(i - from + 1).drop_last() == digits.take(i - from));
            assert(digits.take(i - from + 1).last() == c);
            lemma_digits_grow(digits, i - from + 1);
        }
        if !('0' <= c && c <= '9') {
            return None;
        }
        acc = acc * 10 + (c as u64 - 48);
        if acc > 0xffff_ffff {
            return None;
        }
        i = i + 1;
    }
    assert(digits.take(v@.len() - from) == digits);
    Some(acc as u32)
}

// ---------------------------------------------------------------------------
// Case and encoding
// ---------------------------------------------------------------------------

/// What `str::to_lowercase` makes of a text.
pub uninterp spec fn lowercase(s: Seq<char>) -> Seq<char>;

/// Whether `s` holds no ASCII capital.
pub open spec fn no_capitals(s: Seq<char>) -> bool {
    forall|i: int| 0 <= i < s.len() ==> !('A' <= #[trigger] s[i] <= 'Z')
}

/// Whether `c` is an ASCII lower case letter, a digit or a dash.
pub open spec fn is_low(c: char) -> bool {
    'a' <= c <= 'z' || '0' <= c <= '9' || c == '-'
}

/// Whether `s` is made of ASCII lower case letters, digits and dashes.
pub open spec fn all_low(s: Seq<char>) -> bool {
    forall|i: int| 0 <= i < s.len() ==> is_low(#[trigger] s[i])
}

/// Calls `str::to_lowercase`, the Unicode lowercase of a text. The result is a
/// function of the text alone. It holds no ASCII capital, and a text of ASCII lower
/// case letters, digits and dashes stays as it is.
#[verifier::external_body]
pub(crate) fn to_lowercase(s: &str) -> (r: String)
    ensures
        r@ == lowercase(s@),
        no_capitals(r@),
        all_low(s@) ==> r@ == s@,
{
    s.to_lowercase()
}

/// What `String::from_utf8_lossy` makes of a sequence of bytes.
pub uninterp spec fn utf8_lossy(bytes: Seq<u8>) -> Seq<char>;

/// Calls `String::from_utf8_lossy`: the text that the bytes encode in UTF-8,
/// with a replacement character for what is no UTF-8. The result is a function
/// of the bytes alone, and encodes to those bytes where they are valid UTF-8.
#[verifier::external_body]
pub(crate) fn from_utf8_lossy(bytes: &[u8]) -> (r: String)
    ensures
        r@ == utf8_lossy(bytes@),
        vstd::utf8::valid_utf8(bytes@) ==> vstd::utf8::encode_utf8(r@) == bytes@,
{
    String::from_utf8_lossy(bytes).into_owned()
}

// ---------------------------------------------------------------------------
// Laws
// ---------------------------------------------------------------------------

/// Trimming takes off the white space at both ends and nothing else: what lies
/// between the first and the last other character stays as it is.
pub proof fn trimming_takes_off_white_ends(s: Seq<char>, a: int, b: int)
    requires
        0 <= a <= b <= s.len(),
        forall|i: int| 0 <= i < a ==> is_white(#[trigger] s[i]),
        forall|i: int| b <= i < s.len() ==> is_white(#[trigger] s[i]),
        a < b ==> !is_white(s[a]) && !is_white(s[b - 1]),
    ensures
        trimmed(s) == s.subrange(a, b),
{
    if a < b {
        lemma_trimmed_start_at(s, a);
        let t = s.subrange(a, s.len() as int);
        assert forall|i: int| b - a <= i < t.len() implies is_white(#[trigger] t[i]) by {
            assert(t[i] == s[i + a]);
        }
        lemma_trimmed_end_at(t, b - a);
        assert(t.subrange(0, b - a) == s.subrange(a, b));
    } else {
        lemma_trimmed_start_at(s, s.len() as int);
        assert(s.subrange(s.len() as int, s.len() as int).len() == 0);
        assert(s.subrange(a, b) == trimmed(s));
    }
}

/// White space at the start of a text goes where only that is asked for; the rest
/// stays as it is, up to its end.
pub proof fn leading_white_space_goes(white: Seq<char>, rest: Seq<char>)
    requires
        forall|i: int| 0 <= i < white.len() ==> is_white(#[trigger] white[i]),
        rest.len() > 0 ==> !is_white(rest[0]),
    ensures
        trimmed_start(white + rest) == rest,
{
    let s = white + rest;
    let k = white.len() as int;
    assert forall|i: int| 0 <= i < k implies is_white(#[trigger] s[i]) by {
        assert(s[i] == white[i]);
    }
    if rest.len() > 0 {
        assert(s[k] == rest[0]);
    }
    lemma_trimmed_start_at(s, k);
    assert(s.subrange(k, s.len() as int) == rest);
}

/// White space at the end of a text goes where only that is asked for; the rest stays
/// as it is, from its start.
pub proof fn trailing_white_space_goes(rest: Seq<char>, white: Seq<char>)
    requires
        forall|i: int| 0 <= i < white.len() ==> is_white(#[trigger] white[i]),
        rest.len() > 0 ==> !is_white(rest.last()),
    ensures
        trimmed_end(rest + white) == rest,
{
    let s = rest + white;
    let k = rest.len() as int;
    assert forall|i: int| k <= i < s.len() implies is_white(#[trigger] s[i]) by {
        assert(s[i] == white[i - k]);
    }
    if k > 0 {
        assert(s[k - 1] == rest.last());
    }
    lemma_trimmed_end_at(s, k);
    assert(s.subrange(0, k) == rest);
}

proof fn lemma_first_dark(s: Seq<char>) -> (k: int)
    ensures
        0 <= k <= s.len(),
        forall|i: int| 0 <= i < k ==> is_white(#[trigger] s[i]),
        k < s.len() ==> !is_white(s[k]),
    decreases s.len(),
{
    if s.len() > 0 && is_white(s[0]) {
        let t = s.drop_first();
        let k = lemma_first_dark(t);
        assert forall|i: int| 0 <= i < k + 1 implies is_white(#[trigger] s[i]) by {
            if i > 0 {
                assert(t[i - 1] == s[i]);
            }
        }
        k + 1
    } else {
        0
    }
}

/// A text is blank where each of its characters is white space, and only there.
pub proof fn blank_texts_are_white(s: Seq<char>)
    ensures
        is_blank(s) <==> forall|i: int| 0 <= i < s.len() ==> is_white(#[trigger] s[i]),
{
    let k = lemma_first_dark(s);
    lemma_trimmed_start_at(s, k);
    let t = s.subrange(k, s.len() as int);
    if k < s.len() {
        assert(!is_white(s[k]));
        lemma_end_not_white(t);
        assert(t[0] == s[k]);
        if trimmed_end(t).len() == 0 {
            lemma_all_white(t);
        }
    }
}

proof fn lemma_all_white(s: Seq<char>)
    requires
        trimmed_end(s).len() == 0,
    ensures
        forall|i: int| 0 <= i < s.len() ==> is_white(#[trigger] s[i]),
    decreases s.len(),
{
    if s.len() > 0 {
        let t = s.drop_last();
        lemma_all_white(t);
        assert forall|i: int| 0 <= i < s.len() implies is_white(#[trigger] s[i]) by {
            if i < t.len() {
                assert(t[i] == s[i]);
            }
        }
    }
}

/// Taking out a word takes out each place where it stands and leaves the rest, in its
/// order: `parts` are the texts between two such places.
pub proof fn taking_out_leaves_the_rest(parts: Seq<Seq<char>>, pat: Seq<char>)
    requires
        pat.len() > 0,
        parts.len() > 0,
        forall|i: int|
            0 <= i < parts.len() ==> #[trigger] first(joined(parts.skip(i), pat), pat) == if i + 1
                < parts.len() {
                Some(parts[i].len() as int)
            } else {
                None
            },
    ensures
        without(joined(parts, pat), pat) == parts.flatten(),
    decreases parts.len(),
{
    assert(parts.skip(0) == parts);
    assert(first(joined(parts.skip(0), pat), pat) == first(joined(parts, pat), pat));
    if parts.len() == 1 {
        parts.lemma_flatten_singleton();
    } else {
        let rest = parts.skip(1);
        parts_join_in_turn(parts.take(1), rest, pat);
        assert(parts.take(1) + rest == parts);
        assert(parts.take(1)[0] == parts[0]);
        let s = joined(parts, pat);
        assert(s == parts[0] + pat + joined(rest, pat));
        assert(s.take(parts[0].len() as int) == parts[0]);
        assert(s.skip(parts[0].len() as int + pat.len()) == joined(rest, pat));
        assert forall|i: int| 0 <= i < rest.len() implies #[trigger] first(
            joined(rest.skip(i), pat),
            pat,
        ) == if i + 1 < rest.len() {
            Some(rest[i].len() as int)
        } else {
            None
        } by {
            assert(rest.skip(i) == parts.skip(i + 1));
            assert(first(joined(parts.skip(i + 1), pat), pat) == first(
                joined(rest.skip(i), pat),
                pat,
            ));
        }
        taking_out_leaves_the_rest(rest, pat);
        assert(rest == parts.drop_first());
    }
}

/// Parts are joined in their order, with the separator between two neighbours and
/// nowhere else.
pub proof fn parts_join_in_turn(a: Seq<Seq<char>>, b: Seq<Seq<char>>, sep: Seq<char>)
    requires
        a.len() > 0,
        b.len() > 0,
    ensures
        joined(a + b, sep) == joined(a, sep) + sep + joined(b, sep),
        a.len() == 1 ==> joined(a, sep) == a[0],
    decreases b.len(),
{
    let c = a + b;
    if b.len() == 1 {
        assert(c.drop_last() == a);
        assert(c.last() == b[0]);
    } else {
        assert(c.drop_last() == a + b.drop_last());
        assert(c.last() == b.last());
        parts_join_in_turn(a, b.drop_last(), sep);
        assert(joined(a, sep) + sep + joined(b.drop_last(), sep) + sep + b.last() == joined(a, sep)
            + sep + (joined(b.drop_last(), sep) + sep + b.last()));
    }
}

/// A line ends at the first line break, or with the text.
pub proof fn lines_end_at_a_break(line: Seq<char>, rest: Seq<char>)
    requires
        !line.contains('\n'),
    ensures
        line_end(line) == line.len(),
        line_end(line + seq!['\n'] + rest) == line.len(),
    decreases line.len(),
{
    let s = line + seq!['\n'] + rest;
    if line.len() > 0 {
        assert(line[0] != '\n');
        let t = line.drop_first();
        assert forall|i: int| 0 <= i < t.len() implies #[trigger] t[i] != '\n' by {
            assert(line[i + 1] == t[i]);
        }
        lines_end_at_a_break(t, rest);
        assert(s.drop_first() == t + seq!['\n'] + rest);
        assert(s[0] == line[0]);
    } else {
        assert(s[0] == '\n');
    }
}

/// `lines`, each of them ended by a line break.
pub open spec fn ended_lines(lines: Seq<Seq<char>>) -> Seq<char> {
    lines.map_values(|l: Seq<char>| l.push('\n')).flatten()
}

/// The first of `lines` stands in front of the others.
pub proof fn ended_lines_unfold(lines: Seq<Seq<char>>)
    requires
        lines.len() > 0,
    ensures
        ended_lines(lines) == lines[0] + seq!['\n'] + ended_lines(lines.drop_first()),
{
    let m = lines.map_values(|l: Seq<char>| l.push('\n'));
    assert(m.drop_first() == lines.drop_first().map_values(|l: Seq<char>| l.push('\n')));
    assert(m[0] == lines[0] + seq!['\n']);
}

/// A text of ended lines has these lines, in their order, and a last line that is
/// not ended.
pub proof fn texts_fall_into_lines(lines: Seq<Seq<char>>, last: Seq<char>)
    requires
        forall|i: int|
            0 <= i < lines.len() ==> !(#[trigger] lines[i]).contains('\n') && (lines[i].len() > 0
                ==> lines[i].last() != '\r'),
        !last.contains('\n'),
    ensures
        lines_of(ended_lines(lines) + last) == if last.len() > 0 {
            lines.push(last)
        } else {
            lines
        },
    decreases lines.len(),
{
    let s = ended_lines(lines) + last;
    if lines.len() == 0 {
        assert(lines.map_values(|l: Seq<char>| l.push('\n')) == Seq::<Seq<char>>::empty());
        assert(s == last);
        lines_end_at_a_break(last, Seq::empty());
        assert(lines.push(last) == seq![last]);
        if last.len() == 0 {
            assert(lines == Seq::<Seq<char>>::empty());
        }
    } else {
        let rest = lines.drop_first();
        ended_lines_unfold(lines);
        let tail = ended_lines(rest) + last;
        assert(s == lines[0] + seq!['\n'] + tail);
        lines_end_at_a_break(lines[0], tail);
        let e = lines[0].len() as int;
        assert(s.take(e) == lines[0]);
        assert(s.skip(e + 1) == tail);
        assert forall|i: int| 0 <= i < rest.len() implies !(#[trigger] rest[i]).contains('\n') && (
        rest[i].len() > 0 ==> rest[i].last() != '\r') by {
            assert(lines[i + 1] == rest[i]);
        }
        texts_fall_into_lines(rest, last);
        assert(seq![lines[0]] + rest == lines);
        assert(seq![lines[0]] + rest.push(last) == lines.push(last));
    }
}

/// The last lines of a text are as many as asked for, or all there are, and they are
/// the last ones.
pub proof fn last_lines_are_kept(lines: Seq<Seq<char>>, n: nat)
    requires
        forall|i: int|
            0 <= i < lines.len() ==> !(#[trigger] lines[i]).contains('\n') && (lines[i].len() > 0
                ==> lines[i].last() != '\r'),
    ensures
        n <= lines.len() ==> last_lines(ended_lines(lines), n) == joined(
            lines.subrange(lines.len() - n, lines.len() as int),
            seq!['\n'],
        ),
        n >= lines.len() ==> last_lines(ended_lines(lines), n) == joined(lines, seq!['\n']),
{
    reveal_strlit("\n");
    assert("\n"@ == seq!['\n']);
    texts_fall_into_lines(lines, Seq::empty());
    assert(ended_lines(lines) + Seq::<char>::empty() == ended_lines(lines));
    if n <= lines.len() {
        assert(lines.skip(lines.len() - n) == lines.subrange(
            lines.len() - n,
            lines.len() as int,
        ));
    }
    assert(lines.skip(0) == lines);
}

/// A number in decimal notation reads as itself: it has at least one digit, no zero in
/// front of another digit, and the value of its digits.
pub proof fn decimals_read_back(n: nat)
    ensures
        digits_value(decimal(n)) == Some(n),
        decimal(n).len() > 0,
        decimal(n).len() > 1 ==> decimal(n)[0] != '0',
        n <= u32::MAX ==> number(decimal(n)) == Some(n),
    decreases n,
{
    reveal_with_fuel(digits_value, 2);
    if n < 10 {
        assert(decimal(n).drop_last().len() == 0);
    } else {
        decimals_read_back(n / 10);
        assert(decimal(n).drop_last() == decimal(n / 10));
        lemma_first_digit(n / 10);
    }
    lemma_first_digit(n);
}

proof fn lemma_first_digit(n: nat)
    ensures
        decimal(n).len() > 0,
        '0' <= decimal(n)[0] <= '9',
        n > 0 ==> decimal(n)[0] != '0',
    decreases n,
{
    if n >= 10 {
        lemma_first_digit(n / 10);
    }
}

/// Digits count by their place: a digit behind others counts for itself, and the
/// others for ten times as much as without it.
pub proof fn digits_count_by_place(s: Seq<char>, c: char)
    ensures
        match digits_value(s) {
            Some(v) => digits_value(s.push(c)) == if '0' <= c <= '9' {
                Some((10 * v + (c as nat - 48)) as nat)
            } else {
                None
            },
            None => digits_value(s.push(c)) is None,
        },
        digits_value(Seq::empty()) == Some(0nat),
{
    assert(s.push(c).drop_last() == s);
}

/// A plus sign in front of digits changes nothing; a number needs a digit, and a value
/// that fits in 32 bits.
pub proof fn plus_signs_change_nothing(s: Seq<char>)
    requires
        s.len() > 0 ==> s[0] != '+',
    ensures
        number(seq!['+'] + s) == number(s),
        s.len() == 0 ==> number(s) is None,
        number(s) matches Some(n) ==> n <= u32::MAX && digits_value(s) == Some(n),
        number(s) is None && s.len() > 0 ==> digits_value(s) is None || digits_value(s).unwrap()
            > u32::MAX,
{
    assert((seq!['+'] + s).drop_first() == s);
}

}
