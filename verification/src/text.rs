//! Text helpers: byte-wise ordering of strings, character access and
//! decimal rendering of integers.
use vstd::prelude::*;
use vstd::utf8::*;

verus! {

broadcast use vstd::utf8::encode_utf8_decode_utf8;

/// Lexicographic order on byte strings, as `Ord` orders `[u8]` (and so `str`).
pub open spec fn bytes_lt(a: Seq<u8>, b: Seq<u8>) -> bool
    decreases a.len(),
{
    if a.len() == 0 {
        b.len() > 0
    } else if b.len() == 0 {
        false
    } else if a[0] != b[0] {
        a[0] < b[0]
    } else {
        bytes_lt(a.drop_first(), b.drop_first())
    }
}

/// `str` order: lexicographic on the UTF-8 bytes.
pub open spec fn text_lt(a: Seq<char>, b: Seq<char>) -> bool {
    bytes_lt(encode_utf8(a), encode_utf8(b))
}

/// Compares two byte slices as `Ord` for `[u8]` does.
pub fn bytes_less(a: &[u8], b: &[u8]) -> (r: bool)
    ensures
        r == bytes_lt(a@, b@),
{
    let mut i: usize = 0;
    proof {
        assert(a@.skip(0) =~= a@);
        assert(b@.skip(0) =~= b@);
    }
    while i < a.len() && i < b.len() && a[i] == b[i]
        invariant
            i <= a@.len(),
            i <= b@.len(),
            bytes_lt(a@, b@) == bytes_lt(a@.skip(i as int), b@.skip(i as int)),
        decreases a@.len() - i,
    {
        proof {
            assert(a@.skip(i as int).drop_first() =~= a@.skip(i + 1));
            assert(b@.skip(i as int).drop_first() =~= b@.skip(i + 1));
        }
        i = i + 1;
    }
    if i < a.len() && i < b.len() {
        a[i] < b[i]
    } else {
        i == a.len() && i < b.len()
    }
}

/// `a < b` for string slices.
pub fn str_less(a: &str, b: &str) -> (r: bool)
    ensures
        r == text_lt(a@, b@),
{
    bytes_less(a.as_bytes(), b.as_bytes())
}

/// Byte-wise equality of two slices.
pub fn bytes_equal(a: &[u8], b: &[u8]) -> (r: bool)
    ensures
        r == (a@ == b@),
{
    if a.len() != b.len() {
        return false;
    }
    let mut i: usize = 0;
    while i < a.len()
        invariant
            a@.len() == b@.len(),
            i <= a@.len(),
            a@.take(i as int) == b@.take(i as int),
        decreases a@.len() - i,
    {
        if a[i] != b[i] {
            return false;
        }
        proof {
            assert(a@.take(i + 1) =~= a@.take(i as int).push(a@[i as int]));
            assert(b@.take(i + 1) =~= b@.take(i as int).push(b@[i as int]));
        }
        i = i + 1;
    }
    proof {
        assert(a@.take(a@.len() as int) =~= a@);
        assert(b@.take(b@.len() as int) =~= b@);
    }
    true
}

/// `a == b` for string slices.
pub fn str_equal(a: &str, b: &str) -> (r: bool)
    ensures
        r == (a@ == b@),
{
    let r = bytes_equal(a.as_bytes(), b.as_bytes());
    proof {
        if encode_utf8(a@) == encode_utf8(b@) {
            assert(decode_utf8(encode_utf8(a@)) == decode_utf8(encode_utf8(b@)));
        }
    }
    r
}

/// The UTF-8 bytes of a string slice, as an owned vector.
pub fn bytes_of(s: &str) -> (r: Vec<u8>)
    ensures
        r@ == encode_utf8(s@),
{
    let b = s.as_bytes();
    let mut r: Vec<u8> = Vec::new();
    let mut i: usize = 0;
    while i < b.len()
        invariant
            b@ == encode_utf8(s@),
            i <= b@.len(),
            r@ == b@.take(i as int),
        decreases b@.len() - i,
    {
        r.push(b[i]);
        proof {
            assert(b@.take(i + 1) =~= b@.take(i as int).push(b@[i as int]));
        }
        i = i + 1;
    }
    proof {
        assert(b@.take(b@.len() as int) =~= b@);
    }
    r
}

/// What `str::to_lowercase` returns for a text (full Unicode case mapping).
pub uninterp spec fn lowercase(s: Seq<char>) -> Seq<char>;

/// Calls `str::to_lowercase`; the result is named `lowercase` of the input.
#[verifier::external_body]
pub(crate) fn to_lower(s: &str) -> (r: String)
    ensures
        r@ == lowercase(s@),
{
    s.to_lowercase()
}

/// Calls `String::push`.
#[verifier::external_body]
pub(crate) fn push_char(s: &mut String, c: char)
    ensures
        final(s)@ == old(s)@.push(c),
{
    s.push(c)
}

/// Calls `String::push_str`.
#[verifier::external_body]
pub(crate) fn push_str(s: &mut String, t: &str)
    ensures
        final(s)@ == old(s)@ + t@,
{
    s.push_str(t)
}

/// The characters of a string slice.
pub fn chars_of(s: &str) -> (v: Vec<char>)
    ensures
        v@ == s@,
{
    let mut v: Vec<char> = Vec::new();
    for c in it: s.chars()
        invariant
            it.seq() == s@,
            v@ == s@.take(it.index() as int),
    {
        proof {
            assert(it.seq().take(it.index() + 1) =~= it.seq().take(it.index() as int).push(c));
        }
        v.push(c);
    }
    proof {
        assert(v@ =~= s@);
    }
    v
}

/// A string holding the given characters.
pub fn string_of(v: &Vec<char>) -> (s: String)
    ensures
        s@ == v@,
{
    let mut s = String::new();
    let mut i: usize = 0;
    while i < v.len()
        invariant
            i <= v@.len(),
            s@ == v@.take(i as int),
        decreases v@.len() - i,
    {
        push_char(&mut s, v[i]);
        proof {
            assert(v@.take(i + 1) =~= v@.take(i as int).push(v@[i as int]));
        }
        i = i + 1;
    }
    proof {
        assert(v@.take(v@.len() as int) =~= v@);
    }
    s
}

// ---------------------------------------------------------------------------
// Whitespace and words
// ---------------------------------------------------------------------------

/// `char::is_whitespace`: the Unicode White_Space characters.
pub open spec fn is_ws(c: char) -> bool {
    let u = c as u32;
    (9 <= u <= 13) || u == 32 || u == 0x85 || u == 0xA0 || u == 0x1680 || (0x2000 <= u <= 0x200A)
        || u == 0x2028 || u == 0x2029 || u == 0x202F || u == 0x205F || u == 0x3000
}

pub fn is_whitespace(c: char) -> (r: bool)
    ensures
        r == is_ws(c),
{
    let u = c as u32;
    (9 <= u && u <= 13) || u == 32 || u == 0x85 || u == 0xA0 || u == 0x1680 || (0x2000 <= u
        && u <= 0x200A) || u == 0x2028 || u == 0x2029 || u == 0x202F || u == 0x205F || u == 0x3000
}

/// What `char::is_alphanumeric` says of a character (Unicode Alphabetic or
/// Numeric).
pub uninterp spec fn alphanumeric(c: char) -> bool;

/// Calls `char::is_alphanumeric`.
#[verifier::external_body]
pub(crate) fn is_alphanumeric(c: char) -> (r: bool)
    ensures
        r == alphanumeric(c),
{
    c.is_alphanumeric()
}

/// The text without leading whitespace.
pub open spec fn trim_start_ws(s: Seq<char>) -> Seq<char>
    decreases s.len(),
{
    if s.len() > 0 && is_ws(s[0]) {
        trim_start_ws(s.drop_first())
    } else {
        s
    }
}

/// The text without trailing whitespace.
pub open spec fn trim_end_ws(s: Seq<char>) -> Seq<char>
    decreases s.len(),
{
    if s.len() > 0 && is_ws(s.last()) {
        trim_end_ws(s.drop_last())
    } else {
        s
    }
}

/// `str::trim`.
pub open spec fn trim_ws(s: Seq<char>) -> Seq<char> {
    trim_end_ws(trim_start_ws(s))
}

/// `str::trim` of a string slice.
pub fn trim(s: &str) -> (r: String)
    ensures
        r@ == trim_ws(s@),
{
    let v = chars_of(s);
    let mut lo: usize = 0;
    proof {
        assert(v@.skip(0) =~= v@);
    }
    while lo < v.len() && is_whitespace(v[lo])
        invariant
            lo <= v@.len(),
            trim_start_ws(v@) == trim_start_ws(v@.skip(lo as int)),
        decreases v@.len() - lo,
    {
        proof {
            assert(v@.skip(lo as int).drop_first() =~= v@.skip(lo + 1));
        }
        lo = lo + 1;
    }
    let mut hi: usize = v.len();
    let ghost rest = v@.skip(lo as int);
    assert(trim_start_ws(v@) == rest);
    while hi > lo && is_whitespace(v[hi - 1])
        invariant
            lo <= hi <= v@.len(),
            rest == v@.skip(lo as int),
            trim_end_ws(rest) == trim_end_ws(v@.subrange(lo as int, hi as int)),
        decreases hi,
    {
        proof {
            assert(v@.subrange(lo as int, hi as int).drop_last() =~= v@.subrange(lo as int, hi - 1));
        }
        hi = hi - 1;
    }
    proof {
        assert(rest =~= v@.subrange(lo as int, v@.len() as int));
    }
    let mut out = String::new();
    let mut k: usize = lo;
    while k < hi
        invariant
            lo <= k <= hi <= v@.len(),
            out@ == v@.subrange(lo as int, k as int),
        decreases hi - k,
    {
        push_char(&mut out, v[k]);
        proof {
            assert(v@.subrange(lo as int, k + 1) =~= v@.subrange(lo as int, k as int).push(v@[k as int]));
        }
        k = k + 1;
    }
    out
}

/// The words of a text: its maximal runs of non-whitespace characters.
pub open spec fn words(s: Seq<char>) -> Seq<Seq<char>>
    decreases s.len(),
{
    if s.len() == 0 {
        seq![]
    } else if is_ws(s.last()) {
        words(s.drop_last())
    } else if s.len() >= 2 && !is_ws(s[s.len() - 2]) {
        let w = words(s.drop_last());
        w.update(w.len() - 1, w.last().push(s.last()))
    } else {
        words(s.drop_last()).push(seq![s.last()])
    }
}

/// Texts joined with single spaces.
pub open spec fn join_spaced(ws: Seq<Seq<char>>) -> Seq<char>
    decreases ws.len(),
{
    if ws.len() == 0 {
        seq![]
    } else if ws.len() == 1 {
        ws[0]
    } else {
        join_spaced(ws.drop_last()) + seq![' '] + ws.last()
    }
}

/// `split_whitespace().collect::<Vec<_>>().join(" ")`.
pub open spec fn squash_ws(s: Seq<char>) -> Seq<char> {
    join_spaced(words(s))
}

pub proof fn lemma_words_nonempty(s: Seq<char>)
    requires
        s.len() > 0,
        !is_ws(s.last()),
    ensures
        words(s).len() > 0,
    decreases s.len(),
{
    if s.len() >= 2 && !is_ws(s[s.len() - 2]) {
        lemma_words_nonempty(s.drop_last());
    }
}

proof fn lemma_join_update_last(ws: Seq<Seq<char>>, c: char)
    requires
        ws.len() > 0,
    ensures
        join_spaced(ws.update(ws.len() - 1, ws.last().push(c))) == join_spaced(ws).push(c),
    decreases ws.len(),
{
    let u = ws.update(ws.len() - 1, ws.last().push(c));
    if ws.len() == 1 {
    } else {
        assert(u.drop_last() =~= ws.drop_last());
        assert(join_spaced(u) == join_spaced(ws.drop_last()) + seq![' '] + ws.last().push(c));
        assert(join_spaced(u) =~= join_spaced(ws).push(c));
    }
}

/// Collapses whitespace runs to one space and drops it at both ends.
pub fn squash(s: &str) -> (r: String)
    ensures
        r@ == squash_ws(s@),
{
    let v = chars_of(s);
    let mut out = String::new();
    let mut i: usize = 0;
    let mut any_word = false;
    proof {
        assert(v@.take(0) =~= Seq::<char>::empty());
    }
    while i < v.len()
        invariant
            i <= v@.len(),
            out@ == join_spaced(words(v@.take(i as int))),
            any_word == (words(v@.take(i as int)).len() > 0),
        decreases v@.len() - i,
    {
        let c = v[i];
        let ghost pre = v@.take(i as int);
        let ghost cur = v@.take(i + 1);
        proof {
            assert(cur.drop_last() =~= pre);
            assert(cur.last() == c);
        }
        if !is_whitespace(c) {
            let joins = i > 0 && !is_whitespace(v[i - 1]);
            if joins {
                proof {
                    assert(cur[cur.len() - 2] == v@[i - 1]);
                    lemma_words_nonempty(pre);
                    assert(pre.last() == v@[i - 1]);
                    lemma_join_update_last(words(pre), c);
                }
                push_char(&mut out, c);
            } else {
                if any_word {
                    push_char(&mut out, ' ');
                }
                push_char(&mut out, c);
                proof {
                    let w = words(pre);
                    assert(words(cur) == w.push(seq![c]));
                    if w.len() == 0 {
                        assert(join_spaced(w.push(seq![c])) == seq![c]);
                        assert(out@ =~= seq![c]);
                    } else {
                        assert(w.push(seq![c]).drop_last() =~= w);
                    }
                }
            }
            any_word = true;
            proof {
                lemma_words_nonempty(cur);
            }
        }
        i = i + 1;
    }
    proof {
        assert(v@.take(v@.len() as int) =~= v@);
    }
    out
}

// ---------------------------------------------------------------------------
// Substrings
// ---------------------------------------------------------------------------

/// `n` occurs in `h` at byte position `i`.
pub open spec fn occurs_at(h: Seq<u8>, n: Seq<u8>, i: int) -> bool {
    0 <= i && i + n.len() <= h.len() && h.subrange(i, i + n.len()) == n
}

/// First byte position of `n` in `h` from `i` on.
pub open spec fn first_occurrence_from(h: Seq<u8>, n: Seq<u8>, i: int) -> Option<int>
    decreases h.len() + 1 - i,
{
    if i < 0 || i + n.len() > h.len() {
        None
    } else if occurs_at(h, n, i) {
        Some(i)
    } else {
        first_occurrence_from(h, n, i + 1)
    }
}

/// `str::find` of a string pattern: the first byte position of `n` in `h`.
pub open spec fn first_occurrence(h: Seq<u8>, n: Seq<u8>) -> Option<int> {
    first_occurrence_from(h, n, 0)
}

pub proof fn lemma_first_occurrence_from(h: Seq<u8>, n: Seq<u8>, i: int)
    requires
        0 <= i,
    ensures
        first_occurrence_from(h, n, i) matches Some(k) ==> i <= k && occurs_at(h, n, k)
            && forall|j: int| i <= j < k ==> !occurs_at(h, n, j),
        first_occurrence_from(h, n, i) is None ==> forall|j: int| i <= j ==> !occurs_at(h, n, j),
    decreases h.len() + 1 - i,
{
    if i + n.len() <= h.len() {
        lemma_first_occurrence_from(h, n, i + 1);
    }
}

fn matches_at(h: &[u8], n: &[u8], i: usize) -> (r: bool)
    requires
        i + n@.len() <= h@.len(),
    ensures
        r == occurs_at(h@, n@, i as int),
{
    let hl = h.len();
    let mut k: usize = 0;
    while k < n.len()
        invariant
            i + n@.len() <= h@.len(),
            hl == h@.len(),
            k <= n@.len(),
            forall|j: int| 0 <= j < k ==> h@[i + j] == n@[j],
        decreases n@.len() - k,
    {
        if h[i + k] != n[k] {
            proof {
                assert(h@.subrange(i as int, i + n@.len())[k as int] != n@[k as int]);
            }
            return false;
        }
        k = k + 1;
    }
    proof {
        assert(h@.subrange(i as int, i + n@.len()) =~= n@);
    }
    true
}

/// First byte position of `n` in `h` (`str::find`).
pub fn find_bytes(h: &[u8], n: &[u8]) -> (r: Option<usize>)
    ensures
        match r {
            Some(i) => first_occurrence(h@, n@) == Some(i as int),
            None => first_occurrence(h@, n@) is None,
        },
{
    if n.len() > h.len() {
        return None;
    }
    let last = h.len() - n.len();
    let mut i: usize = 0;
    loop
        invariant
            last + n@.len() == h@.len(),
            i <= last,
            first_occurrence(h@, n@) == first_occurrence_from(h@, n@, i as int),
        decreases last - i,
    {
        if matches_at(h, n, i) {
            return Some(i);
        }
        if i == last {
            return None;
        }
        i = i + 1;
    }
}

/// `h.contains(n)` for string slices: the bytes of `n` occur in those of `h`.
pub fn contains_str(h: &str, n: &str) -> (r: bool)
    ensures
        r == (first_occurrence(encode_utf8(h@), encode_utf8(n@)) is Some),
{
    find_bytes(h.as_bytes(), n.as_bytes()).is_some()
}

} // verus!
