//! Quick-entry parsing: a project named by an `@` mention in a task title,
//! and a due day named by a Russian date word.
use vstd::prelude::*;
use vstd::utf8::*;
use crate::model::Project;
use crate::dates::{add_days, chrono_add_days, day_number, weekday_of, key_of, key_text, local_today, opt_text, valid_date, weekday_index, CivilDate};
use crate::text::{
    alphanumeric, chars_of, find_bytes, first_occurrence, is_alphanumeric, is_whitespace, is_ws,
    lemma_first_occurrence_from, lemma_words_nonempty, lowercase, occurs_at, push_char, push_str,
    squash, squash_ws, string_of, to_lower, words,
};

verus! {

broadcast use vstd::utf8::encode_utf8_decode_utf8, vstd::utf8::encode_utf8_valid_utf8;

// ---------------------------------------------------------------------------
// UTF-8 boundaries
// ---------------------------------------------------------------------------

/// The first byte of a non-empty encoding starts a character.
proof fn lemma_encoding_starts_char(chars: Seq<char>)
    requires
        chars.len() > 0,
    ensures
        encode_utf8(chars).len() > 0,
        !is_continuation_byte(encode_utf8(chars)[0]),
{
    encode_utf8_first_scalar(chars);
}

/// In valid UTF-8 made of a valid prefix and a rest, the prefix ends on a
/// character boundary.
proof fn lemma_concat_boundary(a: Seq<u8>, b: Seq<u8>)
    requires
        valid_utf8(a),
        valid_utf8(a + b),
    ensures
        is_char_boundary(a + b, a.len() as int),
    decreases a.len(),
{
    if a.len() > 0 {
        let ab = a + b;
        assert(ab[0] == a[0]);
        let n = length_of_first_scalar(a);
        assert(1 <= n <= a.len());
        assert(length_of_first_scalar(ab) == n);
        assert(pop_first_scalar(ab) =~= pop_first_scalar(a) + b);
        lemma_concat_boundary(pop_first_scalar(a), b);
    }
}

/// A valid encoding found at a character boundary of valid UTF-8 ends on a
/// character boundary too.
proof fn lemma_boundary_after(bytes: Seq<u8>, k: int, m: Seq<u8>)
    requires
        valid_utf8(bytes),
        valid_utf8(m),
        0 <= k,
        is_char_boundary(bytes, k),
        occurs_at(bytes, m, k),
    ensures
        is_char_boundary(bytes, k + m.len()),
{
    let s = bytes.subrange(k, bytes.len() as int);
    valid_utf8_split(bytes, k);
    let rest = s.subrange(m.len() as int, s.len() as int);
    assert(s =~= m + rest);
    lemma_concat_boundary(m, rest);
    let e = k + m.len();
    if e < bytes.len() {
        is_char_boundary_iff_not_is_continuation_byte(bytes, e);
        is_char_boundary_iff_not_is_continuation_byte(s, m.len() as int);
        assert(s[m.len() as int] == bytes[e]);
    } else {
        is_char_boundary_start_end_of_seq(bytes);
    }
}

/// Where a non-empty encoding occurs in valid UTF-8, both ends of the
/// occurrence are character boundaries.
proof fn lemma_occurrence_boundaries(bytes: Seq<u8>, k: int, pat: Seq<char>)
    requires
        valid_utf8(bytes),
        pat.len() > 0,
        occurs_at(bytes, encode_utf8(pat), k),
    ensures
        is_char_boundary(bytes, k),
        is_char_boundary(bytes, k + encode_utf8(pat).len()),
{
    let m = encode_utf8(pat);
    lemma_encoding_starts_char(pat);
    assert(bytes[k] == m[0]) by {
        assert(bytes.subrange(k, k + m.len())[0] == bytes[k]);
    }
    is_char_boundary_iff_not_is_continuation_byte(bytes, k);
    lemma_boundary_after(bytes, k, m);
}

// ---------------------------------------------------------------------------
// Project mentions
// ---------------------------------------------------------------------------

/// The text searched for a project: `@` and its lowercased title.
pub open spec fn mention_marker(project_title: Seq<char>) -> Seq<char> {
    seq!['@'] + lowercase(project_title)
}

/// The character before byte `k` of `l`, if any, is whitespace.
pub open spec fn clear_before(l: Seq<u8>, k: int) -> bool {
    let pre = decode_utf8(l.subrange(0, k));
    pre.len() == 0 || is_ws(pre.last())
}

/// The character from byte `e` of `l` on, if any, is neither alphanumeric
/// nor `_`.
pub open spec fn clear_after(l: Seq<u8>, e: int) -> bool {
    let post = decode_utf8(l.subrange(e, l.len() as int));
    post.len() == 0 || !(alphanumeric(post[0]) || post[0] == '_')
}

/// Byte position of the mention of a project in a lowercased title: the
/// first occurrence of its marker, when it stands as a word of its own;
/// a later occurrence is not looked at.
pub open spec fn mention_pos(lower: Seq<char>, project_title: Seq<char>) -> Option<int> {
    let l = encode_utf8(lower);
    let m = encode_utf8(mention_marker(project_title));
    match first_occurrence(l, m) {
        Some(k) => if clear_before(l, k) && clear_after(l, k + m.len()) {
            Some(k)
        } else {
            None
        },
        None => None,
    }
}

pub open spec fn mentioned(title: Seq<char>, p: Project) -> bool {
    mention_pos(lowercase(title), p.title@) is Some
}

pub open spec fn title_bytes(p: Project) -> int {
    encode_utf8(p.title@).len() as int
}

/// Project `w` is the one a title mentions: among the mentioned projects its
/// title is the longest in bytes, and the first of those that long.
pub open spec fn mention_winner(title: Seq<char>, ps: Seq<Project>, w: int) -> bool {
    &&& 0 <= w < ps.len()
    &&& mentioned(title, ps[w])
    &&& forall|j: int|
        0 <= j < ps.len() && mentioned(title, #[trigger] ps[j]) ==> title_bytes(ps[j]) < title_bytes(
            ps[w],
        ) || (title_bytes(ps[j]) == title_bytes(ps[w]) && w <= j)
}

/// The title with the bytes `s..e` taken out and whitespace squashed, when
/// both are character boundaries.
pub open spec fn cut_out(title: Seq<char>, s: int, e: int) -> Seq<char> {
    let tb = encode_utf8(title);
    squash_ws(decode_utf8(tb.subrange(0, s)) + decode_utf8(tb.subrange(e, tb.len() as int)))
}

/// The title left once the mention of a project is taken out: unchanged
/// where the mention's bytes do not fall on character boundaries of the
/// title itself, or where nothing else is left.
pub open spec fn without_mention(title: Seq<char>, project_title: Seq<char>) -> Seq<char> {
    let tb = encode_utf8(title);
    let k = mention_pos(lowercase(title), project_title)->Some_0;
    let e = k + encode_utf8(mention_marker(project_title)).len();
    if is_char_boundary(tb, k) && is_char_boundary(tb, e) {
        let clean = cut_out(title, k, e);
        if clean.len() == 0 {
            title
        } else {
            clean
        }
    } else {
        title
    }
}

/// The project marker of a project title, as a string.
fn marker_text(project_title: &str) -> (m: String)
    ensures
        m@ == mention_marker(project_title@),
{
    let mut m = String::new();
    push_char(&mut m, '@');
    let lower = to_lower(project_title);
    push_str(&mut m, lower.as_str());
    proof {
        assert(m@ =~= mention_marker(project_title@));
    }
    m
}

/// Where a lowercased title mentions a project: the byte range of the
/// marker.
fn mention_position(lower: &str, project_title: &str) -> (r: Option<(usize, usize)>)
    ensures
        match r {
            Some((k, e)) => mention_pos(lower@, project_title@) == Some(k as int) && e == k
                + encode_utf8(mention_marker(project_title@)).len(),
            None => mention_pos(lower@, project_title@) is None,
        },
{
    let marker = marker_text(project_title);
    let lb = lower.as_bytes();
    let mb = marker.as_str().as_bytes();
    let ghost l = encode_utf8(lower@);
    let ghost m = encode_utf8(marker@);
    match find_bytes(lb, mb) {
        None => None,
        Some(k) => {
            let mlen = mb.len();
            let ll = lb.len();
            proof {
                lemma_first_occurrence_from(l, m, 0);
                lemma_occurrence_boundaries(l, k as int, marker@);
            }
            let e = k + mlen;
            let (pre, _) = lower.split_at(k);
            let (_, post) = lower.split_at(e);
            let pv = chars_of(pre);
            let nv = chars_of(post);
            proof {
                assert(pre@ == decode_utf8(encode_utf8(pre@)));
                assert(post@ == decode_utf8(encode_utf8(post@)));
                assert(encode_utf8(pre@) =~= l.subrange(0, k as int));
                assert(encode_utf8(post@) =~= l.subrange(e as int, l.len() as int));
            }
            let before = pv.len() == 0 || is_whitespace(pv[pv.len() - 1]);
            let after = nv.len() == 0 || !(is_alphanumeric(nv[0]) || nv[0] == '_');
            if before && after {
                Some((k, e))
            } else {
                None
            }
        },
    }
}

/// What `parse_project_mention` gives for a title and the projects: the
/// mentioned project's id and the title without the mention, or the title
/// unchanged and no id when no project is mentioned.
pub open spec fn project_mention(
    title: Seq<char>,
    ps: Seq<Project>,
    text: Seq<char>,
    id: Option<Seq<char>>,
) -> bool {
    if exists|j: int| 0 <= j < ps.len() && mentioned(title, #[trigger] ps[j]) {
        exists|w: int|
            mention_winner(title, ps, w) && text == without_mention(title, ps[w].title@) && id
                == Some(ps[w].id@)
    } else {
        text == title && id is None
    }
}

/// At most one project is the one a title mentions.
pub proof fn lemma_mention_winner_unique(title: Seq<char>, ps: Seq<Project>, v: int, w: int)
    requires
        mention_winner(title, ps, v),
        mention_winner(title, ps, w),
    ensures
        v == w,
{
    assert(mentioned(title, ps[v]));
    assert(mentioned(title, ps[w]));
}

/// Finds the project that a title mentions as `@<project title>` (case
/// does not matter; the mention must stand as a word of its own) and takes
/// the mention out of the title. Longer project titles are tried first.
pub fn parse_project_mention(title: &str, projects: &[Project]) -> (r: (String, Option<String>))
    ensures
        project_mention(title@, projects@, r.0@, match r.1 {
            Some(s) => Some(s@),
            None => None,
        }),
{
    let lower = to_lower(title);
    let ghost lc = lowercase(title@);
    let ghost ps = projects@;
    let mut best: Option<(usize, usize, usize, usize)> = None;
    let n = projects.len();
    let mut i: usize = 0;
    while i < n
        invariant
            n == ps.len(),
            ps == projects@,
            lower@ == lc,
            lc == lowercase(title@),
            i <= n,
            best is None ==> forall|j: int| 0 <= j < i ==> !mentioned(title@, #[trigger] ps[j]),
            best matches Some((w, k, e, tl)) ==> {
                &&& w < i
                &&& mention_pos(lc, ps[w as int].title@) == Some(k as int)
                &&& e == k + encode_utf8(mention_marker(ps[w as int].title@)).len()
                &&& tl == title_bytes(ps[w as int])
                &&& forall|j: int|
                    0 <= j < i && mentioned(title@, #[trigger] ps[j]) ==> title_bytes(ps[j]) < tl
                        || (title_bytes(ps[j]) == tl && w <= j)
            },
        decreases n - i,
    {
        let p = &projects[i];
        match mention_position(lower.as_str(), p.title.as_str()) {
            Some((k, e)) => {
                let tl = p.title.as_str().as_bytes().len();
                assert(mentioned(title@, ps[i as int]));
                assert(tl == title_bytes(ps[i as int]));
                let better = match best {
                    None => true,
                    Some((_, _, _, btl)) => tl > btl,
                };
                if better {
                    best = Some((i, k, e, tl));
                }
            },
            None => {
                assert(!mentioned(title@, ps[i as int]));
            },
        }
        i = i + 1;
    }
    match best {
        None => (title.to_owned(), None),
        Some((w, k, e, _)) => {
            let id = projects[w].id.clone();
            proof {
                assert(mention_winner(title@, ps, w as int));
            }
            let tb_k = title.is_char_boundary(k);
            let tb_e = title.is_char_boundary(e);
            if tb_k && tb_e {
                let (a, _) = title.split_at(k);
                let (_, b) = title.split_at(e);
                let mut joined = String::new();
                push_str(&mut joined, a);
                push_str(&mut joined, b);
                let clean = squash(joined.as_str());
                let ghost tb = encode_utf8(title@);
                proof {
                    assert(a@ == decode_utf8(encode_utf8(a@)));
                    assert(b@ == decode_utf8(encode_utf8(b@)));
                    assert(encode_utf8(a@) =~= tb.subrange(0, k as int));
                    assert(encode_utf8(b@) =~= tb.subrange(e as int, tb.len() as int));
                    assert(joined@ =~= a@ + b@);
                }
                if clean.as_str().is_empty() {
                    (title.to_owned(), Some(id))
                } else {
                    (clean, Some(id))
                }
            } else {
                (title.to_owned(), Some(id))
            }
        },
    }
}

// ---------------------------------------------------------------------------
// Words of a title
// ---------------------------------------------------------------------------

pub open spec fn word_views(ws: Seq<Vec<char>>) -> Seq<Seq<char>> {
    ws.map_values(|w: Vec<char>| w@)
}

/// `split_whitespace` of a text, each word as its characters.
fn words_of(v: &Vec<char>) -> (ws: Vec<Vec<char>>)
    ensures
        word_views(ws@) == words(v@),
{
    let mut ws: Vec<Vec<char>> = Vec::new();
    let mut i: usize = 0;
    proof {
        assert(v@.take(0) =~= Seq::<char>::empty());
        assert(word_views(ws@) =~= words(v@.take(0)));
    }
    while i < v.len()
        invariant
            i <= v@.len(),
            word_views(ws@) == words(v@.take(i as int)),
        decreases v@.len() - i,
    {
        let c = v[i];
        let ghost pre = v@.take(i as int);
        let ghost cur = v@.take(i + 1);
        proof {
            assert(cur.drop_last() =~= pre);
            assert(cur.last() == c);
        }
        if !is_whitespace(c) {
            if i > 0 && !is_whitespace(v[i - 1]) {
                proof {
                    assert(cur[cur.len() - 2] == v@[i - 1]);
                    assert(pre.last() == v@[i - 1]);
                    lemma_words_nonempty(pre);
                }
                let ghost old_ws = ws@;
                let mut last = ws.pop().unwrap();
                last.push(c);
                ws.push(last);
                proof {
                    let w = words(pre);
                    assert(word_views(ws@) =~= w.update(w.len() - 1, w.last().push(c)));
                }
            } else {
                let mut one: Vec<char> = Vec::new();
                one.push(c);
                ws.push(one);
                proof {
                    assert(word_views(ws@) =~= words(pre).push(seq![c]));
                }
            }
        }
        i = i + 1;
    }
    proof {
        assert(v@.take(v@.len() as int) =~= v@);
    }
    ws
}

/// The text without leading characters that are not alphanumeric.
pub open spec fn trim_front_na(s: Seq<char>) -> Seq<char>
    decreases s.len(),
{
    if s.len() > 0 && !alphanumeric(s[0]) {
        trim_front_na(s.drop_first())
    } else {
        s
    }
}

/// The text without trailing characters that are not alphanumeric.
pub open spec fn trim_back_na(s: Seq<char>) -> Seq<char>
    decreases s.len(),
{
    if s.len() > 0 && !alphanumeric(s.last()) {
        trim_back_na(s.drop_last())
    } else {
        s
    }
}

/// `trim_matches(|c| !c.is_alphanumeric())`.
pub open spec fn alnum_trimmed(s: Seq<char>) -> Seq<char> {
    trim_back_na(trim_front_na(s))
}

fn trim_alnum(w: &Vec<char>) -> (r: Vec<char>)
    ensures
        r@ == alnum_trimmed(w@),
{
    let mut lo: usize = 0;
    proof {
        assert(w@.skip(0) =~= w@);
    }
    while lo < w.len() && !is_alphanumeric(w[lo])
        invariant
            lo <= w@.len(),
            trim_front_na(w@) == trim_front_na(w@.skip(lo as int)),
        decreases w@.len() - lo,
    {
        proof {
            assert(w@.skip(lo as int).drop_first() =~= w@.skip(lo + 1));
        }
        lo = lo + 1;
    }
    let ghost rest = w@.skip(lo as int);
    assert(trim_front_na(w@) == rest);
    let mut hi: usize = w.len();
    proof {
        assert(rest =~= w@.subrange(lo as int, hi as int));
    }
    while hi > lo && !is_alphanumeric(w[hi - 1])
        invariant
            lo <= hi <= w@.len(),
            trim_back_na(rest) == trim_back_na(w@.subrange(lo as int, hi as int)),
        decreases hi,
    {
        proof {
            assert(w@.subrange(lo as int, hi as int).drop_last() =~= w@.subrange(lo as int, hi - 1));
        }
        hi = hi - 1;
    }
    let mut out: Vec<char> = Vec::new();
    let mut k: usize = lo;
    while k < hi
        invariant
            lo <= k <= hi <= w@.len(),
            out@ == w@.subrange(lo as int, k as int),
        decreases hi - k,
    {
        out.push(w[k]);
        proof {
            assert(w@.subrange(lo as int, k + 1) =~= w@.subrange(lo as int, k as int).push(w@[k as int]));
        }
        k = k + 1;
    }
    out
}

fn chars_equal(a: &Vec<char>, b: &Vec<char>) -> (r: bool)
    ensures
        r == (a@ == b@),
{
    if a.len() != b.len() {
        return false;
    }
    let mut i: usize = 0;
    while i < a.len()
        invariant
            a@.len() == b@.len(),
            i <= a@.len(),
            forall|j: int| 0 <= j < i ==> a@[j] == b@[j],
        decreases a@.len() - i,
    {
        if a[i] != b[i] {
            return false;
        }
        i = i + 1;
    }
    proof {
        assert(a@ =~= b@);
    }
    true
}

/// `p` is a prefix of `s` (`str::starts_with`).
pub open spec fn char_prefix(p: Seq<char>, s: Seq<char>) -> bool {
    p.len() <= s.len() && s.subrange(0, p.len() as int) == p
}

fn has_prefix(p: &Vec<char>, s: &Vec<char>) -> (r: bool)
    ensures
        r == char_prefix(p@, s@),
{
    if p.len() > s.len() {
        return false;
    }
    let mut i: usize = 0;
    while i < p.len()
        invariant
            p@.len() <= s@.len(),
            i <= p@.len(),
            forall|j: int| 0 <= j < i ==> s@[j] == p@[j],
        decreases p@.len() - i,
    {
        if p[i] != s[i] {
            proof {
                assert(s@.subrange(0, p@.len() as int)[i as int] != p@[i as int]);
            }
            return false;
        }
        i = i + 1;
    }
    proof {
        assert(s@.subrange(0, p@.len() as int) =~= p@);
    }
    true
}

/// Byte length of the UTF-8 encoding of some characters.
fn encoded_len(w: &Vec<char>) -> (n: usize)
    ensures
        n == encode_utf8(w@).len(),
{
    let s = string_of(w);
    s.as_str().as_bytes().len()
}

/// The byte offset the quick-entry parser gives word `i`: the lengths of the
/// words before it, each followed by one separator.
pub open spec fn word_start(ws: Seq<Seq<char>>, i: int) -> int
    decreases i,
{
    if i <= 0 {
        0
    } else {
        word_start(ws, i - 1) + encode_utf8(ws[i - 1]).len() + 1
    }
}

proof fn lemma_word_start_grows(ws: Seq<Seq<char>>, i: int, j: int)
    requires
        0 <= i <= j,
    ensures
        word_start(ws, i) + (j - i) <= word_start(ws, j),
    decreases j - i,
{
    if i < j {
        lemma_word_start_grows(ws, i, j - 1);
    }
}

/// The offsets of all words and the one past the last, or `None` where
/// they do not fit a `usize`.
fn word_starts(ws: &Vec<Vec<char>>) -> (r: Option<Vec<usize>>)
    ensures
        r is None <==> word_start(word_views(ws@), ws@.len() as int) > usize::MAX,
        r matches Some(st) ==> st@.len() == ws@.len() + 1 && forall|j: int|
            0 <= j <= ws@.len() ==> #[trigger] st@[j] == word_start(word_views(ws@), j),
{
    let ghost wv = word_views(ws@);
    let mut st: Vec<usize> = Vec::new();
    st.push(0);
    let mut pos: usize = 0;
    let mut i: usize = 0;
    while i < ws.len()
        invariant
            wv == word_views(ws@),
            i <= ws@.len(),
            st@.len() == i + 1,
            pos == word_start(wv, i as int),
            forall|j: int| 0 <= j <= i ==> #[trigger] st@[j] == word_start(wv, j),
        decreases ws@.len() - i,
    {
        let n = encoded_len(&ws[i]);
        assert(wv[i as int] == ws@[i as int]@);
        let next = match n.checked_add(1) {
            Some(m) => pos.checked_add(m),
            None => None,
        };
        match next {
            Some(p) => {
                pos = p;
                st.push(p);
            },
            None => {
                proof {
                    lemma_word_start_grows(wv, i + 1, ws@.len() as int);
                }
                return None;
            },
        }
        i = i + 1;
    }
    Some(st)
}

// ---------------------------------------------------------------------------
// Date words
// ---------------------------------------------------------------------------

/// What `str::parse::<i64>` accepts: an optional sign and ASCII digits,
/// with a value in `i64`'s range.
pub open spec fn ascii_digits(s: Seq<char>) -> bool {
    forall|i: int| 0 <= i < s.len() ==> '0' <= #[trigger] s[i] <= '9'
}

pub open spec fn digits_value(s: Seq<char>) -> int
    decreases s.len(),
{
    if s.len() == 0 {
        0
    } else {
        digits_value(s.drop_last()) * 10 + (s.last() as int - 48)
    }
}

pub open spec fn i64_text(s: Seq<char>) -> Option<int> {
    let neg = s.len() > 0 && s[0] == '-';
    let signed = s.len() > 0 && (s[0] == '-' || s[0] == '+');
    let ds = if signed { s.drop_first() } else { s };
    let v = if neg { -digits_value(ds) } else { digits_value(ds) };
    if ds.len() == 0 || !ascii_digits(ds) || v < i64::MIN || v > i64::MAX {
        None
    } else {
        Some(v)
    }
}

proof fn lemma_digits_value_nonneg(s: Seq<char>)
    requires
        ascii_digits(s),
    ensures
        digits_value(s) >= 0,
    decreases s.len(),
{
    if s.len() > 0 {
        lemma_digits_value_nonneg(s.drop_last());
    }
}

/// More digits never make a smaller number.
proof fn lemma_digits_value_grows(s: Seq<char>, k: int)
    requires
        ascii_digits(s),
        0 <= k <= s.len(),
    ensures
        digits_value(s.take(k)) <= digits_value(s),
    decreases s.len() - k,
{
    if k < s.len() {
        let t = s.take(k + 1);
        assert(t.drop_last() =~= s.take(k));
        lemma_digits_value_nonneg(s.take(k));
        assert(ascii_digits(t));
        lemma_digits_value_grows(s, k + 1);
    } else {
        assert(s.take(k) =~= s);
    }
}

/// The value of the digits `cs[start..]` where they are all ASCII digits
/// and their value is at most `limit`.
pub(crate) fn digits_within(cs: &Vec<char>, start: usize, limit: u64) -> (r: Option<u64>)
    requires
        start <= cs@.len(),
        limit >= 9,
    ensures
        match r {
            Some(v) => ascii_digits(cs@.skip(start as int)) && v as int == digits_value(cs@.skip(start as int))
                && v <= limit,
            None => !ascii_digits(cs@.skip(start as int)) || digits_value(cs@.skip(start as int)) > limit,
        },
{
    let ghost ds = cs@.skip(start as int);
    let mut acc: u64 = 0;
    let mut i: usize = start;
    proof {
        assert(ds.take(0) =~= Seq::<char>::empty());
    }
    while i < cs.len()
        invariant
            start <= i <= cs@.len(),
            ds == cs@.skip(start as int),
            ascii_digits(ds.take(i - start)),
            acc as int == digits_value(ds.take(i - start)),
            acc <= limit,
            limit >= 9,
        decreases cs@.len() - i,
    {
        let c = cs[i];
        let ghost k: int = i - start;
        proof {
            assert(ds[k] == c);
        }
        if !('0' <= c && c <= '9') {
            proof {
                assert(!ascii_digits(ds));
            }
            return None;
        }
        let d: u64 = (c as u32 - 48) as u64;
        assert(d <= 9);
        let ghost next = ds.take(k + 1);
        proof {
            assert(next.drop_last() =~= ds.take(k));
            assert(next.last() == c);
            assert(digits_value(next) == acc * 10 + d);
        }
        if acc > (limit - d) / 10 {
            proof {
                assert(acc * 10 + d > limit) by (nonlinear_arith)
                    requires acc > (limit - d) / 10, d <= 9, d <= limit;
                if ascii_digits(ds) {
                    lemma_digits_value_grows(ds, k + 1);
                }
            }
            return None;
        }
        proof {
            assert(acc * 10 + d <= limit) by (nonlinear_arith)
                requires acc <= (limit - d) / 10, d <= limit;
            assert(ascii_digits(next));
        }
        acc = acc * 10 + d;
        i = i + 1;
    }
    proof {
        assert(ds.take(i - start) =~= ds);
    }
    Some(acc)
}

/// `str::parse::<i64>`, as its documentation states it.
fn parse_i64(s: &str) -> (r: Option<i64>)
    ensures
        match r {
            Some(n) => i64_text(s@) == Some(n as int),
            None => i64_text(s@) is None,
        },
{
    let cs = chars_of(s);
    if cs.len() == 0 {
        return None;
    }
    let neg = cs[0] == '-';
    let signed = neg || cs[0] == '+';
    let start: usize = if signed { 1 } else { 0 };
    if start == cs.len() {
        proof {
            assert(cs@.skip(start as int).len() == 0);
        }
        return None;
    }
    let limit: u64 = if neg { 9223372036854775808 } else { 9223372036854775807 };
    proof {
        if signed {
            assert(cs@.skip(1) =~= s@.drop_first());
        } else {
            assert(cs@.skip(0) =~= s@);
        }
    }
    match digits_within(&cs, start, limit) {
        None => None,
        Some(v) => {
            if neg {
                if v == 9223372036854775808 {
                    Some(i64::MIN)
                } else {
                    Some(-(v as i64))
                }
            } else {
                Some(v as i64)
            }
        },
    }
}

/// The stems of the weekday names, Monday first.
pub open spec fn weekday_stem(k: int) -> Seq<char> {
    if k == 0 {
        "понедельник"@
    } else if k == 1 {
        "вторник"@
    } else if k == 2 {
        "сред"@
    } else if k == 3 {
        "четверг"@
    } else if k == 4 {
        "пятниц"@
    } else if k == 5 {
        "суббот"@
    } else {
        "воскресень"@
    }
}

fn weekday_stem_text(k: usize) -> (r: &'static str)
    requires
        k < 7,
    ensures
        r@ == weekday_stem(k as int),
{
    if k == 0 {
        "понедельник"
    } else if k == 1 {
        "вторник"
    } else if k == 2 {
        "сред"
    } else if k == 3 {
        "четверг"
    } else if k == 4 {
        "пятниц"
    } else if k == 5 {
        "суббот"
    } else {
        "воскресень"
    }
}

/// The first weekday, from `k` on, whose stem begins the word.
pub open spec fn stem_from(t: Seq<char>, k: int) -> Option<int>
    decreases 7 - k,
{
    if k >= 7 {
        None
    } else if char_prefix(weekday_stem(k), t) {
        Some(k)
    } else {
        stem_from(t, k + 1)
    }
}

/// Days from a day of weekday `cur` to the next day of weekday `wd`; a
/// week when they are the same.
pub open spec fn days_until(cur: int, wd: int) -> int {
    let delta = (7 + wd - cur) % 7;
    if delta == 0 {
        7
    } else {
        delta
    }
}

/// Days from today that a single (trimmed, lowercased) word names.
pub open spec fn word_days(t: Seq<char>, cur: int) -> Option<int> {
    if t == "сегодня"@ {
        Some(0)
    } else if t == "завтра"@ {
        Some(1)
    } else if t == "послезавтра"@ {
        Some(2)
    } else if char_prefix("через"@, t) {
        None
    } else {
        match stem_from(t, 0) {
            Some(wd) => Some(days_until(cur, wd)),
            None => None,
        }
    }
}

fn word_days_of(t: &Vec<char>, cur: u32) -> (r: Option<i64>)
    requires
        cur < 7,
    ensures
        match r {
            Some(d) => word_days(t@, cur as int) == Some(d as int),
            None => word_days(t@, cur as int) is None,
        },
{
    if chars_equal(t, &chars_of("сегодня")) {
        return Some(0);
    }
    if chars_equal(t, &chars_of("завтра")) {
        return Some(1);
    }
    if chars_equal(t, &chars_of("послезавтра")) {
        return Some(2);
    }
    if has_prefix(&chars_of("через"), t) {
        return None;
    }
    let mut k: usize = 0;
    while k < 7
        invariant
            k <= 7,
            cur < 7,
            stem_from(t@, 0) == stem_from(t@, k as int),
            word_days(t@, cur as int) == match stem_from(t@, 0) {
                Some(wd) => Some(days_until(cur as int, wd)),
                None => None,
            },
        decreases 7 - k,
    {
        if has_prefix(&chars_of(weekday_stem_text(k)), t) {
            let wd = k as u32;
            let delta = (7 + wd - cur) % 7;
            let d: i64 = if delta == 0 {
                7
            } else {
                delta as i64
            };
            return Some(d);
        }
        k = k + 1;
    }
    None
}

/// The first date phrase among the words from `i` on: the days from today
/// it names and the byte range it takes, by the offsets of `word_start`.
/// A phrase is a date word (today, tomorrow, the day after, a weekday), or
/// "через" followed by a number and, where a word follows, a unit; a unit
/// that begins "недел" counts weeks, anything else days.
pub open spec fn date_scan(ws: Seq<Seq<char>>, cur: int, i: int) -> Option<(int, int, int)>
    decreases ws.len() - i,
{
    if i < 0 || i >= ws.len() {
        None
    } else {
        let t = alnum_trimmed(ws[i]);
        match word_days(t, cur) {
            Some(d) => Some((d, word_start(ws, i), word_start(ws, i) + encode_utf8(ws[i]).len())),
            None => if t == "через"@ && i + 1 < ws.len() && i64_text(alnum_trimmed(ws[i + 1])) is Some {
                let n = i64_text(alnum_trimmed(ws[i + 1]))->Some_0;
                let unit = if i + 2 < ws.len() {
                    alnum_trimmed(ws[i + 2])
                } else {
                    "дня"@
                };
                let days = if char_prefix("недел"@, unit) {
                    n * 7
                } else {
                    n
                };
                let last = if i + 2 < ws.len() {
                    i + 2
                } else {
                    i + 1
                };
                Some((days, word_start(ws, i), word_start(ws, last) + encode_utf8(ws[last]).len()))
            } else {
                date_scan(ws, cur, i + 1)
            },
        }
    }
}

/// The title once the date phrase at bytes `s..e` is taken out and the
/// whitespace squashed; the whole title squashed where `s` or `e` is not a
/// character boundary of it; the title itself where nothing is left.
pub open spec fn capture_cleaned(title: Seq<char>, s: int, e: int) -> Seq<char> {
    let tb = encode_utf8(title);
    let clean = if s <= tb.len() && e <= tb.len() && is_char_boundary(tb, s) && is_char_boundary(
        tb,
        e,
    ) {
        cut_out(title, s, e)
    } else {
        squash_ws(title)
    };
    if clean.len() == 0 {
        title
    } else {
        clean
    }
}

/// What the quick-entry parser makes of a title on a given day: the title
/// without its date phrase and that day's key, or the title unchanged and
/// no day when it names none; `None` where the parser panics (an offset
/// past `usize`, a week count past `i64`, a day past chrono's range).
pub open spec fn quick_entry(title: Seq<char>, today: CivilDate) -> Option<
    (Seq<char>, Option<Seq<char>>),
> {
    let ws = words(lowercase(title));
    if word_start(ws, ws.len() as int) > usize::MAX {
        None
    } else {
        match date_scan(ws, weekday_of(today), 0) {
            None => Some((title, None)),
            Some((days, s, e)) => if days < i64::MIN || days > i64::MAX {
                None
            } else {
                match chrono_add_days(today, days) {
                    None => None,
                    Some(d) => Some((capture_cleaned(title, s, e), Some(key_text(d)))),
                }
            },
        }
    }
}

/// A day already chosen is kept, with the title as it is.
pub open spec fn quick_entry_capture(
    title: Seq<char>,
    selected: Option<Seq<char>>,
    today: CivilDate,
) -> Option<(Seq<char>, Option<Seq<char>>)> {
    if selected is Some {
        Some((title, selected))
    } else {
        quick_entry(title, today)
    }
}

pub open spec fn capture_view(r: Option<(String, Option<String>)>) -> Option<
    (Seq<char>, Option<Seq<char>>),
> {
    match r {
        Some((t, d)) => Some((t@, opt_text(d))),
        None => None,
    }
}

fn clean_capture(title: &str, s: usize, e: usize) -> (r: String)
    ensures
        r@ == capture_cleaned(title@, s as int, e as int),
{
    let tl = title.as_bytes().len();
    let clean = if s <= tl && e <= tl && title.is_char_boundary(s) && title.is_char_boundary(e) {
        let (a, _) = title.split_at(s);
        let (_, b) = title.split_at(e);
        let mut joined = String::new();
        push_str(&mut joined, a);
        push_str(&mut joined, b);
        let ghost tb = encode_utf8(title@);
        proof {
            assert(a@ == decode_utf8(encode_utf8(a@)));
            assert(b@ == decode_utf8(encode_utf8(b@)));
            assert(encode_utf8(a@) =~= tb.subrange(0, s as int));
            assert(encode_utf8(b@) =~= tb.subrange(e as int, tb.len() as int));
            assert(joined@ =~= a@ + b@);
        }
        squash(joined.as_str())
    } else {
        squash(title)
    };
    if clean.as_str().is_empty() {
        title.to_owned()
    } else {
        clean
    }
}

fn finish_capture(title: &str, today: CivilDate, days: i64, s: usize, e: usize) -> (r: Option<
    (String, Option<String>),
>)
    requires
        valid_date(today),
    ensures
        capture_view(r) == match chrono_add_days(today, days as int) {
            None => None,
            Some(d) => Some((capture_cleaned(title@, s as int, e as int), Some(key_text(d)))),
        },
        r matches Some((_, Some(k))) ==> exists|d: CivilDate|
            valid_date(d) && k@ == key_text(d) && day_number(d) == day_number(today) + days,
{
    match add_days(today, days) {
        None => None,
        Some(d) => Some((clean_capture(title, s, e), Some(key_of(d)))),
    }
}

/// What one word of the title contributes to the scan for a date phrase.
enum ScanStep {
    /// A phrase starts here: days from today and its byte range.
    Found(i64, usize, usize),
    /// A phrase starts here whose week count does not fit `i64`.
    TooFar,
    /// No phrase starts here.
    Next,
}

fn scan_step(ws: &Vec<Vec<char>>, starts: &Vec<usize>, cur: u32, i: usize) -> (r: ScanStep)
    requires
        i < ws@.len(),
        starts@.len() == ws@.len() + 1,
        forall|j: int| 0 <= j <= ws@.len() ==> #[trigger] starts@[j] == word_start(word_views(ws@), j),
        cur < 7,
    ensures
        match r {
            ScanStep::Found(d, s, e) => date_scan(word_views(ws@), cur as int, i as int) == Some(
                (d as int, s as int, e as int),
            ),
            ScanStep::TooFar => date_scan(word_views(ws@), cur as int, i as int) matches Some(
                (days, _, _),
            ) && (days < i64::MIN || days > i64::MAX),
            ScanStep::Next => date_scan(word_views(ws@), cur as int, i as int) == date_scan(
                word_views(ws@),
                cur as int,
                i + 1,
            ),
        },
{
    let ghost wv = word_views(ws@);
    let n = ws.len();
    let t = trim_alnum(&ws[i]);
    assert(wv[i as int] == ws@[i as int]@);
    assert(starts@[i + 1] == word_start(wv, i + 1));
    assert(starts@[i as int] == word_start(wv, i as int));
    match word_days_of(&t, cur) {
        Some(d) => {
            return ScanStep::Found(d, starts[i], starts[i + 1] - 1);
        },
        None => {},
    }
    if i + 1 < n && chars_equal(&t, &chars_of("через")) {
        let t2 = trim_alnum(&ws[i + 1]);
        assert(wv[i + 1] == ws@[i + 1]@);
        let t2s = string_of(&t2);
        match parse_i64(t2s.as_str()) {
            Some(num) => {
                let (unit, e) = if i + 2 < n {
                    assert(wv[i + 2] == ws@[i + 2]@);
                    assert(starts@[i + 3] == word_start(wv, i + 3));
                    (trim_alnum(&ws[i + 2]), starts[i + 3] - 1)
                } else {
                    assert(starts@[i + 2] == word_start(wv, i + 2));
                    (chars_of("дня"), starts[i + 2] - 1)
                };
                let weekly = has_prefix(&chars_of("недел"), &unit);
                proof {
                    let last = if i + 2 < n {
                        i + 2
                    } else {
                        i + 1
                    };
                    assert(e == word_start(wv, last + 1) - 1);
                }
                if weekly {
                    match num.checked_mul(7) {
                        Some(x) => ScanStep::Found(x, starts[i], e),
                        None => ScanStep::TooFar,
                    }
                } else {
                    ScanStep::Found(num, starts[i], e)
                }
            },
            None => ScanStep::Next,
        }
    } else {
        ScanStep::Next
    }
}

/// Reads a due day out of a quick-entry title on the day `today`: Russian
/// words for today, tomorrow and the day after, weekday names (the next
/// such day, a week on when it is today) and "через N дней/недель". The
/// phrase is taken out of the title. A day already selected wins. `None`
/// where the parser cannot go on (see `quick_entry`).
pub fn parse_quick_entry_capture_on(title: &str, selected: Option<String>, today: CivilDate) -> (r:
    Option<(String, Option<String>)>)
    requires
        valid_date(today),
    ensures
        capture_view(r) == quick_entry_capture(title@, opt_text(selected), today),
        selected is None ==> (r matches Some((_, Some(k))) ==> (date_scan(
            words(lowercase(title@)),
            weekday_of(today),
            0,
        ) matches Some((n, _, _)) && exists|d: CivilDate|
            valid_date(d) && k@ == key_text(d) && day_number(d) == day_number(today) + n)),
{
    match selected {
        Some(sel) => {
            return Some((title.to_owned(), Some(sel)));
        },
        None => {},
    }
    let lower = to_lower(title);
    let lv = chars_of(lower.as_str());
    let ws = words_of(&lv);
    let ghost wv = word_views(ws@);
    let starts = match word_starts(&ws) {
        Some(st) => st,
        None => {
            return None;
        },
    };
    let cur = weekday_index(today);
    let n = ws.len();
    let mut i: usize = 0;
    while i < n
        invariant
            n == ws@.len(),
            wv == word_views(ws@),
            starts@.len() == n + 1,
            forall|j: int| 0 <= j <= n ==> #[trigger] starts@[j] == word_start(wv, j),
            cur < 7,
            cur as int == weekday_of(today),
            valid_date(today),
            selected is None,
            wv == words(lowercase(title@)),
            word_start(wv, n as int) <= usize::MAX,
            i <= n,
            date_scan(wv, cur as int, 0) == date_scan(wv, cur as int, i as int),
        decreases n - i,
    {
        match scan_step(&ws, &starts, cur, i) {
            ScanStep::Found(d, s, e) => {
                return finish_capture(title, today, d, s, e);
            },
            ScanStep::TooFar => {
                return None;
            },
            ScanStep::Next => {},
        }
        i = i + 1;
    }
    Some((title.to_owned(), None))
}

/// The quick-entry parse on today's date (the machine's local day).
pub fn parse_quick_entry_capture(title: &str, selected: Option<String>) -> (r: Option<
    (String, Option<String>),
>)
    ensures
        exists|today: CivilDate|
            valid_date(today) && capture_view(r) == quick_entry_capture(
                title@,
                opt_text(selected),
                today,
            ),
{
    let today = local_today();
    parse_quick_entry_capture_on(title, selected, today)
}


proof fn lemma_prefix_char(p: Seq<char>, t: Seq<char>, i: int)
    requires
        char_prefix(p, t),
        0 <= i < p.len(),
    ensures
        t[i] == p[i],
{
    assert(t.subrange(0, p.len() as int)[i] == t[i]);
}

proof fn lemma_stem_from(t: Seq<char>, k: int, w: int)
    requires
        0 <= k <= w < 7,
        forall|j: int| k <= j < w ==> !char_prefix(#[trigger] weekday_stem(j), t),
        char_prefix(weekday_stem(w), t),
    ensures
        stem_from(t, k) == Some(w),
    decreases w - k,
{
    if k < w {
        lemma_stem_from(t, k + 1, w);
    }
}

/// A weekday name names the next day of that weekday: a word beginning
/// with the Russian stem of weekday `w` (Monday = 0 .. Sunday = 6) stands
/// for the day 1 to 7 days on from a day of weekday `cur` whose weekday is
/// `w` (a week on when `cur` is `w` itself).
pub proof fn law_weekday_word_names_that_weekday(t: Seq<char>, cur: int, w: int)
    requires
        0 <= cur < 7,
        0 <= w < 7,
        char_prefix(
            seq!["понедельник"@, "вторник"@, "сред"@, "четверг"@, "пятниц"@, "суббот"@, "воскресень"@][w],
            t,
        ),
    ensures
        word_days(t, cur) matches Some(n) && 1 <= n <= 7 && (cur + n) % 7 == w,
{
    reveal_strlit("понедельник");
    reveal_strlit("вторник");
    reveal_strlit("сред");
    reveal_strlit("четверг");
    reveal_strlit("пятниц");
    reveal_strlit("суббот");
    reveal_strlit("воскресень");
    reveal_strlit("сегодня");
    reveal_strlit("завтра");
    reveal_strlit("послезавтра");
    reveal_strlit("через");
    let stems = seq!["понедельник"@, "вторник"@, "сред"@, "четверг"@, "пятниц"@, "суббот"@, "воскресень"@];
    let p = stems[w];
    assert(p.len() >= 4);
    lemma_prefix_char(p, t, 0);
    lemma_prefix_char(p, t, 1);
    lemma_prefix_char(p, t, 2);
    assert forall|k: int| 0 <= k < 7 && k != w implies !char_prefix(#[trigger] weekday_stem(k), t) by {
        if char_prefix(weekday_stem(k), t) {
            lemma_prefix_char(weekday_stem(k), t, 0);
            lemma_prefix_char(weekday_stem(k), t, 1);
            lemma_prefix_char(weekday_stem(k), t, 2);
        }
    }
    assert(char_prefix(weekday_stem(w), t));
    lemma_stem_from(t, 0, w);
    assert(t != "сегодня"@) by {
        if t == "сегодня"@ {
            assert(t[1] == 'е');
        }
    }
    assert(t != "завтра"@) by {
        if t == "завтра"@ {
            assert(t[0] == 'з');
        }
    }
    assert(t != "послезавтра"@) by {
        if t == "послезавтра"@ {
            assert(t[2] == 'с');
        }
    }
    assert(!char_prefix("через"@, t)) by {
        if char_prefix("через"@, t) {
            lemma_prefix_char("через"@, t, 0);
            lemma_prefix_char("через"@, t, 2);
        }
    }
}


/// The day a number of days on from another falls on the weekday that many
/// days on (weekdays counted Monday = 0 .. Sunday = 6).
pub proof fn law_days_on_weekday(today: CivilDate, d: CivilDate, n: int)
    requires
        day_number(d) == day_number(today) + n,
    ensures
        weekday_of(d) == (weekday_of(today) + n) % 7,
{
    let a = day_number(today) + 3;
    vstd::arithmetic::div_mod::lemma_add_mod_noop(a, n, 7);
    vstd::arithmetic::div_mod::lemma_add_mod_noop(a % 7, n, 7);
}


/// "сегодня" is today, "завтра" the next day, "послезавтра" the day after.
pub proof fn law_day_words(cur: int)
    ensures
        word_days("сегодня"@, cur) == Some(0int),
        word_days("завтра"@, cur) == Some(1int),
        word_days("послезавтра"@, cur) == Some(2int),
{
    reveal_strlit("сегодня");
    reveal_strlit("завтра");
    reveal_strlit("послезавтра");
    assert("сегодня"@ != "завтра"@) by {
        assert("сегодня"@[0] != "завтра"@[0]);
    }
    assert("послезавтра"@ != "завтра"@) by {
        assert("послезавтра"@.len() != "завтра"@.len());
    }
    assert("послезавтра"@ != "сегодня"@) by {
        assert("послезавтра"@.len() != "сегодня"@.len());
    }
}

/// "через N недель" is `7 * N` days on, "через N" with any other unit (or
/// none) `N` days on.
pub proof fn law_in_n_days_or_weeks(ws: Seq<Seq<char>>, cur: int, i: int, n: int)
    requires
        0 <= i,
        i + 1 < ws.len(),
        alnum_trimmed(ws[i]) == "через"@,
        i64_text(alnum_trimmed(ws[i + 1])) == Some(n),
    ensures
        date_scan(ws, cur, i) matches Some((d, _, _)) && d == if i + 2 < ws.len() && char_prefix("недел"@, alnum_trimmed(ws[i + 2])) {
            7 * n
        } else {
            n
        },
{
    reveal_strlit("через");
    reveal_strlit("сегодня");
    reveal_strlit("завтра");
    reveal_strlit("послезавтра");
    let t = alnum_trimmed(ws[i]);
    assert(t != "сегодня"@) by {
        assert(t[0] != "сегодня"@[0]);
    }
    assert(t != "завтра"@) by {
        assert(t[0] != "завтра"@[0]);
    }
    assert(t != "послезавтра"@) by {
        assert(t.len() != "послезавтра"@.len());
    }
    assert(char_prefix("через"@, t)) by {
        assert(t.subrange(0, t.len() as int) =~= t);
    }
    assert(word_days(t, cur) is None);
    reveal_strlit("дня");
    reveal_strlit("недел");
    assert(!char_prefix("недел"@, "дня"@));
}

} // verus!
