//! The source size rule: no source file may grow past a line limit, except
//! the files listed as existing debt.
use vstd::prelude::*;
use vstd::utf8::encode_utf8;
use crate::dates::{decimal, push_decimal};
use crate::order::{ranks_of, sort_selected, sorted_selection, usize_seq_view, OrderKey, Rank};
use crate::text::{bytes_of, chars_of, push_str, str_equal};

verus! {

/// The most lines a source file may have.
pub const SOURCE_LIMIT: usize = 300;

/// Occurrences of `c` in `s`.
pub open spec fn count_of(s: Seq<char>, c: char) -> int
    decreases s.len(),
{
    if s.len() == 0 {
        0
    } else {
        count_of(s.drop_last(), c) + if s.last() == c {
            1int
        } else {
            0int
        }
    }
}

/// `str::lines().count()`: one line per newline, and one more for text
/// after the last newline.
pub open spec fn lines_in(s: Seq<char>) -> int {
    if s.len() == 0 {
        0
    } else if s.last() == '\n' {
        count_of(s, '\n')
    } else {
        count_of(s, '\n') + 1
    }
}

proof fn lemma_count_bound(s: Seq<char>, c: char)
    ensures
        0 <= count_of(s, c) <= s.len(),
    decreases s.len(),
{
    if s.len() > 0 {
        lemma_count_bound(s.drop_last(), c);
    }
}

/// The number of lines of a text, as `str::lines` counts them.
pub fn line_count(text: &str) -> (n: usize)
    ensures
        n == lines_in(text@),
{
    let v = chars_of(text);
    let mut n: usize = 0;
    let mut i: usize = 0;
    proof {
        assert(v@.take(0) =~= Seq::<char>::empty());
    }
    while i < v.len()
        invariant
            i <= v@.len(),
            n == count_of(v@.take(i as int), '\n'),
        decreases v@.len() - i,
    {
        proof {
            assert(v@.take(i + 1).drop_last() =~= v@.take(i as int));
            lemma_count_bound(v@.take(i as int), '\n');
        }
        if v[i] == '\n' {
            n = n + 1;
        }
        i = i + 1;
    }
    proof {
        assert(v@.take(v@.len() as int) =~= v@);
        lemma_count_bound(v@, '\n');
        if v@.len() > 0 {
            lemma_count_bound(v@.drop_last(), '\n');
        }
    }
    if v.len() == 0 || v[v.len() - 1] == '\n' {
        n
    } else {
        n + 1
    }
}

/// `s` ends with `t`.
pub open spec fn ends_with(s: Seq<char>, t: Seq<char>) -> bool {
    t.len() <= s.len() && s.subrange(s.len() - t.len(), s.len() as int) == t
}

fn has_suffix(s: &Vec<char>, t: &Vec<char>) -> (r: bool)
    ensures
        r == ends_with(s@, t@),
{
    if t.len() > s.len() {
        return false;
    }
    let sl = s.len();
    let off = sl - t.len();
    let mut i: usize = 0;
    while i < t.len()
        invariant
            sl == s@.len(),
            off + t@.len() == s@.len(),
            i <= t@.len(),
            forall|j: int| 0 <= j < i ==> s@[off + j] == t@[j],
        decreases t@.len() - i,
    {
        if s[off + i] != t[i] {
            proof {
                assert(s@.subrange(off as int, s@.len() as int)[i as int] != t@[i as int]);
            }
            return false;
        }
        i = i + 1;
    }
    proof {
        assert(s@.subrange(off as int, s@.len() as int) =~= t@);
    }
    true
}

/// The file name extensions of source files.
pub open spec fn source_extension(k: int) -> Seq<char> {
    if k == 0 {
        ".js"@
    } else if k == 1 {
        ".jsx"@
    } else if k == 2 {
        ".mjs"@
    } else if k == 3 {
        ".cjs"@
    } else if k == 4 {
        ".ts"@
    } else if k == 5 {
        ".tsx"@
    } else if k == 6 {
        ".vue"@
    } else if k == 7 {
        ".rs"@
    } else {
        ".inc"@
    }
}

fn source_extension_text(k: usize) -> (r: &'static str)
    requires
        k < 9,
    ensures
        r@ == source_extension(k as int),
{
    if k == 0 {
        ".js"
    } else if k == 1 {
        ".jsx"
    } else if k == 2 {
        ".mjs"
    } else if k == 3 {
        ".cjs"
    } else if k == 4 {
        ".ts"
    } else if k == 5 {
        ".tsx"
    } else if k == 6 {
        ".vue"
    } else if k == 7 {
        ".rs"
    } else {
        ".inc"
    }
}

/// A file of this name is a source file.
pub open spec fn source_name(name: Seq<char>) -> bool {
    exists|k: int| 0 <= k < 9 && ends_with(name, #[trigger] source_extension(k))
}

pub fn is_source_file(name: &str) -> (r: bool)
    ensures
        r == source_name(name@),
{
    let v = chars_of(name);
    let mut k: usize = 0;
    while k < 9
        invariant
            k <= 9,
            v@ == name@,
            forall|j: int| 0 <= j < k ==> !ends_with(name@, #[trigger] source_extension(j)),
        decreases 9 - k,
    {
        if has_suffix(&v, &chars_of(source_extension_text(k))) {
            return true;
        }
        k = k + 1;
    }
    false
}

/// The directories the size rule does not look into.
pub open spec fn ignored_dir(k: int) -> Seq<char> {
    if k == 0 {
        ".agent"@
    } else if k == 1 {
        ".agents"@
    } else if k == 2 {
        ".dev"@
    } else if k == 3 {
        ".git"@
    } else if k == 4 {
        ".tmp"@
    } else if k == 5 {
        "build"@
    } else if k == 6 {
        "coverage"@
    } else if k == 7 {
        "dist"@
    } else if k == 8 {
        "dist-electron"@
    } else if k == 9 {
        "node_modules"@
    } else if k == 10 {
        "release"@
    } else if k == 11 {
        "target"@
    } else {
        "vendor"@
    }
}

fn ignored_dir_text(k: usize) -> (r: &'static str)
    requires
        k < 13,
    ensures
        r@ == ignored_dir(k as int),
{
    if k == 0 {
        ".agent"
    } else if k == 1 {
        ".agents"
    } else if k == 2 {
        ".dev"
    } else if k == 3 {
        ".git"
    } else if k == 4 {
        ".tmp"
    } else if k == 5 {
        "build"
    } else if k == 6 {
        "coverage"
    } else if k == 7 {
        "dist"
    } else if k == 8 {
        "dist-electron"
    } else if k == 9 {
        "node_modules"
    } else if k == 10 {
        "release"
    } else if k == 11 {
        "target"
    } else {
        "vendor"
    }
}

/// A directory of this name is skipped.
pub open spec fn ignored_name(name: Seq<char>) -> bool {
    exists|k: int| 0 <= k < 13 && name == #[trigger] ignored_dir(k)
}

pub fn is_ignored_dir(name: &str) -> (r: bool)
    ensures
        r == ignored_name(name@),
{
    let mut k: usize = 0;
    while k < 13
        invariant
            k <= 13,
            forall|j: int| 0 <= j < k ==> name@ != #[trigger] ignored_dir(j),
        decreases 13 - k,
    {
        if str_equal(name, ignored_dir_text(k)) {
            return true;
        }
        k = k + 1;
    }
    false
}

/// The files over the limit that are known debt.
pub open spec fn grandfathered_file(k: int) -> Seq<char> {
    if k == 0 {
        "src/app.rs"@
    } else if k == 1 {
        "src/chrome.rs"@
    } else if k == 2 {
        "src/model.rs"@
    } else {
        "src/pages.rs"@
    }
}

fn grandfathered_text(k: usize) -> (r: &'static str)
    requires
        k < 4,
    ensures
        r@ == grandfathered_file(k as int),
{
    if k == 0 {
        "src/app.rs"
    } else if k == 1 {
        "src/chrome.rs"
    } else if k == 2 {
        "src/model.rs"
    } else {
        "src/pages.rs"
    }
}

pub open spec fn grandfathered(label: Seq<char>) -> bool {
    exists|k: int| 0 <= k < 4 && label == #[trigger] grandfathered_file(k)
}

pub fn is_grandfathered(label: &str) -> (r: bool)
    ensures
        r == grandfathered(label@),
{
    let mut k: usize = 0;
    while k < 4
        invariant
            k <= 4,
            forall|j: int| 0 <= j < k ==> label@ != #[trigger] grandfathered_file(j),
        decreases 4 - k,
    {
        if str_equal(label, grandfathered_text(k)) {
            return true;
        }
        k = k + 1;
    }
    false
}

/// How the size rule judges one file.
#[derive(PartialEq, Eq, Debug, Structural)]
pub enum SizeVerdict {
    /// Within the limit.
    Fits,
    /// Over the limit, but known debt.
    Debt,
    /// Over the limit: the size rule is broken.
    Violation,
}

pub open spec fn verdict_of(label: Seq<char>, lines: int) -> SizeVerdict {
    if lines <= SOURCE_LIMIT {
        SizeVerdict::Fits
    } else if grandfathered(label) {
        SizeVerdict::Debt
    } else {
        SizeVerdict::Violation
    }
}

pub fn size_verdict(label: &str, lines: usize) -> (r: SizeVerdict)
    ensures
        r == verdict_of(label@, lines as int),
{
    if lines <= SOURCE_LIMIT {
        SizeVerdict::Fits
    } else if is_grandfathered(label) {
        SizeVerdict::Debt
    } else {
        SizeVerdict::Violation
    }
}

/// "<label>: <lines> lines" for a debt file.
pub open spec fn debt_text(label: Seq<char>, lines: nat) -> Seq<char> {
    label + ": "@ + decimal(lines) + " lines"@
}

/// "<label>: <lines> lines (max 300)" for a file over the limit.
pub open spec fn violation_text(label: Seq<char>, lines: nat) -> Seq<char> {
    debt_text(label, lines) + " (max "@ + decimal(SOURCE_LIMIT as nat) + ")"@
}

pub fn debt_line(label: &str, lines: usize) -> (r: String)
    ensures
        r@ == debt_text(label@, lines as nat),
{
    let mut s = String::new();
    push_str(&mut s, label);
    push_str(&mut s, ": ");
    push_decimal(&mut s, lines as u64);
    push_str(&mut s, " lines");
    proof {
        assert(s@ =~= debt_text(label@, lines as nat));
    }
    s
}

pub fn violation_line(label: &str, lines: usize) -> (r: String)
    ensures
        r@ == violation_text(label@, lines as nat),
{
    let mut s = debt_line(label, lines);
    push_str(&mut s, " (max ");
    push_decimal(&mut s, SOURCE_LIMIT as u64);
    push_str(&mut s, ")");
    proof {
        assert(s@ =~= violation_text(label@, lines as nat));
    }
    s
}

/// Texts are ordered by their UTF-8 bytes, as `String`'s `Ord` orders them.
pub open spec fn text_rank(s: Seq<char>) -> Rank {
    Rank { text: encode_utf8(s), desc: false, first: 0, second: 0 }
}

pub open spec fn all_chosen(n: nat) -> Seq<bool> {
    Seq::new(n, |i: int| true)
}

pub open spec fn text_ranks(u: Seq<Seq<char>>) -> Seq<Rank> {
    u.map_values(|s: Seq<char>| text_rank(s))
}

/// `r` is `u` sorted (`Vec::sort`): the same texts, each once for each time
/// it occurs, in ascending order.
pub open spec fn sorted_from(u: Seq<Seq<char>>, r: Seq<Seq<char>>) -> bool {
    exists|q: Seq<int>|
        #[trigger] sorted_selection(text_ranks(u), all_chosen(u.len()), q) && r.len()
            == q.len() && forall|i: int| 0 <= i < r.len() ==> r[i] == u[#[trigger] q[i]]
}

pub open spec fn views(v: Seq<String>) -> Seq<Seq<char>> {
    v.map_values(|s: String| s@)
}

/// Sorts texts ascending.
pub fn sort_texts(v: &Vec<String>) -> (r: Vec<String>)
    ensures
        sorted_from(views(v@), views(r@)),
{
    let mut keys: Vec<OrderKey> = Vec::new();
    let mut chosen: Vec<bool> = Vec::new();
    let mut i: usize = 0;
    while i < v.len()
        invariant
            i <= v@.len(),
            keys@.len() == i,
            chosen@.len() == i,
            forall|j: int| 0 <= j < i ==> #[trigger] keys@[j].rank() == text_rank(v@[j]@),
            forall|j: int| 0 <= j < i ==> #[trigger] chosen@[j],
        decreases v@.len() - i,
    {
        keys.push(OrderKey { text: bytes_of(v[i].as_str()), desc: false, first: 0, second: 0 });
        chosen.push(true);
        i = i + 1;
    }
    let ghost u = views(v@);
    proof {
        assert(ranks_of(keys@) =~= text_ranks(u));
        assert(chosen@ =~= all_chosen(u.len()));
    }
    let q = sort_selected(&keys, &chosen);
    let mut r: Vec<String> = Vec::new();
    let mut k: usize = 0;
    let ghost qv = usize_seq_view(q@);
    while k < q.len()
        invariant
            qv == usize_seq_view(q@),
            sorted_selection(text_ranks(u), all_chosen(u.len()), qv),
            u == views(v@),
            k <= q@.len(),
            r@.len() == k,
            forall|j: int| 0 <= j < k ==> #[trigger] views(r@)[j] == u[qv[j]],
        decreases q@.len() - k,
    {
        assert(0 <= qv[k as int] < u.len());
        let ghost before = r@;
        let c = v[q[k]].clone();
        r.push(c);
        proof {
            assert(qv[k as int] == q@[k as int] as int);
            assert(views(r@)[k as int] == u[qv[k as int]]);
            assert forall|j: int| 0 <= j < k implies #[trigger] views(r@)[j] == u[qv[j]] by {
                assert(views(r@)[j] == views(before)[j]);
            }
        }
        k = k + 1;
    }
    proof {
        assert(views(r@).len() == qv.len());
        assert(sorted_selection(text_ranks(u), all_chosen(u.len()), qv));
    }
    r
}

/// The lines of the size rule's report for the files over the limit: the
/// violations and the known debt, each in the order of the files.
pub open spec fn report_lines(files: Seq<(String, usize)>, debt: bool) -> Seq<Seq<char>>
    decreases files.len(),
{
    if files.len() == 0 {
        seq![]
    } else {
        let rest = report_lines(files.drop_last(), debt);
        let (label, lines) = files.last();
        let v = verdict_of(label@, lines as int);
        if debt && v == SizeVerdict::Debt {
            rest.push(debt_text(label@, lines as nat))
        } else if !debt && v == SizeVerdict::Violation {
            rest.push(violation_text(label@, lines as nat))
        } else {
            rest
        }
    }
}

/// What the size rule reports: the failing files and the known debt, each list
/// sorted.
pub struct SizeReport {
    pub violations: Vec<String>,
    pub debt: Vec<String>,
}

/// Judges each file (its label and line count) and sorts the two lists.
pub fn size_report(files: &Vec<(String, usize)>) -> (r: SizeReport)
    ensures
        sorted_from(report_lines(files@, false), views(r.violations@)),
        sorted_from(report_lines(files@, true), views(r.debt@)),
{
    let mut violations: Vec<String> = Vec::new();
    let mut debt: Vec<String> = Vec::new();
    let mut i: usize = 0;
    proof {
        assert(files@.take(0) =~= Seq::<(String, usize)>::empty());
    }
    while i < files.len()
        invariant
            i <= files@.len(),
            views(violations@) == report_lines(files@.take(i as int), false),
            views(debt@) == report_lines(files@.take(i as int), true),
        decreases files@.len() - i,
    {
        let label = files[i].0.as_str();
        let lines = files[i].1;
        proof {
            assert(files@.take(i + 1).drop_last() =~= files@.take(i as int));
        }
        match size_verdict(label, lines) {
            SizeVerdict::Violation => {
                violations.push(violation_line(label, lines));
                proof {
                    assert(views(violations@) =~= report_lines(files@.take(i as int), false).push(
                        violation_text(label@, lines as nat),
                    ));
                }
            },
            SizeVerdict::Debt => {
                debt.push(debt_line(label, lines));
                proof {
                    assert(views(debt@) =~= report_lines(files@.take(i as int), true).push(
                        debt_text(label@, lines as nat),
                    ));
                }
            },
            SizeVerdict::Fits => {},
        }
        i = i + 1;
    }
    proof {
        assert(files@.take(files@.len() as int) =~= files@);
    }
    SizeReport { violations: sort_texts(&violations), debt: sort_texts(&debt) }
}

/// "source size check failed (<n> file(s))".
pub fn failure_header(n: usize) -> (r: String)
    ensures
        r@ == "source size check failed ("@ + decimal(n as nat) + " file(s))"@,
{
    let mut s = String::new();
    push_str(&mut s, "source size check failed (");
    push_decimal(&mut s, n as u64);
    push_str(&mut s, " file(s))");
    s
}

/// "source size check passed (<n> grandfathered file(s) over 300 lines)".
pub fn pass_header(n: usize) -> (r: String)
    ensures
        r@ == "source size check passed ("@ + decimal(n as nat) + " grandfathered file(s) over "@
            + decimal(SOURCE_LIMIT as nat) + " lines)"@,
{
    let mut s = String::new();
    push_str(&mut s, "source size check passed (");
    push_decimal(&mut s, n as u64);
    push_str(&mut s, " grandfathered file(s) over ");
    push_decimal(&mut s, SOURCE_LIMIT as u64);
    push_str(&mut s, " lines)");
    s
}

} // verus!
