//! Text primitives for anchor-based editing: the document is a sequence of
//! characters, anchors are found by searching for marker substrings, and edits
//! splice new characters in at a position.
use vstd::prelude::*;
use vstd::string::*;

verus! {

/// `p` occurs in `t` starting at index `i`.
pub open spec fn occurs_at(t: Seq<char>, p: Seq<char>, i: int) -> bool {
    0 <= i && i + p.len() <= t.len() && t.subrange(i, i + p.len()) == p
}

/// `p` occurs somewhere in `t`.
pub open spec fn has_sub(t: Seq<char>, p: Seq<char>) -> bool {
    exists|i: int| occurs_at(t, p, i)
}

/// The first index `i >= from` at which `p` occurs in `t`.
pub open spec fn find_from(t: Seq<char>, p: Seq<char>, from: int) -> Option<int>
    decreases t.len() + 1 - from,
{
    if from < 0 || from + p.len() > t.len() {
        None
    } else if occurs_at(t, p, from) {
        Some(from)
    } else {
        find_from(t, p, from + 1)
    }
}

/// The last index `i <= at` at which `p` occurs in `t`.
pub open spec fn find_last_at_most(t: Seq<char>, p: Seq<char>, at: int) -> Option<int>
    decreases at + 1,
{
    if at < 0 {
        None
    } else if occurs_at(t, p, at) {
        Some(at)
    } else {
        find_last_at_most(t, p, at - 1)
    }
}

/// The last index at which `p` occurs in `t`.
pub open spec fn find_last(t: Seq<char>, p: Seq<char>) -> Option<int> {
    find_last_at_most(t, p, t.len() - p.len())
}

/// `t` with the range `[start, end)` replaced by `s`.
pub open spec fn splice(t: Seq<char>, start: int, end: int, s: Seq<char>) -> Seq<char> {
    t.subrange(0, start) + s + t.subrange(end, t.len() as int)
}

/// `t` with `s` inserted at index `at`.
pub open spec fn insert_at(t: Seq<char>, at: int, s: Seq<char>) -> Seq<char> {
    splice(t, at, at, s)
}

/// Every non-overlapping occurrence of `p` in `t`, scanning left to right,
/// replaced by `r`.
pub open spec fn replace_all(t: Seq<char>, p: Seq<char>, r: Seq<char>) -> Seq<char>
    decreases t.len(),
{
    if p.len() == 0 || t.len() < p.len() {
        t
    } else if t.subrange(0, p.len() as int) == p {
        r + replace_all(t.subrange(p.len() as int, t.len() as int), p, r)
    } else {
        seq![t[0]] + replace_all(t.subrange(1, t.len() as int), p, r)
    }
}

pub proof fn lemma_find_from_bounds(t: Seq<char>, p: Seq<char>, from: int)
    requires
        0 <= from,
    ensures
        find_from(t, p, from) matches Some(i) ==> from <= i && occurs_at(t, p, i),
        find_from(t, p, from) matches Some(i) ==> forall|k: int|
            from <= k < i ==> !occurs_at(t, p, k),
        find_from(t, p, from) is None ==> forall|k: int| from <= k ==> !occurs_at(t, p, k),
    decreases t.len() + 1 - from,
{
    if from + p.len() <= t.len() && !occurs_at(t, p, from) {
        lemma_find_from_bounds(t, p, from + 1);
    }
}

pub proof fn lemma_find_last_bounds(t: Seq<char>, p: Seq<char>, at: int)
    ensures
        find_last_at_most(t, p, at) matches Some(i) ==> i <= at && occurs_at(t, p, i),
        find_last_at_most(t, p, at) matches Some(i) ==> forall|k: int|
            i < k <= at ==> !occurs_at(t, p, k),
        find_last_at_most(t, p, at) is None ==> forall|k: int| k <= at ==> !occurs_at(t, p, k),
    decreases at + 1,
{
    if at >= 0 && !occurs_at(t, p, at) {
        lemma_find_last_bounds(t, p, at - 1);
    }
}

/// Searching from the start finds an occurrence exactly when there is one.
pub proof fn lemma_has_sub_find(t: Seq<char>, p: Seq<char>)
    ensures
        has_sub(t, p) <==> find_from(t, p, 0) is Some,
{
    lemma_find_from_bounds(t, p, 0);
}

/// Inserting keeps the text on either side of the insertion point, and the
/// inserted text occurs at that point.
pub proof fn lemma_insert_keeps(t: Seq<char>, q: int, x: Seq<char>)
    requires
        0 <= q <= t.len(),
    ensures
        insert_at(t, q, x).len() == t.len() + x.len(),
        insert_at(t, q, x).subrange(0, q) == t.subrange(0, q),
        insert_at(t, q, x).subrange(q + x.len(), (t.len() + x.len()) as int) == t.subrange(q, t.len() as int),
        occurs_at(insert_at(t, q, x), x, q),
{
    let r = insert_at(t, q, x);
    assert(r.subrange(0, q) =~= t.subrange(0, q));
    assert(r.subrange(q + x.len(), (t.len() + x.len()) as int) =~= t.subrange(q, t.len() as int));
    assert(r.subrange(q, q + x.len()) =~= x);
}

/// An occurrence that ends at or before the insertion point stays where it
/// was; one that starts at or after it moves right by the inserted length.
pub proof fn lemma_insert_keeps_occurrence(t: Seq<char>, m: Seq<char>, i: int, q: int, x: Seq<char>)
    requires
        0 <= q <= t.len(),
        occurs_at(t, m, i),
    ensures
        i + m.len() <= q ==> occurs_at(insert_at(t, q, x), m, i),
        q <= i ==> occurs_at(insert_at(t, q, x), m, i + x.len()),
{
    let r = insert_at(t, q, x);
    if i + m.len() <= q {
        assert(r.subrange(i, i + m.len()) =~= t.subrange(i, i + m.len()));
    }
    if q <= i {
        assert(r.subrange(i + x.len(), i + x.len() + m.len()) =~= t.subrange(i, i + m.len()));
    }
}

/// The characters of `s`, in order.
pub fn chars_of(s: &str) -> (r: Vec<char>)
    ensures
        r@ == s@,
{
    let mut r: Vec<char> = Vec::new();
    push_str(&mut r, s);
    r
}

/// Appends the characters of `s` to `v`.
pub fn push_str(v: &mut Vec<char>, s: &str)
    ensures
        final(v)@ == old(v)@ + s@,
{
    let n = s.unicode_len();
    let mut i: usize = 0;
    while i < n
        invariant
            n == s@.len(),
            i <= n,
            v@ == old(v)@ + s@.subrange(0, i as int),
        decreases n - i,
    {
        let c = s.get_char(i);
        v.push(c);
        i = i + 1;
        assert(s@.subrange(0, i as int) =~= s@.subrange(0, i - 1) + seq![c]);
    }
    assert(s@.subrange(0, n as int) =~= s@);
}

/// Appends the characters of `s` to `v`.
pub fn push_chars(v: &mut Vec<char>, s: &Vec<char>)
    ensures
        final(v)@ == old(v)@ + s@,
{
    let mut i: usize = 0;
    while i < s.len()
        invariant
            i <= s.len(),
            v@ == old(v)@ + s@.subrange(0, i as int),
        decreases s.len() - i,
    {
        v.push(s[i]);
        i = i + 1;
        assert(s@.subrange(0, i as int) =~= s@.subrange(0, i - 1) + seq![s@[i - 1]]);
    }
    assert(s@.subrange(0, s.len() as int) =~= s@);
}

/// Relies on `String::push`, which appends one character to the end of the string.
#[verifier::external_body]
fn push_char(s: &mut String, c: char)
    ensures
        final(s)@ == old(s)@.push(c),
{
    s.push(c)
}

/// The string made of the characters of `v`, in order.
pub fn string_of(v: &Vec<char>) -> (r: String)
    ensures
        r@ == v@,
{
    let mut r = String::new();
    let mut i: usize = 0;
    while i < v.len()
        invariant
            i <= v.len(),
            r@ == v@.subrange(0, i as int),
        decreases v.len() - i,
    {
        push_char(&mut r, v[i]);
        i = i + 1;
        assert(v@.subrange(0, i as int) =~= v@.subrange(0, i - 1).push(v@[i - 1]));
    }
    assert(v@.subrange(0, v.len() as int) =~= v@);
    r
}

/// Whether `p` occurs in `t` at index `i`.
pub fn matches_at(t: &Vec<char>, p: &Vec<char>, i: usize) -> (r: bool)
    ensures
        r == occurs_at(t@, p@, i as int),
{
    if i > t.len() || p.len() > t.len() - i {
        return false;
    }
    let mut j: usize = 0;
    while j < p.len()
        invariant
            i + p.len() <= t.len(),
            j <= p.len(),
            forall|k: int| 0 <= k < j ==> t@[i + k] == p@[k],
        decreases p.len() - j,
    {
        if t[i + j] != p[j] {
            assert(t@.subrange(i as int, i + p.len())[j as int] != p@[j as int]);
            return false;
        }
        j = j + 1;
    }
    assert(t@.subrange(i as int, i + p.len()) =~= p@);
    true
}

/// The first occurrence of `p` in `t` at or after `from`.
pub fn find(t: &Vec<char>, p: &Vec<char>, from: usize) -> (r: Option<usize>)
    ensures
        r matches Some(i) ==> find_from(t@, p@, from as int) == Some(i as int),
        r is None ==> find_from(t@, p@, from as int) is None,
{
    if p.len() > t.len() || from > t.len() - p.len() {
        return None;
    }
    let last = t.len() - p.len();
    let mut i = from;
    loop
        invariant
            last == t.len() - p.len(),
            from <= i <= last,
            find_from(t@, p@, from as int) == find_from(t@, p@, i as int),
        decreases last - i,
    {
        if matches_at(t, p, i) {
            return Some(i);
        }
        if i == last {
            assert(find_from(t@, p@, i + 1) is None);
            return None;
        }
        i = i + 1;
    }
}

/// The last occurrence of `p` in `t`.
pub fn find_last_of(t: &Vec<char>, p: &Vec<char>) -> (r: Option<usize>)
    ensures
        r matches Some(i) ==> find_last(t@, p@) == Some(i as int),
        r is None ==> find_last(t@, p@) is None,
{
    if p.len() > t.len() {
        return None;
    }
    let mut i: usize = t.len() - p.len();
    loop
        invariant
            p.len() <= t.len(),
            i <= t.len() - p.len(),
            find_last(t@, p@) == find_last_at_most(t@, p@, i as int),
        decreases i,
    {
        if matches_at(t, p, i) {
            return Some(i);
        }
        if i == 0 {
            assert(find_last_at_most(t@, p@, -1) is None);
            return None;
        }
        i = i - 1;
    }
}

/// Whether `p` occurs anywhere in `t`.
pub fn contains(t: &Vec<char>, p: &Vec<char>) -> (r: bool)
    ensures
        r == has_sub(t@, p@),
{
    proof {
        lemma_has_sub_find(t@, p@);
    }
    find(t, p, 0).is_some()
}

/// `t` with the range `[start, end)` replaced by `s`.
pub fn splice_exec(t: &Vec<char>, start: usize, end: usize, s: &Vec<char>) -> (r: Vec<char>)
    requires
        start <= end <= t.len(),
    ensures
        r@ == splice(t@, start as int, end as int, s@),
{
    let mut r: Vec<char> = Vec::new();
    let mut i: usize = 0;
    while i < start
        invariant
            i <= start <= end <= t.len(),
            r@ == t@.subrange(0, i as int),
        decreases start - i,
    {
        r.push(t[i]);
        i = i + 1;
        assert(t@.subrange(0, i as int) =~= t@.subrange(0, i - 1).push(t@[i - 1]));
    }
    push_chars(&mut r, s);
    let ghost mid = r@;
    let mut j: usize = end;
    while j < t.len()
        invariant
            end <= j <= t.len(),
            r@ == mid + t@.subrange(end as int, j as int),
        decreases t.len() - j,
    {
        r.push(t[j]);
        j = j + 1;
        assert(t@.subrange(end as int, j as int) =~= t@.subrange(end as int, j - 1).push(
            t@[j - 1],
        ));
    }
    assert(r@ =~= splice(t@, start as int, end as int, s@));
    r
}

/// `t` with every non-overlapping occurrence of `p` replaced by `rep`.
pub fn replace_all_exec(t: &Vec<char>, p: &Vec<char>, rep: &Vec<char>) -> (r: Vec<char>)
    requires
        p.len() > 0,
    ensures
        r@ == replace_all(t@, p@, rep@),
{
    let mut r: Vec<char> = Vec::new();
    let mut i: usize = 0;
    assert(t@.subrange(0, t.len() as int) =~= t@);
    while i < t.len()
        invariant
            p.len() > 0,
            i <= t.len(),
            replace_all(t@, p@, rep@) == r@ + replace_all(
                t@.subrange(i as int, t.len() as int),
                p@,
                rep@,
            ),
        decreases t.len() - i,
    {
        let ghost rest = t@.subrange(i as int, t.len() as int);
        if matches_at(t, p, i) {
            assert(rest.subrange(0, p.len() as int) =~= t@.subrange(i as int, i + p.len()));
            assert(rest.subrange(p.len() as int, rest.len() as int) =~= t@.subrange(
                i + p.len(),
                t.len() as int,
            ));
            push_chars(&mut r, rep);
            i = i + p.len();
        } else {
            assert(rest.len() >= p@.len() ==> rest.subrange(0, p.len() as int) =~= t@.subrange(
                i as int,
                i + p.len(),
            ));
            assert(rest.subrange(1, rest.len() as int) =~= t@.subrange(i + 1, t.len() as int));
            r.push(t[i]);
            i = i + 1;
        }
    }
    assert(t@.subrange(t.len() as int, t.len() as int) =~= Seq::<char>::empty());
    assert(r@ + Seq::<char>::empty() =~= r@);
    r
}

/// The characters of `t` in `[start, end)`.
pub fn slice_exec(t: &Vec<char>, start: usize, end: usize) -> (r: Vec<char>)
    requires
        start <= end <= t.len(),
    ensures
        r@ == t@.subrange(start as int, end as int),
{
    let mut r: Vec<char> = Vec::new();
    let mut i: usize = start;
    while i < end
        invariant
            start <= i <= end <= t.len(),
            r@ == t@.subrange(start as int, i as int),
        decreases end - i,
    {
        r.push(t[i]);
        i = i + 1;
        assert(t@.subrange(start as int, i as int) =~= t@.subrange(start as int, i - 1).push(
            t@[i - 1],
        ));
    }
    r
}

/// Whether `a` and `b` hold the same characters.
pub fn same_chars(a: &Vec<char>, b: &Vec<char>) -> (r: bool)
    ensures
        r == (a@ == b@),
{
    if a.len() != b.len() {
        return false;
    }
    let mut i: usize = 0;
    while i < a.len()
        invariant
            a.len() == b.len(),
            i <= a.len(),
            forall|k: int| 0 <= k < i ==> a@[k] == b@[k],
        decreases a.len() - i,
    {
        if a[i] != b[i] {
            return false;
        }
        i = i + 1;
    }
    assert(a@ =~= b@);
    true
}

/// `l` occurs in `t` at index `i` as a whole line: at the start of `t` or
/// after a line break, and at the end of `t` or before one.
pub open spec fn line_at(t: Seq<char>, l: Seq<char>, i: int) -> bool {
    &&& occurs_at(t, l, i)
    &&& (i == 0 || t[i - 1] == '\n')
    &&& (i + l.len() == t.len() || t[i + l.len()] == '\n')
}

/// `l` is one of the lines of `t`.
pub open spec fn has_line(t: Seq<char>, l: Seq<char>) -> bool {
    exists|i: int| line_at(t, l, i)
}

/// Whether `l` is one of the lines of `t`.
pub fn contains_line(t: &Vec<char>, l: &Vec<char>) -> (r: bool)
    ensures
        r == has_line(t@, l@),
{
    if l.len() > t.len() {
        return false;
    }
    let last = t.len() - l.len();
    let mut i: usize = 0;
    loop
        invariant
            last == t.len() - l.len(),
            i <= last,
            forall|k: int| 0 <= k < i ==> !line_at(t@, l@, k),
        decreases last - i,
    {
        if matches_at(t, l, i) && (i == 0 || t[i - 1] == '\n') && (i == last || t[i + l.len()]
            == '\n') {
            assert(line_at(t@, l@, i as int));
            return true;
        }
        if i == last {
            assert forall|k: int| !line_at(t@, l@, k) by {
                if line_at(t@, l@, k) {
                    assert(k <= last);
                }
            }
            return false;
        }
        i = i + 1;
    }
}

/// What `str::to_lowercase` yields for `s`.
pub uninterp spec fn lower_of(s: Seq<char>) -> Seq<char>;

/// Relies on `str::to_lowercase`: the lower-case mapping of `s`, which
/// depends on the characters of `s` alone.
#[verifier::external_body]
pub(crate) fn lowercase(s: &str) -> (r: String)
    ensures
        r@ == lower_of(s@),
{
    s.to_lowercase()
}

} // verus!
