//! Text primitives: white space, trimming, searching, splitting and decimal
//! numbers, all stated over the sequence of characters of a string.

use vstd::prelude::*;
use vstd::string::*;
use vstd::utf8::*;

verus! {

// ---------------------------------------------------------------------------
// Character classes
// ---------------------------------------------------------------------------

/// The code points with the Unicode property `White_Space`.
pub open spec fn is_white_space(c: char) -> bool {
    let n = c as u32;
    ||| 0x9 <= n <= 0xd
    ||| n == 0x20
    ||| n == 0x85
    ||| n == 0xa0
    ||| n == 0x1680
    ||| 0x2000 <= n <= 0x200a
    ||| n == 0x2028
    ||| n == 0x2029
    ||| n == 0x202f
    ||| n == 0x205f
    ||| n == 0x3000
}

/// The code points of the Unicode general category `Cc`.
pub open spec fn is_control(c: char) -> bool {
    let n = c as u32;
    n <= 0x1f || 0x7f <= n <= 0x9f
}

/// Is `c` a white space character?
pub fn white_space(c: char) -> (r: bool)
    ensures
        r == is_white_space(c),
{
    let n: u32 = c as u32;
    (0x9 <= n && n <= 0xd) || n == 0x20 || n == 0x85 || n == 0xa0 || n == 0x1680 || (0x2000 <= n
        && n <= 0x200a) || n == 0x2028 || n == 0x2029 || n == 0x202f || n == 0x205f || n == 0x3000
}

/// Is `c` a control character?
pub fn control(c: char) -> (r: bool)
    ensures
        r == is_control(c),
{
    let n: u32 = c as u32;
    n <= 0x1f || (0x7f <= n && n <= 0x9f)
}

// ---------------------------------------------------------------------------
// Whole strings
// ---------------------------------------------------------------------------

/// The characters of `s`, in order.
pub fn chars_of(s: &str) -> (v: Vec<char>)
    ensures
        v@ == s@,
{
    let mut v: Vec<char> = Vec::new();
    for c in it: s.chars()
        invariant
            v@ == it.seq().take(it.index() as int),
            it.seq() == s@,
    {
        v.push(c);
    }
    v
}

/// Do the two strings hold the same characters?
pub fn same_text(a: &str, b: &str) -> (r: bool)
    ensures
        r == (a@ == b@),
{
    let x = chars_of(a);
    let y = chars_of(b);
    if x.len() != y.len() {
        return false;
    }
    let mut i: usize = 0;
    while i < x.len()
        invariant
            i <= x.len(),
            x.len() == y.len(),
            x@ == a@,
            y@ == b@,
            forall|j: int| 0 <= j < i ==> x@[j] == y@[j],
        decreases x.len() - i,
    {
        if x[i] != y[i] {
            return false;
        }
        i += 1;
    }
    assert(a@ =~= b@);
    true
}

/// The number of bytes in the UTF-8 encoding of `s`.
pub open spec fn byte_len(s: Seq<char>) -> nat {
    encode_utf8(s).len()
}

/// The length of `s` in bytes.
pub fn bytes_in(s: &str) -> (n: usize)
    ensures
        n == byte_len(s@),
{
    s.as_bytes().len()
}

// ---------------------------------------------------------------------------
// Trimming
// ---------------------------------------------------------------------------

/// `s` without its leading white space.
pub open spec fn trim_start(s: Seq<char>) -> Seq<char>
    decreases s.len(),
{
    if s.len() > 0 && is_white_space(s[0]) {
        trim_start(s.drop_first())
    } else {
        s
    }
}

/// `s` without its trailing white space.
pub open spec fn trim_end(s: Seq<char>) -> Seq<char>
    decreases s.len(),
{
    if s.len() > 0 && is_white_space(s.last()) {
        trim_end(s.drop_last())
    } else {
        s
    }
}

/// `s` without its leading and trailing white space.
pub open spec fn trimmed(s: Seq<char>) -> Seq<char> {
    trim_end(trim_start(s))
}

/// White space up to `k` and none at `k` fixes what `trim_start` leaves.
pub proof fn lemma_trim_start_is(s: Seq<char>, k: int)
    requires
        0 <= k <= s.len(),
        forall|j: int| 0 <= j < k ==> is_white_space(#[trigger] s[j]),
        k < s.len() ==> !is_white_space(s[k]),
    ensures
        trim_start(s) == s.skip(k),
    decreases s.len(),
{
    if k == 0 {
        assert(s.skip(0) =~= s);
    } else {
        let t = s.drop_first();
        assert forall|j: int| 0 <= j < k - 1 implies is_white_space(#[trigger] t[j]) by {
            assert(t[j] == s[j + 1]);
        }
        lemma_trim_start_is(t, k - 1);
        assert(t.skip(k - 1) =~= s.skip(k));
    }
}

/// White space from `k` on and none just before it fixes what `trim_end` leaves.
pub proof fn lemma_trim_end_is(s: Seq<char>, k: int)
    requires
        0 <= k <= s.len(),
        forall|j: int| k <= j < s.len() ==> is_white_space(#[trigger] s[j]),
        k > 0 ==> !is_white_space(s[k - 1]),
    ensures
        trim_end(s) == s.take(k),
    decreases s.len(),
{
    if k == s.len() {
        assert(s.take(k) =~= s);
    } else {
        let t = s.drop_last();
        assert forall|j: int| k <= j < t.len() implies is_white_space(#[trigger] t[j]) by {
            assert(t[j] == s[j]);
        }
        lemma_trim_end_is(t, k);
        assert(t.take(k) =~= s.take(k));
    }
}

/// A trimmed string neither begins nor ends with white space.
pub proof fn lemma_trimmed_edges(s: Seq<char>)
    ensures
        trimmed(s).len() <= s.len(),
        trimmed(s).len() > 0 ==> !is_white_space(trimmed(s)[0]) && !is_white_space(
            trimmed(s).last(),
        ),
{
    let t = trim_start(s);
    lemma_trim_start_edge(s);
    lemma_trim_end_edge(t);
}

proof fn lemma_trim_start_edge(s: Seq<char>)
    ensures
        trim_start(s).len() <= s.len(),
        trim_start(s).len() > 0 ==> !is_white_space(trim_start(s)[0]),
    decreases s.len(),
{
    if s.len() > 0 && is_white_space(s[0]) {
        lemma_trim_start_edge(s.drop_first());
    }
}

proof fn lemma_trim_end_edge(s: Seq<char>)
    ensures
        trim_end(s).len() <= s.len(),
        trim_end(s) == s.take(trim_end(s).len() as int),
        trim_end(s).len() > 0 ==> trim_end(s)[0] == s[0] && !is_white_space(trim_end(s).last()),
    decreases s.len(),
{
    if s.len() > 0 && is_white_space(s.last()) {
        let t = s.drop_last();
        lemma_trim_end_edge(t);
        assert(t.take(trim_end(t).len() as int) =~= s.take(trim_end(t).len() as int));
    } else {
        assert(s.take(s.len() as int) =~= s);
    }
}

/// A string without white space at its edges is its own trimming.
pub proof fn lemma_trimmed_fixed(s: Seq<char>)
    requires
        s.len() > 0 ==> !is_white_space(s[0]) && !is_white_space(s.last()),
    ensures
        trimmed(s) == s,
{
}

/// Trimming twice is trimming once.
pub proof fn lemma_trimmed_idempotent(s: Seq<char>)
    ensures
        trimmed(trimmed(s)) == trimmed(s),
{
    lemma_trimmed_edges(s);
    lemma_trimmed_fixed(trimmed(s));
}

/// Trimming removes characters and adds none.
pub proof fn lemma_trimmed_members(s: Seq<char>, c: char)
    requires
        trimmed(s).contains(c),
    ensures
        s.contains(c),
{
    lemma_trim_start_suffix(s);
    lemma_trim_end_edge(trim_start(s));
    let t = trim_start(s);
    let i = choose|i: int| 0 <= i < trimmed(s).len() && trimmed(s)[i] == c;
    assert(t[i] == c);
    assert(s[s.len() - t.len() + i] == c);
}

proof fn lemma_trim_start_suffix(s: Seq<char>)
    ensures
        trim_start(s).len() <= s.len(),
        trim_start(s) == s.skip(s.len() - trim_start(s).len()),
    decreases s.len(),
{
    if s.len() > 0 && is_white_space(s[0]) {
        let t = s.drop_first();
        lemma_trim_start_suffix(t);
        assert(t.skip(t.len() - trim_start(t).len()) =~= s.skip(s.len() - trim_start(t).len()));
    } else {
        assert(s.skip(0) =~= s);
    }
}

/// The part of `s` between its leading and its trailing white space.
pub fn trim(s: &str) -> (r: &str)
    ensures
        r@ == trimmed(s@),
{
    let v = chars_of(s);
    let n: usize = v.len();
    let mut a: usize = 0;
    while a < n && white_space(v[a])
        invariant
            a <= n,
            n == v@.len(),
            forall|j: int| 0 <= j < a ==> is_white_space(#[trigger] v@[j]),
        decreases n - a,
    {
        a += 1;
    }
    let mut b: usize = n;
    while b > a && white_space(v[b - 1])
        invariant
            a <= b <= n,
            n == v@.len(),
            forall|j: int| b <= j < n ==> is_white_space(#[trigger] v@[j]),
        decreases b,
    {
        b -= 1;
    }
    proof {
        lemma_trim_start_is(v@, a as int);
        let t = v@.skip(a as int);
        assert forall|j: int| b - a <= j < t.len() implies is_white_space(#[trigger] t[j]) by {
            assert(t[j] == v@[j + a]);
        }
        lemma_trim_end_is(t, b - a);
        assert(t.take(b - a) =~= v@.subrange(a as int, b as int));
    }
    s.substring_char(a, b)
}

// ---------------------------------------------------------------------------
// Searching
// ---------------------------------------------------------------------------

/// The index of the first `c` in `s`, or the length of `s` where there is none.
pub open spec fn first_index(s: Seq<char>, c: char) -> int
    decreases s.len(),
{
    if s.len() == 0 || s[0] == c {
        0
    } else {
        1 + first_index(s.drop_first(), c)
    }
}

/// The index of the last `c` in `s`, or -1 where there is none.
pub open spec fn last_index(s: Seq<char>, c: char) -> int
    decreases s.len(),
{
    if s.len() == 0 || s.last() == c {
        s.len() - 1
    } else {
        last_index(s.drop_last(), c)
    }
}

/// No `c` before `k` and one at `k`, or the end there, fixes `first_index`.
pub proof fn lemma_first_index_is(s: Seq<char>, c: char, k: int)
    requires
        0 <= k <= s.len(),
        forall|j: int| 0 <= j < k ==> #[trigger] s[j] != c,
        k < s.len() ==> s[k] == c,
    ensures
        first_index(s, c) == k,
    decreases s.len(),
{
    if k > 0 {
        assert(s[0] != c);
        let t = s.drop_first();
        assert forall|j: int| 0 <= j < k - 1 implies #[trigger] t[j] != c by {
            assert(t[j] == s[j + 1]);
        }
        lemma_first_index_is(t, c, k - 1);
    }
}

/// What `first_index` finds.
pub proof fn lemma_first_index(s: Seq<char>, c: char)
    ensures
        0 <= first_index(s, c) <= s.len(),
        first_index(s, c) < s.len() <==> s.contains(c),
        first_index(s, c) < s.len() ==> s[first_index(s, c)] == c,
        forall|j: int| 0 <= j < first_index(s, c) ==> #[trigger] s[j] != c,
    decreases s.len(),
{
    if s.len() > 0 && s[0] != c {
        let t = s.drop_first();
        lemma_first_index(t, c);
        assert forall|j: int| 0 <= j < first_index(s, c) implies #[trigger] s[j] != c by {
            if j > 0 {
                assert(s[j] == t[j - 1]);
            }
        }
        if s.contains(c) {
            let i = choose|i: int| 0 <= i < s.len() && s[i] == c;
            assert(t[i - 1] == c);
            assert(t.contains(c));
        }
    }
}

/// No `c` after `k` and one at `k`, or the start before it, fixes `last_index`.
pub proof fn lemma_last_index_is(s: Seq<char>, c: char, k: int)
    requires
        -1 <= k < s.len(),
        forall|j: int| k < j < s.len() ==> #[trigger] s[j] != c,
        k >= 0 ==> s[k] == c,
    ensures
        last_index(s, c) == k,
    decreases s.len(),
{
    if k < s.len() - 1 {
        assert(s[s.len() - 1] != c);
        let t = s.drop_last();
        assert forall|j: int| k < j < t.len() implies #[trigger] t[j] != c by {
            assert(t[j] == s[j]);
        }
        lemma_last_index_is(t, c, k);
    }
}

fn first_at(v: &Vec<char>, from: usize, c: char) -> (k: usize)
    requires
        from <= v.len(),
    ensures
        from <= k <= v.len(),
        forall|j: int| from <= j < k ==> #[trigger] v@[j] != c,
        k < v.len() ==> v@[k as int] == c,
        k == from + first_index(v@.skip(from as int), c),
{
    let mut k: usize = from;
    while k < v.len() && v[k] != c
        invariant
            from <= k <= v.len(),
            forall|j: int| from <= j < k ==> #[trigger] v@[j] != c,
        decreases v.len() - k,
    {
        k += 1;
    }
    proof {
        let t = v@.skip(from as int);
        assert forall|j: int| 0 <= j < k - from implies #[trigger] t[j] != c by {
            assert(t[j] == v@[j + from]);
        }
        lemma_first_index_is(t, c, k - from);
    }
    k
}

/// Does `pat` occur in `s` at index `i`?
pub open spec fn occurs_at(s: Seq<char>, pat: Seq<char>, i: int) -> bool {
    0 <= i && i + pat.len() <= s.len() && s.subrange(i, i + pat.len()) == pat
}

/// Does `pat` occur in `s`?
pub open spec fn occurs(s: Seq<char>, pat: Seq<char>) -> bool {
    exists|i: int| #[trigger] occurs_at(s, pat, i)
}

fn matches_at(v: &Vec<char>, p: &Vec<char>, i: usize) -> (r: bool)
    requires
        i + p.len() <= v.len(),
    ensures
        r == occurs_at(v@, p@, i as int),
{
    let mut j: usize = 0;
    while j < p.len()
        invariant
            j <= p.len(),
            i + p.len() <= v.len(),
            forall|k: int| 0 <= k < j ==> v@[i + k] == #[trigger] p@[k],
        decreases p.len() - j,
    {
        if v[i + j] != p[j] {
            assert(v@.subrange(i as int, i + p.len())[j as int] != p@[j as int]);
            return false;
        }
        j += 1;
    }
    assert(v@.subrange(i as int, i + p.len()) =~= p@);
    true
}

/// Does `pat` occur in `s`?
pub fn contains_text(s: &str, pat: &str) -> (r: bool)
    ensures
        r == occurs(s@, pat@),
{
    let v = chars_of(s);
    let p = chars_of(pat);
    if p.len() > v.len() {
        assert(forall|i: int| !occurs_at(s@, pat@, i));
        return false;
    }
    let last: usize = v.len() - p.len();
    let mut i: usize = 0;
    while i <= last
        invariant
            v@ == s@,
            p@ == pat@,
            i <= last + 1,
            last + p.len() == v.len(),
            forall|k: int| 0 <= k < i ==> !#[trigger] occurs_at(s@, pat@, k),
        decreases last + 1 - i,
    {
        if matches_at(&v, &p, i) {
            return true;
        }
        if i == last {
            assert(forall|k: int| !occurs_at(s@, pat@, k));
            return false;
        }
        i += 1;
    }
    assert(forall|k: int| !occurs_at(s@, pat@, k));
    false
}

// ---------------------------------------------------------------------------
// Splitting
// ---------------------------------------------------------------------------

/// The parts of `s` between the occurrences of `c`; never empty.
pub open spec fn parts(s: Seq<char>, c: char) -> Seq<Seq<char>>
    decreases s.len(),
    via parts_decreases
{
    let i = first_index(s, c);
    if i < s.len() {
        seq![s.take(i)] + parts(s.skip(i + 1), c)
    } else {
        seq![s]
    }
}

#[via_fn]
proof fn parts_decreases(s: Seq<char>, c: char) {
    lemma_first_index(s, c);
}

/// The views of a vector of string slices.
pub open spec fn texts(v: Seq<&str>) -> Seq<Seq<char>> {
    Seq::new(v.len(), |i: int| v[i]@)
}

/// Splits `s` at every `c`.
pub fn split(s: &str, c: char) -> (r: Vec<&str>)
    ensures
        texts(r@) == parts(s@, c),
{
    let v = chars_of(s);
    let n: usize = v.len();
    let mut r: Vec<&str> = Vec::new();
    let mut from: usize = 0;
    assert(v@.skip(0) =~= v@);
    assert(texts(r@) + parts(v@, c) =~= parts(v@, c));
    loop
        invariant_except_break
            from <= n,
            texts(r@) + parts(v@.skip(from as int), c) == parts(v@, c),
        invariant
            v@ == s@,
            n == v.len(),
        ensures
            texts(r@) == parts(v@, c),
        decreases n - from,
    {
        let k: usize = first_at(&v, from, c);
        let ghost rest = v@.skip(from as int);
        let ghost before = texts(r@);
        let part = s.substring_char(from, k);
        r.push(part);
        proof {
            assert(part@ =~= rest.take(k - from));
            assert(texts(r@) =~= before.push(part@));
        }
        if k == n {
            proof {
                assert(rest.take(k - from) =~= rest);
                assert(before + seq![rest] =~= before.push(rest));
            }
            break;
        }
        proof {
            assert(rest.skip(k - from + 1) =~= v@.skip(k + 1));
            assert(before + (seq![part@] + parts(v@.skip(k + 1), c)) =~= before.push(part@)
                + parts(v@.skip(k + 1), c));
        }
        from = k + 1;
    }
    r
}

/// `s` cut in two at its first `c`, which belongs to neither part.
pub open spec fn cut_first(s: Seq<char>, c: char) -> Option<(Seq<char>, Seq<char>)> {
    let i = first_index(s, c);
    if i < s.len() {
        Some((s.take(i), s.skip(i + 1)))
    } else {
        None
    }
}

/// `s` cut in two at its last `c`, which belongs to neither part.
pub open spec fn cut_last(s: Seq<char>, c: char) -> Option<(Seq<char>, Seq<char>)> {
    let i = last_index(s, c);
    if i >= 0 {
        Some((s.take(i), s.skip(i + 1)))
    } else {
        None
    }
}

/// The views of a pair of string slices, where there is one.
pub open spec fn pair_text(p: Option<(&str, &str)>) -> Option<(Seq<char>, Seq<char>)> {
    match p {
        Some((a, b)) => Some((a@, b@)),
        None => None,
    }
}

/// Cuts `s` at its first `c`.
pub fn split_once(s: &str, c: char) -> (r: Option<(&str, &str)>)
    ensures
        pair_text(r) == cut_first(s@, c),
{
    let v = chars_of(s);
    let k: usize = first_at(&v, 0, c);
    assert(v@.skip(0) =~= v@);
    if k == v.len() {
        return None;
    }
    let a = s.substring_char(0, k);
    let b = s.substring_char(k + 1, v.len());
    assert(a@ =~= s@.take(k as int));
    assert(b@ =~= s@.skip(k + 1));
    Some((a, b))
}

/// Cuts `s` at its last `c`.
pub fn rsplit_once(s: &str, c: char) -> (r: Option<(&str, &str)>)
    ensures
        pair_text(r) == cut_last(s@, c),
{
    let v = chars_of(s);
    let mut k: usize = v.len();
    while k > 0 && v[k - 1] != c
        invariant
            k <= v.len(),
            forall|j: int| k <= j < v.len() ==> #[trigger] v@[j] != c,
        decreases k,
    {
        k -= 1;
    }
    proof {
        lemma_last_index_is(v@, c, k - 1);
    }
    if k == 0 {
        return None;
    }
    let a = s.substring_char(0, k - 1);
    let b = s.substring_char(k, v.len());
    assert(a@ =~= s@.take(k - 1));
    assert(b@ =~= s@.skip(k as int));
    Some((a, b))
}

/// The first line of `s`, without its line ending: a line feed, or a carriage
/// return directly followed by one.
pub open spec fn line_one(s: Seq<char>) -> Seq<char> {
    let i = first_index(s, '\n');
    if i < s.len() {
        if i > 0 && s[i - 1] == '\r' {
            s.take(i - 1)
        } else {
            s.take(i)
        }
    } else {
        s
    }
}

/// The first line of `s`; empty where `s` is.
pub fn first_line(s: &str) -> (r: &str)
    ensures
        r@ == line_one(s@),
{
    let v = chars_of(s);
    let k: usize = first_at(&v, 0, '\n');
    assert(v@.skip(0) =~= v@);
    let end: usize = if k < v.len() && k > 0 && v[k - 1] == '\r' {
        k - 1
    } else {
        k
    };
    let r = s.substring_char(0, end);
    proof {
        assert(r@ =~= s@.take(end as int));
        assert(s@.take(s@.len() as int) =~= s@);
    }
    r
}

/// What follows the first empty line of `s`; empty where there is no such line.
pub open spec fn after_empty_line(s: Seq<char>) -> Seq<char>
    decreases s.len(),
    via after_empty_line_decreases
{
    let i = first_index(s, '\n');
    if i >= s.len() {
        Seq::empty()
    } else if line_one(s).len() == 0 {
        s.skip(i + 1)
    } else {
        after_empty_line(s.skip(i + 1))
    }
}

#[via_fn]
proof fn after_empty_line_decreases(s: Seq<char>) {
    lemma_first_index(s, '\n');
}

/// What follows the first empty line of `s`.
pub fn skip_empty_line(s: &str) -> (r: &str)
    ensures
        r@ == after_empty_line(s@),
{
    let v = chars_of(s);
    let len: usize = v.len();
    let mut at: usize = 0;
    assert(v@.skip(0) =~= v@);
    loop
        invariant
            v@ == s@,
            len == v.len(),
            at <= len,
            after_empty_line(v@.skip(at as int)) == after_empty_line(s@),
        decreases len - at,
    {
        let ghost rest = v@.skip(at as int);
        let k: usize = first_at(&v, at, '\n');
        if k == len {
            let r = s.substring_char(len, len);
            assert(r@ =~= Seq::<char>::empty());
            return r;
        }
        assert(rest.skip(k - at + 1) =~= v@.skip(k + 1));
        if k == at || (k == at + 1 && v[at] == '\r') {
            let r = s.substring_char(k + 1, len);
            assert(r@ =~= v@.skip(k + 1));
            return r;
        }
        assert(line_one(rest).len() > 0) by {
            assert(rest[k - at - 1] == v@[k - 1]);
        }
        at = k + 1;
    }
}

/// A first line holds no line feed.
pub proof fn lemma_line_one_has_no_feed(s: Seq<char>)
    ensures
        !line_one(s).contains('\n'),
{
    lemma_first_index(s, '\n');
    let i = first_index(s, '\n');
    let l = line_one(s);
    assert forall|j: int| 0 <= j < l.len() implies l[j] != '\n' by {
        assert(l[j] == s[j]);
    }
}

/// A string without a line feed is its own first line.
pub proof fn lemma_line_one_fixed(s: Seq<char>)
    requires
        !s.contains('\n'),
    ensures
        line_one(s) == s,
{
    lemma_first_index(s, '\n');
}

/// The number of characters of `s` before its first white space.
pub open spec fn word_len(s: Seq<char>) -> int
    decreases s.len(),
{
    if s.len() == 0 || is_white_space(s[0]) {
        0
    } else {
        1 + word_len(s.drop_first())
    }
}

/// The word with index `n` among the words of `s`, which white space parts.
pub open spec fn word_at(s: Seq<char>, n: nat) -> Option<Seq<char>>
    decreases n,
{
    let t = trim_start(s);
    if t.len() == 0 {
        None
    } else if n == 0 {
        Some(t.take(word_len(t)))
    } else {
        word_at(t.skip(word_len(t)), (n - 1) as nat)
    }
}

pub proof fn lemma_word_len_is(s: Seq<char>, k: int)
    requires
        0 <= k <= s.len(),
        forall|j: int| 0 <= j < k ==> !is_white_space(#[trigger] s[j]),
        k < s.len() ==> is_white_space(s[k]),
    ensures
        word_len(s) == k,
    decreases s.len(),
{
    if k > 0 {
        let t = s.drop_first();
        assert(!is_white_space(s[0]));
        assert forall|j: int| 0 <= j < k - 1 implies !is_white_space(#[trigger] t[j]) by {
            assert(t[j] == s[j + 1]);
        }
        lemma_word_len_is(t, k - 1);
    }
}

/// The view of a string slice, where there is one.
pub open spec fn text_of(s: Option<&str>) -> Option<Seq<char>> {
    match s {
        Some(t) => Some(t@),
        None => None,
    }
}

/// The word of `s` with index `n`, counted from zero.
pub fn nth_word(s: &str, n: usize) -> (r: Option<&str>)
    ensures
        text_of(r) == word_at(s@, n as nat),
{
    let v = chars_of(s);
    let len: usize = v.len();
    let mut at: usize = 0;
    let mut left: usize = n;
    assert(v@.skip(0) =~= v@);
    loop
        invariant
            v@ == s@,
            len == v.len(),
            at <= len,
            word_at(v@.skip(at as int), left as nat) == word_at(v@, n as nat),
        decreases left,
    {
        let ghost rest = v@.skip(at as int);
        let mut a: usize = at;
        while a < len && white_space(v[a])
            invariant
                at <= a <= len,
                len == v.len(),
                forall|j: int| at <= j < a ==> is_white_space(#[trigger] v@[j]),
            decreases len - a,
        {
            a += 1;
        }
        proof {
            assert forall|j: int| 0 <= j < a - at implies is_white_space(#[trigger] rest[j]) by {
                assert(rest[j] == v@[j + at]);
            }
            lemma_trim_start_is(rest, a - at);
            assert(rest.skip(a - at) =~= v@.skip(a as int));
        }
        if a == len {
            return None;
        }
        let mut b: usize = a;
        while b < len && !white_space(v[b])
            invariant
                a <= b <= len,
                len == v.len(),
                forall|j: int| a <= j < b ==> !is_white_space(#[trigger] v@[j]),
            decreases len - b,
        {
            b += 1;
        }
        let ghost t = v@.skip(a as int);
        proof {
            assert forall|j: int| 0 <= j < b - a implies !is_white_space(#[trigger] t[j]) by {
                assert(t[j] == v@[j + a]);
            }
            lemma_word_len_is(t, b - a);
        }
        if left == 0 {
            let w = s.substring_char(a, b);
            assert(w@ =~= t.take(b - a));
            return Some(w);
        }
        assert(t.skip(b - a) =~= v@.skip(b as int));
        at = b;
        left -= 1;
    }
}

// ---------------------------------------------------------------------------
// Decimal numbers
// ---------------------------------------------------------------------------

/// The character for the digit `d`.
pub open spec fn digit_char(d: nat) -> char
    recommends
        d < 10,
{
    (48 + d) as char
}

/// Is `c` one of `0` to `9`?
pub open spec fn is_digit(c: char) -> bool {
    48 <= c as u32 <= 57
}

/// The decimal notation of `n`, without leading zeros.
pub open spec fn decimal(n: nat) -> Seq<char>
    decreases n,
{
    if n < 10 {
        seq![digit_char(n)]
    } else {
        decimal(n / 10).push(digit_char(n % 10))
    }
}

/// The decimal notation of `n`, with a minus sign where it is negative.
pub open spec fn signed_decimal(n: int) -> Seq<char> {
    if n < 0 {
        "-"@ + decimal((-n) as nat)
    } else {
        decimal(n as nat)
    }
}

fn digit_str(d: u64) -> (r: &'static str)
    requires
        d < 10,
    ensures
        r@ == seq![digit_char(d as nat)],
{
    proof {
        reveal_strlit("0");
        reveal_strlit("1");
        reveal_strlit("2");
        reveal_strlit("3");
        reveal_strlit("4");
        reveal_strlit("5");
        reveal_strlit("6");
        reveal_strlit("7");
        reveal_strlit("8");
        reveal_strlit("9");
    }
    let r: &'static str = if d == 0 {
        "0"
    } else if d == 1 {
        "1"
    } else if d == 2 {
        "2"
    } else if d == 3 {
        "3"
    } else if d == 4 {
        "4"
    } else if d == 5 {
        "5"
    } else if d == 6 {
        "6"
    } else if d == 7 {
        "7"
    } else if d == 8 {
        "8"
    } else {
        "9"
    };
    assert(r@ =~= seq![digit_char(d as nat)]);
    r
}

/// Writes `n` in decimal.
pub fn unsigned_text(n: u64) -> (r: String)
    ensures
        r@ == decimal(n as nat),
    decreases n,
{
    if n < 10 {
        digit_str(n).to_string()
    } else {
        let mut r = unsigned_text(n / 10);
        r.append(digit_str(n % 10));
        assert(r@ =~= decimal(n as nat));
        r
    }
}

/// Writes `n` in decimal, with a minus sign where it is negative.
pub fn signed_text(n: i64) -> (r: String)
    ensures
        r@ == signed_decimal(n as int),
{
    if n < 0 {
        let size: u64 = if n == i64::MIN {
            0x8000_0000_0000_0000
        } else {
            (-n) as u64
        };
        let mut r = "-".to_string();
        r.append(unsigned_text(size).as_str());
        r
    } else {
        unsigned_text(n as u64)
    }
}

/// The number that a sequence of digits stands for.
pub open spec fn digits_value(s: Seq<char>) -> nat
    decreases s.len(),
{
    if s.len() == 0 {
        0
    } else {
        digits_value(s.drop_last()) * 10 + (s.last() as u32 - 48) as nat
    }
}

/// Is `s` a non-empty sequence of digits?
pub open spec fn all_digits(s: Seq<char>) -> bool {
    s.len() > 0 && forall|i: int| 0 <= i < s.len() ==> is_digit(#[trigger] s[i])
}

/// The number that `s` denotes: digits after an optional plus sign, with a
/// value of at most `max`. Anything else, white space too, denotes none.
pub open spec fn number(s: Seq<char>, max: nat) -> Option<nat> {
    let d = if s.len() > 0 && s[0] == '+' {
        s.drop_first()
    } else {
        s
    };
    if all_digits(d) && digits_value(d) <= max {
        Some(digits_value(d))
    } else {
        None
    }
}

proof fn lemma_prefix_value(s: Seq<char>, k: int)
    requires
        0 <= k <= s.len(),
    ensures
        digits_value(s.take(k)) <= digits_value(s),
    decreases s.len(),
{
    if k == s.len() {
        assert(s.take(k) =~= s);
    } else {
        lemma_prefix_value(s.drop_last(), k);
        assert(s.drop_last().take(k) =~= s.take(k));
    }
}

/// Reads a decimal number of at most `max`.
pub fn parse_unsigned(s: &str, max: u64) -> (r: Option<u64>)
    ensures
        match r {
            Some(n) => number(s@, max as nat) == Some(n as nat),
            None => number(s@, max as nat) is None,
        },
{
    let v = chars_of(s);
    let n: usize = v.len();
    let from: usize = if n > 0 && v[0] == '+' {
        1
    } else {
        0
    };
    let ghost d = v@.skip(from as int);
    proof {
        if from == 0 {
            assert(d =~= s@);
        } else {
            assert(d =~= s@.drop_first());
        }
    }
    if from == n {
        return None;
    }
    let mut value: u128 = 0;
    let mut i: usize = from;
    assert(d.take(0) =~= Seq::<char>::empty());
    while i < n
        invariant
            from <= i <= n,
            n == v.len(),
            d == v@.skip(from as int),
            value <= max,
            value == digits_value(d.take(i - from)),
            forall|j: int| 0 <= j < i - from ==> is_digit(#[trigger] d[j]),
            number(s@, max as nat) == (if all_digits(d) && digits_value(d) <= max {
                Some(digits_value(d))
            } else {
                None
            }),
        decreases n - i,
    {
        let c: u32 = v[i] as u32;
        if c < 48 || 57 < c {
            assert(!is_digit(d[i - from]));
            return None;
        }
        value = value * 10 + (c - 48) as u128;
        proof {
            assert(d.take(i - from + 1).drop_last() =~= d.take(i - from));
            lemma_prefix_value(d, i - from + 1);
        }
        if value > max as u128 {
            return None;
        }
        i += 1;
    }
    assert(d.take(n - from) =~= d);
    Some(value as u64)
}

/// Reads a decimal number that fits in sixteen bits.
pub fn parse_u16(s: &str) -> (r: Option<u16>)
    ensures
        match r {
            Some(n) => number(s@, u16::MAX as nat) == Some(n as nat),
            None => number(s@, u16::MAX as nat) is None,
        },
{
    match parse_unsigned(s, u16::MAX as u64) {
        Some(n) => Some(n as u16),
        None => None,
    }
}

} // verus!
