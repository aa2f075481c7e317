//! Character-sequence utilities shared by the header-parsing code:
//! whitespace classification, scanning, substring search and whitespace
//! splitting, together with conversions between `str` and `Vec<char>`.

use vstd::prelude::*;

verus! {

/// The Unicode `White_Space` code points, the set used by
/// `char::is_whitespace` and `str::split_whitespace`.
pub open spec fn is_ws(c: char) -> bool {
    let u = c as u32;
    u == 0x20 || (0x9 <= u && u <= 0xd) || u == 0x85 || u == 0xa0 || u == 0x1680
        || (0x2000 <= u && u <= 0x200a) || u == 0x2028 || u == 0x2029 || u == 0x202f
        || u == 0x205f || u == 0x3000
}

/// Decides `is_ws` executably.
pub fn is_ws_char(c: char) -> (r: bool)
    ensures
        r == is_ws(c),
{
    let u = c as u32;
    u == 0x20 || (0x9 <= u && u <= 0xd) || u == 0x85 || u == 0xa0 || u == 0x1680
        || (0x2000 <= u && u <= 0x200a) || u == 0x2028 || u == 0x2029 || u == 0x202f
        || u == 0x205f || u == 0x3000
}

/// Index of the first occurrence of `c` in `s` at or after `i`;
/// `s.len()` when there is none.
pub open spec fn scan_char(s: Seq<char>, i: int, c: char) -> int
    decreases s.len() - i,
{
    if i < 0 || i >= s.len() {
        s.len() as int
    } else if s[i] == c {
        i
    } else {
        scan_char(s, i + 1, c)
    }
}

pub proof fn lemma_scan_char(s: Seq<char>, i: int, c: char)
    requires
        0 <= i <= s.len(),
    ensures
        i <= scan_char(s, i, c) <= s.len(),
        scan_char(s, i, c) < s.len() ==> s[scan_char(s, i, c)] == c,
        forall|j: int| i <= j < scan_char(s, i, c) ==> s[j] != c,
    decreases s.len() - i,
{
    if i < s.len() && s[i] != c {
        lemma_scan_char(s, i + 1, c);
    }
}

/// Scanning a suffix relates to scanning the whole sequence.
pub proof fn lemma_scan_char_skip(s: Seq<char>, i: int, k: int, c: char)
    requires
        0 <= i <= s.len(),
        0 <= k <= s.len() - i,
    ensures
        scan_char(s.skip(i), k, c) == scan_char(s, i + k, c) - i,
    decreases s.len() - i - k,
{
    let t = s.skip(i);
    if k < t.len() {
        assert(t[k] == s[i + k]);
        if t[k] != c {
            lemma_scan_char_skip(s, i, k + 1, c);
        }
    }
}

/// First occurrence of `c` in `v` at or after `from`, executably.
pub fn find_char_from(v: &Vec<char>, from: usize, c: char) -> (r: usize)
    requires
        from <= v@.len(),
    ensures
        r == scan_char(v@, from as int, c),
{
    proof {
        lemma_scan_char(v@, from as int, c);
    }
    let mut i: usize = from;
    while i < v.len()
        invariant
            from <= i <= v@.len(),
            forall|j: int| from <= j < i ==> v@[j] != c,
            scan_char(v@, from as int, c) == scan_char(v@, i as int, c),
        decreases v@.len() - i,
    {
        if v[i] == c {
            return i;
        }
        i = i + 1;
    }
    i
}

/// Whether `pat` occurs in `s` starting exactly at `i`.
pub open spec fn matches_at(s: Seq<char>, i: int, pat: Seq<char>) -> bool {
    0 <= i && i + pat.len() <= s.len() && s.subrange(i, i + pat.len() as int) == pat
}

/// First index at or after `i` where `pat` occurs in `s`.
pub open spec fn find_sub_from(s: Seq<char>, pat: Seq<char>, i: int) -> Option<int>
    decreases s.len() + 1 - i,
{
    if i < 0 || i + pat.len() > s.len() {
        None
    } else if matches_at(s, i, pat) {
        Some(i)
    } else {
        find_sub_from(s, pat, i + 1)
    }
}

pub proof fn lemma_find_sub_from(s: Seq<char>, pat: Seq<char>, i: int)
    requires
        0 <= i,
    ensures
        match find_sub_from(s, pat, i) {
            Some(p) => matches_at(s, p, pat) && i <= p && forall|j: int|
                i <= j < p ==> !matches_at(s, j, pat),
            None => forall|j: int| i <= j ==> !matches_at(s, j, pat),
        },
    decreases s.len() + 1 - i,
{
    if i + pat.len() > s.len() {
    } else if matches_at(s, i, pat) {
    } else {
        lemma_find_sub_from(s, pat, i + 1);
    }
}

/// Compares a window of `v` against `pat`.
fn window_eq(v: &Vec<char>, i: usize, pat: &Vec<char>) -> (r: bool)
    requires
        i + pat@.len() <= v@.len(),
    ensures
        r == matches_at(v@, i as int, pat@),
{
    let n = v.len();
    let mut k: usize = 0;
    while k < pat.len()
        invariant
            0 <= k <= pat@.len(),
            i + pat@.len() <= v@.len(),
            n == v@.len(),
            forall|j: int| 0 <= j < k ==> v@[i + j] == pat@[j],
        decreases pat@.len() - k,
    {
        assert(i + k < n);
        if v[i + k] != pat[k] {
            assert(v@.subrange(i as int, i + pat@.len() as int)[k as int] != pat@[k as int]);
            return false;
        }
        k = k + 1;
    }
    assert(v@.subrange(i as int, i + pat@.len() as int) =~= pat@);
    true
}

/// First occurrence of `pat` in `v` at or after `from`, executably.
pub fn find_sub(v: &Vec<char>, pat: &Vec<char>, from: usize) -> (r: Option<usize>)
    requires
        from <= v@.len(),
    ensures
        match r {
            Some(p) => find_sub_from(v@, pat@, from as int) == Some(p as int),
            None => find_sub_from(v@, pat@, from as int) is None,
        },
{
    if pat.len() > v.len() {
        return None;
    }
    let last = v.len() - pat.len();
    if from > last {
        return None;
    }
    let mut i: usize = from;
    while i <= last
        invariant
            from <= i,
            i <= last + 1,
            last == v@.len() - pat@.len(),
            pat@.len() <= v@.len(),
            find_sub_from(v@, pat@, from as int) == find_sub_from(v@, pat@, i as int),
        decreases last + 1 - i,
    {
        if window_eq(v, i, pat) {
            return Some(i);
        }
        if i == last {
            return None;
        }
        i = i + 1;
    }
    None
}

/// Converts a string slice to the vector of its characters.
pub fn str_chars(s: &str) -> (v: Vec<char>)
    ensures
        v@ == s@,
{
    let n = s.unicode_len();
    let mut v: Vec<char> = Vec::new();
    let mut i: usize = 0;
    while i < n
        invariant
            i <= n,
            n == s@.len(),
            v@ == s@.subrange(0, i as int),
        decreases n - i,
    {
        let c = s.get_char(i);
        v.push(c);
        proof {
            assert(s@.subrange(0, i + 1 as int) =~= s@.subrange(0, i as int).push(s@[i as int]));
        }
        i = i + 1;
    }
    proof {
        assert(s@.subrange(0, n as int) =~= s@);
    }
    v
}

/// Relies on `String::push`: appends the given character to the end of the
/// string.
#[verifier::external_body]
fn push_char(s: &mut String, c: char)
    ensures
        final(s)@ == old(s)@.push(c),
{
    s.push(c);
}

/// Builds a string from a vector of characters.
pub fn chars_string(v: &Vec<char>) -> (s: String)
    ensures
        s@ == v@,
{
    let mut s = String::new();
    let mut i: usize = 0;
    while i < v.len()
        invariant
            i <= v@.len(),
            s@ == v@.subrange(0, i as int),
        decreases v@.len() - i,
    {
        push_char(&mut s, v[i]);
        proof {
            assert(v@.subrange(0, i + 1 as int) =~= v@.subrange(0, i as int).push(v@[i as int]));
        }
        i = i + 1;
    }
    proof {
        assert(v@.subrange(0, v@.len() as int) =~= v@);
    }
    s
}

/// Index of the first whitespace character in `s` at or after `i`;
/// `s.len()` when there is none.
pub open spec fn scan_ws(s: Seq<char>, i: int) -> int
    decreases s.len() - i,
{
    if i < 0 || i >= s.len() {
        s.len() as int
    } else if is_ws(s[i]) {
        i
    } else {
        scan_ws(s, i + 1)
    }
}

/// Index of the first non-whitespace character in `s` at or after `i`;
/// `s.len()` when there is none.
pub open spec fn scan_non_ws(s: Seq<char>, i: int) -> int
    decreases s.len() - i,
{
    if i < 0 || i >= s.len() {
        s.len() as int
    } else if !is_ws(s[i]) {
        i
    } else {
        scan_non_ws(s, i + 1)
    }
}

pub proof fn lemma_scan_ws(s: Seq<char>, i: int)
    requires
        0 <= i <= s.len(),
    ensures
        i <= scan_ws(s, i) <= s.len(),
        scan_ws(s, i) < s.len() ==> is_ws(s[scan_ws(s, i)]),
        forall|j: int| i <= j < scan_ws(s, i) ==> !is_ws(s[j]),
    decreases s.len() - i,
{
    if i < s.len() && !is_ws(s[i]) {
        lemma_scan_ws(s, i + 1);
    }
}

pub proof fn lemma_scan_non_ws(s: Seq<char>, i: int)
    requires
        0 <= i <= s.len(),
    ensures
        i <= scan_non_ws(s, i) <= s.len(),
        scan_non_ws(s, i) < s.len() ==> !is_ws(s[scan_non_ws(s, i)]),
        forall|j: int| i <= j < scan_non_ws(s, i) ==> is_ws(s[j]),
    decreases s.len() - i,
{
    if i < s.len() && is_ws(s[i]) {
        lemma_scan_non_ws(s, i + 1);
    }
}

/// The whitespace-separated words of `s` from position `i` on: the maximal
/// runs of non-whitespace characters, in order, as `str::split_whitespace`
/// yields them.
pub open spec fn split_ws_from(s: Seq<char>, i: int) -> Seq<Seq<char>>
    decreases s.len() - i,
    when 0 <= i
    via split_ws_from_dec
{
    let st = scan_non_ws(s, i);
    if st >= s.len() {
        Seq::empty()
    } else {
        let e = scan_ws(s, st);
        seq![s.subrange(st, e)] + split_ws_from(s, e)
    }
}

#[via_fn]
proof fn split_ws_from_dec(s: Seq<char>, i: int) {
    if 0 <= i <= s.len() {
        lemma_scan_non_ws(s, i);
        let st = scan_non_ws(s, i);
        if st < s.len() {
            lemma_scan_ws(s, st);
            assert(scan_ws(s, st) == scan_ws(s, st + 1));
        }
    }
}

/// The words of the whole sequence.
pub open spec fn split_ws(s: Seq<char>) -> Seq<Seq<char>> {
    split_ws_from(s, 0)
}

pub proof fn lemma_scan_ws_skip(s: Seq<char>, i: int, k: int)
    requires
        0 <= i <= s.len(),
        0 <= k <= s.len() - i,
    ensures
        scan_ws(s.skip(i), k) == scan_ws(s, i + k) - i,
    decreases s.len() - i - k,
{
    let t = s.skip(i);
    if k < t.len() {
        assert(t[k] == s[i + k]);
        if !is_ws(t[k]) {
            lemma_scan_ws_skip(s, i, k + 1);
        }
    }
}

pub proof fn lemma_scan_non_ws_skip(s: Seq<char>, i: int, k: int)
    requires
        0 <= i <= s.len(),
        0 <= k <= s.len() - i,
    ensures
        scan_non_ws(s.skip(i), k) == scan_non_ws(s, i + k) - i,
    decreases s.len() - i - k,
{
    let t = s.skip(i);
    if k < t.len() {
        assert(t[k] == s[i + k]);
        if is_ws(t[k]) {
            lemma_scan_non_ws_skip(s, i, k + 1);
        }
    }
}

/// Splitting from position `i` equals splitting the suffix from its start.
pub proof fn lemma_split_ws_skip(s: Seq<char>, i: int)
    requires
        0 <= i <= s.len(),
    ensures
        split_ws_from(s, i) == split_ws(s.skip(i)),
    decreases s.len() - i,
{
    let t = s.skip(i);
    lemma_scan_non_ws(s, i);
    lemma_scan_non_ws_skip(s, i, 0);
    let st = scan_non_ws(s, i);
    if st >= s.len() {
        assert(scan_non_ws(t, 0) >= t.len());
    } else {
        lemma_scan_ws(s, st);
        lemma_scan_ws_skip(s, i, st - i);
        let e = scan_ws(s, st);
        assert(scan_non_ws(t, 0) == st - i);
        assert(scan_ws(t, st - i) == e - i);
        assert(t.subrange(st - i, e - i) =~= s.subrange(st, e));
        lemma_split_ws_skip(s, e);
        lemma_split_ws_skip(t, e - i);
        assert(t.skip(e - i) =~= s.skip(e));
        assert(split_ws_from(s, i) == seq![s.subrange(st, e)] + split_ws_from(s, e));
        assert(split_ws_from(t, 0) == seq![t.subrange(st - i, e - i)] + split_ws_from(t, e - i));
    }
}

/// Every word that splitting yields is non-empty and free of whitespace.
pub proof fn lemma_split_ws_words_wf(s: Seq<char>, i: int)
    requires
        0 <= i <= s.len(),
    ensures
        forall|k: int|
            0 <= k < split_ws_from(s, i).len() ==> (#[trigger] split_ws_from(s, i)[k]).len() > 0
                && forall|j: int|
                0 <= j < split_ws_from(s, i)[k].len() ==> !is_ws(split_ws_from(s, i)[k][j]),
    decreases s.len() - i,
{
    lemma_scan_non_ws(s, i);
    let st = scan_non_ws(s, i);
    if st < s.len() {
        lemma_scan_ws(s, st);
        let e = scan_ws(s, st);
        assert(scan_ws(s, st) == scan_ws(s, st + 1));
        lemma_split_ws_words_wf(s, e);
        let w = s.subrange(st, e);
        assert(w.len() > 0);
        assert(forall|j: int| 0 <= j < w.len() ==> !is_ws(w[j]));
        assert forall|k: int| 0 <= k < split_ws_from(s, i).len() implies (#[trigger] split_ws_from(
            s,
            i,
        )[k]).len() > 0 && forall|j: int|
            0 <= j < split_ws_from(s, i)[k].len() ==> !is_ws(split_ws_from(s, i)[k][j]) by {
            if k == 0 {
                assert(split_ws_from(s, i)[0] == w);
            } else {
                assert(split_ws_from(s, i)[k] == split_ws_from(s, e)[k - 1]);
            }
        }
    }
}

/// Splits `v` at whitespace, executably.
pub fn split_ws_vec(v: &Vec<char>) -> (r: Vec<Vec<char>>)
    ensures
        r.deep_view() == split_ws(v@),
{
    let n = v.len();
    let mut r: Vec<Vec<char>> = Vec::new();
    let mut i: usize = 0;
    loop
        invariant
            0 <= i <= n,
            n == v@.len(),
            r.deep_view() + split_ws_from(v@, i as int) == split_ws(v@),
        decreases n - i,
    {
        proof {
            lemma_scan_non_ws(v@, i as int);
        }
        let st = scan_non_ws_exec(v, i);
        if st >= n {
            proof {
                assert(r.deep_view() + Seq::<Seq<char>>::empty() =~= r.deep_view());
            }
            return r;
        }
        proof {
            lemma_scan_ws(v@, st as int);
        }
        let e = scan_ws_exec(v, st);
        let mut word: Vec<char> = Vec::new();
        let mut k: usize = st;
        while k < e
            invariant
                st <= k <= e <= v@.len(),
                word@ == v@.subrange(st as int, k as int),
            decreases e - k,
        {
            word.push(v[k]);
            proof {
                assert(v@.subrange(st as int, k + 1 as int) =~= v@.subrange(
                    st as int,
                    k as int,
                ).push(v@[k as int]));
            }
            k = k + 1;
        }
        let ghost prev = r.deep_view();
        let ghost prevv = r@;
        r.push(word);
        proof {
            let w = v@.subrange(st as int, e as int);
            assert(word.deep_view() == w);
            assert forall|j: int| 0 <= j < r.deep_view().len() implies #[trigger] r.deep_view()[j]
                == (prev + seq![w])[j] by {
                if j < prevv.len() {
                    assert(r@[j] == prevv[j]);
                } else {
                    assert(r@[j] == word);
                }
            }
            assert(r.deep_view() =~= prev + seq![w]);
            assert(prev + (seq![w] + split_ws_from(v@, e as int)) =~= (prev + seq![w])
                + split_ws_from(v@, e as int));
        }
        i = e;
    }
}

/// First whitespace position at or after `from`, executably.
pub fn scan_ws_exec(v: &Vec<char>, from: usize) -> (r: usize)
    requires
        from <= v@.len(),
    ensures
        r == scan_ws(v@, from as int),
{
    let mut i: usize = from;
    while i < v.len()
        invariant
            from <= i <= v@.len(),
            scan_ws(v@, from as int) == scan_ws(v@, i as int),
        decreases v@.len() - i,
    {
        if is_ws_char(v[i]) {
            return i;
        }
        i = i + 1;
    }
    i
}

/// First non-whitespace position at or after `from`, executably.
pub fn scan_non_ws_exec(v: &Vec<char>, from: usize) -> (r: usize)
    requires
        from <= v@.len(),
    ensures
        r == scan_non_ws(v@, from as int),
{
    let mut i: usize = from;
    while i < v.len()
        invariant
            from <= i <= v@.len(),
            scan_non_ws(v@, from as int) == scan_non_ws(v@, i as int),
        decreases v@.len() - i,
    {
        if !is_ws_char(v[i]) {
            return i;
        }
        i = i + 1;
    }
    i
}

/// Whether any character of `v` is whitespace.
pub fn contains_ws(v: &Vec<char>) -> (r: bool)
    ensures
        r == exists|j: int| 0 <= j < v@.len() && is_ws(v@[j]),
{
    let mut i: usize = 0;
    while i < v.len()
        invariant
            0 <= i <= v@.len(),
            forall|j: int| 0 <= j < i ==> !is_ws(v@[j]),
        decreases v@.len() - i,
    {
        if is_ws_char(v[i]) {
            return true;
        }
        i = i + 1;
    }
    false
}

/// Decides equality of two character vectors.
pub fn chars_eq(a: &Vec<char>, b: &Vec<char>) -> (r: bool)
    ensures
        r == (a@ == b@),
{
    if a.len() != b.len() {
        return false;
    }
    let mut i: usize = 0;
    while i < a.len()
        invariant
            i <= a@.len(),
            a@.len() == b@.len(),
            forall|j: int| 0 <= j < i ==> a@[j] == b@[j],
        decreases a@.len() - i,
    {
        if a[i] != b[i] {
            return false;
        }
        i = i + 1;
    }
    proof {
        assert(a@ =~= b@);
    }
    true
}

} // verus!
