//! The token layer of the snapshot format: a length-prefixed,
//! tagged-delimiter encoding with four token kinds (integer, byte string,
//! list, dictionary) and an end marker.  Newline bytes between tokens are
//! ignored.  This module defines the byte-level meaning of a token stream
//! and a tokenizer proved exact against it.

use vstd::prelude::*;

verus! {

/// A token of the snapshot stream.
#[derive(Debug, Clone, PartialEq, Eq)]
pub enum Token {
    /// End marker `e`.
    End,
    /// Length-prefixed byte string, like `3:abc`.
    Str(Vec<u8>),
    /// Integer, like `i1000e`.
    Int(i64),
    /// Beginning of a list, `l`.
    List,
    /// Beginning of a dictionary, `d`.
    Dict,
}

/// The mathematical value of a token.
pub enum Tok {
    End,
    Str(Seq<u8>),
    Int(i64),
    List,
    Dict,
}

impl View for Token {
    type V = Tok;

    open spec fn view(&self) -> Tok {
        match self {
            Token::End => Tok::End,
            Token::Str(b) => Tok::Str(b@),
            Token::Int(v) => Tok::Int(*v),
            Token::List => Tok::List,
            Token::Dict => Tok::Dict,
        }
    }
}

/// A token whose encoding exists: a byte string no longer than a length
/// prefix can say.
pub open spec fn wf_tok(t: Tok) -> bool {
    match t {
        Tok::Str(b) => b.len() <= usize::MAX,
        _ => true,
    }
}

/// Errors of the snapshot decoder.
#[derive(Debug, Clone, Copy, PartialEq, Eq, Structural)]
pub enum DecodeError {
    /// The stream ended inside a token or where one was required.
    UnexpectedEof,
    /// A byte that starts no token.
    UnexpectedByte,
    /// An integer token whose payload is not a decimal number in range.
    BadInteger,
    /// A length prefix that is not a decimal number in range.
    BadLength,
    /// A token of the wrong kind for this position.
    UnexpectedToken,
    /// A dictionary key other than the expected one.
    BadKey,
    /// A snapshot whose database version is not the supported one.
    BadVersion,
}

/// Index of the first occurrence of `c` in `s` at or after `i`; `s.len()`
/// when there is none.
pub open spec fn scan_byte(s: Seq<u8>, i: int, c: u8) -> int
    decreases s.len() - i,
{
    if i < 0 || i >= s.len() {
        s.len() as int
    } else if s[i] == c {
        i
    } else {
        scan_byte(s, i + 1, c)
    }
}

pub proof fn lemma_scan_byte(s: Seq<u8>, i: int, c: u8)
    requires
        0 <= i <= s.len(),
    ensures
        i <= scan_byte(s, i, c) <= s.len(),
        scan_byte(s, i, c) < s.len() ==> s[scan_byte(s, i, c)] == c,
        forall|j: int| i <= j < scan_byte(s, i, c) ==> s[j] != c,
    decreases s.len() - i,
{
    if i < s.len() && s[i] != c {
        lemma_scan_byte(s, i + 1, c);
    }
}

/// Whether every byte of `s` is a decimal digit.
pub open spec fn all_digits(s: Seq<u8>) -> bool {
    forall|i: int| 0 <= i < s.len() ==> 48 <= #[trigger] s[i] <= 57
}

/// The number that a run of decimal digits denotes.
pub open spec fn digits_val(s: Seq<u8>) -> nat
    decreases s.len(),
{
    if s.len() == 0 {
        0
    } else {
        digits_val(s.drop_last()) * 10 + (s.last() - 48) as nat
    }
}

/// The decimal digits of `n`, most significant first.
pub open spec fn dec_u64(n: nat) -> Seq<u8>
    decreases n,
{
    if n < 10 {
        seq![(48 + n) as u8]
    } else {
        dec_u64(n / 10).push((48 + n % 10) as u8)
    }
}

/// The decimal form of a signed value: a minus sign, if negative, then the
/// digits of the magnitude.
pub open spec fn dec_i64(v: int) -> Seq<u8> {
    if v < 0 {
        seq![45u8] + dec_u64((-v) as nat)
    } else {
        dec_u64(v as nat)
    }
}

/// The digits of `n` are digits, at least one, and denote `n` again.
pub proof fn lemma_dec_u64(n: nat)
    ensures
        dec_u64(n).len() >= 1,
        all_digits(dec_u64(n)),
        digits_val(dec_u64(n)) == n,
    decreases n,
{
    if n < 10 {
        let w = seq![(48 + n) as u8];
        assert(dec_u64(n) == w);
        assert(w.len() == 1);
        assert((48 + n) as u8 == 48 + n);
        assert(w.drop_last() =~= Seq::<u8>::empty());
        assert(digits_val(w) == digits_val(w.drop_last()) * 10 + (w.last() - 48) as nat);
        assert(digits_val(w.drop_last()) == 0);
        assert(digits_val(w) == n);
    } else {
        lemma_dec_u64(n / 10);
        let d = dec_u64(n / 10);
        let w = d.push((48 + n % 10) as u8);
        assert((48 + n % 10) as u8 == 48 + n % 10);
        assert(w.drop_last() =~= d);
        assert(w.last() == (48 + n % 10) as u8);
        assert(digits_val(w) == digits_val(d) * 10 + (n % 10));
        vstd::arithmetic::div_mod::lemma_fundamental_div_mod(n as int, 10);
        assert(digits_val(w) == n);
        assert forall|i: int| 0 <= i < w.len() implies 48 <= #[trigger] w[i] <= 57 by {
            if i < d.len() {
                assert(w[i] == d[i]);
            }
        }
    }
}

/// A longer digit run denotes no smaller a number.
pub proof fn lemma_digits_val_take(s: Seq<u8>, k: int)
    requires
        0 <= k <= s.len(),
    ensures
        digits_val(s) >= digits_val(s.take(k)),
    decreases s.len() - k,
{
    if k < s.len() {
        lemma_digits_val_take(s, k + 1);
        assert(s.take(k + 1).drop_last() =~= s.take(k));
        assert(digits_val(s.take(k + 1)) == digits_val(s.take(k)) * 10 + (s.take(k + 1).last()
            - 48) as nat);
        assert(digits_val(s.take(k)) * 10 >= digits_val(s.take(k)));
    } else {
        assert(s.take(k) =~= s);
    }
}

/// The signed number that an integer token's payload denotes, if the
/// payload is a well-formed decimal in the 64-bit range.
pub open spec fn parse_int_digits(s: Seq<u8>) -> Option<i64> {
    if s.len() > 0 && s[0] == 45 {
        let ds = s.drop_first();
        if ds.len() > 0 && all_digits(ds) && digits_val(ds) <= 0x8000_0000_0000_0000 {
            Option::Some((-(digits_val(ds) as int)) as i64)
        } else {
            Option::None
        }
    } else if s.len() > 0 && all_digits(s) && digits_val(s) <= 0x7fff_ffff_ffff_ffff {
        Option::Some(digits_val(s) as i64)
    } else {
        Option::None
    }
}

/// The length that a prefix's digits denote, if they fit the platform.
pub open spec fn parse_len(s: Seq<u8>) -> Option<nat> {
    if s.len() > 0 && all_digits(s) && digits_val(s) <= usize::MAX {
        Option::Some(digits_val(s))
    } else {
        Option::None
    }
}

/// One step of lexing at a position.
pub enum LexStep {
    /// Nothing but newlines remain.
    Eof,
    /// The bytes at this position form no token.
    Fail,
    /// A token, and the position just after it.
    Next(Tok, int),
}

/// The token that starts at position `i` of `s`, skipping newlines.
pub open spec fn lex_at(s: Seq<u8>, i: int) -> LexStep
    decreases s.len() - i,
{
    if i < 0 || i >= s.len() {
        LexStep::Eof
    } else if s[i] == 10 {
        lex_at(s, i + 1)
    } else if s[i] == 101 {
        LexStep::Next(Tok::End, i + 1)
    } else if s[i] == 108 {
        LexStep::Next(Tok::List, i + 1)
    } else if s[i] == 100 {
        LexStep::Next(Tok::Dict, i + 1)
    } else if s[i] == 105 {
        let j = scan_byte(s, i + 1, 101);
        if j >= s.len() {
            LexStep::Fail
        } else {
            match parse_int_digits(s.subrange(i + 1, j)) {
                Option::Some(v) => LexStep::Next(Tok::Int(v), j + 1),
                Option::None => LexStep::Fail,
            }
        }
    } else if 48 <= s[i] <= 57 {
        let j = scan_byte(s, i, 58);
        if j >= s.len() {
            LexStep::Fail
        } else {
            match parse_len(s.subrange(i, j)) {
                Option::Some(len) => if j + 1 + len <= s.len() {
                    LexStep::Next(Tok::Str(s.subrange(j + 1, j + 1 + len)), j + 1 + len)
                } else {
                    LexStep::Fail
                },
                Option::None => LexStep::Fail,
            }
        }
    } else {
        LexStep::Fail
    }
}

/// Lexing a token always advances the position.
pub proof fn lemma_lex_advances(s: Seq<u8>, i: int)
    requires
        lex_at(s, i) is Next,
    ensures
        i < lex_at(s, i)->Next_1 <= s.len(),
    decreases s.len() - i,
{
    if 0 <= i < s.len() {
        if s[i] == 10 {
            lemma_lex_advances(s, i + 1);
        } else if s[i] == 105 {
            lemma_scan_byte(s, i + 1, 101);
        } else if !(s[i] == 101 || s[i] == 108 || s[i] == 100) && 48 <= s[i] <= 57 {
            lemma_scan_byte(s, i, 58);
        }
    }
}

/// The bytes of one token, without separators.
pub open spec fn tok_bytes(t: Tok) -> Seq<u8> {
    match t {
        Tok::End => seq![101u8],
        Tok::List => seq![108u8],
        Tok::Dict => seq![100u8],
        Tok::Int(v) => seq![105u8] + dec_i64(v as int) + seq![101u8],
        Tok::Str(b) => dec_u64(b.len()) + seq![58u8] + b,
    }
}

/// The bytes of a token sequence: each token preceded by one newline.
pub open spec fn cat(ts: Seq<Tok>) -> Seq<u8>
    decreases ts.len(),
{
    if ts.len() == 0 {
        Seq::empty()
    } else {
        seq![10u8] + tok_bytes(ts[0]) + cat(ts.drop_first())
    }
}

/// All tokens of the sequence have an encoding.
pub open spec fn wf_toks(ts: Seq<Tok>) -> bool {
    forall|i: int| 0 <= i < ts.len() ==> wf_tok(#[trigger] ts[i])
}

/// `x` occurs in `s` starting exactly at `i`.
pub open spec fn suffix_at(s: Seq<u8>, i: int, x: Seq<u8>) -> bool {
    0 <= i && i + x.len() <= s.len() && s.subrange(i, i + x.len() as int) == x
}

/// A concatenation occurs at `i` exactly when its parts occur in turn.
pub proof fn lemma_suffix_split(s: Seq<u8>, i: int, a: Seq<u8>, b: Seq<u8>)
    requires
        suffix_at(s, i, a + b),
    ensures
        suffix_at(s, i, a),
        suffix_at(s, i + a.len(), b),
{
    let w = s.subrange(i, i + (a + b).len() as int);
    assert forall|k: int| 0 <= k < a.len() implies s.subrange(i, i + a.len() as int)[k]
        == a[k] by {
        assert(w[k] == s[i + k]);
        assert(s.subrange(i, i + a.len() as int)[k] == s[i + k]);
        assert((a + b)[k] == a[k]);
    }
    assert(s.subrange(i, i + a.len() as int) =~= a);
    assert forall|k: int|
        0 <= k < b.len() implies s.subrange(i + a.len(), i + a.len() + b.len() as int)[k]
        == b[k] by {
        assert(w[a.len() + k] == s[i + a.len() + k]);
        assert(s.subrange(i + a.len(), i + a.len() + b.len() as int)[k] == s[i + a.len() + k]);
        assert((a + b)[a.len() + k] == b[k]);
    }
    assert(s.subrange(i + a.len(), i + a.len() + b.len() as int) =~= b);
}

/// A position known to hold the byte, with none before it, is where the
/// scan stops.
pub proof fn lemma_scan_byte_pinpoint(s: Seq<u8>, i: int, c: u8, e: int)
    requires
        0 <= i <= e < s.len(),
        s[e] == c,
        forall|j: int| i <= j < e ==> s[j] != c,
    ensures
        scan_byte(s, i, c) == e,
    decreases e - i,
{
    if i < e {
        assert(s[i] != c);
        lemma_scan_byte_pinpoint(s, i + 1, c, e);
    }
}

/// Parsing the decimal form of a signed value gives the value back.
proof fn lemma_parse_dec_i64(v: i64)
    ensures
        parse_int_digits(dec_i64(v as int)) == Option::Some(v),
{
    if v < 0 {
        let m = (-(v as int)) as nat;
        lemma_dec_u64(m);
        let s = dec_i64(v as int);
        assert(s == seq![45u8] + dec_u64(m));
        assert(s[0] == 45);
        assert(s.drop_first() =~= dec_u64(m));
        assert(m <= 0x8000_0000_0000_0000);
        assert((-(digits_val(dec_u64(m)) as int)) as i64 == v);
    } else {
        let m = v as nat;
        lemma_dec_u64(m);
        let s = dec_i64(v as int);
        assert(s == dec_u64(m));
        assert(48 <= s[0] <= 57);
        assert(s[0] != 45);
        assert(m <= 0x7fff_ffff_ffff_ffff);
    }
}

/// A token's bytes at a position lex as exactly that token.
pub proof fn lemma_lex_token(s: Seq<u8>, i: int, t: Tok, tail: Seq<u8>)
    requires
        wf_tok(t),
        suffix_at(s, i, tok_bytes(t) + tail),
    ensures
        lex_at(s, i) == LexStep::Next(t, i + tok_bytes(t).len()),
{
    let tb = tok_bytes(t);
    lemma_suffix_split(s, i, tb, tail);
    let w2 = s.subrange(i, i + tb.len() as int);
    assert forall|k: int| 0 <= k < tb.len() implies #[trigger] s[i + k] == tb[k] by {
        assert(w2[k] == s[i + k]);
    }
    assert(s[i] == tb[0]) by {
        assert(w2[0] == s[i + 0]);
    }
    match t {
        Tok::End => {
            assert(s[i] == 101);
        },
        Tok::List => {
            assert(s[i] == 108);
        },
        Tok::Dict => {
            assert(s[i] == 100);
        },
        Tok::Int(v) => {
            let d = dec_i64(v as int);
            let m = d.len() as int;
            if v < 0 {
                lemma_dec_u64((-(v as int)) as nat);
                assert(d[0] == 45);
                assert forall|k: int| 1 <= k < m implies 48 <= #[trigger] d[k] <= 57 by {
                    assert(d[k] == dec_u64((-(v as int)) as nat)[k - 1]);
                }
            } else {
                lemma_dec_u64(v as nat);
            }
            assert(s[i] == 105);
            assert(s[i + 1 + m] == 101) by {
                assert(w2[1 + m] == s[i + (1 + m)]);
                assert(tb[1 + m] == 101);
            }
            assert forall|j: int| i + 1 <= j < i + 1 + m implies s[j] != 101 by {
                assert(w2[j - i] == s[i + (j - i)]);
                assert(tb[j - i] == d[j - i - 1]);
                assert(d[j - i - 1] == 45 || 48 <= d[j - i - 1] <= 57);
            }
            lemma_scan_byte_pinpoint(s, i + 1, 101, i + 1 + m);
            let j = i + 1 + m;
            assert forall|k: int| 0 <= k < m implies s.subrange(i + 1, j)[k] == d[k] by {
                assert(w2[1 + k] == s[i + (1 + k)]);
                assert(tb[1 + k] == d[k]);
                assert(s.subrange(i + 1, j)[k] == s[i + 1 + k]);
            }
            assert(s.subrange(i + 1, j) =~= d);
            lemma_parse_dec_i64(v);
        },
        Tok::Str(b) => {
            let d = dec_u64(b.len());
            let m = d.len() as int;
            lemma_dec_u64(b.len());
            assert(48 <= s[i] <= 57) by {
                assert(tb[0] == d[0]);
            }
            assert(s[i + m] == 58) by {
                assert(w2[m] == s[i + m]);
                assert(tb[m] == 58);
            }
            assert forall|j: int| i <= j < i + m implies s[j] != 58 by {
                assert(w2[j - i] == s[i + (j - i)]);
                assert(tb[j - i] == d[j - i]);
                assert(48 <= d[j - i] <= 57);
            }
            lemma_scan_byte_pinpoint(s, i, 58, i + m);
            let j = i + m;
            assert forall|k: int| 0 <= k < m implies s.subrange(i, j)[k] == d[k] by {
                assert(w2[k] == s[i + k]);
                assert(tb[k] == d[k]);
                assert(s.subrange(i, j)[k] == s[i + k]);
            }
            assert(s.subrange(i, j) =~= d);
            assert(parse_len(d) == Option::Some(b.len()));
            assert(j + 1 + b.len() <= s.len());
            assert forall|k: int| 0 <= k < b.len() implies s.subrange(
                j + 1,
                j + 1 + b.len() as int,
            )[k] == b[k] by {
                assert(w2[m + 1 + k] == s[i + (m + 1 + k)]);
                assert(tb[m + 1 + k] == b[k]);
                assert(s.subrange(j + 1, j + 1 + b.len() as int)[k] == s[j + 1 + k]);
            }
            assert(s.subrange(j + 1, j + 1 + b.len() as int) =~= b);
            assert(lex_at(s, i) == LexStep::Next(
                Tok::Str(s.subrange(j + 1, j + 1 + b.len() as int)),
                j + 1 + b.len(),
            ));
        },
    }
}

/// The first token of an encoded token sequence lexes off the front, and
/// the rest of the sequence follows it.
pub proof fn lemma_lex_cat(s: Seq<u8>, i: int, ts: Seq<Tok>, rest: Seq<u8>)
    requires
        wf_toks(ts),
        ts.len() > 0,
        suffix_at(s, i, cat(ts) + rest),
    ensures
        lex_at(s, i) == LexStep::Next(ts[0], i + 1 + tok_bytes(ts[0]).len()),
        suffix_at(s, i + 1 + tok_bytes(ts[0]).len(), cat(ts.drop_first()) + rest),
        wf_toks(ts.drop_first()),
{
    let tb = tok_bytes(ts[0]);
    assert(cat(ts) == seq![10u8] + tb + cat(ts.drop_first()));
    assert((seq![10u8] + tb + cat(ts.drop_first())) + rest =~= seq![10u8] + ((tb + cat(
        ts.drop_first(),
    )) + rest));
    lemma_suffix_split(s, i, seq![10u8], (tb + cat(ts.drop_first())) + rest);
    assert(s.subrange(i, i + 1)[0] == s[i]);
    assert(s[i] == 10);
    assert((tb + cat(ts.drop_first())) + rest =~= tb + (cat(ts.drop_first()) + rest));
    lemma_lex_token(s, i + 1, ts[0], cat(ts.drop_first()) + rest);
    lemma_suffix_split(s, i + 1, tb, cat(ts.drop_first()) + rest);
    assert(lex_at(s, i) == lex_at(s, i + 1));
    assert forall|k: int| 0 <= k < ts.drop_first().len() implies wf_tok(
        #[trigger] ts.drop_first()[k],
    ) by {
        assert(ts.drop_first()[k] == ts[k + 1]);
    }
}

/// Concatenating token sequences concatenates their bytes.
pub proof fn lemma_cat_add(a: Seq<Tok>, b: Seq<Tok>)
    ensures
        cat(a + b) == cat(a) + cat(b),
    decreases a.len(),
{
    if a.len() == 0 {
        assert(a + b =~= b);
        assert(cat(a) + cat(b) =~= cat(b));
    } else {
        assert((a + b).drop_first() =~= a.drop_first() + b);
        lemma_cat_add(a.drop_first(), b);
        assert((a + b)[0] == a[0]);
        assert(cat(a + b) == seq![10u8] + tok_bytes(a[0]) + (cat(a.drop_first()) + cat(b)));
        assert(seq![10u8] + tok_bytes(a[0]) + (cat(a.drop_first()) + cat(b)) =~= (seq![10u8]
            + tok_bytes(a[0]) + cat(a.drop_first())) + cat(b));
    }
}

/// Skipping tokens until the end marker that closes the current object:
/// the position after that marker, or nothing when the stream is exhausted
/// or malformed first.
pub open spec fn skip_sp(s: Seq<u8>, i: int, level: nat) -> Option<int>
    decreases s.len() - i, level via skip_sp_dec
{
    match lex_at(s, i) {
        LexStep::Eof => Option::None,
        LexStep::Fail => Option::None,
        LexStep::Next(t, j) => match t {
            Tok::End => if level == 0 {
                Option::Some(j)
            } else {
                skip_sp(s, j, (level - 1) as nat)
            },
            Tok::Str(_) => skip_sp(s, j, level),
            Tok::Int(_) => skip_sp(s, j, level),
            Tok::List => skip_sp(s, j, level + 1),
            Tok::Dict => skip_sp(s, j, level + 1),
        },
    }
}

#[via_fn]
proof fn skip_sp_dec(s: Seq<u8>, i: int, level: nat) {
    if lex_at(s, i) is Next {
        lemma_lex_advances(s, i);
    }
}

/// First occurrence of `c` in `v` at or after `from`, executably.
fn find_byte(v: &Vec<u8>, from: usize, c: u8) -> (r: usize)
    requires
        from <= v@.len(),
    ensures
        r == scan_byte(v@, from as int, c),
{
    let mut i: usize = from;
    while i < v.len()
        invariant
            from <= i <= v@.len(),
            scan_byte(v@, from as int, c) == scan_byte(v@, i as int, c),
        decreases v@.len() - i,
    {
        if v[i] == c {
            return i;
        }
        i = i + 1;
    }
    i
}

/// Copies `v[from..to]` into a fresh vector.
fn bytes_range(v: &Vec<u8>, from: usize, to: usize) -> (r: Vec<u8>)
    requires
        from <= to <= v@.len(),
    ensures
        r@ == v@.subrange(from as int, to as int),
{
    let mut r: Vec<u8> = Vec::new();
    let mut k: usize = from;
    while k < to
        invariant
            from <= k <= to <= v@.len(),
            r@ == v@.subrange(from as int, k as int),
        decreases to - k,
    {
        r.push(v[k]);
        proof {
            assert(v@.subrange(from as int, k + 1 as int) =~= v@.subrange(
                from as int,
                k as int,
            ).push(v@[k as int]));
        }
        k = k + 1;
    }
    r
}

/// Reads the decimal digits of `v[a..b]` as an unsigned value.
fn parse_digits_u64(v: &Vec<u8>, a: usize, b: usize) -> (r: Option<u64>)
    requires
        a <= b <= v@.len(),
    ensures
        ({
            let s = v@.subrange(a as int, b as int);
            match r {
                Option::Some(x) => all_digits(s) && digits_val(s) == x,
                Option::None => !all_digits(s) || digits_val(s) > u64::MAX,
            }
        }),
{
    let ghost s = v@.subrange(a as int, b as int);
    let mut acc: u64 = 0;
    let mut k: usize = a;
    proof {
        assert(s.take(0) =~= Seq::<u8>::empty());
    }
    while k < b
        invariant
            a <= k <= b <= v@.len(),
            s == v@.subrange(a as int, b as int),
            all_digits(s.take(k - a)),
            acc == digits_val(s.take(k - a)),
        decreases b - k,
    {
        let d = v[k];
        proof {
            assert(s[k - a] == v@[k as int]);
        }
        if d < 48 || d > 57 {
            proof {
                assert(!all_digits(s));
            }
            return Option::None;
        }
        proof {
            assert(s.take(k - a + 1).drop_last() =~= s.take(k - a));
            assert(s.take(k - a + 1).last() == s[k - a]);
            assert forall|i: int| 0 <= i < s.take(k - a + 1).len() implies 48 <= #[trigger] s.take(
                k - a + 1,
            )[i] <= 57 by {
                if i < k - a {
                    assert(s.take(k - a)[i] == s.take(k - a + 1)[i]);
                }
            }
        }
        let next = match acc.checked_mul(10) {
            Option::Some(x) => x.checked_add((d - 48) as u64),
            Option::None => Option::None,
        };
        match next {
            Option::Some(x) => {
                acc = x;
            },
            Option::None => {
                proof {
                    assert(digits_val(s.take(k - a + 1)) > u64::MAX);
                    lemma_digits_val_take(s, k - a + 1);
                }
                return Option::None;
            },
        }
        k = k + 1;
    }
    proof {
        assert(s.take(b - a) =~= s);
    }
    Option::Some(acc)
}

/// Reads the payload of an integer token, sign included.
fn parse_int_exec(v: &Vec<u8>, a: usize, b: usize) -> (r: Option<i64>)
    requires
        a <= b <= v@.len(),
    ensures
        r == parse_int_digits(v@.subrange(a as int, b as int)),
{
    let ghost s = v@.subrange(a as int, b as int);
    if a == b {
        return Option::None;
    }
    proof {
        assert(s[0] == v@[a as int]);
    }
    if v[a] == 45 {
        proof {
            assert(s.drop_first() =~= v@.subrange(a + 1 as int, b as int));
        }
        if b == a + 1 {
            return Option::None;
        }
        match parse_digits_u64(v, a + 1, b) {
            Option::Some(mag) => {
                if mag > 0x8000_0000_0000_0000u64 {
                    return Option::None;
                }
                if mag == 0x8000_0000_0000_0000u64 {
                    proof {
                        assert((-(digits_val(s.drop_first()) as int)) as i64 == i64::MIN);
                    }
                    return Option::Some(i64::MIN);
                }
                return Option::Some(-(mag as i64));
            },
            Option::None => {
                return Option::None;
            },
        }
    }
    match parse_digits_u64(v, a, b) {
        Option::Some(mag) => {
            if mag > 0x7fff_ffff_ffff_ffffu64 {
                return Option::None;
            }
            Option::Some(mag as i64)
        },
        Option::None => Option::None,
    }
}

/// Reads a length prefix.
fn parse_len_exec(v: &Vec<u8>, a: usize, b: usize) -> (r: Option<usize>)
    requires
        a <= b <= v@.len(),
    ensures
        ({
            let p = parse_len(v@.subrange(a as int, b as int));
            match r {
                Option::Some(x) => p == Option::Some(x as nat),
                Option::None => p is None,
            }
        }),
{
    let ghost s = v@.subrange(a as int, b as int);
    if a == b {
        return Option::None;
    }
    match parse_digits_u64(v, a, b) {
        Option::Some(mag) => {
            if mag > usize::MAX as u64 {
                return Option::None;
            }
            Option::Some(mag as usize)
        },
        Option::None => {
            proof {
                assert(usize::MAX <= u64::MAX);
            }
            Option::None
        },
    }
}

/// Scans the token that starts at `pos`, skipping newlines, without
/// consuming anything.  The result is exactly what `lex_at` says.
pub fn scan_token(input: &Vec<u8>, pos: usize) -> (r: Result<Option<(Token, usize)>, DecodeError>)
    requires
        pos <= input@.len(),
    ensures
        match r {
            Result::Ok(Option::Some(tj)) => lex_at(input@, pos as int) == LexStep::Next(
                tj.0@,
                tj.1 as int,
            ) && pos < tj.1 <= input@.len(),
            Result::Ok(Option::None) => lex_at(input@, pos as int) is Eof,
            Result::Err(_) => lex_at(input@, pos as int) is Fail,
        },
{
    let n = input.len();
    let mut i: usize = pos;
    while i < n && input[i] == 10
        invariant
            pos <= i <= n,
            n == input@.len(),
            lex_at(input@, pos as int) == lex_at(input@, i as int),
        decreases n - i,
    {
        i = i + 1;
    }
    if i >= n {
        return Result::Ok(Option::None);
    }
    let b = input[i];
    if b == 101 {
        return Result::Ok(Option::Some((Token::End, i + 1)));
    }
    if b == 108 {
        return Result::Ok(Option::Some((Token::List, i + 1)));
    }
    if b == 100 {
        return Result::Ok(Option::Some((Token::Dict, i + 1)));
    }
    if b == 105 {
        proof {
            lemma_scan_byte(input@, i + 1 as int, 101);
        }
        let j = find_byte(input, i + 1, 101);
        if j >= n {
            return Result::Err(DecodeError::UnexpectedEof);
        }
        match parse_int_exec(input, i + 1, j) {
            Option::Some(val) => {
                return Result::Ok(Option::Some((Token::Int(val), j + 1)));
            },
            Option::None => {
                return Result::Err(DecodeError::BadInteger);
            },
        }
    }
    if 48 <= b && b <= 57 {
        proof {
            lemma_scan_byte(input@, i as int, 58);
        }
        let j = find_byte(input, i, 58);
        if j >= n {
            return Result::Err(DecodeError::UnexpectedEof);
        }
        match parse_len_exec(input, i, j) {
            Option::Some(len) => {
                if len <= n - (j + 1) {
                    let payload = bytes_range(input, j + 1, j + 1 + len);
                    return Result::Ok(Option::Some((Token::Str(payload), j + 1 + len)));
                }
                return Result::Err(DecodeError::UnexpectedEof);
            },
            Option::None => {
                return Result::Err(DecodeError::BadLength);
            },
        }
    }
    Result::Err(DecodeError::UnexpectedByte)
}

/// Tokenizer for the snapshot stream: a byte buffer and a position.
pub struct Tokenizer {
    /// The whole stream.
    pub input: Vec<u8>,
    /// How far it has been consumed.
    pub pos: usize,
}

impl Tokenizer {
    /// The position never passes the end.
    pub open spec fn wf(&self) -> bool {
        self.pos <= self.input@.len()
    }

    /// The current stream position.
    pub open spec fn at(&self) -> int {
        self.pos as int
    }

    /// Starts reading the given stream.
    pub fn new(input: Vec<u8>) -> (t: Self)
        ensures
            t.wf(),
            t.input@ == input@,
            t.at() == 0,
    {
        Tokenizer { input, pos: 0 }
    }

    /// Consumes and returns the next token; `None` at the end of the
    /// stream.
    pub fn next_token(&mut self) -> (r: Result<Option<Token>, DecodeError>)
        requires
            old(self).wf(),
        ensures
            final(self).wf(),
            final(self).input@ == old(self).input@,
            match r {
                Result::Ok(Option::Some(t)) => lex_at(old(self).input@, old(self).at())
                    == LexStep::Next(t@, final(self).at()) && old(self).at() < final(self).at(),
                Result::Ok(Option::None) => lex_at(old(self).input@, old(self).at()) is Eof
                    && final(self).at() == old(self).at(),
                Result::Err(_) => lex_at(old(self).input@, old(self).at()) is Fail
                    && final(self).at() == old(self).at(),
            },
    {
        match scan_token(&self.input, self.pos) {
            Result::Ok(Option::Some((t, j))) => {
                self.pos = j;
                Result::Ok(Option::Some(t))
            },
            Result::Ok(Option::None) => Result::Ok(Option::None),
            Result::Err(e) => Result::Err(e),
        }
    }

    /// Returns the next token without consuming it.
    pub fn peek_token(&self) -> (r: Result<Option<Token>, DecodeError>)
        requires
            self.wf(),
        ensures
            match r {
                Result::Ok(Option::Some(t)) => lex_at(self.input@, self.at()) matches
                    LexStep::Next(tv, _) && t@ == tv,
                Result::Ok(Option::None) => lex_at(self.input@, self.at()) is Eof,
                Result::Err(_) => lex_at(self.input@, self.at()) is Fail,
            },
    {
        match scan_token(&self.input, self.pos) {
            Result::Ok(Option::Some((t, _))) => Result::Ok(Option::Some(t)),
            Result::Ok(Option::None) => Result::Ok(Option::None),
            Result::Err(e) => Result::Err(e),
        }
    }
}

} // verus!
