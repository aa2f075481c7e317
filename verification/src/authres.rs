//! Parsing and handling of the Authentication-Results header.
//!
//! `authres` is short for the Authentication-Results header, which reports
//! whether DKIM passed for an inbound message.  To mitigate forgery, the
//! library remembers for each sending domain whether it is known to have
//! valid DKIM; a message from such a domain that arrives with invalid DKIM
//! may not change the sender's encryption key.

use vstd::prelude::*;

use mailparse::MailHeaderMap;

use crate::text::chars_eq;
use crate::text::chars_string;
use crate::text::contains_ws;
use crate::text::find_char_from;
use crate::text::find_sub;
use crate::text::find_sub_from;
use crate::text::is_ws;
use crate::text::lemma_scan_char;
use crate::text::lemma_scan_char_skip;
use crate::text::scan_char;
use crate::text::split_ws;
use crate::text::split_ws_vec;
use crate::text::str_chars;

verus! {

/// What one Authentication-Results header says about DKIM.
#[derive(Debug, Clone, Copy, PartialEq, Eq, Structural)]
pub enum DkimResult {
    /// The header explicitly said that DKIM passed.
    Passed,
    /// The header explicitly said that DKIM failed.
    Failed,
    /// The header said nothing about DKIM; some providers omit the verdict
    /// entirely when there was no DKIM signature.
    Nothing,
}

/// The parsed Authentication-Results of one message: one entry per header,
/// an authserv-id with the DKIM verdict it reported.
pub type AuthenticationResults = Vec<(String, DkimResult)>;

/// The view of parsed authentication results: each entry as a pair of the
/// authserv-id's characters and the verdict.
pub open spec fn authres_view(v: Seq<(String, DkimResult)>) -> Seq<(Seq<char>, DkimResult)> {
    v.map_values(|p: (String, DkimResult)| (p.0@, p.1))
}

/// `s` with every parenthesized comment replaced by a single space: scanning
/// left to right, each `(` that has a later `)` is matched with the first
/// such `)`, the whole span is replaced by one space, and scanning resumes
/// after it.  An unmatched parenthesis is left as it stands.
pub open spec fn strip_comments(s: Seq<char>) -> Seq<char>
    decreases s.len(),
    via strip_comments_dec
{
    let p = scan_char(s, 0, '(');
    if p >= s.len() {
        s
    } else {
        let q = scan_char(s, p + 1, ')');
        if q >= s.len() {
            s
        } else {
            s.take(p) + seq![' '] + strip_comments(s.skip(q + 1))
        }
    }
}

#[via_fn]
proof fn strip_comments_dec(s: Seq<char>) {
    lemma_scan_char(s, 0, '(');
    let p = scan_char(s, 0, '(');
    if p < s.len() {
        lemma_scan_char(s, p + 1, ')');
    }
}

/// Appends `src[from..to]` to `dst`.
fn push_range(dst: &mut Vec<char>, src: &Vec<char>, from: usize, to: usize)
    requires
        from <= to <= src@.len(),
    ensures
        final(dst)@ == old(dst)@ + src@.subrange(from as int, to as int),
{
    let mut k: usize = from;
    while k < to
        invariant
            from <= k <= to <= src@.len(),
            dst@ == old(dst)@ + src@.subrange(from as int, k as int),
        decreases to - k,
    {
        dst.push(src[k]);
        proof {
            assert(old(dst)@ + src@.subrange(from as int, k + 1 as int) =~= (old(dst)@
                + src@.subrange(from as int, k as int)).push(src@[k as int]));
        }
        k = k + 1;
    }
}

/// Removes the parenthesized comments of one header value, as
/// `strip_comments` describes.
fn strip_chars(cs: &Vec<char>) -> (r: Vec<char>)
    ensures
        r@ == strip_comments(cs@),
{
    let n = cs.len();
    let mut out: Vec<char> = Vec::new();
    let mut i: usize = 0;
    proof {
        assert(cs@.skip(0) =~= cs@);
        assert(out@ + strip_comments(cs@) =~= strip_comments(cs@));
    }
    loop
        invariant
            0 <= i <= n,
            n == cs@.len(),
            out@ + strip_comments(cs@.skip(i as int)) == strip_comments(cs@),
        decreases n - i,
    {
        proof {
            lemma_scan_char(cs@, i as int, '(');
            lemma_scan_char_skip(cs@, i as int, 0, '(');
        }
        let p = find_char_from(cs, i, '(');
        if p >= n {
            proof {
                assert(strip_comments(cs@.skip(i as int)) == cs@.skip(i as int));
            }
            let mut out = out;
            push_range(&mut out, cs, i, n);
            proof {
                assert(cs@.subrange(i as int, n as int) =~= cs@.skip(i as int));
            }
            return out;
        }
        proof {
            lemma_scan_char(cs@, p + 1 as int, ')');
            lemma_scan_char_skip(cs@, i as int, p + 1 - i as int, ')');
        }
        let q = find_char_from(cs, p + 1, ')');
        let ghost rem = cs@.skip(i as int);
        proof {
            assert(scan_char(rem, 0, '(') == p - i);
            assert(scan_char(rem, p - i + 1, ')') == q - i);
        }
        if q >= n {
            proof {
                assert(strip_comments(rem) == rem);
            }
            let mut out = out;
            push_range(&mut out, cs, i, n);
            proof {
                assert(cs@.subrange(i as int, n as int) =~= cs@.skip(i as int));
            }
            return out;
        }
        proof {
            assert(strip_comments(rem) == rem.take(p - i) + seq![' '] + strip_comments(
                rem.skip(q - i + 1),
            ));
            assert(rem.take(p - i) =~= cs@.subrange(i as int, p as int));
            assert(rem.skip(q - i + 1) =~= cs@.skip(q + 1 as int));
        }
        let ghost out0 = out@;
        push_range(&mut out, cs, i, p);
        out.push(' ');
        proof {
            assert(out@ =~= out0 + cs@.subrange(i as int, p as int) + seq![' ']);
            assert((out0 + cs@.subrange(i as int, p as int) + seq![' ']) + strip_comments(
                cs@.skip(q + 1 as int),
            ) =~= out0 + (cs@.subrange(i as int, p as int) + seq![' '] + strip_comments(
                cs@.skip(q + 1 as int),
            )));
            assert(cs@.subrange(i as int, p as int) + seq![' '] + strip_comments(
                cs@.skip(q + 1 as int),
            ) == strip_comments(rem));
        }
        i = q + 1;
    }
}

/// Replaces parenthesized comments in a header value by single spaces.
///
/// Headers can contain comments in parentheses, which may hold any
/// characters, semicolons and newlines included; they carry no meaning and
/// are removed before parsing.
pub fn remove_comments(header: &str) -> (r: String)
    ensures
        r@ == strip_comments(header@),
{
    let cs = str_chars(header);
    let stripped = strip_chars(&cs);
    chars_string(&stripped)
}

/// The characters of `"dkim="`.
pub open spec fn dkim_marker() -> Seq<char> {
    seq!['d', 'k', 'i', 'm', '=']
}

/// The characters of `"pass"`.
pub open spec fn pass_word() -> Seq<char> {
    seq!['p', 'a', 's', 's']
}

/// The token `header.d=<domain>`.
pub open spec fn header_d_token(domain: Seq<char>) -> Seq<char> {
    seq!['h', 'e', 'a', 'd', 'e', 'r', '.', 'd', '='] + domain
}

/// The token `header.i=@<domain>`.
pub open spec fn header_i_token(domain: Seq<char>) -> Seq<char> {
    seq!['h', 'e', 'a', 'd', 'e', 'r', '.', 'i', '=', '@'] + domain
}

/// The sentinel used when a header carries no usable authserv-id.
pub open spec fn invalid_authserv_id() -> Seq<char> {
    seq![
        'i', 'n', 'v', 'a', 'l', 'i', 'd', 'A', 'u', 't', 'h', 's', 'e', 'r', 'v', 'I', 'd',
    ]
}

/// The DKIM verdict of one comment-free header value: the token after the
/// first `dkim=`, up to the next `;`, split at whitespace.  `pass` counts
/// only together with a `header.d=`/`header.i=@` token naming the From
/// domain; any other explicit verdict is a failure; no `dkim=` at all says
/// nothing.
pub open spec fn dkim_of_header(header: Seq<char>, from_domain: Seq<char>) -> DkimResult {
    match find_sub_from(header, dkim_marker(), 0) {
        Option::None => DkimResult::Nothing,
        Option::Some(p) => {
            let after = header.skip(p + 5);
            let part = after.take(scan_char(after, 0, ';'));
            let toks = split_ws(part);
            if toks.len() > 0 && toks[0] == pass_word() {
                if exists|k: int|
                    0 <= k < toks.len() && (toks[k] == header_d_token(from_domain) || toks[k]
                        == header_i_token(from_domain)) {
                    DkimResult::Passed
                } else {
                    DkimResult::Nothing
                }
            } else {
                DkimResult::Failed
            }
        },
    }
}

/// Builds the `Vec<char>` of a short ASCII literal.
fn dkim_marker_vec() -> (v: Vec<char>)
    ensures
        v@ == dkim_marker(),
{
    let mut v: Vec<char> = Vec::new();
    v.push('d');
    v.push('k');
    v.push('i');
    v.push('m');
    v.push('=');
    proof {
        assert(v@ =~= dkim_marker());
    }
    v
}

fn pass_word_vec() -> (v: Vec<char>)
    ensures
        v@ == pass_word(),
{
    let mut v: Vec<char> = Vec::new();
    v.push('p');
    v.push('a');
    v.push('s');
    v.push('s');
    proof {
        assert(v@ =~= pass_word());
    }
    v
}

fn invalid_authserv_id_vec() -> (v: Vec<char>)
    ensures
        v@ == invalid_authserv_id(),
{
    let s = str_chars("invalidAuthservId");
    proof {
        reveal_strlit("invalidAuthservId");
        assert(s@ =~= invalid_authserv_id());
    }
    s
}

fn header_d_token_vec(domain: &Vec<char>) -> (v: Vec<char>)
    ensures
        v@ == header_d_token(domain@),
{
    let mut v: Vec<char> = Vec::new();
    v.push('h');
    v.push('e');
    v.push('a');
    v.push('d');
    v.push('e');
    v.push('r');
    v.push('.');
    v.push('d');
    v.push('=');
    push_range(&mut v, domain, 0, domain.len());
    proof {
        assert(domain@.subrange(0, domain@.len() as int) =~= domain@);
        assert(v@ =~= header_d_token(domain@));
    }
    v
}

fn header_i_token_vec(domain: &Vec<char>) -> (v: Vec<char>)
    ensures
        v@ == header_i_token(domain@),
{
    let mut v: Vec<char> = Vec::new();
    v.push('h');
    v.push('e');
    v.push('a');
    v.push('d');
    v.push('e');
    v.push('r');
    v.push('.');
    v.push('i');
    v.push('=');
    v.push('@');
    push_range(&mut v, domain, 0, domain.len());
    proof {
        assert(domain@.subrange(0, domain@.len() as int) =~= domain@);
        assert(v@ =~= header_i_token(domain@));
    }
    v
}

/// The verdict of one comment-free header value, as `dkim_of_header`
/// describes it.
#[verifier::loop_isolation(false)]
fn dkim_of_header_chars(hv: &Vec<char>, from_domain: &Vec<char>) -> (r: DkimResult)
    ensures
        r == dkim_of_header(hv@, from_domain@),
{
    let marker = dkim_marker_vec();
    let p = match find_sub(hv, &marker, 0) {
        Option::None => {
            return DkimResult::Nothing;
        },
        Option::Some(p) => p,
    };
    let n = hv.len();
    proof {
        crate::text::lemma_find_sub_from(hv@, dkim_marker(), 0);
        assert(p + 5 <= n);
        lemma_scan_char(hv@, p + 5 as int, ';');
        lemma_scan_char_skip(hv@, p + 5 as int, 0, ';');
    }
    let semi = find_char_from(hv, p + 5, ';');
    let mut part: Vec<char> = Vec::new();
    push_range(&mut part, hv, p + 5, semi);
    proof {
        let after = hv@.skip(p + 5 as int);
        assert(part@ =~= after.take(scan_char(after, 0, ';')));
    }
    let toks = split_ws_vec(&part);
    let pass = pass_word_vec();
    let ghost stoks = split_ws(part@);
    if toks.len() == 0 || !chars_eq(&toks[0], &pass) {
        proof {
            assert(toks@.len() == stoks.len());
            if toks@.len() > 0 {
                assert(toks.deep_view()[0] == stoks[0]);
                assert(toks@[0].deep_view() == toks@[0]@);
            }
        }
        return DkimResult::Failed;
    }
    proof {
        assert(toks.deep_view()[0] == stoks[0]);
        assert(stoks[0] == pass_word());
    }
    let hd = header_d_token_vec(from_domain);
    let hi = header_i_token_vec(from_domain);
    let mut k: usize = 0;
    while k < toks.len()
        invariant
            0 <= k <= toks@.len(),
            toks.deep_view() == stoks,
            hd@ == header_d_token(from_domain@),
            hi@ == header_i_token(from_domain@),
            forall|j: int|
                0 <= j < k ==> !(stoks[j] == header_d_token(from_domain@) || stoks[j]
                    == header_i_token(from_domain@)),
        decreases toks@.len() - k,
    {
        proof {
            assert(toks.deep_view()[k as int] == toks@[k as int]@);
        }
        if chars_eq(&toks[k], &hd) || chars_eq(&toks[k], &hi) {
            proof {
                let after = hv@.skip(p + 5);
                let part2 = after.take(scan_char(after, 0, ';'));
                assert(part@ == part2);
                let toks2 = split_ws(part2);
                assert(toks2 == stoks);
                assert(0 <= k < toks2.len());
                assert(toks2[k as int] == header_d_token(from_domain@) || toks2[k as int]
                    == header_i_token(from_domain@));
                assert(exists|j: int|
                    0 <= j < toks2.len() && (toks2[j] == header_d_token(from_domain@) || toks2[j]
                        == header_i_token(from_domain@)));
            }
            return DkimResult::Passed;
        }
        k = k + 1;
    }
    DkimResult::Nothing
}

/// Parses a single Authentication-Results header value, like
/// `gmx.net; dkim=pass header.i=@slack.com`, and returns the DKIM verdict
/// it reports for the given From domain.
pub fn parse_one_authres_header(header_value: &str, from_domain: &str) -> (r: DkimResult)
    ensures
        r == dkim_of_header(header_value@, from_domain@),
{
    let hv = str_chars(header_value);
    let fd = str_chars(from_domain);
    dkim_of_header_chars(&hv, &fd)
}

/// The candidate-set entry of one raw header value: the part before the
/// first `;` of the comment-free value, or the sentinel when that part is
/// empty or holds whitespace.
pub open spec fn authserv_id_of(raw: Seq<char>, from_domain: Seq<char>) -> (Seq<char>,
    DkimResult) {
    let hv = strip_comments(raw);
    let id0 = hv.take(scan_char(hv, 0, ';'));
    let id = if id0.len() == 0 || exists|j: int| 0 <= j < id0.len() && is_ws(id0[j]) {
        invalid_authserv_id()
    } else {
        id0
    };
    (id, dkim_of_header(hv, from_domain))
}

/// The parsed entries of a whole message: one per header value, in order.
pub open spec fn authres_of_headers(values: Seq<Seq<char>>, from_domain: Seq<char>) -> Seq<
    (Seq<char>, DkimResult),
> {
    values.map_values(|raw: Seq<char>| authserv_id_of(raw, from_domain))
}

/// Parses all Authentication-Results header values of one message: for each,
/// the comment-free value's leading authserv-id (or the sentinel) and the
/// DKIM verdict it reports for the From domain.
pub fn parse_authres_headers(header_values: &Vec<String>, from_domain: &str) -> (r:
    AuthenticationResults)
    ensures
        authres_view(r@) == authres_of_headers(header_values.deep_view(), from_domain@),
{
    let fd = str_chars(from_domain);
    let mut r: AuthenticationResults = Vec::new();
    let mut k: usize = 0;
    while k < header_values.len()
        invariant
            0 <= k <= header_values@.len(),
            fd@ == from_domain@,
            authres_view(r@) =~= header_values.deep_view().take(k as int).map_values(
                |raw: Seq<char>| authserv_id_of(raw, from_domain@),
            ),
        decreases header_values@.len() - k,
    {
        let raw = str_chars(&header_values[k]);
        proof {
            assert(header_values.deep_view()[k as int] == header_values@[k as int]@);
        }
        let hv = strip_chars(&raw);
        proof {
            lemma_scan_char(hv@, 0, ';');
        }
        let semi = find_char_from(&hv, 0, ';');
        let mut id: Vec<char> = Vec::new();
        push_range(&mut id, &hv, 0, semi);
        proof {
            assert(id@ =~= hv@.take(scan_char(hv@, 0, ';')));
        }
        let id = if id.len() == 0 || contains_ws(&id) {
            invalid_authserv_id_vec()
        } else {
            id
        };
        let verdict = dkim_of_header_chars(&hv, &fd);
        let ghost prev = authres_view(r@);
        r.push((chars_string(&id), verdict));
        proof {
            let svals = header_values.deep_view();
            assert(authres_view(r@) =~= prev + seq![(id@, verdict)]);
            assert((id@, verdict) == authserv_id_of(svals[k as int], from_domain@));
            assert(svals.take(k + 1 as int).map_values(
                |raw: Seq<char>| authserv_id_of(raw, from_domain@),
            ) =~= svals.take(k as int).map_values(
                |raw: Seq<char>| authserv_id_of(raw, from_domain@),
            ) + seq![authserv_id_of(svals[k as int], from_domain@)]);
        }
        k = k + 1;
    }
    proof {
        assert(header_values.deep_view().take(header_values@.len() as int)
            =~= header_values.deep_view());
    }
    r
}

/// The view of an optional configuration string.
pub open spec fn opt_str_view(o: Option<String>) -> Option<Seq<char>> {
    match o {
        Option::Some(s) => Option::Some(s@),
        Option::None => Option::None,
    }
}

/// The stored trust anchor: the `authservid_candidates`
/// configuration value and the `sending_domains` table, which records the
/// domains whose DKIM is known to work.
pub struct AuthresState {
    /// Space-separated list of candidate authserv-ids; absent until the
    /// first authenticated message has been seen.
    pub authservid_candidates: Option<String>,
    /// The domains known to come with valid DKIM.
    pub sending_domains: Vec<String>,
}

/// `ids` with every repeated element dropped, keeping first occurrences in
/// order.
pub open spec fn dedup(ids: Seq<Seq<char>>) -> Seq<Seq<char>>
    decreases ids.len(),
{
    if ids.len() == 0 {
        Seq::empty()
    } else {
        let front = dedup(ids.drop_last());
        if front.contains(ids.last()) {
            front
        } else {
            front.push(ids.last())
        }
    }
}

/// The candidate authserv-ids parsed out of the configuration value:
/// its whitespace-separated words, first occurrences only.
pub open spec fn candidates_of(cfg: Option<Seq<char>>) -> Seq<Seq<char>> {
    match cfg {
        Option::None => Seq::empty(),
        Option::Some(s) => dedup(split_ws(s)),
    }
}

/// The authserv-ids of parsed authentication results.
pub open spec fn ids_of(ares: Seq<(Seq<char>, DkimResult)>) -> Seq<Seq<char>> {
    ares.map_values(|p: (Seq<char>, DkimResult)| p.0)
}

/// The candidates joined back into one space-separated value.
pub open spec fn join_sp(ids: Seq<Seq<char>>) -> Seq<char>
    decreases ids.len(),
{
    if ids.len() == 0 {
        Seq::empty()
    } else if ids.len() == 1 {
        ids[0]
    } else {
        join_sp(ids.drop_last()) + seq![' '] + ids.last()
    }
}

/// What one message does to the candidate configuration value: with no
/// authserv-ids it does nothing; otherwise the old candidates are
/// intersected with the incoming ones, or replaced by them when the
/// intersection is empty; the value is rewritten only when the candidate
/// set changes, and the second component reports that.
pub open spec fn spec_update_candidates(
    cfg: Option<Seq<char>>,
    ares: Seq<(Seq<char>, DkimResult)>,
) -> (Option<Seq<char>>, bool) {
    let new_ids = dedup(ids_of(ares));
    if new_ids.len() == 0 {
        (cfg, false)
    } else {
        let old_ids = candidates_of(cfg);
        let inter = old_ids.filter(|id: Seq<char>| new_ids.contains(id));
        let keep = if inter.len() > 0 {
            inter
        } else {
            new_ids
        };
        if old_ids.to_set() == keep.to_set() {
            (cfg, false)
        } else {
            (Option::Some(join_sp(keep)), true)
        }
    }
}

/// Appends a string to a vector of strings.
fn push_string(v: &mut Vec<String>, s: String)
    ensures
        final(v).deep_view() == old(v).deep_view().push(s@),
{
    let ghost n = v@.len();
    let ghost prev = v.deep_view();
    let ghost sv = s@;
    v.push(s);
    proof {
        assert forall|j: int| 0 <= j < v.deep_view().len() implies #[trigger] v.deep_view()[j]
            == prev.push(sv)[j] by {
            if j < n {
                assert(v@[j] == old(v)@[j]);
            } else {
                assert(v@[j]@ == sv);
            }
        }
        assert(v.deep_view() =~= prev.push(sv));
    }
}

/// Whether `v` holds a string whose characters equal those of `s`.
fn contains_str(v: &Vec<String>, s: &String) -> (r: bool)
    ensures
        r == v.deep_view().contains(s@),
{
    let mut i: usize = 0;
    while i < v.len()
        invariant
            0 <= i <= v@.len(),
            forall|j: int| 0 <= j < i ==> v@[j]@ != s@,
        decreases v@.len() - i,
    {
        if s.eq(&v[i]) {
            proof {
                assert(v.deep_view()[i as int] == s@);
            }
            return true;
        }
        i = i + 1;
    }
    proof {
        assert forall|j: int| 0 <= j < v.deep_view().len() implies v.deep_view()[j] != s@ by {
            assert(v@[j]@ != s@);
        }
        if v.deep_view().contains(s@) {
            let j = choose|j: int| 0 <= j < v.deep_view().len() && v.deep_view()[j] == s@;
            assert(false);
        }
    }
    false
}

/// Parses the `authservid_candidates` configuration value: its
/// whitespace-separated words, without repetitions, in order of first
/// occurrence.
pub fn parse_authservid_candidates_config(config: &Option<String>) -> (r: Vec<String>)
    ensures
        r.deep_view() == candidates_of(opt_str_view(*config)),
{
    let mut out: Vec<String> = Vec::new();
    let s = match config {
        Option::None => {
            proof {
                assert(out.deep_view() =~= Seq::<Seq<char>>::empty());
            }
            return out;
        },
        Option::Some(s) => s,
    };
    let cs = str_chars(s.as_str());
    let words = split_ws_vec(&cs);
    let ghost wdv = split_ws(s@);
    let mut i: usize = 0;
    while i < words.len()
        invariant
            0 <= i <= words@.len(),
            words.deep_view() == wdv,
            out.deep_view() == dedup(wdv.take(i as int)),
        decreases words@.len() - i,
    {
        let w = chars_string(&words[i]);
        proof {
            assert(words.deep_view()[i as int] == words@[i as int]@);
        }
        let dup = contains_str(&out, &w);
        proof {
            assert(wdv.take(i + 1 as int).drop_last() =~= wdv.take(i as int));
            assert(wdv.take(i + 1 as int).last() == wdv[i as int]);
        }
        if !dup {
            push_string(&mut out, w);
        }
        i = i + 1;
    }
    proof {
        assert(wdv.take(wdv.len() as int) =~= wdv);
    }
    out
}

/// Joins candidate ids with single spaces.
fn join_spaced(ids: &Vec<String>) -> (r: String)
    ensures
        r@ == join_sp(ids.deep_view()),
{
    let mut r = String::new();
    let ghost dv = ids.deep_view();
    let mut i: usize = 0;
    while i < ids.len()
        invariant
            0 <= i <= ids@.len(),
            dv == ids.deep_view(),
            r@ == join_sp(dv.take(i as int)),
        decreases ids@.len() - i,
    {
        proof {
            assert(dv.take(i + 1 as int).drop_last() =~= dv.take(i as int));
            assert(dv.take(i + 1 as int).last() == dv[i as int]);
            assert(dv[i as int] == ids@[i as int]@);
        }
        if i > 0 {
            r.append(" ");
            proof {
                reveal_strlit(" ");
                assert(" "@ =~= seq![' ']);
            }
        }
        r.append(ids[i].as_str());
        proof {
            if i == 0 {
                assert(dv.take(1).len() == 1);
                assert(join_sp(dv.take(1)) == dv.take(1)[0]);
                assert(r@ =~= dv[0]);
            } else {
                assert(join_sp(dv.take(i + 1 as int)) == join_sp(dv.take(i as int)) + seq![' ']
                    + dv[i as int]);
            }
        }
        i = i + 1;
    }
    proof {
        assert(dv.take(dv.len() as int) =~= dv);
    }
    r
}

/// Decides whether the two string vectors hold the same set of values.
fn sets_eq(a: &Vec<String>, b: &Vec<String>) -> (r: bool)
    ensures
        r == (a.deep_view().to_set() == b.deep_view().to_set()),
{
    let ghost adv = a.deep_view();
    let ghost bdv = b.deep_view();
    let mut i: usize = 0;
    while i < a.len()
        invariant
            0 <= i <= a@.len(),
            adv == a.deep_view(),
            bdv == b.deep_view(),
            forall|j: int| 0 <= j < i ==> bdv.contains(adv[j]),
        decreases a@.len() - i,
    {
        proof {
            assert(adv[i as int] == a@[i as int]@);
        }
        if !contains_str(b, &a[i]) {
            proof {
                assert(adv.contains(adv[i as int]));
                assert(a.deep_view().to_set().contains(adv[i as int]));
                assert(!b.deep_view().to_set().contains(adv[i as int]));
            }
            return false;
        }
        i = i + 1;
    }
    let mut k: usize = 0;
    while k < b.len()
        invariant
            0 <= k <= b@.len(),
            adv == a.deep_view(),
            bdv == b.deep_view(),
            forall|j: int| 0 <= j < adv.len() ==> bdv.contains(adv[j]),
            forall|j: int| 0 <= j < k ==> adv.contains(bdv[j]),
        decreases b@.len() - k,
    {
        proof {
            assert(bdv[k as int] == b@[k as int]@);
        }
        if !contains_str(a, &b[k]) {
            proof {
                assert(bdv.contains(bdv[k as int]));
                assert(b.deep_view().to_set().contains(bdv[k as int]));
                assert(!a.deep_view().to_set().contains(bdv[k as int]));
            }
            return false;
        }
        k = k + 1;
    }
    proof {
        assert forall|x: Seq<char>| adv.to_set().contains(x) implies bdv.to_set().contains(
            x,
        ) by {
            let j = choose|j: int| 0 <= j < adv.len() && adv[j] == x;
            assert(bdv.contains(adv[j]));
        }
        assert forall|x: Seq<char>| bdv.to_set().contains(x) implies adv.to_set().contains(
            x,
        ) by {
            let j = choose|j: int| 0 <= j < bdv.len() && bdv[j] == x;
            assert(adv.contains(bdv[j]));
        }
        assert(adv.to_set() =~= bdv.to_set());
    }
    true
}

/// Updates the candidates for the receiving server's authserv-id, as
/// `spec_update_candidates` describes, and clears the known sending domains
/// whenever the candidate set changes: earlier pass decisions were relative
/// to the old trust anchor.
pub fn update_authservid_candidates(state: &mut AuthresState, authres: &AuthenticationResults)
    ensures
        ({
            let up = spec_update_candidates(
                opt_str_view(old(state).authservid_candidates),
                authres_view(authres@),
            );
            opt_str_view(final(state).authservid_candidates) == up.0
                && final(state).sending_domains@ == (if up.1 {
                Seq::<String>::empty()
            } else {
                old(state).sending_domains@
            }) && (!up.1 ==> final(state).authservid_candidates
                == old(state).authservid_candidates)
        }),
{
    let ghost ares = authres_view(authres@);
    let ghost new_dv = dedup(ids_of(ares));
    let mut new_ids: Vec<String> = Vec::new();
    let mut k: usize = 0;
    proof {
        assert(new_ids.deep_view() =~= dedup(ids_of(ares).take(0)));
    }
    while k < authres.len()
        invariant
            0 <= k <= authres@.len(),
            ares == authres_view(authres@),
            new_ids.deep_view() == dedup(ids_of(ares).take(k as int)),
        decreases authres@.len() - k,
    {
        let id = authres[k].0.clone();
        proof {
            assert(ids_of(ares)[k as int] == authres@[k as int].0@);
            assert(ids_of(ares).take(k + 1 as int).drop_last() =~= ids_of(ares).take(k as int));
            assert(ids_of(ares).take(k + 1 as int).last() == ids_of(ares)[k as int]);
        }
        if !contains_str(&new_ids, &id) {
            push_string(&mut new_ids, id);
        }
        k = k + 1;
    }
    proof {
        assert(ids_of(ares).take(ids_of(ares).len() as int) =~= ids_of(ares));
        assert(new_ids.deep_view() == new_dv);
    }
    if new_ids.len() == 0 {
        // The message carries no authentication results at all; it may be
        // self-sent or come from a mailer daemon, so the candidates stay.
        return ;
    }
    let old_ids = parse_authservid_candidates_config(&state.authservid_candidates);
    let ghost old_dv = old_ids.deep_view();
    let ghost pred = |id: Seq<char>| new_dv.contains(id);
    let mut inter: Vec<String> = Vec::new();
    let mut i: usize = 0;
    proof {
        reveal(Seq::filter);
        assert(inter.deep_view() =~= old_dv.take(0).filter(pred));
    }
    while i < old_ids.len()
        invariant
            0 <= i <= old_ids@.len(),
            old_dv == old_ids.deep_view(),
            new_dv == new_ids.deep_view(),
            pred == (|id: Seq<char>| new_dv.contains(id)),
            inter.deep_view() == old_dv.take(i as int).filter(pred),
        decreases old_ids@.len() - i,
    {
        proof {
            reveal(Seq::filter);
            assert(old_dv.take(i + 1 as int).drop_last() =~= old_dv.take(i as int));
            assert(old_dv.take(i + 1 as int).last() == old_dv[i as int]);
            assert(old_dv[i as int] == old_ids@[i as int]@);
        }
        if contains_str(&new_ids, &old_ids[i]) {
            let id = old_ids[i].clone();
            push_string(&mut inter, id);
        }
        i = i + 1;
    }
    proof {
        assert(old_dv.take(old_dv.len() as int) =~= old_dv);
    }
    let keep = if inter.len() > 0 {
        inter
    } else {
        new_ids
    };
    if sets_eq(&old_ids, &keep) {
        return ;
    }
    let joined = join_spaced(&keep);
    state.authservid_candidates = Some(joined);
    clear_dkim_works(state);
}

/// Entries of the parsed results whose authserv-id is among the current
/// candidates; only those are trusted to speak for the receiving server.
pub open spec fn keychange_filter(
    ares: Seq<(Seq<char>, DkimResult)>,
    cands: Seq<Seq<char>>,
) -> Seq<(Seq<char>, DkimResult)> {
    ares.filter(|p: (Seq<char>, DkimResult)| cands.contains(p.0))
}

/// The verdict of a scan in order: the first explicit pass wins, the first
/// explicit failure loses, entries that say nothing are passed over.
pub open spec fn scan_verdict(ares: Seq<(Seq<char>, DkimResult)>) -> bool
    decreases ares.len(),
{
    if ares.len() == 0 {
        false
    } else {
        match ares[0].1 {
            DkimResult::Passed => true,
            DkimResult::Failed => false,
            DkimResult::Nothing => scan_verdict(ares.drop_first()),
        }
    }
}

/// Whether DKIM counts as passed: an empty filtered list counts as a pass,
/// because a provider that does not annotate gives an attacker no leverage
/// beyond what they already have.
pub open spec fn dkim_passed_of(ares: Seq<(Seq<char>, DkimResult)>, cands: Seq<Seq<char>>) -> bool {
    let f = keychange_filter(ares, cands);
    if f.len() == 0 {
        true
    } else {
        scan_verdict(f)
    }
}

/// The keychange decision and the new set of domains known to work: a key
/// change is allowed when DKIM passed or when the domain was never known to
/// authenticate cleanly; a fresh pass pins the domain.
pub open spec fn spec_allow_keychange(
    cfg: Option<Seq<char>>,
    works: Set<Seq<char>>,
    ares: Seq<(Seq<char>, DkimResult)>,
    d: Seq<char>,
) -> (bool, Set<Seq<char>>) {
    let passed = dkim_passed_of(ares, candidates_of(cfg));
    let known = works.contains(d);
    (
        (passed || !known),
        if passed && !known {
            works.insert(d)
        } else {
            works
        },
    )
}

/// Whether the given domain is known to send with valid DKIM.
pub fn dkim_works(state: &AuthresState, from_domain: &str) -> (r: bool)
    ensures
        r == state.sending_domains.deep_view().to_set().contains(from_domain@),
{
    let d = String::from_str(from_domain);
    contains_str(&state.sending_domains, &d)
}

/// Records that the given domain sent a message with valid DKIM.
pub fn set_dkim_works(state: &mut AuthresState, from_domain: &str)
    ensures
        final(state).sending_domains.deep_view().to_set() == old(
            state,
        ).sending_domains.deep_view().to_set().insert(from_domain@),
        final(state).authservid_candidates == old(state).authservid_candidates,
{
    let ghost prev = state.sending_domains.deep_view();
    push_string(&mut state.sending_domains, String::from_str(from_domain));
    proof {
        let now = state.sending_domains.deep_view();
        assert forall|x: Seq<char>| now.to_set().contains(x) implies prev.to_set().insert(
            from_domain@,
        ).contains(x) by {
            let j = choose|j: int| 0 <= j < now.len() && now[j] == x;
            if j < prev.len() {
                assert(prev.contains(x));
            }
        }
        assert forall|x: Seq<char>| prev.to_set().insert(from_domain@).contains(x) implies
            now.to_set().contains(x) by {
            if x == from_domain@ {
                assert(now[now.len() - 1] == x);
            } else {
                let j = choose|j: int| 0 <= j < prev.len() && prev[j] == x;
                assert(now[j] == x);
            }
        }
        assert(now.to_set() =~= prev.to_set().insert(from_domain@));
    }
}

/// Forgets every domain known to send with valid DKIM.
pub fn clear_dkim_works(state: &mut AuthresState)
    ensures
        final(state).sending_domains@ == Seq::<String>::empty(),
        final(state).authservid_candidates == old(state).authservid_candidates,
{
    state.sending_domains = Vec::new();
}

/// Decides whether the sender may change their encryption key, as
/// `spec_allow_keychange` describes, and pins a freshly passing domain.
pub fn should_allow_keychange(
    state: &mut AuthresState,
    authres: AuthenticationResults,
    from_domain: &str,
) -> (r: bool)
    ensures
        ({
            let res = spec_allow_keychange(
                opt_str_view(old(state).authservid_candidates),
                old(state).sending_domains.deep_view().to_set(),
                authres_view(authres@),
                from_domain@,
            );
            r == res.0 && final(state).sending_domains.deep_view().to_set() == res.1
                && final(state).authservid_candidates == old(state).authservid_candidates
        }),
{
    let ghost ares = authres_view(authres@);
    let ids = parse_authservid_candidates_config(&state.authservid_candidates);
    let ghost cands = ids.deep_view();
    let ghost pred = |p: (Seq<char>, DkimResult)| cands.contains(p.0);
    let mut filtered: Vec<(String, DkimResult)> = Vec::new();
    let mut k: usize = 0;
    proof {
        reveal(Seq::filter);
        assert(authres_view(filtered@) =~= ares.take(0).filter(pred));
    }
    while k < authres.len()
        invariant
            0 <= k <= authres@.len(),
            ares == authres_view(authres@),
            cands == ids.deep_view(),
            pred == (|p: (Seq<char>, DkimResult)| cands.contains(p.0)),
            authres_view(filtered@) == ares.take(k as int).filter(pred),
        decreases authres@.len() - k,
    {
        proof {
            reveal(Seq::filter);
            assert(ares.take(k + 1 as int).drop_last() =~= ares.take(k as int));
            assert(ares.take(k + 1 as int).last() == ares[k as int]);
            assert(ares[k as int] == (authres@[k as int].0@, authres@[k as int].1));
        }
        if contains_str(&ids, &authres[k].0) {
            let ghost prev = authres_view(filtered@);
            filtered.push((authres[k].0.clone(), authres[k].1));
            proof {
                assert(authres_view(filtered@) =~= prev.push(ares[k as int]));
            }
        }
        k = k + 1;
    }
    proof {
        assert(ares.take(ares.len() as int) =~= ares);
        assert(authres_view(filtered@) == keychange_filter(ares, cands));
    }
    let ghost fdv = keychange_filter(ares, cands);
    let mut passed: bool = false;
    if filtered.len() == 0 {
        passed = true;
    } else {
        let mut j: usize = 0;
        let mut broke: bool = false;
        proof {
            assert(fdv.skip(0) =~= fdv);
        }
        while j < filtered.len() && !broke
            invariant
                0 <= j <= filtered@.len(),
                fdv == authres_view(filtered@),
                !broke ==> passed == false,
                !broke ==> scan_verdict(fdv) == scan_verdict(fdv.skip(j as int)),
                broke ==> passed == scan_verdict(fdv),
            decreases filtered@.len() - j, (if broke {
                0int
            } else {
                1int
            }),
        {
            proof {
                assert(fdv.skip(j as int)[0] == fdv[j as int]);
                assert(fdv.skip(j as int).drop_first() =~= fdv.skip(j + 1 as int));
                assert(fdv[j as int].1 == filtered@[j as int].1);
            }
            match filtered[j].1 {
                DkimResult::Passed => {
                    passed = true;
                    broke = true;
                },
                DkimResult::Failed => {
                    passed = false;
                    broke = true;
                },
                DkimResult::Nothing => {},
            }
            j = j + 1;
        }
        proof {
            if !broke {
                assert(fdv.skip(fdv.len() as int).len() == 0);
                assert(scan_verdict(fdv) == false);
            }
        }
    }
    let works = dkim_works(state, from_domain);
    if !works && passed {
        set_dkim_works(state, from_domain);
    }
    passed || !works
}

/// Index of the last `@` in `a` at or before `i`; `-1` when there is none.
pub open spec fn last_at_sign(a: Seq<char>, i: int) -> int
    decreases i + 1,
{
    if i < 0 || i >= a.len() {
        -1
    } else if a[i] == '@' {
        i
    } else {
        last_at_sign(a, i - 1)
    }
}

/// The domain of an address: the part after the last `@`, defined only when
/// both the part before and the part after it are non-empty.
pub open spec fn domain_of_addr(a: Seq<char>) -> Option<Seq<char>> {
    let i = last_at_sign(a, a.len() - 1);
    if i <= 0 || i >= a.len() - 1 {
        Option::None
    } else {
        Option::Some(a.skip(i + 1))
    }
}

/// Extracts the domain of an email address, as `domain_of_addr` describes:
/// an address with no `@`, an empty local part or an empty domain has none.
pub fn addr_domain(addr: &str) -> (r: Option<String>)
    ensures
        opt_str_view(r) == domain_of_addr(addr@),
{
    let cs = str_chars(addr);
    let n = cs.len();
    let mut i: usize = n;
    while i > 0
        invariant
            0 <= i <= n,
            n == cs@.len(),
            cs@ == addr@,
            last_at_sign(cs@, n - 1) == last_at_sign(cs@, i - 1),
        decreases i,
    {
        i = i - 1;
        if cs[i] == '@' {
            if i == 0 || i + 1 >= n {
                return Option::None;
            }
            let mut d: Vec<char> = Vec::new();
            push_range(&mut d, &cs, i + 1, n);
            proof {
                assert(cs@.subrange(i + 1 as int, n as int) =~= cs@.skip(i + 1));
            }
            return Option::Some(chars_string(&d));
        }
    }
    Option::None
}

/// What handling one message does: the keychange decision, the candidate
/// configuration value afterwards, and the set of domains known to work
/// afterwards.  An address without a domain decides `false` and changes
/// nothing, so that the message can still be stored and is not downloaded
/// again.
pub open spec fn spec_handle_authres(
    cfg: Option<Seq<char>>,
    works: Set<Seq<char>>,
    values: Seq<Seq<char>>,
    from: Seq<char>,
) -> (bool, Option<Seq<char>>, Set<Seq<char>>) {
    match domain_of_addr(from) {
        Option::None => (false, cfg, works),
        Option::Some(d) => {
            let ares = authres_of_headers(values, d);
            let up = spec_update_candidates(cfg, ares);
            let works1 = if up.1 {
                Set::empty()
            } else {
                works
            };
            let al = spec_allow_keychange(up.0, works1, ares, d);
            (al.0, up.0, al.1)
        },
    }
}

/// Handles the Authentication-Results headers of one inbound message:
/// updates the authserv-id candidates, remembers a passing domain, and says
/// whether the sender may change their encryption key.
pub fn handle_authres(state: &mut AuthresState, header_values: &Vec<String>, from: &str) -> (r:
    bool)
    ensures
        ({
            let h = spec_handle_authres(
                opt_str_view(old(state).authservid_candidates),
                old(state).sending_domains.deep_view().to_set(),
                header_values.deep_view(),
                from@,
            );
            r == h.0 && opt_str_view(final(state).authservid_candidates) == h.1
                && final(state).sending_domains.deep_view().to_set() == h.2
        }),
{
    let from_domain = match addr_domain(from) {
        Option::None => {
            // The address is invalid; decide `false` without an error so the
            // message is still stored and not fetched over and over.
            return false;
        },
        Option::Some(d) => d,
    };
    let authres = parse_authres_headers(header_values, from_domain.as_str());
    update_authservid_candidates(state, &authres);
    proof {
        let up = spec_update_candidates(
            opt_str_view(old(state).authservid_candidates),
            authres_view(authres@),
        );
        if up.1 {
            assert(state.sending_domains.deep_view() =~= Seq::<Seq<char>>::empty());
            assert(state.sending_domains.deep_view().to_set() =~= Set::<Seq<char>>::empty());
        }
    }
    should_allow_keychange(state, authres, from_domain.as_str())
}

/// The values of the Authentication-Results headers of a raw message, in
/// order of appearance, or nothing when the message cannot be parsed; a
/// function of the bytes alone.
pub uninterp spec fn authres_header_values_of(message: Seq<u8>) -> Option<Seq<Seq<char>>>;

/// Relies on `mailparse::parse_mail` and `MailHeaderMap::get_all_values`:
/// parses the message and collects the values of all its
/// `Authentication-Results` headers, in order of appearance; `None` when
/// parsing fails.  The result depends on the message bytes alone.
#[verifier::external_body]
fn parse_mail_authres_headers(message: &[u8]) -> (r: Option<Vec<String>>)
    ensures
        match r {
            Option::Some(v) => authres_header_values_of(message@) == Option::Some(v.deep_view()),
            Option::None => authres_header_values_of(message@) is None,
        },
{
    match mailparse::parse_mail(message) {
        Ok(mail) => Some(mail.get_headers().get_all_values("Authentication-Results")),
        Err(_) => None,
    }
}

/// Handles the authentication results of a raw message: parses it, then
/// proceeds as `handle_authres` does.  `None` is returned only when the
/// message itself cannot be parsed; the state is then unchanged.
pub fn handle_authres_message(state: &mut AuthresState, message: &[u8], from: &str) -> (r: Option<
    bool,
>)
    ensures
        match authres_header_values_of(message@) {
            Option::Some(values) => {
                let h = spec_handle_authres(
                    opt_str_view(old(state).authservid_candidates),
                    old(state).sending_domains.deep_view().to_set(),
                    values,
                    from@,
                );
                r == Option::Some(h.0) && opt_str_view(final(state).authservid_candidates) == h.1
                    && final(state).sending_domains.deep_view().to_set() == h.2
            },
            Option::None => r is None && *final(state) == *old(state),
        },
{
    match parse_mail_authres_headers(message) {
        Option::None => Option::None,
        Option::Some(values) => Option::Some(handle_authres(state, &values, from)),
    }
}

} // verus!
