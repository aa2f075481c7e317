//! Proved laws of the snapshot codec: decoding an encoded store succeeds
//! and returns the configuration and contacts unchanged, and a snapshot
//! carrying an unsupported database version is rejected.

use vstd::prelude::*;

use crate::bencode::cat;
use crate::bencode::lemma_cat_add;
use crate::bencode::lemma_lex_advances;
use crate::bencode::lemma_lex_cat;
use crate::bencode::lemma_suffix_split;
use crate::bencode::lex_at;
use crate::bencode::skip_sp;
use crate::bencode::suffix_at;
use crate::bencode::tok_bytes;
use crate::bencode::wf_tok;
use crate::bencode::wf_toks;
use crate::bencode::LexStep;
use crate::bencode::Tok;

verus! {

/// A token that neither opens nor closes an object.
pub open spec fn flat(t: Tok) -> bool {
    t is Str || t is Int
}

/// Skipping passes over any run of flat tokens without changing the
/// nesting level.
proof fn lemma_skip_flat_list(s: Seq<u8>, i: int, ts: Seq<Tok>, rest: Seq<u8>, level: nat)
    requires
        wf_toks(ts),
        forall|j: int| 0 <= j < ts.len() ==> flat(#[trigger] ts[j]),
        suffix_at(s, i, cat(ts) + rest),
    ensures
        skip_sp(s, i, level) == skip_sp(s, i + cat(ts).len(), level),
        suffix_at(s, i + cat(ts).len(), rest),
    decreases ts.len(),
{
    if ts.len() == 0 {
        assert(cat(ts) + rest =~= rest);
    } else {
        lemma_lex_cat(s, i, ts, rest);
        let j = i + 1 + tok_bytes(ts[0]).len();
        assert(flat(ts[0]));
        assert(skip_sp(s, i, level) == skip_sp(s, j, level));
        lemma_skip_flat_list(s, j, ts.drop_first(), rest, level);
        assert(cat(ts).len() == 1 + tok_bytes(ts[0]).len() + cat(ts.drop_first()).len());
    }
}

/// Skipping passes over one dictionary block: an opening token, flat
/// fields, and the closing end marker.
proof fn lemma_skip_block(s: Seq<u8>, i: int, row: Seq<Tok>, rest: Seq<u8>, level: nat)
    requires
        row.len() >= 2,
        row[0] == Tok::Dict,
        row.last() == Tok::End,
        forall|j: int| 1 <= j < row.len() - 1 ==> flat(#[trigger] row[j]),
        wf_toks(row),
        suffix_at(s, i, cat(row) + rest),
    ensures
        skip_sp(s, i, level) == skip_sp(s, i + cat(row).len(), level),
        suffix_at(s, i + cat(row).len(), rest),
{
    lemma_lex_cat(s, i, row, rest);
    let j = i + 1 + tok_bytes(row[0]).len();
    assert(skip_sp(s, i, level) == skip_sp(s, j, level + 1));
    let mid = row.subrange(1, row.len() - 1);
    assert(row.drop_first() =~= mid + seq![Tok::End]);
    assert(wf_toks(mid)) by {
        assert forall|k: int| 0 <= k < mid.len() implies wf_tok(#[trigger] mid[k]) by {
            assert(mid[k] == row[k + 1]);
        }
    }
    assert(forall|k: int| 0 <= k < mid.len() ==> flat(#[trigger] mid[k])) by {
        assert forall|k: int| 0 <= k < mid.len() implies flat(#[trigger] mid[k]) by {
            assert(mid[k] == row[k + 1]);
        }
    }
    lemma_cat_add(mid, seq![Tok::End]);
    assert((cat(mid) + cat(seq![Tok::End])) + rest =~= cat(mid) + (cat(seq![Tok::End]) + rest));
    lemma_skip_flat_list(s, j, mid, cat(seq![Tok::End]) + rest, level + 1);
    let j2 = j + cat(mid).len();
    lemma_lex_cat(s, j2, seq![Tok::End], rest);
    let j3 = j2 + 1 + tok_bytes(Tok::End).len();
    assert(skip_sp(s, j2, level + 1) == skip_sp(s, j3, level));
    assert(seq![Tok::End].drop_first() =~= Seq::<Tok>::empty());
    assert(cat(seq![Tok::End].drop_first()) + rest =~= rest);
    assert(cat(row).len() == 1 + tok_bytes(row[0]).len() + cat(row.drop_first()).len());
    assert(cat(row.drop_first()) == cat(mid) + cat(seq![Tok::End]));
    assert(cat(seq![Tok::End]) =~= seq![10u8] + tok_bytes(Tok::End));
    assert(j3 == i + cat(row).len());
}

/// A row whose tokens skipping can pass over: one dictionary block, or a
/// run of flat tokens.
pub open spec fn row_shape(ts: Seq<Tok>) -> bool {
    (ts.len() >= 2 && ts[0] == Tok::Dict && ts.last() == Tok::End && forall|j: int|
        1 <= j < ts.len() - 1 ==> flat(#[trigger] ts[j])) || (forall|j: int|
        0 <= j < ts.len() ==> flat(#[trigger] ts[j]))
}

/// Splitting well-formedness over a concatenation.
proof fn lemma_wf_toks_split(a: Seq<Tok>, b: Seq<Tok>)
    requires
        wf_toks(a + b),
    ensures
        wf_toks(a),
        wf_toks(b),
{
    assert forall|k: int| 0 <= k < a.len() implies wf_tok(#[trigger] a[k]) by {
        assert((a + b)[k] == a[k]);
    }
    assert forall|k: int| 0 <= k < b.len() implies wf_tok(#[trigger] b[k]) by {
        assert((a + b)[a.len() + k] == b[k]);
    }
}

/// Skipping passes over any run of rows.
proof fn lemma_skip_rows<A>(
    s: Seq<u8>,
    i: int,
    rows: Seq<A>,
    f: spec_fn(A) -> Seq<Tok>,
    rest: Seq<u8>,
    level: nat,
)
    requires
        forall|k: int| 0 <= k < rows.len() ==> row_shape(f(#[trigger] rows[k])),
        wf_toks(crate::store::rows_toks(rows, f)),
        suffix_at(s, i, cat(crate::store::rows_toks(rows, f)) + rest),
    ensures
        skip_sp(s, i, level) == skip_sp(s, i + cat(crate::store::rows_toks(rows, f)).len(), level),
        suffix_at(s, i + cat(crate::store::rows_toks(rows, f)).len(), rest),
    decreases rows.len(),
{
    if rows.len() == 0 {
        assert(cat(crate::store::rows_toks(rows, f)) + rest =~= rest);
    } else {
        let row = f(rows[0]);
        let tail = crate::store::rows_toks(rows.drop_first(), f);
        assert(crate::store::rows_toks(rows, f) == row + tail);
        lemma_cat_add(row, tail);
        assert((cat(row) + cat(tail)) + rest =~= cat(row) + (cat(tail) + rest));
        assert(row_shape(row));
        lemma_wf_toks_split(row, tail);
        let j = i + cat(row).len();
        if row.len() >= 2 && row[0] == Tok::Dict && row.last() == Tok::End && forall|x: int|
            1 <= x < row.len() - 1 ==> flat(#[trigger] row[x]) {
            lemma_skip_block(s, i, row, cat(tail) + rest, level);
        } else {
            lemma_skip_flat_list(s, i, row, cat(tail) + rest, level);
        }
        assert forall|k: int| 0 <= k < rows.drop_first().len() implies row_shape(
            f(#[trigger] rows.drop_first()[k]),
        ) by {
            assert(rows.drop_first()[k] == rows[k + 1]);
        }
        lemma_skip_rows(s, j, rows.drop_first(), f, rest, level);
    }
}

/// A whole skipped section: its list token, its rows, its end marker.
proof fn lemma_rt_skip_list<A>(
    s: Seq<u8>,
    i: int,
    rows: Seq<A>,
    f: spec_fn(A) -> Seq<Tok>,
    rest: Seq<u8>,
)
    requires
        forall|k: int| 0 <= k < rows.len() ==> row_shape(f(#[trigger] rows[k])),
        wf_toks(crate::store::list_section(crate::store::rows_toks(rows, f))),
        suffix_at(s, i, cat(crate::store::list_section(crate::store::rows_toks(rows, f))) + rest),
    ensures
        crate::decode::sp_skip_section(s, i) == Option::Some(
            i + cat(crate::store::list_section(crate::store::rows_toks(rows, f))).len(),
        ),
        suffix_at(
            s,
            i + cat(crate::store::list_section(crate::store::rows_toks(rows, f))).len(),
            rest,
        ),
{
    let rt = crate::store::rows_toks(rows, f);
    let sec = crate::store::list_section(rt);
    lemma_wf_toks_split(seq![Tok::List] + rt, seq![Tok::End]);
    lemma_wf_toks_split(seq![Tok::List], rt);
    lemma_lex_cat(s, i, sec, rest);
    let j = i + 1 + tok_bytes(sec[0]).len();
    assert(sec[0] == Tok::List);
    assert(sec.drop_first() =~= rt + seq![Tok::End]);
    lemma_cat_add(rt, seq![Tok::End]);
    assert((cat(rt) + cat(seq![Tok::End])) + rest =~= cat(rt) + (cat(seq![Tok::End]) + rest));
    lemma_skip_rows(s, j, rows, f, cat(seq![Tok::End]) + rest, 0);
    let j2 = j + cat(rt).len();
    lemma_lex_cat(s, j2, seq![Tok::End], rest);
    assert(seq![Tok::End].drop_first() =~= Seq::<Tok>::empty());
    assert(cat(Seq::<Tok>::empty()) + rest =~= rest);
    let j3 = j2 + 1 + tok_bytes(Tok::End).len();
    assert(skip_sp(s, j2, 0) == Option::Some(j3));
    assert(cat(sec).len() == 1 + tok_bytes(Tok::List).len() + (cat(rt).len() + cat(
        seq![Tok::End],
    ).len()));
    assert(cat(seq![Tok::End]) =~= seq![10u8] + tok_bytes(Tok::End));
    assert(j3 == i + cat(sec).len());
}

/// The rows of every skipped section have a shape that skipping can pass
/// over.
proof fn lemma_section_row_shapes()
    ensures
        forall|c: crate::store::Chat| row_shape(#[trigger] crate::store::chat_toks(c)),
        forall|k: crate::store::KeypairV| row_shape(#[trigger] crate::store::keypair_toks(k)),
        forall|m: crate::store::MessageV| row_shape(#[trigger] crate::store::message_toks(m)),
        forall|m: crate::store::Mdn| row_shape(#[trigger] crate::store::mdn_toks(m)),
        forall|g: Seq<u8>| row_shape(#[trigger] seq![Tok::Str(g)]),
{
    assert forall|c: crate::store::Chat| row_shape(#[trigger] crate::store::chat_toks(c)) by {
        let ts = crate::store::chat_toks(c);
        match c.typ {
            Option::Some(_) => {
                assert(ts.len() == 6);
                assert(ts.last() == Tok::End);
                assert(forall|j: int| 1 <= j < ts.len() - 1 ==> flat(#[trigger] ts[j]));
            },
            Option::None => {
                assert(ts.len() == 4);
                assert(ts.last() == Tok::End);
                assert(forall|j: int| 1 <= j < ts.len() - 1 ==> flat(#[trigger] ts[j]));
            },
        }
    }
    assert forall|k: crate::store::KeypairV| row_shape(
        #[trigger] crate::store::keypair_toks(k),
    ) by {
        let ts = crate::store::keypair_toks(k);
        assert(ts.len() == 14);
        assert(forall|j: int| 1 <= j < ts.len() - 1 ==> flat(#[trigger] ts[j]));
    }
    assert forall|m: crate::store::MessageV| row_shape(
        #[trigger] crate::store::message_toks(m),
    ) by {
        let ts = crate::store::message_toks(m);
        assert(ts[0] == Tok::Dict);
        assert(ts.last() == Tok::End);
        assert forall|j: int| 1 <= j < ts.len() - 1 implies flat(#[trigger] ts[j]) by {
            match m.mime_in_reply_to {
                Option::Some(_) => {},
                Option::None => {},
            }
        }
    }
    assert forall|m: crate::store::Mdn| row_shape(#[trigger] crate::store::mdn_toks(m)) by {
        let ts = crate::store::mdn_toks(m);
        assert(ts.len() == 8);
        assert(forall|j: int| 1 <= j < ts.len() - 1 ==> flat(#[trigger] ts[j]));
    }
}

/// Walks one key/value pair of byte strings off the front of the token
/// stream.
proof fn lemma_walk_pair_str(s: Seq<u8>, i: int, ts: Seq<Tok>, rest: Seq<u8>)
    requires
        wf_toks(ts),
        ts.len() >= 2,
        ts[0] is Str,
        ts[1] is Str,
        suffix_at(s, i, cat(ts) + rest),
    ensures
        crate::decode::sp_req_str(s, i, ts[0]->Str_0) == Option::Some(
            (ts[1]->Str_0, i + cat(ts.take(2)).len()),
        ),
        crate::decode::sp_opt_str(s, i, ts[0]->Str_0) == Option::Some(
            (Option::Some(ts[1]->Str_0), i + cat(ts.take(2)).len()),
        ),
        suffix_at(s, i + cat(ts.take(2)).len(), cat(ts.skip(2)) + rest),
        wf_toks(ts.skip(2)),
        i + cat(ts.take(2)).len() <= s.len(),
{
    lemma_lex_cat(s, i, ts, rest);
    let j1 = i + 1 + tok_bytes(ts[0]).len();
    assert(ts.drop_first()[0] == ts[1]);
    lemma_lex_cat(s, j1, ts.drop_first(), rest);
    let j2 = j1 + 1 + tok_bytes(ts[1]).len();
    assert(ts.drop_first().drop_first() =~= ts.skip(2));
    assert(cat(ts.take(2)) == seq![10u8] + tok_bytes(ts.take(2)[0]) + cat(
        ts.take(2).drop_first(),
    ));
    assert(ts.take(2)[0] == ts[0]);
    assert(ts.take(2).drop_first() =~= seq![ts[1]]);
    assert(cat(seq![ts[1]]) == seq![10u8] + tok_bytes(ts[1]) + cat(seq![ts[1]].drop_first()));
    assert(seq![ts[1]].drop_first() =~= Seq::<Tok>::empty());
    assert(cat(ts.take(2)).len() == 2 + tok_bytes(ts[0]).len() + tok_bytes(ts[1]).len());
    assert(j2 == i + cat(ts.take(2)).len());
    lemma_lex_advances(s, j1);
    assert forall|k: int| 0 <= k < ts.skip(2).len() implies wf_tok(#[trigger] ts.skip(2)[k]) by {
        assert(ts.skip(2)[k] == ts[k + 2]);
    }
}

/// Walks one key and integer value off the front of the token stream.
proof fn lemma_walk_pair_int(s: Seq<u8>, i: int, ts: Seq<Tok>, rest: Seq<u8>)
    requires
        wf_toks(ts),
        ts.len() >= 2,
        ts[0] is Str,
        ts[1] is Int,
        suffix_at(s, i, cat(ts) + rest),
    ensures
        crate::decode::sp_req_int(s, i, ts[0]->Str_0) == Option::Some(
            (ts[1]->Int_0, i + cat(ts.take(2)).len()),
        ),
        crate::decode::sp_opt_int(s, i, ts[0]->Str_0) == Option::Some(
            (Option::Some(ts[1]->Int_0), i + cat(ts.take(2)).len()),
        ),
        suffix_at(s, i + cat(ts.take(2)).len(), cat(ts.skip(2)) + rest),
        wf_toks(ts.skip(2)),
        i + cat(ts.take(2)).len() <= s.len(),
{
    lemma_lex_cat(s, i, ts, rest);
    let j1 = i + 1 + tok_bytes(ts[0]).len();
    assert(ts.drop_first()[0] == ts[1]);
    lemma_lex_cat(s, j1, ts.drop_first(), rest);
    let j2 = j1 + 1 + tok_bytes(ts[1]).len();
    assert(ts.drop_first().drop_first() =~= ts.skip(2));
    assert(cat(ts.take(2)) == seq![10u8] + tok_bytes(ts.take(2)[0]) + cat(
        ts.take(2).drop_first(),
    ));
    assert(ts.take(2)[0] == ts[0]);
    assert(ts.take(2).drop_first() =~= seq![ts[1]]);
    assert(cat(seq![ts[1]]) == seq![10u8] + tok_bytes(ts[1]) + cat(seq![ts[1]].drop_first()));
    assert(seq![ts[1]].drop_first() =~= Seq::<Tok>::empty());
    assert(cat(ts.take(2)).len() == 2 + tok_bytes(ts[0]).len() + tok_bytes(ts[1]).len());
    assert(j2 == i + cat(ts.take(2)).len());
    lemma_lex_advances(s, j1);
    assert forall|k: int| 0 <= k < ts.skip(2).len() implies wf_tok(#[trigger] ts.skip(2)[k]) by {
        assert(ts.skip(2)[k] == ts[k + 2]);
    }
}

/// Whether the version key occurs among the pairs.
pub open spec fn has_dbv(pairs: Seq<(Seq<u8>, Seq<u8>)>) -> bool {
    exists|i: int| 0 <= i < pairs.len() && (#[trigger] pairs[i]).0 == crate::keys::kb_dbversion()
}

/// Reading the encoded configuration pairs yields them back, with the
/// version flag reporting whether the version key was among them.
proof fn lemma_rt_config_items(
    s: Seq<u8>,
    i: int,
    pairs: Seq<(Seq<u8>, Seq<u8>)>,
    found: bool,
    rest: Seq<u8>,
)
    requires
        wf_toks(crate::store::config_pairs_toks(pairs) + seq![Tok::End]),
        suffix_at(s, i, cat(crate::store::config_pairs_toks(pairs) + seq![Tok::End]) + rest),
        forall|k: int|
            0 <= k < pairs.len() && (#[trigger] pairs[k]).0 == crate::keys::kb_dbversion()
                ==> pairs[k].1 == crate::keys::kb_v99(),
        found ==> !has_dbv(pairs),
        forall|k1: int, k2: int|
            0 <= k1 < k2 < pairs.len() ==> !((#[trigger] pairs[k1]).0
                == crate::keys::kb_dbversion() && (#[trigger] pairs[k2]).0
                == crate::keys::kb_dbversion()),
    ensures
        crate::decode::sp_config_items(s, i, found) == Option::Some(
            (
                pairs,
                i + cat(crate::store::config_pairs_toks(pairs) + seq![Tok::End]).len(),
                found || has_dbv(pairs),
            ),
        ),
        suffix_at(
            s,
            i + cat(crate::store::config_pairs_toks(pairs) + seq![Tok::End]).len(),
            rest,
        ),
    decreases pairs.len(),
{
    let ts = crate::store::config_pairs_toks(pairs) + seq![Tok::End];
    if pairs.len() == 0 {
        assert(crate::store::config_pairs_toks(pairs) == Seq::<Tok>::empty());
        assert(ts =~= seq![Tok::End]);
        lemma_lex_cat(s, i, seq![Tok::End], rest);
        let j = i + 1 + tok_bytes(Tok::End).len();
        assert(crate::decode::sp_config_items(s, i, found) == Option::Some(
            (Seq::<(Seq<u8>, Seq<u8>)>::empty(), j, found),
        ));
        assert(!has_dbv(pairs));
        assert(pairs =~= Seq::<(Seq<u8>, Seq<u8>)>::empty());
        assert(seq![Tok::End].drop_first() =~= Seq::<Tok>::empty());
        assert(cat(Seq::<Tok>::empty()) + rest =~= rest);
        assert(cat(ts).len() == 1 + tok_bytes(Tok::End).len());
    } else {
        let p = pairs[0];
        let tailp = pairs.drop_first();
        assert(crate::store::config_pairs_toks(pairs) == crate::store::pair_toks(p)
            + crate::store::config_pairs_toks(tailp));
        assert(ts =~= (seq![Tok::Str(p.0), Tok::Str(p.1)] + (crate::store::config_pairs_toks(
            tailp,
        ) + seq![Tok::End])));
        let ts2 = seq![Tok::Str(p.0), Tok::Str(p.1)] + (crate::store::config_pairs_toks(tailp)
            + seq![Tok::End]);
        assert(ts2[0] == Tok::Str(p.0));
        assert(ts2[1] == Tok::Str(p.1));
        lemma_walk_pair_str(s, i, ts2, rest);
        let j2 = i + cat(ts2.take(2)).len();
        assert(ts2.skip(2) =~= crate::store::config_pairs_toks(tailp) + seq![Tok::End]);
        assert forall|k: int|
            0 <= k < tailp.len() && (#[trigger] tailp[k]).0 == crate::keys::kb_dbversion()
                implies tailp[k].1 == crate::keys::kb_v99() by {
            assert(tailp[k] == pairs[k + 1]);
        }
        assert forall|k1: int, k2: int|
            0 <= k1 < k2 < tailp.len() implies !((#[trigger] tailp[k1]).0
                == crate::keys::kb_dbversion() && (#[trigger] tailp[k2]).0
                == crate::keys::kb_dbversion()) by {
            assert(tailp[k1] == pairs[k1 + 1]);
            assert(tailp[k2] == pairs[k2 + 1]);
        }
        let found2 = found || p.0 == crate::keys::kb_dbversion();
        if p.0 == crate::keys::kb_dbversion() {
            assert(pairs[0].0 == crate::keys::kb_dbversion());
            assert(has_dbv(pairs));
            assert(!found) by {
                if found {
                    assert(!has_dbv(pairs));
                }
            }
            assert(!has_dbv(tailp)) by {
                if has_dbv(tailp) {
                    let k = choose|k: int|
                        0 <= k < tailp.len() && (#[trigger] tailp[k]).0
                            == crate::keys::kb_dbversion();
                    assert(pairs[k + 1].0 == crate::keys::kb_dbversion());
                }
            }
            assert(p.1 == crate::keys::kb_v99());
        } else {
            assert(found2 ==> !has_dbv(tailp)) by {
                if found2 && has_dbv(tailp) {
                    let k = choose|k: int|
                        0 <= k < tailp.len() && (#[trigger] tailp[k]).0
                            == crate::keys::kb_dbversion();
                    assert(pairs[k + 1].0 == crate::keys::kb_dbversion());
                    assert(!has_dbv(pairs));
                }
            }
        }
        lemma_rt_config_items(s, j2, tailp, found2, rest);
        let lex1 = lex_at(s, i);
        assert(crate::decode::sp_config_items(s, i, found) == (match crate::decode::sp_config_items(
            s,
            j2,
            found2,
        ) {
            Option::Some((ps, j3, f3)) => Option::Some((seq![(p.0, p.1)] + ps, j3, f3)),
            Option::None => Option::<(Seq<(Seq<u8>, Seq<u8>)>, int, bool)>::None,
        }));
        assert(seq![(p.0, p.1)] + tailp =~= pairs);
        assert((found || has_dbv(pairs)) == (found2 || has_dbv(tailp))) by {
            if has_dbv(pairs) && p.0 != crate::keys::kb_dbversion() {
                let k = choose|k: int|
                    0 <= k < pairs.len() && (#[trigger] pairs[k]).0
                        == crate::keys::kb_dbversion();
                assert(tailp[k - 1].0 == crate::keys::kb_dbversion());
                assert(has_dbv(tailp));
            }
            if has_dbv(tailp) {
                let k = choose|k: int|
                    0 <= k < tailp.len() && (#[trigger] tailp[k]).0
                        == crate::keys::kb_dbversion();
                assert(pairs[k + 1].0 == crate::keys::kb_dbversion());
                assert(has_dbv(pairs));
            }
        }
        lemma_cat_add(ts2.take(2), ts2.skip(2));
        assert(ts2.take(2) + ts2.skip(2) =~= ts2);
        assert(cat(ts).len() == cat(ts2.take(2)).len() + cat(ts2.skip(2)).len());
    }
}

/// Reading an encoded `_config` section yields its pairs.
proof fn lemma_rt_config(s: Seq<u8>, i: int, pairs: Seq<(Seq<u8>, Seq<u8>)>, rest: Seq<u8>)
    requires
        wf_toks(crate::store::config_toks(pairs)),
        crate::store::config_ok(pairs),
        suffix_at(s, i, cat(crate::store::config_toks(pairs)) + rest),
    ensures
        crate::decode::sp_config(s, i) == Option::Some(
            (pairs, i + cat(crate::store::config_toks(pairs)).len()),
        ),
        suffix_at(s, i + cat(crate::store::config_toks(pairs)).len(), rest),
{
    let sec = crate::store::config_toks(pairs);
    lemma_lex_cat(s, i, sec, rest);
    let j = i + 1 + tok_bytes(sec[0]).len();
    assert(sec[0] == Tok::Dict);
    assert(sec.drop_first() =~= crate::store::config_pairs_toks(pairs) + seq![Tok::End]);
    lemma_lex_advances(s, i);
    lemma_rt_config_items(s, j, pairs, false, rest);
    assert(has_dbv(pairs));
    assert(cat(sec).len() == 1 + tok_bytes(Tok::Dict).len() + cat(sec.drop_first()).len());
}

/// Reading one encoded contact row, after its opening dictionary token,
/// yields the contact back.
proof fn lemma_rt_contact_row(s: Seq<u8>, i: int, c: crate::store::ContactV, rest: Seq<u8>)
    requires
        wf_toks(crate::store::contact_toks(c)),
        c.status != Option::Some(Seq::<u8>::empty()),
        suffix_at(s, i, cat(crate::store::contact_toks(c).drop_first()) + rest),
    ensures
        crate::decode::sp_contact_row(s, i) == Option::Some(
            (c, i + cat(crate::store::contact_toks(c).drop_first()).len()),
        ),
        suffix_at(s, i + cat(crate::store::contact_toks(c).drop_first()).len(), rest),
{
    let full = crate::store::contact_toks(c);
    let ts = full.drop_first();
    assert forall|k: int| 0 <= k < ts.len() implies wf_tok(#[trigger] ts[k]) by {
        assert(ts[k] == full[k + 1]);
    }
    let ca = seq![Tok::Str(crate::keys::kb_id()), Tok::Int(c.id as i64)];
    let cb = seq![Tok::Str(crate::keys::kb_name()), Tok::Str(c.name)];
    let cc = seq![Tok::Str(crate::keys::kb_addr()), Tok::Str(c.addr)];
    let co = (match c.origin {
        Option::Some(o) => seq![Tok::Str(crate::keys::kb_origin()), Tok::Int(o as i64)],
        Option::None => Seq::<Tok>::empty(),
    });
    let x4 = contact_tail_list(c);
    let x3 = co + x4;
    let x2 = cc + x3;
    let x1 = cb + x2;
    let x0 = ca + x1;
    assert(ts =~= x0);
    // id
    lemma_walk_pair_int(s, i, x0, rest);
    assert(x0.take(2) =~= ca);
    assert(x0.skip(2) =~= x1);
    let p1 = i + cat(x0.take(2)).len();
    // name
    lemma_walk_pair_str(s, p1, x1, rest);
    assert(x1.take(2) =~= cb);
    assert(x1.skip(2) =~= x2);
    let p2 = p1 + cat(x1.take(2)).len();
    // addr
    lemma_walk_pair_str(s, p2, x2, rest);
    assert(x2.take(2) =~= cc);
    assert(x2.skip(2) =~= x3);
    let p3 = p2 + cat(x2.take(2)).len();
    // origin, present or absent
    let p4: int = if c.origin is Some {
        lemma_walk_pair_int(s, p3, x3, rest);
        assert(x3.take(2) =~= co);
        assert(x3.skip(2) =~= x4);
        p3 + cat(x3.take(2)).len()
    } else {
        assert(x3 =~= x4);
        p3
    };
    assert(suffix_at(s, p4, cat(x4) + rest));
    assert(wf_toks(x4)) by {
        assert forall|k: int| 0 <= k < x4.len() implies wf_tok(#[trigger] x4[k]) by {
            if c.origin is Some {
                assert(x4[k] == x3.skip(2)[k]);
            } else {
                assert(x4[k] == x3[k]);
            }
        }
    }
    lemma_rt_contact_row_rest(s, i, c, p1, p2, p3, p4, rest);
    // the walked chunks add up to the whole row
    lemma_cat_add(x0.take(2), x1);
    lemma_cat_add(x1.take(2), x2);
    lemma_cat_add(x2.take(2), x3);
    if c.origin is Some {
        lemma_cat_add(x3.take(2), x4);
    }
    assert(cat(ts) == cat(x0));
    assert(p4 + cat(x4).len() == i + cat(ts).len());
}

/// The tokens of a contact row from its `blocked` field on.
spec fn contact_tail_list(c: crate::store::ContactV) -> Seq<Tok> {
    seq![
        Tok::Str(crate::keys::kb_blocked()),
        Tok::Int(if c.blocked { 1i64 } else { 0i64 }),
    ] + (seq![Tok::Str(crate::keys::kb_last_seen()), Tok::Int(c.last_seen)] + (seq![
        Tok::Str(crate::keys::kb_param()),
        Tok::Str(c.param),
    ] + (seq![Tok::Str(crate::keys::kb_authname()), Tok::Str(c.authname)] + (seq![
        Tok::Str(crate::keys::kb_selfavatar_sent()),
        Tok::Int(c.selfavatar_sent),
    ] + ((match c.status {
        Option::Some(st) => if st.len() > 0 {
            seq![Tok::Str(crate::keys::kb_status()), Tok::Str(st)]
        } else {
            Seq::<Tok>::empty()
        },
        Option::None => Seq::<Tok>::empty(),
    }) + seq![Tok::End])))))
}

/// Walks the rest of a contact row, from the `blocked` field on, and
/// assembles the decoded contact.
#[verifier::rlimit(100)]
proof fn lemma_rt_contact_row_rest(
    s: Seq<u8>,
    i: int,
    c: crate::store::ContactV,
    p1: int,
    p2: int,
    p3: int,
    p4: int,
    rest: Seq<u8>,
)
    requires
        c.status != Option::Some(Seq::<u8>::empty()),
        wf_toks(contact_tail_list(c)),
        suffix_at(s, p4, cat(contact_tail_list(c)) + rest),
        crate::decode::sp_req_int(s, i, crate::keys::kb_id()) == Option::Some(
            (c.id as i64, p1),
        ),
        crate::decode::sp_req_str(s, p1, crate::keys::kb_name()) == Option::Some((c.name, p2)),
        crate::decode::sp_req_str(s, p2, crate::keys::kb_addr()) == Option::Some((c.addr, p3)),
        (match c.origin {
            Option::Some(o) => crate::decode::sp_opt_int(s, p3, crate::keys::kb_origin())
                == Option::Some((Option::Some(o as i64), p4)),
            Option::None => p3 == p4,
        }),
    ensures
        crate::decode::sp_contact_row(s, i) == Option::Some((c, p4 + cat(contact_tail_list(c)).len())),
        suffix_at(s, p4 + cat(contact_tail_list(c)).len(), rest),
{
    let cd = seq![
        Tok::Str(crate::keys::kb_blocked()),
        Tok::Int(if c.blocked { 1i64 } else { 0i64 }),
    ];
    let ce = seq![Tok::Str(crate::keys::kb_last_seen()), Tok::Int(c.last_seen)];
    let cf = seq![Tok::Str(crate::keys::kb_param()), Tok::Str(c.param)];
    let cg = seq![Tok::Str(crate::keys::kb_authname()), Tok::Str(c.authname)];
    let ch = seq![Tok::Str(crate::keys::kb_selfavatar_sent()), Tok::Int(c.selfavatar_sent)];
    let cs = (match c.status {
        Option::Some(st) => if st.len() > 0 {
            seq![Tok::Str(crate::keys::kb_status()), Tok::Str(st)]
        } else {
            Seq::<Tok>::empty()
        },
        Option::None => Seq::<Tok>::empty(),
    });
    let cz = seq![Tok::End];
    let x9 = cs + cz;
    let x8 = ch + x9;
    let x7 = cg + x8;
    let x6 = cf + x7;
    let x5 = ce + x6;
    let x4 = cd + x5;
    assert(contact_tail_list(c) == x4);
    // blocked
    lemma_walk_pair_int(s, p4, x4, rest);
    assert(x4.take(2) =~= cd);
    assert(x4.skip(2) =~= x5);
    let p5 = p4 + cat(x4.take(2)).len();
    proof_origin_opt(s, p3, p4, c);
    // last_seen
    lemma_walk_pair_int(s, p5, x5, rest);
    assert(x5.take(2) =~= ce);
    assert(x5.skip(2) =~= x6);
    let p6 = p5 + cat(x5.take(2)).len();
    // param
    lemma_walk_pair_str(s, p6, x6, rest);
    assert(x6.take(2) =~= cf);
    assert(x6.skip(2) =~= x7);
    let p7 = p6 + cat(x6.take(2)).len();
    // authname
    lemma_walk_pair_str(s, p7, x7, rest);
    assert(x7.take(2) =~= cg);
    assert(x7.skip(2) =~= x8);
    let p8 = p7 + cat(x7.take(2)).len();
    // selfavatar_sent
    lemma_walk_pair_int(s, p8, x8, rest);
    assert(x8.take(2) =~= ch);
    assert(x8.skip(2) =~= x9);
    let p9 = p8 + cat(x8.take(2)).len();
    // status, present or absent
    let p10: int = if cs.len() > 0 {
        lemma_walk_pair_str(s, p9, x9, rest);
        assert(x9.take(2) =~= cs);
        assert(x9.skip(2) =~= cz);
        p9 + cat(x9.take(2)).len()
    } else {
        assert(x9 =~= cz);
        p9
    };
    assert(suffix_at(s, p10, cat(cz) + rest));
    // the closing end marker
    lemma_lex_cat(s, p10, cz, rest);
    let p11: int = p10 + 1 + tok_bytes(Tok::End).len();
    assert(cz.drop_first() =~= Seq::<Tok>::empty());
    assert(cat(Seq::<Tok>::empty()) + rest =~= rest);
    // the optional status peek
    if cs.len() > 0 {
        assert(crate::decode::sp_opt_str(s, p9, crate::keys::kb_status()) == Option::Some(
            (c.status, p10),
        )) by {
            assert(x9[0] == Tok::Str(crate::keys::kb_status()));
            match c.status {
                Option::Some(st) => {
                    assert(x9[1] == Tok::Str(st));
                },
                Option::None => {},
            }
        }
    } else {
        assert(crate::decode::sp_opt_str(s, p9, crate::keys::kb_status()) == Option::Some(
            (Option::<Seq<u8>>::None, p9),
        )) by {
            assert(lex_at(s, p9) == LexStep::Next(Tok::End, p11));
        }
        assert(c.status is None) by {
            match c.status {
                Option::Some(st) => {
                    assert(st.len() == 0);
                    assert(c.status == Option::Some(Seq::<u8>::empty()));
                },
                Option::None => {},
            }
        }
    }
    // positions add up to the whole tail
    lemma_cat_add(x4.take(2), x5);
    lemma_cat_add(x5.take(2), x6);
    lemma_cat_add(x6.take(2), x7);
    lemma_cat_add(x7.take(2), x8);
    lemma_cat_add(x8.take(2), x9);
    if cs.len() > 0 {
        lemma_cat_add(x9.take(2), cz);
    }
    assert(p11 == p4 + cat(x4).len()) by {
        assert(cat(cz).len() == 1 + tok_bytes(Tok::End).len());
    }
    lemma_assemble_contact_row(s, i, c, p1, p2, p3, p4, p5, p6, p7, p8, p9, p10, p11);
}

/// Plugging the field reads together gives back the whole contact.
proof fn lemma_assemble_contact_row(
    s: Seq<u8>,
    i: int,
    c: crate::store::ContactV,
    p1: int,
    p2: int,
    p3: int,
    p4: int,
    p5: int,
    p6: int,
    p7: int,
    p8: int,
    p9: int,
    p10: int,
    p11: int,
)
    requires
        crate::decode::sp_req_int(s, i, crate::keys::kb_id()) == Option::Some(
            (c.id as i64, p1),
        ),
        crate::decode::sp_req_str(s, p1, crate::keys::kb_name()) == Option::Some((c.name, p2)),
        crate::decode::sp_req_str(s, p2, crate::keys::kb_addr()) == Option::Some((c.addr, p3)),
        crate::decode::sp_opt_int(s, p3, crate::keys::kb_origin()) == Option::Some(
            (
                match c.origin {
                    Option::Some(o) => Option::Some(o as i64),
                    Option::None => Option::None,
                },
                p4,
            ),
        ),
        crate::decode::sp_req_int(s, p4, crate::keys::kb_blocked()) == Option::Some(
            (
                if c.blocked {
                    1i64
                } else {
                    0i64
                },
                p5,
            ),
        ),
        crate::decode::sp_req_int(s, p5, crate::keys::kb_last_seen()) == Option::Some(
            (c.last_seen, p6),
        ),
        crate::decode::sp_req_str(s, p6, crate::keys::kb_param()) == Option::Some((c.param, p7)),
        crate::decode::sp_req_str(s, p7, crate::keys::kb_authname()) == Option::Some(
            (c.authname, p8),
        ),
        crate::decode::sp_req_int(s, p8, crate::keys::kb_selfavatar_sent()) == Option::Some(
            (c.selfavatar_sent, p9),
        ),
        crate::decode::sp_opt_str(s, p9, crate::keys::kb_status()) == Option::Some(
            (c.status, p10),
        ),
        lex_at(s, p10) == LexStep::Next(Tok::End, p11),
    ensures
        crate::decode::sp_contact_row(s, i) == Option::Some((c, p11)),
{
    reveal(crate::decode::sp_contact_row);
    let r = crate::decode::sp_contact_row(s, i);
    match c.origin {
        Option::Some(o) => {
            assert(0 <= o as i64 <= u32::MAX);
            assert((o as i64) as u32 == o);
        },
        Option::None => {},
    }
    assert(r matches Option::Some(p) && p.1 == p11 && p.0 == c) by {
        assert(0 <= c.id as i64 <= u32::MAX);
        assert((c.id as i64) as u32 == c.id);
        assert(((if c.blocked {
            1i64
        } else {
            0i64
        }) != 0) == c.blocked);
    }
}

/// The origin field is read as the contact holds it, present or absent.
proof fn proof_origin_opt(s: Seq<u8>, p3: int, p4: int, c: crate::store::ContactV)
    requires
        ({
            match c.origin {
                Option::Some(o) => crate::decode::sp_opt_int(s, p3, crate::keys::kb_origin())
                    == Option::Some((Option::Some(o as i64), p4)),
                Option::None => p3 == p4 && (crate::decode::sp_req_int(
                    s,
                    p4,
                    crate::keys::kb_blocked(),
                ) matches Option::Some(_)),
            }
        }),
    ensures
        crate::decode::sp_opt_int(s, p3, crate::keys::kb_origin()) == Option::Some(
            (
                match c.origin {
                    Option::Some(o) => Option::Some(o as i64),
                    Option::None => Option::None,
                },
                p4,
            ),
        ),
{
    match c.origin {
        Option::Some(_) => {},
        Option::None => {
            assert(crate::keys::kb_blocked().len() == 7);
            assert(crate::keys::kb_origin().len() == 6);
            assert(lex_at(s, p3) matches LexStep::Next(Tok::Str(k), _) && k
                == crate::keys::kb_blocked());
        },
    }
}

/// Reading the encoded contact rows yields them back.
proof fn lemma_rt_contact_rows(s: Seq<u8>, i: int, cs: Seq<crate::store::ContactV>, rest: Seq<u8>)
    requires
        wf_toks(crate::store::contact_rows_toks(cs) + seq![Tok::End]),
        crate::store::contacts_ok(cs),
        suffix_at(s, i, cat(crate::store::contact_rows_toks(cs) + seq![Tok::End]) + rest),
    ensures
        crate::decode::sp_contact_rows(s, i) == Option::Some(
            (cs, i + cat(crate::store::contact_rows_toks(cs) + seq![Tok::End]).len()),
        ),
        suffix_at(s, i + cat(crate::store::contact_rows_toks(cs) + seq![Tok::End]).len(), rest),
    decreases cs.len(),
{
    let ts = crate::store::contact_rows_toks(cs) + seq![Tok::End];
    if cs.len() == 0 {
        assert(crate::store::contact_rows_toks(cs) == Seq::<Tok>::empty());
        assert(ts =~= seq![Tok::End]);
        lemma_lex_cat(s, i, seq![Tok::End], rest);
        assert(crate::decode::sp_contact_rows(s, i) == Option::Some(
            (Seq::<crate::store::ContactV>::empty(), i + 1 + tok_bytes(Tok::End).len()),
        ));
        assert(cs =~= Seq::<crate::store::ContactV>::empty());
        assert(seq![Tok::End].drop_first() =~= Seq::<Tok>::empty());
        assert(cat(Seq::<Tok>::empty()) + rest =~= rest);
        assert(cat(ts).len() == 1 + tok_bytes(Tok::End).len());
    } else {
        let c = cs[0];
        let row = crate::store::contact_toks(c);
        let tailr = crate::store::contact_rows_toks(cs.drop_first());
        assert(crate::store::contact_rows_toks(cs) == row + tailr);
        assert(ts =~= row + (tailr + seq![Tok::End]));
        let ts2 = row + (tailr + seq![Tok::End]);
        assert(ts2[0] == row[0]);
        assert(row[0] == Tok::Dict);
        assert forall|k: int| 0 <= k < ts2.len() implies wf_tok(#[trigger] ts2[k]) by {
            assert(ts2[k] == ts[k]);
        }
        lemma_lex_cat(s, i, ts2, rest);
        let j = i + 1 + tok_bytes(Tok::Dict).len();
        assert(ts2.drop_first() =~= row.drop_first() + (tailr + seq![Tok::End]));
        lemma_cat_add(row.drop_first(), tailr + seq![Tok::End]);
        assert((cat(row.drop_first()) + cat(tailr + seq![Tok::End])) + rest =~= cat(
            row.drop_first(),
        ) + (cat(tailr + seq![Tok::End]) + rest));
        assert(wf_toks(row)) by {
            assert forall|k: int| 0 <= k < row.len() implies wf_tok(#[trigger] row[k]) by {
                assert(ts2[k] == row[k]);
            }
        }
        assert(c.status != Option::Some(Seq::<u8>::empty()));
        lemma_rt_contact_row(s, j, c, cat(tailr + seq![Tok::End]) + rest);
        let j2 = j + cat(row.drop_first()).len();
        assert(wf_toks(tailr + seq![Tok::End])) by {
            assert forall|k: int| 0 <= k < (tailr + seq![Tok::End]).len() implies wf_tok(
                #[trigger] (tailr + seq![Tok::End])[k],
            ) by {
                assert((tailr + seq![Tok::End])[k] == ts2[row.len() + k]);
            }
        }
        assert forall|k: int| 0 <= k < cs.drop_first().len() implies (
        #[trigger] cs.drop_first()[k]).status != Option::Some(Seq::<u8>::empty()) by {
            assert(cs.drop_first()[k] == cs[k + 1]);
        }
        lemma_rt_contact_rows(s, j2, cs.drop_first(), rest);
        lemma_lex_advances(s, i);
        assert(seq![c] + cs.drop_first() =~= cs);
        assert(cat(ts).len() == 1 + tok_bytes(Tok::Dict).len() + cat(row.drop_first()).len()
            + cat(tailr + seq![Tok::End]).len()) by {
            assert(cat(ts2) == seq![10u8] + tok_bytes(Tok::Dict) + cat(ts2.drop_first()));
            assert(cat(ts2.drop_first()) == cat(row.drop_first()) + cat(tailr + seq![Tok::End]));
            assert(cat(ts) == cat(ts2));
        }
    }
}

/// Reading an encoded contacts section yields its rows.
proof fn lemma_rt_contacts_section(
    s: Seq<u8>,
    i: int,
    cs: Seq<crate::store::ContactV>,
    rest: Seq<u8>,
)
    requires
        wf_toks(crate::store::contacts_toks(cs)),
        crate::store::contacts_ok(cs),
        suffix_at(s, i, cat(crate::store::contacts_toks(cs)) + rest),
    ensures
        crate::decode::sp_contacts_section(s, i) == Option::Some(
            (cs, i + cat(crate::store::contacts_toks(cs)).len()),
        ),
        suffix_at(s, i + cat(crate::store::contacts_toks(cs)).len(), rest),
{
    let sec = crate::store::contacts_toks(cs);
    lemma_lex_cat(s, i, sec, rest);
    let j = i + 1 + tok_bytes(sec[0]).len();
    assert(sec[0] == Tok::List);
    assert(sec.drop_first() =~= crate::store::contact_rows_toks(cs) + seq![Tok::End]);
    lemma_lex_advances(s, i);
    assert(wf_toks(sec.drop_first())) by {
        assert forall|k: int| 0 <= k < sec.drop_first().len() implies wf_tok(
            #[trigger] sec.drop_first()[k],
        ) by {
            assert(sec.drop_first()[k] == sec[k + 1]);
        }
    }
    lemma_rt_contact_rows(s, j, cs, rest);
    assert(cat(sec).len() == 1 + tok_bytes(Tok::List).len() + cat(sec.drop_first()).len());
}

/// Reading an encoded empty peer-states section succeeds.
proof fn lemma_rt_acpeer_empty(s: Seq<u8>, i: int, rest: Seq<u8>)
    requires
        suffix_at(s, i, cat(crate::store::empty_section()) + rest),
    ensures
        crate::decode::sp_acpeer_section(s, i) == Option::Some(
            i + cat(crate::store::empty_section()).len(),
        ),
        suffix_at(s, i + cat(crate::store::empty_section()).len(), rest),
{
    let sec = crate::store::empty_section();
    assert(wf_toks(sec)) by {
        assert forall|k: int| 0 <= k < sec.len() implies wf_tok(#[trigger] sec[k]) by {}
    }
    lemma_lex_cat(s, i, sec, rest);
    let j = i + 1 + tok_bytes(Tok::List).len();
    assert(sec[0] == Tok::List);
    assert(sec.drop_first() =~= seq![Tok::End]);
    lemma_lex_cat(s, j, seq![Tok::End], rest);
    lemma_lex_advances(s, i);
    let j2 = j + 1 + tok_bytes(Tok::End).len();
    assert(seq![Tok::End].drop_first() =~= Seq::<Tok>::empty());
    assert(cat(Seq::<Tok>::empty()) + rest =~= rest);
    assert(cat(sec) == seq![10u8] + tok_bytes(Tok::List) + cat(seq![Tok::End]));
    assert(cat(seq![Tok::End]) == seq![10u8] + tok_bytes(Tok::End) + cat(Seq::<Tok>::empty()));
}

/// A configuration whose first version entry carries the wrong value is
/// rejected while its pairs are read.
proof fn lemma_rt_config_items_bad(
    s: Seq<u8>,
    i: int,
    pairs: Seq<(Seq<u8>, Seq<u8>)>,
    b: int,
    rest: Seq<u8>,
)
    requires
        wf_toks(crate::store::config_pairs_toks(pairs) + seq![Tok::End]),
        suffix_at(s, i, cat(crate::store::config_pairs_toks(pairs) + seq![Tok::End]) + rest),
        0 <= b < pairs.len(),
        pairs[b].0 == crate::keys::kb_dbversion(),
        pairs[b].1 != crate::keys::kb_v99(),
        forall|k: int| 0 <= k < b ==> (#[trigger] pairs[k]).0 != crate::keys::kb_dbversion(),
    ensures
        crate::decode::sp_config_items(s, i, false) is None,
    decreases b,
{
    let p = pairs[0];
    let tailp = pairs.drop_first();
    assert(crate::store::config_pairs_toks(pairs) == crate::store::pair_toks(p)
        + crate::store::config_pairs_toks(tailp));
    let ts2 = seq![Tok::Str(p.0), Tok::Str(p.1)] + (crate::store::config_pairs_toks(tailp)
        + seq![Tok::End]);
    assert(crate::store::config_pairs_toks(pairs) + seq![Tok::End] =~= ts2);
    assert(ts2[0] == Tok::Str(p.0));
    assert(ts2[1] == Tok::Str(p.1));
    lemma_walk_pair_str(s, i, ts2, rest);
    let j2 = i + cat(ts2.take(2)).len();
    assert(ts2.skip(2) =~= crate::store::config_pairs_toks(tailp) + seq![Tok::End]);
    if b == 0 {
        assert(p.0 == crate::keys::kb_dbversion());
        assert(p.1 != crate::keys::kb_v99());
    } else {
        assert(p.0 != crate::keys::kb_dbversion());
        assert(tailp[b - 1] == pairs[b]);
        assert forall|k: int| 0 <= k < b - 1 implies (#[trigger] tailp[k]).0
            != crate::keys::kb_dbversion() by {
            assert(tailp[k] == pairs[k + 1]);
        }
        lemma_rt_config_items_bad(s, j2, tailp, b - 1, rest);
    }
}

/// A `_config` section whose version entry carries the wrong value is
/// rejected.
proof fn lemma_rt_config_bad(
    s: Seq<u8>,
    i: int,
    pairs: Seq<(Seq<u8>, Seq<u8>)>,
    b: int,
    rest: Seq<u8>,
)
    requires
        wf_toks(crate::store::config_toks(pairs)),
        suffix_at(s, i, cat(crate::store::config_toks(pairs)) + rest),
        0 <= b < pairs.len(),
        pairs[b].0 == crate::keys::kb_dbversion(),
        pairs[b].1 != crate::keys::kb_v99(),
        forall|k: int| 0 <= k < b ==> (#[trigger] pairs[k]).0 != crate::keys::kb_dbversion(),
    ensures
        crate::decode::sp_config(s, i) is None,
{
    let sec = crate::store::config_toks(pairs);
    lemma_lex_cat(s, i, sec, rest);
    let j = i + 1 + tok_bytes(sec[0]).len();
    assert(sec[0] == Tok::Dict);
    assert(sec.drop_first() =~= crate::store::config_pairs_toks(pairs) + seq![Tok::End]);
    lemma_lex_advances(s, i);
    assert(wf_toks(sec.drop_first())) by {
        assert forall|k: int| 0 <= k < sec.drop_first().len() implies wf_tok(
            #[trigger] sec.drop_first()[k],
        ) by {
            assert(sec.drop_first()[k] == sec[k + 1]);
        }
    }
    lemma_rt_config_items_bad(s, j, pairs, b, rest);
}


/// The token chunks of the sections from `messages` on, grouped to the
/// right.
spec fn tail_rest_toks(msgs: Seq<crate::store::MessageV>) -> Seq<Tok> {
    let c26 = seq![Tok::Str(crate::keys::kb_messages())];
    let c27 = crate::store::list_section(crate::store::message_rows_toks(msgs));
    let c28 = seq![Tok::Str(crate::keys::kb_msgs_status_updates())];
    let c29 = crate::store::empty_section();
    let c30 = seq![Tok::Str(crate::keys::kb_multi_device_sync())];
    let c31 = crate::store::empty_section();
    let c32 = seq![Tok::Str(crate::keys::kb_reactions())];
    let c33 = crate::store::empty_section();
    let c34 = seq![Tok::Str(crate::keys::kb_sending_domains())];
    let c35 = crate::store::empty_section();
    let c36 = seq![Tok::Str(crate::keys::kb_tokens())];
    let c37 = crate::store::empty_section();
    let c38 = seq![Tok::End];
    c26 + (c27 + (c28 + (c29 + (c30 + (c31 + (c32 + (c33 + (c34 + (c35 + (c36 + (c37 + (c38))))))))))))
}

/// The token chunks of every section after `contacts`, grouped to the
/// right.
spec fn tail_sections_toks(
    lgs: Seq<Seq<u8>>,
    kps: Seq<crate::store::KeypairV>,
    msgs: Seq<crate::store::MessageV>,
    mdns: Seq<crate::store::Mdn>,
) -> Seq<Tok> {
    let c12 = seq![Tok::Str(crate::keys::kb_dns_cache())];
    let c13 = crate::store::empty_section();
    let c14 = seq![Tok::Str(crate::keys::kb_imap())];
    let c15 = crate::store::empty_section();
    let c16 = seq![Tok::Str(crate::keys::kb_imap_sync())];
    let c17 = crate::store::empty_section();
    let c18 = seq![Tok::Str(crate::keys::kb_keypairs())];
    let c19 = crate::store::list_section(crate::store::keypair_rows_toks(kps));
    let c20 = seq![Tok::Str(crate::keys::kb_leftgroups())];
    let c21 = crate::store::list_section(crate::store::leftgroups_rows_toks(lgs));
    let c22 = seq![Tok::Str(crate::keys::kb_locations())];
    let c23 = crate::store::empty_section();
    let c24 = seq![Tok::Str(crate::keys::kb_mdns())];
    let c25 = crate::store::list_section(crate::store::mdn_rows_toks(mdns));
    c12 + (c13 + (c14 + (c15 + (c16 + (c17 + (c18 + (c19 + (c20 + (c21 + (c22 + (c23 + (c24 + (c25 + (tail_rest_toks(msgs)))))))))))))))
}

/// The whole snapshot token sequence, grouped to the right.
spec fn store_toks_r(
    cfg: Seq<(Seq<u8>, Seq<u8>)>,
    cs: Seq<crate::store::ContactV>,
    chats: Seq<crate::store::Chat>,
    lgs: Seq<Seq<u8>>,
    kps: Seq<crate::store::KeypairV>,
    msgs: Seq<crate::store::MessageV>,
    mdns: Seq<crate::store::Mdn>,
) -> Seq<Tok> {
    let c01 = seq![Tok::Dict];
    let c02 = seq![Tok::Str(crate::keys::kb_top_config())];
    let c03 = crate::store::config_toks(cfg);
    let c04 = seq![Tok::Str(crate::keys::kb_acpeerstates())];
    let c05 = crate::store::empty_section();
    let c06 = seq![Tok::Str(crate::keys::kb_chats())];
    let c07 = crate::store::list_section(crate::store::chat_rows_toks(chats));
    let c08 = seq![Tok::Str(crate::keys::kb_chats_contacts())];
    let c09 = crate::store::empty_section();
    let c10 = seq![Tok::Str(crate::keys::kb_contacts())];
    let c11 = crate::store::contacts_toks(cs);
    c01 + (c02 + (c03 + (c04 + (c05 + (c06 + (c07 + (c08 + (c09 + (c10 + (c11 + (tail_sections_toks(lgs, kps, msgs, mdns))))))))))))
}

/// The first twenty-five section chunks, grouped to the left.
spec fn left25(
    cfg: Seq<(Seq<u8>, Seq<u8>)>,
    cs: Seq<crate::store::ContactV>,
    chats: Seq<crate::store::Chat>,
    lgs: Seq<Seq<u8>>,
    kps: Seq<crate::store::KeypairV>,
    msgs: Seq<crate::store::MessageV>,
    mdns: Seq<crate::store::Mdn>,
) -> Seq<Tok> {
    let c01 = seq![Tok::Dict];
    let c02 = seq![Tok::Str(crate::keys::kb_top_config())];
    let c03 = crate::store::config_toks(cfg);
    let c04 = seq![Tok::Str(crate::keys::kb_acpeerstates())];
    let c05 = crate::store::empty_section();
    let c06 = seq![Tok::Str(crate::keys::kb_chats())];
    let c07 = crate::store::list_section(crate::store::chat_rows_toks(chats));
    let c08 = seq![Tok::Str(crate::keys::kb_chats_contacts())];
    let c09 = crate::store::empty_section();
    let c10 = seq![Tok::Str(crate::keys::kb_contacts())];
    let c11 = crate::store::contacts_toks(cs);
    let c12 = seq![Tok::Str(crate::keys::kb_dns_cache())];
    let c13 = crate::store::empty_section();
    let c14 = seq![Tok::Str(crate::keys::kb_imap())];
    let c15 = crate::store::empty_section();
    let c16 = seq![Tok::Str(crate::keys::kb_imap_sync())];
    let c17 = crate::store::empty_section();
    let c18 = seq![Tok::Str(crate::keys::kb_keypairs())];
    let c19 = crate::store::list_section(crate::store::keypair_rows_toks(kps));
    let c20 = seq![Tok::Str(crate::keys::kb_leftgroups())];
    let c21 = crate::store::list_section(crate::store::leftgroups_rows_toks(lgs));
    let c22 = seq![Tok::Str(crate::keys::kb_locations())];
    let c23 = crate::store::empty_section();
    let c24 = seq![Tok::Str(crate::keys::kb_mdns())];
    let c25 = crate::store::list_section(crate::store::mdn_rows_toks(mdns));
    ((((((((((((((((((((((((c01 + c02) + c03) + c04) + c05) + c06) + c07) + c08) + c09) + c10) + c11) + c12) + c13) + c14) + c15) + c16) + c17) + c18) + c19) + c20) + c21) + c22) + c23) + c24) + c25)
}

/// The chunks up to and including the contacts section, grouped to the
/// left.
spec fn left11(
    cfg: Seq<(Seq<u8>, Seq<u8>)>,
    cs: Seq<crate::store::ContactV>,
    chats: Seq<crate::store::Chat>,
) -> Seq<Tok> {
    let c01 = seq![Tok::Dict];
    let c02 = seq![Tok::Str(crate::keys::kb_top_config())];
    let c03 = crate::store::config_toks(cfg);
    let c04 = seq![Tok::Str(crate::keys::kb_acpeerstates())];
    let c05 = crate::store::empty_section();
    let c06 = seq![Tok::Str(crate::keys::kb_chats())];
    let c07 = crate::store::list_section(crate::store::chat_rows_toks(chats));
    let c08 = seq![Tok::Str(crate::keys::kb_chats_contacts())];
    let c09 = crate::store::empty_section();
    let c10 = seq![Tok::Str(crate::keys::kb_contacts())];
    let c11 = crate::store::contacts_toks(cs);
    ((((((((((c01 + c02) + c03) + c04) + c05) + c06) + c07) + c08) + c09) + c10) + c11)
}

/// Peeling the sections from `messages` on off the right of the snapshot.
#[verifier::rlimit(100)]
proof fn lemma_assoc_a(
    cfg: Seq<(Seq<u8>, Seq<u8>)>,
    cs: Seq<crate::store::ContactV>,
    chats: Seq<crate::store::Chat>,
    lgs: Seq<Seq<u8>>,
    kps: Seq<crate::store::KeypairV>,
    msgs: Seq<crate::store::MessageV>,
    mdns: Seq<crate::store::Mdn>,
)
    ensures
        crate::store::store_toks(cfg, cs, chats, lgs, kps, msgs, mdns) == left25(
            cfg, cs, chats, lgs, kps, msgs, mdns,
        ) + tail_rest_toks(msgs),
{
    let c01 = seq![Tok::Dict];
    let c02 = seq![Tok::Str(crate::keys::kb_top_config())];
    let c03 = crate::store::config_toks(cfg);
    let c04 = seq![Tok::Str(crate::keys::kb_acpeerstates())];
    let c05 = crate::store::empty_section();
    let c06 = seq![Tok::Str(crate::keys::kb_chats())];
    let c07 = crate::store::list_section(crate::store::chat_rows_toks(chats));
    let c08 = seq![Tok::Str(crate::keys::kb_chats_contacts())];
    let c09 = crate::store::empty_section();
    let c10 = seq![Tok::Str(crate::keys::kb_contacts())];
    let c11 = crate::store::contacts_toks(cs);
    let c12 = seq![Tok::Str(crate::keys::kb_dns_cache())];
    let c13 = crate::store::empty_section();
    let c14 = seq![Tok::Str(crate::keys::kb_imap())];
    let c15 = crate::store::empty_section();
    let c16 = seq![Tok::Str(crate::keys::kb_imap_sync())];
    let c17 = crate::store::empty_section();
    let c18 = seq![Tok::Str(crate::keys::kb_keypairs())];
    let c19 = crate::store::list_section(crate::store::keypair_rows_toks(kps));
    let c20 = seq![Tok::Str(crate::keys::kb_leftgroups())];
    let c21 = crate::store::list_section(crate::store::leftgroups_rows_toks(lgs));
    let c22 = seq![Tok::Str(crate::keys::kb_locations())];
    let c23 = crate::store::empty_section();
    let c24 = seq![Tok::Str(crate::keys::kb_mdns())];
    let c25 = crate::store::list_section(crate::store::mdn_rows_toks(mdns));
    let c26 = seq![Tok::Str(crate::keys::kb_messages())];
    let c27 = crate::store::list_section(crate::store::message_rows_toks(msgs));
    let c28 = seq![Tok::Str(crate::keys::kb_msgs_status_updates())];
    let c29 = crate::store::empty_section();
    let c30 = seq![Tok::Str(crate::keys::kb_multi_device_sync())];
    let c31 = crate::store::empty_section();
    let c32 = seq![Tok::Str(crate::keys::kb_reactions())];
    let c33 = crate::store::empty_section();
    let c34 = seq![Tok::Str(crate::keys::kb_sending_domains())];
    let c35 = crate::store::empty_section();
    let c36 = seq![Tok::Str(crate::keys::kb_tokens())];
    let c37 = crate::store::empty_section();
    let c38 = seq![Tok::End];
    let l01 = c01;
    let l02 = l01 + c02;
    let l03 = l02 + c03;
    let l04 = l03 + c04;
    let l05 = l04 + c05;
    let l06 = l05 + c06;
    let l07 = l06 + c07;
    let l08 = l07 + c08;
    let l09 = l08 + c09;
    let l10 = l09 + c10;
    let l11 = l10 + c11;
    let l12 = l11 + c12;
    let l13 = l12 + c13;
    let l14 = l13 + c14;
    let l15 = l14 + c15;
    let l16 = l15 + c16;
    let l17 = l16 + c17;
    let l18 = l17 + c18;
    let l19 = l18 + c19;
    let l20 = l19 + c20;
    let l21 = l20 + c21;
    let l22 = l21 + c22;
    let l23 = l22 + c23;
    let l24 = l23 + c24;
    let l25 = l24 + c25;
    let l26 = l25 + c26;
    let l27 = l26 + c27;
    let l28 = l27 + c28;
    let l29 = l28 + c29;
    let l30 = l29 + c30;
    let l31 = l30 + c31;
    let l32 = l31 + c32;
    let l33 = l32 + c33;
    let l34 = l33 + c34;
    let l35 = l34 + c35;
    let l36 = l35 + c36;
    let l37 = l36 + c37;
    let l38 = l37 + c38;
    let q38 = c38;
    let q37 = c37 + q38;
    let q36 = c36 + q37;
    let q35 = c35 + q36;
    let q34 = c34 + q35;
    let q33 = c33 + q34;
    let q32 = c32 + q33;
    let q31 = c31 + q32;
    let q30 = c30 + q31;
    let q29 = c29 + q30;
    let q28 = c28 + q29;
    let q27 = c27 + q28;
    let q26 = c26 + q27;
    assert(crate::store::store_toks(cfg, cs, chats, lgs, kps, msgs, mdns) == l38);
    assert(l37 + q38 =~= l38);
    assert(l36 + q37 =~= l37 + q38);
    assert(l35 + q36 =~= l36 + q37);
    assert(l34 + q35 =~= l35 + q36);
    assert(l33 + q34 =~= l34 + q35);
    assert(l32 + q33 =~= l33 + q34);
    assert(l31 + q32 =~= l32 + q33);
    assert(l30 + q31 =~= l31 + q32);
    assert(l29 + q30 =~= l30 + q31);
    assert(l28 + q29 =~= l29 + q30);
    assert(l27 + q28 =~= l28 + q29);
    assert(l26 + q27 =~= l27 + q28);
    assert(left25(cfg, cs, chats, lgs, kps, msgs, mdns) == l25);
    assert(tail_rest_toks(msgs) == q26);
}

/// Peeling the skipped middle sections off the right.
#[verifier::rlimit(100)]
proof fn lemma_assoc_b(
    cfg: Seq<(Seq<u8>, Seq<u8>)>,
    cs: Seq<crate::store::ContactV>,
    chats: Seq<crate::store::Chat>,
    lgs: Seq<Seq<u8>>,
    kps: Seq<crate::store::KeypairV>,
    msgs: Seq<crate::store::MessageV>,
    mdns: Seq<crate::store::Mdn>,
)
    ensures
        left25(cfg, cs, chats, lgs, kps, msgs, mdns) + tail_rest_toks(msgs) == left11(
            cfg, cs, chats,
        ) + tail_sections_toks(lgs, kps, msgs, mdns),
{
    let c01 = seq![Tok::Dict];
    let c02 = seq![Tok::Str(crate::keys::kb_top_config())];
    let c03 = crate::store::config_toks(cfg);
    let c04 = seq![Tok::Str(crate::keys::kb_acpeerstates())];
    let c05 = crate::store::empty_section();
    let c06 = seq![Tok::Str(crate::keys::kb_chats())];
    let c07 = crate::store::list_section(crate::store::chat_rows_toks(chats));
    let c08 = seq![Tok::Str(crate::keys::kb_chats_contacts())];
    let c09 = crate::store::empty_section();
    let c10 = seq![Tok::Str(crate::keys::kb_contacts())];
    let c11 = crate::store::contacts_toks(cs);
    let c12 = seq![Tok::Str(crate::keys::kb_dns_cache())];
    let c13 = crate::store::empty_section();
    let c14 = seq![Tok::Str(crate::keys::kb_imap())];
    let c15 = crate::store::empty_section();
    let c16 = seq![Tok::Str(crate::keys::kb_imap_sync())];
    let c17 = crate::store::empty_section();
    let c18 = seq![Tok::Str(crate::keys::kb_keypairs())];
    let c19 = crate::store::list_section(crate::store::keypair_rows_toks(kps));
    let c20 = seq![Tok::Str(crate::keys::kb_leftgroups())];
    let c21 = crate::store::list_section(crate::store::leftgroups_rows_toks(lgs));
    let c22 = seq![Tok::Str(crate::keys::kb_locations())];
    let c23 = crate::store::empty_section();
    let c24 = seq![Tok::Str(crate::keys::kb_mdns())];
    let c25 = crate::store::list_section(crate::store::mdn_rows_toks(mdns));
    let l01 = c01;
    let l02 = l01 + c02;
    let l03 = l02 + c03;
    let l04 = l03 + c04;
    let l05 = l04 + c05;
    let l06 = l05 + c06;
    let l07 = l06 + c07;
    let l08 = l07 + c08;
    let l09 = l08 + c09;
    let l10 = l09 + c10;
    let l11 = l10 + c11;
    let l12 = l11 + c12;
    let l13 = l12 + c13;
    let l14 = l13 + c14;
    let l15 = l14 + c15;
    let l16 = l15 + c16;
    let l17 = l16 + c17;
    let l18 = l17 + c18;
    let l19 = l18 + c19;
    let l20 = l19 + c20;
    let l21 = l20 + c21;
    let l22 = l21 + c22;
    let l23 = l22 + c23;
    let l24 = l23 + c24;
    let l25 = l24 + c25;
    let q26 = tail_rest_toks(msgs);
    let q25 = c25 + q26;
    let q24 = c24 + q25;
    let q23 = c23 + q24;
    let q22 = c22 + q23;
    let q21 = c21 + q22;
    let q20 = c20 + q21;
    let q19 = c19 + q20;
    let q18 = c18 + q19;
    let q17 = c17 + q18;
    let q16 = c16 + q17;
    let q15 = c15 + q16;
    let q14 = c14 + q15;
    let q13 = c13 + q14;
    let q12 = c12 + q13;
    assert(left25(cfg, cs, chats, lgs, kps, msgs, mdns) == l25);
    assert(l24 + q25 =~= l25 + q26);
    assert(l23 + q24 =~= l24 + q25);
    assert(l22 + q23 =~= l23 + q24);
    assert(l21 + q22 =~= l22 + q23);
    assert(l20 + q21 =~= l21 + q22);
    assert(l19 + q20 =~= l20 + q21);
    assert(l18 + q19 =~= l19 + q20);
    assert(l17 + q18 =~= l18 + q19);
    assert(l16 + q17 =~= l17 + q18);
    assert(l15 + q16 =~= l16 + q17);
    assert(l14 + q15 =~= l15 + q16);
    assert(l13 + q14 =~= l14 + q15);
    assert(l12 + q13 =~= l13 + q14);
    assert(l11 + q12 =~= l12 + q13);
    assert(left11(cfg, cs, chats) == l11);
    assert(tail_sections_toks(lgs, kps, msgs, mdns) == q12);
}

/// Peeling the leading sections: the whole snapshot grouped to the right.
#[verifier::rlimit(100)]
proof fn lemma_assoc_c(
    cfg: Seq<(Seq<u8>, Seq<u8>)>,
    cs: Seq<crate::store::ContactV>,
    chats: Seq<crate::store::Chat>,
    lgs: Seq<Seq<u8>>,
    kps: Seq<crate::store::KeypairV>,
    msgs: Seq<crate::store::MessageV>,
    mdns: Seq<crate::store::Mdn>,
)
    ensures
        left11(cfg, cs, chats) + tail_sections_toks(lgs, kps, msgs, mdns) == store_toks_r(
            cfg, cs, chats, lgs, kps, msgs, mdns,
        ),
{
    let c01 = seq![Tok::Dict];
    let c02 = seq![Tok::Str(crate::keys::kb_top_config())];
    let c03 = crate::store::config_toks(cfg);
    let c04 = seq![Tok::Str(crate::keys::kb_acpeerstates())];
    let c05 = crate::store::empty_section();
    let c06 = seq![Tok::Str(crate::keys::kb_chats())];
    let c07 = crate::store::list_section(crate::store::chat_rows_toks(chats));
    let c08 = seq![Tok::Str(crate::keys::kb_chats_contacts())];
    let c09 = crate::store::empty_section();
    let c10 = seq![Tok::Str(crate::keys::kb_contacts())];
    let c11 = crate::store::contacts_toks(cs);
    let l01 = c01;
    let l02 = l01 + c02;
    let l03 = l02 + c03;
    let l04 = l03 + c04;
    let l05 = l04 + c05;
    let l06 = l05 + c06;
    let l07 = l06 + c07;
    let l08 = l07 + c08;
    let l09 = l08 + c09;
    let l10 = l09 + c10;
    let l11 = l10 + c11;
    let q12 = tail_sections_toks(lgs, kps, msgs, mdns);
    let q11 = c11 + q12;
    let q10 = c10 + q11;
    let q09 = c09 + q10;
    let q08 = c08 + q09;
    let q07 = c07 + q08;
    let q06 = c06 + q07;
    let q05 = c05 + q06;
    let q04 = c04 + q05;
    let q03 = c03 + q04;
    let q02 = c02 + q03;
    let q01 = c01 + q02;
    assert(left11(cfg, cs, chats) == l11);
    assert(l10 + q11 =~= l11 + q12);
    assert(l09 + q10 =~= l10 + q11);
    assert(l08 + q09 =~= l09 + q10);
    assert(l07 + q08 =~= l08 + q09);
    assert(l06 + q07 =~= l07 + q08);
    assert(l05 + q06 =~= l06 + q07);
    assert(l04 + q05 =~= l05 + q06);
    assert(l03 + q04 =~= l04 + q05);
    assert(l02 + q03 =~= l03 + q04);
    assert(l01 + q02 =~= l02 + q03);
    assert(q01 =~= l01 + q02);
    assert(store_toks_r(cfg, cs, chats, lgs, kps, msgs, mdns) == q01);
}

/// The two groupings of the snapshot tokens are the same sequence.
proof fn lemma_store_toks_assoc(
    cfg: Seq<(Seq<u8>, Seq<u8>)>,
    cs: Seq<crate::store::ContactV>,
    chats: Seq<crate::store::Chat>,
    lgs: Seq<Seq<u8>>,
    kps: Seq<crate::store::KeypairV>,
    msgs: Seq<crate::store::MessageV>,
    mdns: Seq<crate::store::Mdn>,
)
    ensures
        crate::store::store_toks(cfg, cs, chats, lgs, kps, msgs, mdns) == store_toks_r(
            cfg, cs, chats, lgs, kps, msgs, mdns,
        ),
{
    lemma_assoc_a(cfg, cs, chats, lgs, kps, msgs, mdns);
    lemma_assoc_b(cfg, cs, chats, lgs, kps, msgs, mdns);
    lemma_assoc_c(cfg, cs, chats, lgs, kps, msgs, mdns);
}

/// Reading the encoded sections from `messages` on succeeds.
#[verifier::rlimit(100)]
proof fn lemma_rt_tail_rest(s: Seq<u8>, i: int, msgs: Seq<crate::store::MessageV>)
    requires
        wf_toks(tail_rest_toks(msgs)),
        suffix_at(s, i, cat(tail_rest_toks(msgs))),
    ensures
        crate::decode::sp_tail_rest(s, i) is Some,
{
    let c26 = seq![Tok::Str(crate::keys::kb_messages())];
    let c27 = crate::store::list_section(crate::store::message_rows_toks(msgs));
    let c28 = seq![Tok::Str(crate::keys::kb_msgs_status_updates())];
    let c29 = crate::store::empty_section();
    let c30 = seq![Tok::Str(crate::keys::kb_multi_device_sync())];
    let c31 = crate::store::empty_section();
    let c32 = seq![Tok::Str(crate::keys::kb_reactions())];
    let c33 = crate::store::empty_section();
    let c34 = seq![Tok::Str(crate::keys::kb_sending_domains())];
    let c35 = crate::store::empty_section();
    let c36 = seq![Tok::Str(crate::keys::kb_tokens())];
    let c37 = crate::store::empty_section();
    let c38 = seq![Tok::End];
    let q38 = c38;
    let q37 = c37 + q38;
    let q36 = c36 + q37;
    let q35 = c35 + q36;
    let q34 = c34 + q35;
    let q33 = c33 + q34;
    let q32 = c32 + q33;
    let q31 = c31 + q32;
    let q30 = c30 + q31;
    let q29 = c29 + q30;
    let q28 = c28 + q29;
    let q27 = c27 + q28;
    let q26 = c26 + q27;
    lemma_wf_toks_split(c26, q27);
    lemma_wf_toks_split(c27, q28);
    lemma_wf_toks_split(c28, q29);
    lemma_wf_toks_split(c29, q30);
    lemma_wf_toks_split(c30, q31);
    lemma_wf_toks_split(c31, q32);
    lemma_wf_toks_split(c32, q33);
    lemma_wf_toks_split(c33, q34);
    lemma_wf_toks_split(c34, q35);
    lemma_wf_toks_split(c35, q36);
    lemma_wf_toks_split(c36, q37);
    lemma_wf_toks_split(c37, q38);
    assert(tail_rest_toks(msgs) == q26);
    // chunk c26
    lemma_cat_add(c26, q27);
    assert(suffix_at(s, i, cat(c26) + cat(q27)));
    lemma_lex_cat(s, i, c26, cat(q27));
    let p26: int = i + 1 + tok_bytes(c26[0]).len() as int;
    assert(c26.drop_first() =~= Seq::<Tok>::empty());
    assert(cat(Seq::<Tok>::empty()) + cat(q27) =~= cat(q27));
    assert(suffix_at(s, p26, cat(q27)));
    // chunk c27
    lemma_cat_add(c27, q28);
    assert(suffix_at(s, p26, cat(c27) + cat(q28)));
    lemma_section_row_shapes();
    lemma_rt_skip_list(s, p26, msgs, |x: crate::store::MessageV| crate::store::message_toks(x), cat(q28));
    let p27: int = p26 + cat(c27).len() as int;
    // chunk c28
    lemma_cat_add(c28, q29);
    assert(suffix_at(s, p27, cat(c28) + cat(q29)));
    lemma_lex_cat(s, p27, c28, cat(q29));
    let p28: int = p27 + 1 + tok_bytes(c28[0]).len() as int;
    assert(c28.drop_first() =~= Seq::<Tok>::empty());
    assert(cat(Seq::<Tok>::empty()) + cat(q29) =~= cat(q29));
    assert(suffix_at(s, p28, cat(q29)));
    // chunk c29
    lemma_cat_add(c29, q30);
    assert(suffix_at(s, p28, cat(c29) + cat(q30)));
    assert(c29 =~= crate::store::list_section(crate::store::rows_toks(Seq::<crate::store::Chat>::empty(), |x: crate::store::Chat| crate::store::chat_toks(x))));
    lemma_rt_skip_list(s, p28, Seq::<crate::store::Chat>::empty(), |x: crate::store::Chat| crate::store::chat_toks(x), cat(q30));
    let p29: int = p28 + cat(c29).len() as int;
    // chunk c30
    lemma_cat_add(c30, q31);
    assert(suffix_at(s, p29, cat(c30) + cat(q31)));
    lemma_lex_cat(s, p29, c30, cat(q31));
    let p30: int = p29 + 1 + tok_bytes(c30[0]).len() as int;
    assert(c30.drop_first() =~= Seq::<Tok>::empty());
    assert(cat(Seq::<Tok>::empty()) + cat(q31) =~= cat(q31));
    assert(suffix_at(s, p30, cat(q31)));
    // chunk c31
    lemma_cat_add(c31, q32);
    assert(suffix_at(s, p30, cat(c31) + cat(q32)));
    assert(c31 =~= crate::store::list_section(crate::store::rows_toks(Seq::<crate::store::Chat>::empty(), |x: crate::store::Chat| crate::store::chat_toks(x))));
    lemma_rt_skip_list(s, p30, Seq::<crate::store::Chat>::empty(), |x: crate::store::Chat| crate::store::chat_toks(x), cat(q32));
    let p31: int = p30 + cat(c31).len() as int;
    // chunk c32
    lemma_cat_add(c32, q33);
    assert(suffix_at(s, p31, cat(c32) + cat(q33)));
    lemma_lex_cat(s, p31, c32, cat(q33));
    let p32: int = p31 + 1 + tok_bytes(c32[0]).len() as int;
    assert(c32.drop_first() =~= Seq::<Tok>::empty());
    assert(cat(Seq::<Tok>::empty()) + cat(q33) =~= cat(q33));
    assert(suffix_at(s, p32, cat(q33)));
    // chunk c33
    lemma_cat_add(c33, q34);
    assert(suffix_at(s, p32, cat(c33) + cat(q34)));
    assert(c33 =~= crate::store::list_section(crate::store::rows_toks(Seq::<crate::store::Chat>::empty(), |x: crate::store::Chat| crate::store::chat_toks(x))));
    lemma_rt_skip_list(s, p32, Seq::<crate::store::Chat>::empty(), |x: crate::store::Chat| crate::store::chat_toks(x), cat(q34));
    let p33: int = p32 + cat(c33).len() as int;
    // chunk c34
    lemma_cat_add(c34, q35);
    assert(suffix_at(s, p33, cat(c34) + cat(q35)));
    lemma_lex_cat(s, p33, c34, cat(q35));
    let p34: int = p33 + 1 + tok_bytes(c34[0]).len() as int;
    assert(c34.drop_first() =~= Seq::<Tok>::empty());
    assert(cat(Seq::<Tok>::empty()) + cat(q35) =~= cat(q35));
    assert(suffix_at(s, p34, cat(q35)));
    // chunk c35
    lemma_cat_add(c35, q36);
    assert(suffix_at(s, p34, cat(c35) + cat(q36)));
    assert(c35 =~= crate::store::list_section(crate::store::rows_toks(Seq::<crate::store::Chat>::empty(), |x: crate::store::Chat| crate::store::chat_toks(x))));
    lemma_rt_skip_list(s, p34, Seq::<crate::store::Chat>::empty(), |x: crate::store::Chat| crate::store::chat_toks(x), cat(q36));
    let p35: int = p34 + cat(c35).len() as int;
    // chunk c36
    lemma_cat_add(c36, q37);
    assert(suffix_at(s, p35, cat(c36) + cat(q37)));
    lemma_lex_cat(s, p35, c36, cat(q37));
    let p36: int = p35 + 1 + tok_bytes(c36[0]).len() as int;
    assert(c36.drop_first() =~= Seq::<Tok>::empty());
    assert(cat(Seq::<Tok>::empty()) + cat(q37) =~= cat(q37));
    assert(suffix_at(s, p36, cat(q37)));
    // chunk c37
    lemma_cat_add(c37, q38);
    assert(suffix_at(s, p36, cat(c37) + cat(q38)));
    assert(c37 =~= crate::store::list_section(crate::store::rows_toks(Seq::<crate::store::Chat>::empty(), |x: crate::store::Chat| crate::store::chat_toks(x))));
    lemma_rt_skip_list(s, p36, Seq::<crate::store::Chat>::empty(), |x: crate::store::Chat| crate::store::chat_toks(x), cat(q38));
    let p37: int = p36 + cat(c37).len() as int;
    // chunk c38
    assert(cat(c38) + Seq::<u8>::empty() =~= cat(q38));
    assert(suffix_at(s, p37, cat(c38) + Seq::<u8>::empty()));
    lemma_lex_cat(s, p37, c38, Seq::<u8>::empty());
    let p38: int = p37 + 1 + tok_bytes(c38[0]).len() as int;
    assert(c38.drop_first() =~= Seq::<Tok>::empty());
    assert(cat(Seq::<Tok>::empty()) + Seq::<u8>::empty() =~= Seq::<u8>::empty());
    assert(suffix_at(s, p38, Seq::<u8>::empty()));
}

/// Reading every encoded section after `contacts` succeeds.
#[verifier::rlimit(100)]
proof fn lemma_rt_tail_sections(
    s: Seq<u8>,
    i: int,
    lgs: Seq<Seq<u8>>,
    kps: Seq<crate::store::KeypairV>,
    msgs: Seq<crate::store::MessageV>,
    mdns: Seq<crate::store::Mdn>,
)
    requires
        wf_toks(tail_sections_toks(lgs, kps, msgs, mdns)),
        suffix_at(s, i, cat(tail_sections_toks(lgs, kps, msgs, mdns))),
    ensures
        crate::decode::sp_tail_sections(s, i) is Some,
{
    let c12 = seq![Tok::Str(crate::keys::kb_dns_cache())];
    let c13 = crate::store::empty_section();
    let c14 = seq![Tok::Str(crate::keys::kb_imap())];
    let c15 = crate::store::empty_section();
    let c16 = seq![Tok::Str(crate::keys::kb_imap_sync())];
    let c17 = crate::store::empty_section();
    let c18 = seq![Tok::Str(crate::keys::kb_keypairs())];
    let c19 = crate::store::list_section(crate::store::keypair_rows_toks(kps));
    let c20 = seq![Tok::Str(crate::keys::kb_leftgroups())];
    let c21 = crate::store::list_section(crate::store::leftgroups_rows_toks(lgs));
    let c22 = seq![Tok::Str(crate::keys::kb_locations())];
    let c23 = crate::store::empty_section();
    let c24 = seq![Tok::Str(crate::keys::kb_mdns())];
    let c25 = crate::store::list_section(crate::store::mdn_rows_toks(mdns));
    let q26 = tail_rest_toks(msgs);
    let q25 = c25 + q26;
    let q24 = c24 + q25;
    let q23 = c23 + q24;
    let q22 = c22 + q23;
    let q21 = c21 + q22;
    let q20 = c20 + q21;
    let q19 = c19 + q20;
    let q18 = c18 + q19;
    let q17 = c17 + q18;
    let q16 = c16 + q17;
    let q15 = c15 + q16;
    let q14 = c14 + q15;
    let q13 = c13 + q14;
    let q12 = c12 + q13;
    lemma_wf_toks_split(c12, q13);
    lemma_wf_toks_split(c13, q14);
    lemma_wf_toks_split(c14, q15);
    lemma_wf_toks_split(c15, q16);
    lemma_wf_toks_split(c16, q17);
    lemma_wf_toks_split(c17, q18);
    lemma_wf_toks_split(c18, q19);
    lemma_wf_toks_split(c19, q20);
    lemma_wf_toks_split(c20, q21);
    lemma_wf_toks_split(c21, q22);
    lemma_wf_toks_split(c22, q23);
    lemma_wf_toks_split(c23, q24);
    lemma_wf_toks_split(c24, q25);
    lemma_wf_toks_split(c25, q26);
    assert(tail_sections_toks(lgs, kps, msgs, mdns) == q12);
    // chunk c12
    lemma_cat_add(c12, q13);
    assert(suffix_at(s, i, cat(c12) + cat(q13)));
    lemma_lex_cat(s, i, c12, cat(q13));
    let p12: int = i + 1 + tok_bytes(c12[0]).len() as int;
    assert(c12.drop_first() =~= Seq::<Tok>::empty());
    assert(cat(Seq::<Tok>::empty()) + cat(q13) =~= cat(q13));
    assert(suffix_at(s, p12, cat(q13)));
    // chunk c13
    lemma_cat_add(c13, q14);
    assert(suffix_at(s, p12, cat(c13) + cat(q14)));
    assert(c13 =~= crate::store::list_section(crate::store::rows_toks(Seq::<crate::store::Chat>::empty(), |x: crate::store::Chat| crate::store::chat_toks(x))));
    lemma_rt_skip_list(s, p12, Seq::<crate::store::Chat>::empty(), |x: crate::store::Chat| crate::store::chat_toks(x), cat(q14));
    let p13: int = p12 + cat(c13).len() as int;
    // chunk c14
    lemma_cat_add(c14, q15);
    assert(suffix_at(s, p13, cat(c14) + cat(q15)));
    lemma_lex_cat(s, p13, c14, cat(q15));
    let p14: int = p13 + 1 + tok_bytes(c14[0]).len() as int;
    assert(c14.drop_first() =~= Seq::<Tok>::empty());
    assert(cat(Seq::<Tok>::empty()) + cat(q15) =~= cat(q15));
    assert(suffix_at(s, p14, cat(q15)));
    // chunk c15
    lemma_cat_add(c15, q16);
    assert(suffix_at(s, p14, cat(c15) + cat(q16)));
    assert(c15 =~= crate::store::list_section(crate::store::rows_toks(Seq::<crate::store::Chat>::empty(), |x: crate::store::Chat| crate::store::chat_toks(x))));
    lemma_rt_skip_list(s, p14, Seq::<crate::store::Chat>::empty(), |x: crate::store::Chat| crate::store::chat_toks(x), cat(q16));
    let p15: int = p14 + cat(c15).len() as int;
    // chunk c16
    lemma_cat_add(c16, q17);
    assert(suffix_at(s, p15, cat(c16) + cat(q17)));
    lemma_lex_cat(s, p15, c16, cat(q17));
    let p16: int = p15 + 1 + tok_bytes(c16[0]).len() as int;
    assert(c16.drop_first() =~= Seq::<Tok>::empty());
    assert(cat(Seq::<Tok>::empty()) + cat(q17) =~= cat(q17));
    assert(suffix_at(s, p16, cat(q17)));
    // chunk c17
    lemma_cat_add(c17, q18);
    assert(suffix_at(s, p16, cat(c17) + cat(q18)));
    assert(c17 =~= crate::store::list_section(crate::store::rows_toks(Seq::<crate::store::Chat>::empty(), |x: crate::store::Chat| crate::store::chat_toks(x))));
    lemma_rt_skip_list(s, p16, Seq::<crate::store::Chat>::empty(), |x: crate::store::Chat| crate::store::chat_toks(x), cat(q18));
    let p17: int = p16 + cat(c17).len() as int;
    // chunk c18
    lemma_cat_add(c18, q19);
    assert(suffix_at(s, p17, cat(c18) + cat(q19)));
    lemma_lex_cat(s, p17, c18, cat(q19));
    let p18: int = p17 + 1 + tok_bytes(c18[0]).len() as int;
    assert(c18.drop_first() =~= Seq::<Tok>::empty());
    assert(cat(Seq::<Tok>::empty()) + cat(q19) =~= cat(q19));
    assert(suffix_at(s, p18, cat(q19)));
    // chunk c19
    lemma_cat_add(c19, q20);
    assert(suffix_at(s, p18, cat(c19) + cat(q20)));
    lemma_section_row_shapes();
    lemma_rt_skip_list(s, p18, kps, |x: crate::store::KeypairV| crate::store::keypair_toks(x), cat(q20));
    let p19: int = p18 + cat(c19).len() as int;
    // chunk c20
    lemma_cat_add(c20, q21);
    assert(suffix_at(s, p19, cat(c20) + cat(q21)));
    lemma_lex_cat(s, p19, c20, cat(q21));
    let p20: int = p19 + 1 + tok_bytes(c20[0]).len() as int;
    assert(c20.drop_first() =~= Seq::<Tok>::empty());
    assert(cat(Seq::<Tok>::empty()) + cat(q21) =~= cat(q21));
    assert(suffix_at(s, p20, cat(q21)));
    // chunk c21
    lemma_cat_add(c21, q22);
    assert(suffix_at(s, p20, cat(c21) + cat(q22)));
    lemma_section_row_shapes();
    lemma_rt_skip_list(s, p20, lgs, |x: Seq<u8>| seq![Tok::Str(x)], cat(q22));
    let p21: int = p20 + cat(c21).len() as int;
    // chunk c22
    lemma_cat_add(c22, q23);
    assert(suffix_at(s, p21, cat(c22) + cat(q23)));
    lemma_lex_cat(s, p21, c22, cat(q23));
    let p22: int = p21 + 1 + tok_bytes(c22[0]).len() as int;
    assert(c22.drop_first() =~= Seq::<Tok>::empty());
    assert(cat(Seq::<Tok>::empty()) + cat(q23) =~= cat(q23));
    assert(suffix_at(s, p22, cat(q23)));
    // chunk c23
    lemma_cat_add(c23, q24);
    assert(suffix_at(s, p22, cat(c23) + cat(q24)));
    assert(c23 =~= crate::store::list_section(crate::store::rows_toks(Seq::<crate::store::Chat>::empty(), |x: crate::store::Chat| crate::store::chat_toks(x))));
    lemma_rt_skip_list(s, p22, Seq::<crate::store::Chat>::empty(), |x: crate::store::Chat| crate::store::chat_toks(x), cat(q24));
    let p23: int = p22 + cat(c23).len() as int;
    // chunk c24
    lemma_cat_add(c24, q25);
    assert(suffix_at(s, p23, cat(c24) + cat(q25)));
    lemma_lex_cat(s, p23, c24, cat(q25));
    let p24: int = p23 + 1 + tok_bytes(c24[0]).len() as int;
    assert(c24.drop_first() =~= Seq::<Tok>::empty());
    assert(cat(Seq::<Tok>::empty()) + cat(q25) =~= cat(q25));
    assert(suffix_at(s, p24, cat(q25)));
    // chunk c25
    lemma_cat_add(c25, q26);
    assert(suffix_at(s, p24, cat(c25) + cat(q26)));
    lemma_section_row_shapes();
    lemma_rt_skip_list(s, p24, mdns, |x: crate::store::Mdn| crate::store::mdn_toks(x), cat(q26));
    let p25: int = p24 + cat(c25).len() as int;
    assert(suffix_at(s, p25, cat(q26)));
    lemma_rt_tail_rest(s, p25, msgs);
}

/// The token chunks from the chats section on, grouped to the right.
spec fn from_chats_toks(
    cs: Seq<crate::store::ContactV>,
    chats: Seq<crate::store::Chat>,
    lgs: Seq<Seq<u8>>,
    kps: Seq<crate::store::KeypairV>,
    msgs: Seq<crate::store::MessageV>,
    mdns: Seq<crate::store::Mdn>,
) -> Seq<Tok> {
    let c06 = seq![Tok::Str(crate::keys::kb_chats())];
    let c07 = crate::store::list_section(crate::store::chat_rows_toks(chats));
    let c08 = seq![Tok::Str(crate::keys::kb_chats_contacts())];
    let c09 = crate::store::empty_section();
    let c10 = seq![Tok::Str(crate::keys::kb_contacts())];
    let c11 = crate::store::contacts_toks(cs);
    c06 + (c07 + (c08 + (c09 + (c10 + (c11 + tail_sections_toks(lgs, kps, msgs, mdns))))))
}

/// Walks the sections from chats on and assembles the decoded snapshot.
#[verifier::rlimit(100)]
proof fn lemma_rt_snapshot_from_chats(
    s: Seq<u8>,
    cfg: Seq<(Seq<u8>, Seq<u8>)>,
    cs: Seq<crate::store::ContactV>,
    chats: Seq<crate::store::Chat>,
    lgs: Seq<Seq<u8>>,
    kps: Seq<crate::store::KeypairV>,
    msgs: Seq<crate::store::MessageV>,
    mdns: Seq<crate::store::Mdn>,
    p01: int,
    p02: int,
    p03: int,
    p04: int,
    p05: int,
)
    requires
        wf_toks(from_chats_toks(cs, chats, lgs, kps, msgs, mdns)),
        suffix_at(s, p05, cat(from_chats_toks(cs, chats, lgs, kps, msgs, mdns))),
        crate::store::contacts_ok(cs),
        lex_at(s, 0) == LexStep::Next(Tok::Dict, p01),
        crate::decode::sp_key(s, p01, crate::keys::kb_top_config()) == Option::Some(p02),
        crate::decode::sp_config(s, p02) == Option::Some((cfg, p03)),
        crate::decode::sp_key(s, p03, crate::keys::kb_acpeerstates()) == Option::Some(p04),
        crate::decode::sp_acpeer_section(s, p04) == Option::Some(p05),
    ensures
        crate::decode::sp_snapshot(s) == Option::Some((cfg, cs)),
{
    let c06 = seq![Tok::Str(crate::keys::kb_chats())];
    let c07 = crate::store::list_section(crate::store::chat_rows_toks(chats));
    let c08 = seq![Tok::Str(crate::keys::kb_chats_contacts())];
    let c09 = crate::store::empty_section();
    let c10 = seq![Tok::Str(crate::keys::kb_contacts())];
    let c11 = crate::store::contacts_toks(cs);
    let q12 = tail_sections_toks(lgs, kps, msgs, mdns);
    let q11 = c11 + q12;
    let q10 = c10 + q11;
    let q09 = c09 + q10;
    let q08 = c08 + q09;
    let q07 = c07 + q08;
    let q06 = c06 + q07;
    assert(from_chats_toks(cs, chats, lgs, kps, msgs, mdns) == q06);
    lemma_wf_toks_split(c06, q07);
    lemma_wf_toks_split(c07, q08);
    lemma_wf_toks_split(c08, q09);
    lemma_wf_toks_split(c09, q10);
    lemma_wf_toks_split(c10, q11);
    lemma_wf_toks_split(c11, q12);
    // chunk c06
    lemma_cat_add(c06, q07);
    assert(suffix_at(s, p05, cat(c06) + cat(q07)));
    lemma_lex_cat(s, p05, c06, cat(q07));
    let p06: int = p05 + 1 + tok_bytes(c06[0]).len() as int;
    assert(c06.drop_first() =~= Seq::<Tok>::empty());
    assert(cat(Seq::<Tok>::empty()) + cat(q07) =~= cat(q07));
    assert(suffix_at(s, p06, cat(q07)));
    // chunk c07
    lemma_cat_add(c07, q08);
    assert(suffix_at(s, p06, cat(c07) + cat(q08)));
    lemma_section_row_shapes();
    lemma_rt_skip_list(s, p06, chats, |x: crate::store::Chat| crate::store::chat_toks(x), cat(q08));
    let p07: int = p06 + cat(c07).len() as int;
    // chunk c08
    lemma_cat_add(c08, q09);
    assert(suffix_at(s, p07, cat(c08) + cat(q09)));
    lemma_lex_cat(s, p07, c08, cat(q09));
    let p08: int = p07 + 1 + tok_bytes(c08[0]).len() as int;
    assert(c08.drop_first() =~= Seq::<Tok>::empty());
    assert(cat(Seq::<Tok>::empty()) + cat(q09) =~= cat(q09));
    assert(suffix_at(s, p08, cat(q09)));
    // chunk c09
    lemma_cat_add(c09, q10);
    assert(suffix_at(s, p08, cat(c09) + cat(q10)));
    assert(c09 =~= crate::store::list_section(crate::store::rows_toks(Seq::<crate::store::Chat>::empty(), |x: crate::store::Chat| crate::store::chat_toks(x))));
    lemma_rt_skip_list(s, p08, Seq::<crate::store::Chat>::empty(), |x: crate::store::Chat| crate::store::chat_toks(x), cat(q10));
    let p09: int = p08 + cat(c09).len() as int;
    // chunk c10
    lemma_cat_add(c10, q11);
    assert(suffix_at(s, p09, cat(c10) + cat(q11)));
    lemma_lex_cat(s, p09, c10, cat(q11));
    let p10: int = p09 + 1 + tok_bytes(c10[0]).len() as int;
    assert(c10.drop_first() =~= Seq::<Tok>::empty());
    assert(cat(Seq::<Tok>::empty()) + cat(q11) =~= cat(q11));
    assert(suffix_at(s, p10, cat(q11)));
    // chunk c11
    lemma_cat_add(c11, q12);
    assert(suffix_at(s, p10, cat(c11) + cat(q12)));
    lemma_rt_contacts_section(s, p10, cs, cat(q12));
    let p11: int = p10 + cat(c11).len() as int;
    assert(suffix_at(s, p11, cat(q12)));
    lemma_rt_tail_sections(s, p11, lgs, kps, msgs, mdns);
    lemma_assemble_snapshot(s, cfg, cs, p01, p02, p03, p04, p05, p06, p07, p08, p09, p10, p11);
}

/// Decoding the encoding of a store gives back its configuration and its
/// contacts: the round trip of the snapshot codec on the sections it reads
/// in full.  The well-formedness clause only says that every byte string
/// fits the platform, which holds of anything a vector can hold.
#[verifier::rlimit(100)]
pub proof fn lemma_snapshot_round_trip(
    cfg: Seq<(Seq<u8>, Seq<u8>)>,
    cs: Seq<crate::store::ContactV>,
    chats: Seq<crate::store::Chat>,
    lgs: Seq<Seq<u8>>,
    kps: Seq<crate::store::KeypairV>,
    msgs: Seq<crate::store::MessageV>,
    mdns: Seq<crate::store::Mdn>,
    s: Seq<u8>,
)
    requires
        s == cat(crate::store::store_toks(cfg, cs, chats, lgs, kps, msgs, mdns)),
        wf_toks(crate::store::store_toks(cfg, cs, chats, lgs, kps, msgs, mdns)),
        crate::store::config_ok(cfg),
        crate::store::contacts_ok(cs),
    ensures
        crate::decode::sp_snapshot(s) == Option::Some((cfg, cs)),
{
    lemma_store_toks_assoc(cfg, cs, chats, lgs, kps, msgs, mdns);
    let c01 = seq![Tok::Dict];
    let c02 = seq![Tok::Str(crate::keys::kb_top_config())];
    let c03 = crate::store::config_toks(cfg);
    let c04 = seq![Tok::Str(crate::keys::kb_acpeerstates())];
    let c05 = crate::store::empty_section();
    let q06 = from_chats_toks(cs, chats, lgs, kps, msgs, mdns);
    let q05 = c05 + q06;
    let q04 = c04 + q05;
    let q03 = c03 + q04;
    let q02 = c02 + q03;
    let q01 = c01 + q02;
    assert(store_toks_r(cfg, cs, chats, lgs, kps, msgs, mdns) == q01);
    lemma_wf_toks_split(c01, q02);
    lemma_wf_toks_split(c02, q03);
    lemma_wf_toks_split(c03, q04);
    lemma_wf_toks_split(c04, q05);
    lemma_wf_toks_split(c05, q06);
    assert(suffix_at(s, 0, cat(q01))) by {
        assert(s.subrange(0, cat(q01).len() as int) =~= s);
    }
    // chunk c01
    lemma_cat_add(c01, q02);
    assert(suffix_at(s, 0, cat(c01) + cat(q02)));
    lemma_lex_cat(s, 0, c01, cat(q02));
    let p01: int = 0 + 1 + tok_bytes(c01[0]).len() as int;
    assert(c01.drop_first() =~= Seq::<Tok>::empty());
    assert(cat(Seq::<Tok>::empty()) + cat(q02) =~= cat(q02));
    assert(suffix_at(s, p01, cat(q02)));
    // chunk c02
    lemma_cat_add(c02, q03);
    assert(suffix_at(s, p01, cat(c02) + cat(q03)));
    lemma_lex_cat(s, p01, c02, cat(q03));
    let p02: int = p01 + 1 + tok_bytes(c02[0]).len() as int;
    assert(c02.drop_first() =~= Seq::<Tok>::empty());
    assert(cat(Seq::<Tok>::empty()) + cat(q03) =~= cat(q03));
    assert(suffix_at(s, p02, cat(q03)));
    // chunk c03
    lemma_cat_add(c03, q04);
    assert(suffix_at(s, p02, cat(c03) + cat(q04)));
    lemma_rt_config(s, p02, cfg, cat(q04));
    let p03: int = p02 + cat(c03).len() as int;
    // chunk c04
    lemma_cat_add(c04, q05);
    assert(suffix_at(s, p03, cat(c04) + cat(q05)));
    lemma_lex_cat(s, p03, c04, cat(q05));
    let p04: int = p03 + 1 + tok_bytes(c04[0]).len() as int;
    assert(c04.drop_first() =~= Seq::<Tok>::empty());
    assert(cat(Seq::<Tok>::empty()) + cat(q05) =~= cat(q05));
    assert(suffix_at(s, p04, cat(q05)));
    // chunk c05
    lemma_cat_add(c05, q06);
    assert(suffix_at(s, p04, cat(c05) + cat(q06)));
    lemma_rt_acpeer_empty(s, p04, cat(q06));
    let p05: int = p04 + cat(c05).len() as int;
    assert(suffix_at(s, p05, cat(q06)));
    lemma_rt_snapshot_from_chats(s, cfg, cs, chats, lgs, kps, msgs, mdns, p01, p02, p03, p04, p05);
}

/// Plugging the section reads together decodes the whole snapshot.
proof fn lemma_assemble_snapshot(
    s: Seq<u8>,
    cfg: Seq<(Seq<u8>, Seq<u8>)>,
    cs: Seq<crate::store::ContactV>,
    p01: int,
    p02: int,
    p03: int,
    p04: int,
    p05: int,
    p06: int,
    p07: int,
    p08: int,
    p09: int,
    p10: int,
    p11: int,
)
    requires
        lex_at(s, 0) == LexStep::Next(Tok::Dict, p01),
        crate::decode::sp_key(s, p01, crate::keys::kb_top_config()) == Option::Some(p02),
        crate::decode::sp_config(s, p02) == Option::Some((cfg, p03)),
        crate::decode::sp_key(s, p03, crate::keys::kb_acpeerstates()) == Option::Some(p04),
        crate::decode::sp_acpeer_section(s, p04) == Option::Some(p05),
        crate::decode::sp_key(s, p05, crate::keys::kb_chats()) == Option::Some(p06),
        crate::decode::sp_skip_section(s, p06) == Option::Some(p07),
        crate::decode::sp_key(s, p07, crate::keys::kb_chats_contacts()) == Option::Some(p08),
        crate::decode::sp_skip_section(s, p08) == Option::Some(p09),
        crate::decode::sp_key(s, p09, crate::keys::kb_contacts()) == Option::Some(p10),
        crate::decode::sp_contacts_section(s, p10) == Option::Some((cs, p11)),
        crate::decode::sp_tail_sections(s, p11) is Some,
    ensures
        crate::decode::sp_snapshot(s) == Option::Some((cfg, cs)),
{
}

/// A snapshot carrying an unsupported database version is rejected: when
/// the version entry of the encoded configuration holds anything but the
/// supported value, decoding fails, and the caller's store is left as it
/// was.
#[verifier::rlimit(100)]
pub proof fn lemma_snapshot_bad_version_rejected(
    cfg: Seq<(Seq<u8>, Seq<u8>)>,
    cs: Seq<crate::store::ContactV>,
    chats: Seq<crate::store::Chat>,
    lgs: Seq<Seq<u8>>,
    kps: Seq<crate::store::KeypairV>,
    msgs: Seq<crate::store::MessageV>,
    mdns: Seq<crate::store::Mdn>,
    s: Seq<u8>,
    b: int,
)
    requires
        s == cat(crate::store::store_toks(cfg, cs, chats, lgs, kps, msgs, mdns)),
        wf_toks(crate::store::store_toks(cfg, cs, chats, lgs, kps, msgs, mdns)),
        0 <= b < cfg.len(),
        cfg[b].0 == crate::keys::kb_dbversion(),
        cfg[b].1 != crate::keys::kb_v99(),
        forall|k: int| 0 <= k < b ==> (#[trigger] cfg[k]).0 != crate::keys::kb_dbversion(),
    ensures
        crate::decode::sp_snapshot(s) is None,
{
    lemma_store_toks_assoc(cfg, cs, chats, lgs, kps, msgs, mdns);
    let c01 = seq![Tok::Dict];
    let c02 = seq![Tok::Str(crate::keys::kb_top_config())];
    let c03 = crate::store::config_toks(cfg);
    let c04 = seq![Tok::Str(crate::keys::kb_acpeerstates())];
    let c05 = crate::store::empty_section();
    let q06 = from_chats_toks(cs, chats, lgs, kps, msgs, mdns);
    let q05 = c05 + q06;
    let q04 = c04 + q05;
    let q03 = c03 + q04;
    let q02 = c02 + q03;
    let q01 = c01 + q02;
    assert(store_toks_r(cfg, cs, chats, lgs, kps, msgs, mdns) == q01);
    lemma_wf_toks_split(c01, q02);
    lemma_wf_toks_split(c02, q03);
    lemma_wf_toks_split(c03, q04);
    assert(suffix_at(s, 0, cat(q01))) by {
        assert(s.subrange(0, cat(q01).len() as int) =~= s);
    }
    // the top-level dictionary
    lemma_cat_add(c01, q02);
    assert(suffix_at(s, 0, cat(c01) + cat(q02)));
    lemma_lex_cat(s, 0, c01, cat(q02));
    let p01: int = 0 + 1 + tok_bytes(c01[0]).len() as int;
    assert(c01.drop_first() =~= Seq::<Tok>::empty());
    assert(cat(Seq::<Tok>::empty()) + cat(q02) =~= cat(q02));
    assert(suffix_at(s, p01, cat(q02)));
    // the configuration key
    lemma_cat_add(c02, q03);
    assert(suffix_at(s, p01, cat(c02) + cat(q03)));
    lemma_lex_cat(s, p01, c02, cat(q03));
    let p02: int = p01 + 1 + tok_bytes(c02[0]).len() as int;
    assert(c02.drop_first() =~= Seq::<Tok>::empty());
    assert(cat(Seq::<Tok>::empty()) + cat(q03) =~= cat(q03));
    assert(suffix_at(s, p02, cat(q03)));
    // the configuration section itself is refused
    lemma_cat_add(c03, q04);
    assert(suffix_at(s, p02, cat(c03) + cat(q04)));
    lemma_rt_config_bad(s, p02, cfg, b, cat(q04));
    assert(crate::decode::sp_snapshot(s) is None);
}

} // verus!
