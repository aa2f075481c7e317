//! Proved laws of the authentication-results gate: idempotence of the
//! candidate update, the intersection-or-reset shape of the candidate set,
//! the clearing of pinned domains on a candidate change, resistance against
//! added foreign headers, and the stickiness of a known-good domain.

use vstd::prelude::*;

use crate::authres::authres_of_headers;
use crate::authres::authserv_id_of;
use crate::authres::candidates_of;
use crate::authres::dedup;
use crate::authres::dkim_passed_of;
use crate::authres::domain_of_addr;
use crate::authres::ids_of;
use crate::authres::invalid_authserv_id;
use crate::authres::join_sp;
use crate::authres::keychange_filter;
use crate::authres::scan_verdict;
use crate::authres::spec_allow_keychange;
use crate::authres::spec_handle_authres;
use crate::authres::spec_update_candidates;
use crate::authres::DkimResult;
use crate::text::is_ws;
use crate::text::lemma_scan_non_ws;
use crate::text::lemma_scan_ws;
use crate::text::lemma_split_ws_skip;
use crate::text::lemma_split_ws_words_wf;
use crate::text::scan_non_ws;
use crate::text::scan_ws;
use crate::text::split_ws;
use crate::text::split_ws_from;

verus! {

/// A usable authserv-id: non-empty and free of whitespace.  Every id that
/// header parsing yields has this shape, the sentinel included.
pub open spec fn wf_id(z: Seq<char>) -> bool {
    z.len() > 0 && forall|j: int| 0 <= j < z.len() ==> !is_ws(z[j])
}

/// All ids of the sequence are usable.
pub open spec fn wf_ids(ids: Seq<Seq<char>>) -> bool {
    forall|z: Seq<char>| ids.contains(z) ==> wf_id(z)
}

/// Joining from the front: with at least two ids, the joined value starts
/// with the first id, a space, and the join of the rest.
proof fn lemma_join_front(ids: Seq<Seq<char>>)
    requires
        ids.len() >= 2,
    ensures
        join_sp(ids) == ids[0] + seq![' '] + join_sp(ids.drop_first()),
    decreases ids.len(),
{
    if ids.len() == 2 {
        assert(ids.drop_last().len() == 1);
        assert(ids.drop_last()[0] == ids[0]);
        assert(ids.drop_first().len() == 1);
        assert(ids.drop_first()[0] == ids[1]);
        assert(join_sp(ids) == join_sp(ids.drop_last()) + seq![' '] + ids.last());
    } else {
        let front = ids.drop_last();
        lemma_join_front(front);
        assert(front.drop_first() =~= ids.drop_first().drop_last());
        assert(ids.drop_first().len() >= 2);
        assert(join_sp(ids.drop_first()) == join_sp(ids.drop_first().drop_last()) + seq![' ']
            + ids.drop_first().last());
        assert(ids.drop_first().last() == ids.last());
        assert(front[0] == ids[0]);
        assert((ids[0] + seq![' '] + join_sp(front.drop_first())) + seq![' '] + ids.last() =~= ids[0]
            + seq![' '] + (join_sp(front.drop_first()) + seq![' '] + ids.last()));
    }
}

/// Splitting the joined candidates gives the candidates back, word for
/// word, because each id is non-empty and free of whitespace.
pub proof fn lemma_split_join(ids: Seq<Seq<char>>)
    requires
        wf_ids(ids),
    ensures
        split_ws(join_sp(ids)) == ids,
    decreases ids.len(),
{
    if ids.len() == 0 {
        assert(join_sp(ids).len() == 0);
        assert(split_ws(join_sp(ids)) =~= ids);
    } else if ids.len() == 1 {
        let w = ids[0];
        assert(ids.contains(w));
        assert(wf_id(w));
        assert(join_sp(ids) == w);
        lemma_scan_non_ws(w, 0);
        assert(!is_ws(w[0]));
        assert(scan_non_ws(w, 0) == 0);
        lemma_scan_ws(w, 0);
        let r = scan_ws(w, 0);
        if r < w.len() {
            assert(is_ws(w[r]));
            assert(false);
        }
        assert(w.subrange(0, w.len() as int) =~= w);
        assert(scan_non_ws(w, w.len() as int) == w.len());
        assert(split_ws_from(w, w.len() as int) =~= Seq::<Seq<char>>::empty());
        assert(split_ws(w) =~= seq![w]);
        assert(seq![w] =~= ids);
    } else {
        let w = ids[0];
        let rest = ids.drop_first();
        assert(ids.contains(w));
        assert(wf_id(w));
        lemma_join_front(ids);
        let j = join_sp(ids);
        let jr = join_sp(rest);
        assert(j == w + seq![' '] + jr);
        assert(j.len() == w.len() + 1 + jr.len());
        assert forall|k: int| 0 <= k < w.len() implies j[k] == w[k] && !is_ws(j[k]) by {
            assert(j[k] == w[k]);
        }
        assert(j[w.len() as int] == ' ');
        lemma_scan_non_ws(j, 0);
        assert(scan_non_ws(j, 0) == 0);
        lemma_scan_ws(j, 0);
        let r = scan_ws(j, 0);
        if r < w.len() {
            assert(is_ws(j[r]));
            assert(false);
        }
        if r > w.len() {
            assert(!is_ws(j[w.len() as int]));
            assert(false);
        }
        assert(r == w.len());
        assert(j.subrange(0, w.len() as int) =~= w);
        let e = w.len() as int;
        assert(split_ws(j) == seq![w] + split_ws_from(j, e));
        assert(is_ws(j[e]));
        assert(scan_non_ws(j, e) == scan_non_ws(j, e + 1));
        assert(split_ws_from(j, e) == split_ws_from(j, e + 1));
        lemma_split_ws_skip(j, e + 1);
        assert(j.skip(e + 1) =~= jr);
        assert(wf_ids(rest)) by {
            assert forall|z: Seq<char>| rest.contains(z) implies wf_id(z) by {
                let i = choose|i: int| 0 <= i < rest.len() && rest[i] == z;
                assert(ids[i + 1] == z);
                assert(ids.contains(z));
            }
        }
        lemma_split_join(rest);
        assert(split_ws(j) == seq![w] + rest);
        assert(seq![w] + rest =~= ids);
    }
}

/// Removing repetitions keeps exactly the same members.
pub proof fn lemma_dedup_contains(ids: Seq<Seq<char>>)
    ensures
        forall|z: Seq<char>| dedup(ids).contains(z) <==> ids.contains(z),
    decreases ids.len(),
{
    if ids.len() > 0 {
        let front = ids.drop_last();
        lemma_dedup_contains(front);
        let d = dedup(ids);
        assert forall|z: Seq<char>| d.contains(z) implies ids.contains(z) by {
            let df = dedup(front);
            if df.contains(z) {
                assert(front.contains(z));
                let i = choose|i: int| 0 <= i < front.len() && front[i] == z;
                assert(ids[i] == z);
            } else {
                assert(z == ids.last());
                assert(ids[ids.len() - 1] == z);
            }
        }
        assert forall|z: Seq<char>| ids.contains(z) implies d.contains(z) by {
            let df = dedup(front);
            let i = choose|i: int| 0 <= i < ids.len() && ids[i] == z;
            if i < ids.len() - 1 {
                assert(front[i] == z);
                assert(front.contains(z));
                assert(df.contains(z));
                if df.contains(ids.last()) {
                    assert(d == df);
                } else {
                    let k = choose|k: int| 0 <= k < df.len() && df[k] == z;
                    assert(d[k] == z);
                }
            } else {
                assert(z == ids.last());
                if df.contains(z) {
                    assert(d == df);
                } else {
                    assert(d[d.len() - 1] == z);
                }
            }
        }
    }
}

/// A filter that keeps every element returns the sequence unchanged.
proof fn lemma_filter_all_true<A>(s: Seq<A>, pred: spec_fn(A) -> bool)
    requires
        forall|i: int| 0 <= i < s.len() ==> pred(s[i]),
    ensures
        s.filter(pred) == s,
    decreases s.len(),
{
    reveal(Seq::filter);
    if s.len() > 0 {
        lemma_filter_all_true(s.drop_last(), pred);
        assert(s.drop_last().filter(pred).push(s.last()) =~= s);
    }
}

/// An element of a filtered sequence comes from the unfiltered one and
/// satisfies the predicate; conversely every element that satisfies it is
/// kept.
proof fn lemma_filter_members<A>(s: Seq<A>, pred: spec_fn(A) -> bool)
    ensures
        forall|z: A| s.filter(pred).contains(z) <==> s.contains(z) && pred(z),
    decreases s.len(),
{
    reveal(Seq::filter);
    if s.len() > 0 {
        let front = s.drop_last();
        lemma_filter_members(front, pred);
        let f = s.filter(pred);
        assert forall|z: A| f.contains(z) implies s.contains(z) && pred(z) by {
            if front.filter(pred).contains(z) {
                assert(front.contains(z));
                let i = choose|i: int| 0 <= i < front.len() && front[i] == z;
                assert(s[i] == z);
            } else {
                assert(pred(s.last()) && z == s.last());
                assert(s[s.len() - 1] == z);
            }
        }
        assert forall|z: A| s.contains(z) && pred(z) implies f.contains(z) by {
            let i = choose|i: int| 0 <= i < s.len() && s[i] == z;
            if i < s.len() - 1 {
                assert(front[i] == z);
                assert(front.contains(z));
                assert(front.filter(pred).contains(z));
                let k = choose|k: int|
                    0 <= k < front.filter(pred).len() && front.filter(pred)[k] == z;
                if pred(s.last()) {
                    assert(f == front.filter(pred).push(s.last()));
                    assert(f[k] == z);
                } else {
                    assert(f == front.filter(pred));
                }
            } else {
                assert(z == s.last());
                assert(f == front.filter(pred).push(s.last()));
                assert(f[f.len() - 1] == z);
            }
        }
    }
}

/// The candidates parsed back out of a configuration value are always
/// usable ids.
pub proof fn lemma_candidates_wf(cfg: Option<Seq<char>>)
    ensures
        wf_ids(candidates_of(cfg)),
{
    match cfg {
        Option::None => {},
        Option::Some(s) => {
            lemma_split_ws_words_wf(s, 0);
            lemma_dedup_contains(split_ws(s));
            assert forall|z: Seq<char>| candidates_of(cfg).contains(z) implies wf_id(z) by {
                assert(split_ws(s).contains(z));
                let i = choose|i: int| 0 <= i < split_ws(s).len() && split_ws(s)[i] == z;
            }
        },
    }
}

/// Every id that header parsing yields is usable: either the leading token
/// of the header, which is taken only when it is non-empty and free of
/// whitespace, or the sentinel.
pub proof fn lemma_parsed_ids_wf(values: Seq<Seq<char>>, d: Seq<char>)
    ensures
        wf_ids(ids_of(authres_of_headers(values, d))),
{
    let ids = ids_of(authres_of_headers(values, d));
    assert forall|z: Seq<char>| ids.contains(z) implies wf_id(z) by {
        let i = choose|i: int| 0 <= i < ids.len() && ids[i] == z;
        assert(ids[i] == authserv_id_of(values[i], d).0);
        if z == invalid_authserv_id() {
            assert(z.len() == 17);
            assert forall|j: int| 0 <= j < z.len() implies !is_ws(z[j]) by {
                assert(!is_ws(invalid_authserv_id()[j]));
            }
        }
    }
}

/// The full candidate-update characterization used below: what the new
/// configuration value parses back to.
proof fn lemma_update_parses(cfg: Option<Seq<char>>, ares: Seq<(Seq<char>, DkimResult)>)
    requires
        wf_ids(ids_of(ares)),
    ensures
        ({
            let up = spec_update_candidates(cfg, ares);
            let new_ids = dedup(ids_of(ares));
            let old_ids = candidates_of(cfg);
            let inter = old_ids.filter(|id: Seq<char>| new_ids.contains(id));
            let keep = if inter.len() > 0 {
                inter
            } else {
                new_ids
            };
            new_ids.len() == 0 ==> up == (cfg, false)
        } && {
            let up = spec_update_candidates(cfg, ares);
            let new_ids = dedup(ids_of(ares));
            let old_ids = candidates_of(cfg);
            let inter = old_ids.filter(|id: Seq<char>| new_ids.contains(id));
            let keep = if inter.len() > 0 {
                inter
            } else {
                new_ids
            };
            new_ids.len() > 0 ==> candidates_of(up.0).to_set() == keep.to_set()
        }),
{
    let up = spec_update_candidates(cfg, ares);
    let new_ids = dedup(ids_of(ares));
    let old_ids = candidates_of(cfg);
    let inter = old_ids.filter(|id: Seq<char>| new_ids.contains(id));
    let keep = if inter.len() > 0 {
        inter
    } else {
        new_ids
    };
    if new_ids.len() > 0 {
        lemma_candidates_wf(cfg);
        lemma_dedup_contains(ids_of(ares));
        lemma_filter_members(old_ids, |id: Seq<char>| new_ids.contains(id));
        assert(wf_ids(keep)) by {
            assert forall|z: Seq<char>| keep.contains(z) implies wf_id(z) by {
                if inter.len() > 0 {
                    assert(old_ids.contains(z));
                } else {
                    assert(ids_of(ares).contains(z));
                }
            }
        }
        if old_ids.to_set() == keep.to_set() {
            assert(up.0 == cfg);
            assert(candidates_of(up.0).to_set() =~= keep.to_set());
        } else {
            lemma_split_join(keep);
            assert(candidates_of(up.0) == dedup(keep));
            lemma_dedup_contains(keep);
            assert(candidates_of(up.0).to_set() =~= keep.to_set());
        }
    }
}

/// Idempotence of the candidate update: handling the same message's
/// authentication results twice in a row leaves the same candidate value as
/// handling them once, and the second pass reports no change.
pub proof fn lemma_candidate_update_idempotent(
    cfg: Option<Seq<char>>,
    ares: Seq<(Seq<char>, DkimResult)>,
)
    requires
        wf_ids(ids_of(ares)),
    ensures
        spec_update_candidates(spec_update_candidates(cfg, ares).0, ares).0
            == spec_update_candidates(cfg, ares).0,
        !spec_update_candidates(spec_update_candidates(cfg, ares).0, ares).1,
{
    let once = spec_update_candidates(cfg, ares);
    let twice = spec_update_candidates(once.0, ares);
    let new_ids = dedup(ids_of(ares));
    if new_ids.len() == 0 {
        assert(once == (cfg, false));
        assert(twice == (cfg, false));
    } else {
        let old1 = candidates_of(cfg);
        let inter1 = old1.filter(|id: Seq<char>| new_ids.contains(id));
        let keep1 = if inter1.len() > 0 {
            inter1
        } else {
            new_ids
        };
        lemma_update_parses(cfg, ares);
        let old2 = candidates_of(once.0);
        assert(old2.to_set() == keep1.to_set());
        lemma_filter_members(old1, |id: Seq<char>| new_ids.contains(id));
        lemma_dedup_contains(ids_of(ares));
        // Every kept id is among the incoming ids.
        assert forall|z: Seq<char>| keep1.contains(z) implies new_ids.contains(z) by {
            if inter1.len() > 0 {
            }
        }
        // So the second intersection keeps all of the stored candidates.
        assert forall|i: int| 0 <= i < old2.len() implies new_ids.contains(old2[i]) by {
            assert(old2.contains(old2[i]));
            assert(old2.to_set().contains(old2[i]));
            assert(keep1.to_set().contains(old2[i]));
            assert(keep1.contains(old2[i]));
        }
        let inter2 = old2.filter(|id: Seq<char>| new_ids.contains(id));
        lemma_filter_all_true(old2, |id: Seq<char>| new_ids.contains(id));
        assert(inter2 == old2);
        assert(keep1.len() > 0);
        assert(keep1.to_set().contains(keep1[0]));
        assert(old2.to_set().contains(keep1[0]));
        assert(old2.contains(keep1[0]));
        assert(old2.len() > 0);
        assert(inter2.len() > 0);
        assert(old2.to_set() == inter2.to_set());
        assert(twice == (once.0, false));
    }
}

/// Monotone intersection or full reset: with incoming ids `N`, the stored
/// candidate set becomes the old set intersected with `N` when that
/// intersection is inhabited, and `N` itself otherwise; with no incoming
/// ids it stays as it was.
pub proof fn lemma_candidate_update_shape(cfg: Option<Seq<char>>, ares: Seq<(Seq<char>, DkimResult)>)
    requires
        wf_ids(ids_of(ares)),
    ensures
        ({
            let n = dedup(ids_of(ares)).to_set();
            let o = candidates_of(cfg).to_set();
            let res = candidates_of(spec_update_candidates(cfg, ares).0).to_set();
            &&& dedup(ids_of(ares)).len() == 0 ==> res == o
            &&& dedup(ids_of(ares)).len() > 0 ==> res == (if o.intersect(n) != Set::<Seq<char>>::empty() {
                o.intersect(n)
            } else {
                n
            })
        }),
{
    let new_ids = dedup(ids_of(ares));
    let old_ids = candidates_of(cfg);
    let inter = old_ids.filter(|id: Seq<char>| new_ids.contains(id));
    lemma_update_parses(cfg, ares);
    if new_ids.len() > 0 {
        lemma_filter_members(old_ids, |id: Seq<char>| new_ids.contains(id));
        assert(inter.to_set() =~= old_ids.to_set().intersect(new_ids.to_set())) by {
            assert forall|z: Seq<char>|
                inter.to_set().contains(z) == (old_ids.to_set().contains(z)
                    && new_ids.to_set().contains(z)) by {}
        }
        if inter.len() > 0 {
            assert(inter.to_set().contains(inter[0]));
            assert(inter.to_set() != Set::<Seq<char>>::empty()) by {
                assert(!Set::<Seq<char>>::empty().contains(inter[0]));
            }
        } else {
            assert(inter.to_set() =~= Set::<Seq<char>>::empty()) by {
                assert forall|z: Seq<char>| !inter.to_set().contains(z) by {
                    if inter.contains(z) {
                        let i = choose|i: int| 0 <= i < inter.len() && inter[i] == z;
                        assert(false);
                    }
                }
            }
        }
    }
}

/// A candidate change clears the pinned domains: immediately after the
/// update the table is empty, and by the end of handling the message it can
/// hold at most the sender's own domain, freshly re-pinned.
pub proof fn lemma_candidate_change_clears_domains(
    cfg: Option<Seq<char>>,
    works: Set<Seq<char>>,
    values: Seq<Seq<char>>,
    from: Seq<char>,
)
    ensures
        ({
            match domain_of_addr(from) {
                Option::Some(d) => spec_update_candidates(cfg, authres_of_headers(values, d)).1
                    ==> {
                    let h = spec_handle_authres(cfg, works, values, from);
                    h.2 == Set::<Seq<char>>::empty() || h.2 == Set::<Seq<char>>::empty().insert(d)
                },
                Option::None => spec_handle_authres(cfg, works, values, from).2 == works,
            }
        }),
{
}

/// Attacker resistance: headers whose authserv-id is outside the candidate
/// set change neither the keychange verdict nor the pinned domains, whether
/// they are appended after the genuine results or inserted before them.
pub proof fn lemma_attacker_resistance(
    cfg: Option<Seq<char>>,
    works: Set<Seq<char>>,
    ares: Seq<(Seq<char>, DkimResult)>,
    extra: Seq<(Seq<char>, DkimResult)>,
    d: Seq<char>,
)
    requires
        forall|i: int|
            0 <= i < extra.len() ==> !candidates_of(cfg).contains((#[trigger] extra[i]).0),
    ensures
        spec_allow_keychange(cfg, works, ares + extra, d) == spec_allow_keychange(
            cfg,
            works,
            ares,
            d,
        ),
        spec_allow_keychange(cfg, works, extra + ares, d) == spec_allow_keychange(
            cfg,
            works,
            ares,
            d,
        ),
{
    let cands = candidates_of(cfg);
    let pred = |p: (Seq<char>, DkimResult)| cands.contains(p.0);
    Seq::filter_distributes_over_add(ares, extra, pred);
    Seq::filter_distributes_over_add(extra, ares, pred);
    extra.lemma_all_neg_filter_empty(pred);
    assert(extra.filter(pred) =~= Seq::<(Seq<char>, DkimResult)>::empty());
    assert(keychange_filter(ares + extra, cands) =~= keychange_filter(ares, cands));
    assert(keychange_filter(extra + ares, cands) =~= keychange_filter(ares, cands));
}

/// All-negative scans fail: a list without an explicit pass never scans to
/// a pass.
proof fn lemma_scan_verdict_no_pass(ares: Seq<(Seq<char>, DkimResult)>)
    requires
        forall|i: int| 0 <= i < ares.len() ==> (#[trigger] ares[i]).1 != DkimResult::Passed,
    ensures
        !scan_verdict(ares),
    decreases ares.len(),
{
    if ares.len() > 0 {
        assert(ares[0].1 != DkimResult::Passed);
        if ares[0].1 is Nothing {
            assert forall|i: int|
                0 <= i < ares.drop_first().len() implies (#[trigger] ares.drop_first()[i]).1
                != DkimResult::Passed by {
                assert(ares.drop_first()[i] == ares[i + 1]);
            }
            lemma_scan_verdict_no_pass(ares.drop_first());
        }
    }
}

/// DKIM stickiness: once a domain is known to work, a message from it whose
/// trusted results are non-empty and contain no pass may not change the
/// key.
pub proof fn lemma_dkim_stickiness(
    cfg: Option<Seq<char>>,
    works: Set<Seq<char>>,
    ares: Seq<(Seq<char>, DkimResult)>,
    d: Seq<char>,
)
    requires
        works.contains(d),
        keychange_filter(ares, candidates_of(cfg)).len() > 0,
        forall|i: int|
            0 <= i < keychange_filter(ares, candidates_of(cfg)).len() ==> (
            #[trigger] keychange_filter(ares, candidates_of(cfg))[i]).1 != DkimResult::Passed,
    ensures
        !spec_allow_keychange(cfg, works, ares, d).0,
{
    lemma_scan_verdict_no_pass(keychange_filter(ares, candidates_of(cfg)));
    assert(!dkim_passed_of(ares, candidates_of(cfg)));
}

} // verus!
