//! The vote and save ledgers: one row per (post, user) pair, with
//! replace-not-duplicate voting and idempotent saving.

use vstd::prelude::*;
use crate::domain::{VoteRow, SaveRow};

verus! {

/// Greatest number of vote rows the ledger accepts; an insert into a full
/// ledger fails, which the orchestrator reports without retrying.
pub const VOTE_CAP: usize = 0x7fff_ffff;

/// A vote score that is actually persisted: only -1 and +1 ever are.
pub open spec fn valid_score(score: i16) -> bool {
    score == 1i16 || score == -1i16
}

/// The ledger without any row for the (post, user) pair, order kept.
pub open spec fn strip_pair(s: Seq<VoteRow>, p: i32, u: i32) -> Seq<VoteRow>
    decreases s.len(),
{
    if s.len() == 0 {
        Seq::empty()
    } else {
        let rest = strip_pair(s.drop_last(), p, u);
        if s.last().post_id == p && s.last().user_id == u {
            rest
        } else {
            rest.push(s.last())
        }
    }
}

/// How many rows the ledger holds for the (post, user) pair.
pub open spec fn pair_count(s: Seq<VoteRow>, p: i32, u: i32) -> nat
    decreases s.len(),
{
    if s.len() == 0 {
        0
    } else {
        pair_count(s.drop_last(), p, u) + if s.last().post_id == p && s.last().user_id == u {
            1nat
        } else {
            0nat
        }
    }
}

/// The score the ledger records for the pair, if any.
pub open spec fn vote_lookup(s: Seq<VoteRow>, p: i32, u: i32) -> Option<i16>
    decreases s.len(),
{
    if s.len() == 0 {
        None
    } else if s.last().post_id == p && s.last().user_id == u {
        Some(s.last().score)
    } else {
        vote_lookup(s.drop_last(), p, u)
    }
}

/// Sum of the recorded scores of one post over the whole ledger.
pub open spec fn score_sum(s: Seq<VoteRow>, p: i32) -> int
    decreases s.len(),
{
    if s.len() == 0 {
        0
    } else {
        score_sum(s.drop_last(), p) + if s.last().post_id == p {
            s.last().score as int
        } else {
            0
        }
    }
}

/// Well-formed vote ledger: every persisted score is -1 or +1, and no
/// (post, user) pair has more than one row.
pub open spec fn votes_wf(s: Seq<VoteRow>) -> bool {
    &&& forall|k: int| 0 <= k < s.len() ==> valid_score(#[trigger] s[k].score)
    &&& forall|p: i32, u: i32| #[trigger] pair_count(s, p, u) <= 1
}

/// What one replace call leaves in the ledger when its insert step does
/// not fail: the pair's old row is gone, and a fresh row stands only for
/// a score of -1 or +1.
pub open spec fn replace_spec(s: Seq<VoteRow>, p: i32, u: i32, score: i16) -> Seq<VoteRow> {
    if valid_score(score) {
        strip_pair(s, p, u).push(VoteRow { post_id: p, user_id: u, score })
    } else {
        strip_pair(s, p, u)
    }
}

pub proof fn lemma_strip_frame(s: Seq<VoteRow>, p: i32, u: i32)
    ensures
        strip_pair(s, p, u).len() <= s.len(),
        pair_count(strip_pair(s, p, u), p, u) == 0,
        forall|k: int| 0 <= k < strip_pair(s, p, u).len()
            ==> !((#[trigger] strip_pair(s, p, u)[k]).post_id == p
                && strip_pair(s, p, u)[k].user_id == u),
        forall|q: i32, v: i32| !(q == p && v == u)
            ==> #[trigger] pair_count(strip_pair(s, p, u), q, v) == pair_count(s, q, v),
        forall|q: i32, v: i32| !(q == p && v == u)
            ==> #[trigger] vote_lookup(strip_pair(s, p, u), q, v) == vote_lookup(s, q, v),
        forall|k: int| 0 <= k < strip_pair(s, p, u).len()
            ==> exists|j: int| 0 <= j < s.len() && #[trigger] strip_pair(s, p, u)[k] == s[j],
    decreases s.len(),
{
    if s.len() > 0 {
        lemma_strip_frame(s.drop_last(), p, u);
        let rest = strip_pair(s.drop_last(), p, u);
        let out = strip_pair(s, p, u);
        if !(s.last().post_id == p && s.last().user_id == u) {
            assert(out == rest.push(s.last()));
            assert(out.drop_last() =~= rest);
            assert(out.last() == s.last());
            assert(pair_count(out, p, u) == pair_count(rest, p, u));
            assert forall|q: i32, v: i32| !(q == p && v == u)
                implies #[trigger] pair_count(out, q, v) == pair_count(s, q, v) by {
                assert(out.drop_last() =~= rest);
                assert(out.last() == s.last());
                assert(pair_count(out, q, v) == pair_count(rest, q, v)
                    + if s.last().post_id == q && s.last().user_id == v { 1nat } else { 0nat });
                assert(pair_count(rest, q, v) == pair_count(s.drop_last(), q, v));
                assert(pair_count(s, q, v) == pair_count(s.drop_last(), q, v)
                    + if s.last().post_id == q && s.last().user_id == v { 1nat } else { 0nat });
            }
            assert forall|q: i32, v: i32| !(q == p && v == u)
                implies #[trigger] vote_lookup(out, q, v) == vote_lookup(s, q, v) by {
                assert(out.drop_last() =~= rest);
                assert(out.last() == s.last());
                assert(vote_lookup(rest, q, v) == vote_lookup(s.drop_last(), q, v));
                if s.last().post_id == q && s.last().user_id == v {
                    assert(vote_lookup(out, q, v) == Some(s.last().score));
                    assert(vote_lookup(s, q, v) == Some(s.last().score));
                } else {
                    assert(vote_lookup(out, q, v) == vote_lookup(rest, q, v));
                    assert(vote_lookup(s, q, v) == vote_lookup(s.drop_last(), q, v));
                }
            }
            assert forall|k: int| 0 <= k < out.len()
                implies exists|j: int| 0 <= j < s.len() && #[trigger] out[k] == s[j] by {
                if k < rest.len() {
                    let j0 = choose|j0: int| 0 <= j0 < s.drop_last().len() && rest[k] == s.drop_last()[j0];
                    assert(out[k] == s[j0]);
                } else {
                    assert(out[k] == s[s.len() - 1]);
                }
            }
        } else {
            assert forall|k: int| 0 <= k < out.len()
                implies exists|j: int| 0 <= j < s.len() && #[trigger] out[k] == s[j] by {
                let j0 = choose|j0: int| 0 <= j0 < s.drop_last().len() && rest[k] == s.drop_last()[j0];
                assert(out[k] == s[j0]);
            }
        }
    }
}

/// Stripping a pair keeps the ledger well-formed.
pub proof fn lemma_strip_wf(s: Seq<VoteRow>, p: i32, u: i32)
    requires
        votes_wf(s),
    ensures
        votes_wf(strip_pair(s, p, u)),
    decreases s.len(),
{
    if s.len() > 0 {
        assert(forall|k: int| 0 <= k < s.drop_last().len()
            ==> #[trigger] s.drop_last()[k] == s[k]);
        assert forall|q: i32, v: i32| #[trigger] pair_count(s.drop_last(), q, v) <= 1 by {
            assert(pair_count(s, q, v) <= 1);
        }
        lemma_strip_wf(s.drop_last(), p, u);
        lemma_strip_frame(s.drop_last(), p, u);
        let rest = strip_pair(s.drop_last(), p, u);
        let out = strip_pair(s, p, u);
        if !(s.last().post_id == p && s.last().user_id == u) {
            assert(out == rest.push(s.last()));
            assert forall|q: i32, v: i32| #[trigger] pair_count(out, q, v) <= 1 by {
                assert(out.drop_last() =~= rest);
                if q == s.last().post_id && v == s.last().user_id {
                    if q == p && v == u {
                    } else {
                        assert(pair_count(s, q, v) <= 1);
                        assert(pair_count(s.drop_last(), q, v) + 1 == pair_count(s, q, v));
                        assert(pair_count(rest, q, v) == pair_count(s.drop_last(), q, v));
                    }
                } else {
                    assert(pair_count(out, q, v) == pair_count(rest, q, v));
                }
            }
            assert forall|k: int| 0 <= k < out.len()
                implies valid_score(#[trigger] out[k].score) by {
                if k < rest.len() {
                } else {
                    assert(out[k] == s.last());
                    assert(valid_score(s[s.len() - 1].score));
                }
            }
        }
    }
}

/// A replace leaves the ledger well-formed.
pub proof fn lemma_replace_wf(s: Seq<VoteRow>, p: i32, u: i32, score: i16)
    requires
        votes_wf(s),
    ensures
        votes_wf(replace_spec(s, p, u, score)),
        replace_spec(s, p, u, score).len() <= s.len() + 1,
        pair_count(replace_spec(s, p, u, score), p, u)
            == if valid_score(score) { 1nat } else { 0nat },
        vote_lookup(replace_spec(s, p, u, score), p, u)
            == if valid_score(score) { Some(score) } else { None::<i16> },
{
    lemma_strip_wf(s, p, u);
    lemma_strip_frame(s, p, u);
    let stripped = strip_pair(s, p, u);
    if valid_score(score) {
        let row = VoteRow { post_id: p, user_id: u, score };
        let out = stripped.push(row);
        assert(out.drop_last() =~= stripped);
        assert(out.last() == row);
        assert forall|q: i32, v: i32| #[trigger] pair_count(out, q, v) <= 1 by {
            assert(pair_count(out, q, v) == pair_count(stripped, q, v)
                + if q == p && v == u { 1nat } else { 0nat });
        }
        assert forall|k: int| 0 <= k < out.len()
            implies valid_score(#[trigger] out[k].score) by {
            if k == out.len() - 1 {
                assert(out[k] == row);
            }
        }
        if pair_count(stripped, p, u) == 0 {
        }
    } else {
        assert(vote_lookup(stripped, p, u) is None) by {
            lemma_count_zero_lookup_none(stripped, p, u);
        }
    }
}

/// A ledger with no row for the pair reports no vote for it.
pub proof fn lemma_count_zero_lookup_none(s: Seq<VoteRow>, p: i32, u: i32)
    requires
        pair_count(s, p, u) == 0,
    ensures
        vote_lookup(s, p, u) is None,
    decreases s.len(),
{
    if s.len() > 0 {
        lemma_count_zero_lookup_none(s.drop_last(), p, u);
    }
}

/// Stripping a pair that has no row changes nothing.
pub proof fn lemma_strip_absent(s: Seq<VoteRow>, p: i32, u: i32)
    requires
        pair_count(s, p, u) == 0,
    ensures
        strip_pair(s, p, u) == s,
    decreases s.len(),
{
    if s.len() > 0 {
        lemma_strip_absent(s.drop_last(), p, u);
        assert(strip_pair(s, p, u) =~= s);
    }
}

/// Replace, never accumulate: voting +1 and then -1 for the same pair
/// leaves exactly one ledger row for it, and that row carries -1.
pub proof fn lemma_vote_then_opposite(s: Seq<VoteRow>, p: i32, u: i32)
    requires
        votes_wf(s),
    ensures
        pair_count(replace_spec(replace_spec(s, p, u, 1i16), p, u, -1i16), p, u) == 1,
        vote_lookup(replace_spec(replace_spec(s, p, u, 1i16), p, u, -1i16), p, u)
            == Some(-1i16),
        votes_wf(replace_spec(replace_spec(s, p, u, 1i16), p, u, -1i16)),
{
    lemma_replace_wf(s, p, u, 1i16);
    lemma_replace_wf(replace_spec(s, p, u, 1i16), p, u, -1i16);
}

/// Clearing removes, not zeroes: voting +1 and then 0 for the same pair
/// leaves no ledger row for it.
pub proof fn lemma_vote_then_clear(s: Seq<VoteRow>, p: i32, u: i32)
    requires
        votes_wf(s),
    ensures
        pair_count(replace_spec(replace_spec(s, p, u, 1i16), p, u, 0i16), p, u) == 0,
        vote_lookup(replace_spec(replace_spec(s, p, u, 1i16), p, u, 0i16), p, u)
            is None,
        votes_wf(replace_spec(replace_spec(s, p, u, 1i16), p, u, 0i16)),
{
    lemma_replace_wf(s, p, u, 1i16);
    lemma_replace_wf(replace_spec(s, p, u, 1i16), p, u, 0i16);
}

/// The score sum of a post never outgrows the number of ledger rows.
pub proof fn lemma_score_sum_bound(s: Seq<VoteRow>, p: i32)
    requires
        forall|k: int| 0 <= k < s.len() ==> valid_score(#[trigger] s[k].score),
    ensures
        -(s.len() as int) <= score_sum(s, p) <= s.len() as int,
    decreases s.len(),
{
    if s.len() > 0 {
        assert(forall|k: int| 0 <= k < s.drop_last().len()
            ==> #[trigger] s.drop_last()[k] == s[k]);
        lemma_score_sum_bound(s.drop_last(), p);
        assert(valid_score(s[s.len() - 1].score));
    }
}

/// A post no vote row names has a zero pair count for every user.
pub proof fn lemma_pair_count_zero(s: Seq<VoteRow>, p: i32, u: i32)
    requires
        forall|k: int| 0 <= k < s.len() ==> (#[trigger] s[k]).post_id != p,
    ensures
        pair_count(s, p, u) == 0,
    decreases s.len(),
{
    if s.len() > 0 {
        assert(forall|k: int| 0 <= k < s.drop_last().len()
            ==> #[trigger] s.drop_last()[k] == s[k]);
        lemma_pair_count_zero(s.drop_last(), p, u);
        assert(s[s.len() - 1].post_id != p);
    }
}

/// How many bookmark rows the save ledger holds for the (post, user) pair.
pub open spec fn save_count(s: Seq<SaveRow>, p: i32, u: i32) -> nat
    decreases s.len(),
{
    if s.len() == 0 {
        0
    } else {
        save_count(s.drop_last(), p, u) + if s.last().post_id == p && s.last().user_id == u {
            1nat
        } else {
            0nat
        }
    }
}

/// The save ledger without any row for the (post, user) pair, order kept.
pub open spec fn strip_save(s: Seq<SaveRow>, p: i32, u: i32) -> Seq<SaveRow>
    decreases s.len(),
{
    if s.len() == 0 {
        Seq::empty()
    } else {
        let rest = strip_save(s.drop_last(), p, u);
        if s.last().post_id == p && s.last().user_id == u {
            rest
        } else {
            rest.push(s.last())
        }
    }
}

/// Well-formed save ledger: no (post, user) pair has more than one row.
pub open spec fn saves_wf(s: Seq<SaveRow>) -> bool {
    forall|p: i32, u: i32| #[trigger] save_count(s, p, u) <= 1
}

/// What one `set` call leaves in the save ledger: with `saved`, a row for
/// the pair exists (inserted only if absent); without it, none does.
pub open spec fn save_set_spec(s: Seq<SaveRow>, p: i32, u: i32, saved: bool) -> Seq<SaveRow> {
    if saved {
        if save_count(s, p, u) > 0 {
            s
        } else {
            s.push(SaveRow { post_id: p, user_id: u })
        }
    } else {
        strip_save(s, p, u)
    }
}

pub proof fn lemma_strip_save_frame(s: Seq<SaveRow>, p: i32, u: i32)
    ensures
        strip_save(s, p, u).len() <= s.len(),
        save_count(strip_save(s, p, u), p, u) == 0,
        forall|q: i32, v: i32| !(q == p && v == u)
            ==> #[trigger] save_count(strip_save(s, p, u), q, v) == save_count(s, q, v),
    decreases s.len(),
{
    if s.len() > 0 {
        lemma_strip_save_frame(s.drop_last(), p, u);
        let rest = strip_save(s.drop_last(), p, u);
        let out = strip_save(s, p, u);
        if !(s.last().post_id == p && s.last().user_id == u) {
            assert(out == rest.push(s.last()));
            assert(out.drop_last() =~= rest);
            assert(out.last() == s.last());
            assert(save_count(out, p, u) == save_count(rest, p, u));
            assert forall|q: i32, v: i32| !(q == p && v == u)
                implies #[trigger] save_count(out, q, v) == save_count(s, q, v) by {
                assert(save_count(out, q, v) == save_count(rest, q, v)
                    + if s.last().post_id == q && s.last().user_id == v { 1nat } else { 0nat });
                assert(save_count(rest, q, v) == save_count(s.drop_last(), q, v));
                assert(save_count(s, q, v) == save_count(s.drop_last(), q, v)
                    + if s.last().post_id == q && s.last().user_id == v { 1nat } else { 0nat });
            }
        }
    }
}

/// A `set` call keeps the save ledger well-formed, and afterwards the pair
/// has a row exactly when `saved` was asked for.
pub proof fn lemma_save_set_wf(s: Seq<SaveRow>, p: i32, u: i32, saved: bool)
    requires
        saves_wf(s),
    ensures
        saves_wf(save_set_spec(s, p, u, saved)),
        save_count(save_set_spec(s, p, u, saved), p, u) == if saved { 1nat } else { 0nat },
{
    lemma_strip_save_frame(s, p, u);
    if saved && save_count(s, p, u) == 0 {
        let row = SaveRow { post_id: p, user_id: u };
        let out = s.push(row);
        assert(out.drop_last() =~= s);
        assert(out.last() == row);
        assert forall|q: i32, v: i32| #[trigger] save_count(out, q, v) <= 1 by {
            assert(save_count(out, q, v) == save_count(s, q, v)
                + if q == p && v == u { 1nat } else { 0nat });
        }
        assert(save_count(out, p, u) == 1);
    }
}

/// Saving is idempotent: saving a post twice for the same user leaves the
/// ledger exactly as one save does, with exactly one row for the pair.
pub proof fn lemma_save_idempotent(s: Seq<SaveRow>, p: i32, u: i32)
    requires
        saves_wf(s),
    ensures
        save_set_spec(save_set_spec(s, p, u, true), p, u, true) == save_set_spec(s, p, u, true),
        save_count(save_set_spec(save_set_spec(s, p, u, true), p, u, true), p, u) == 1,
{
    lemma_save_set_wf(s, p, u, true);
    lemma_save_set_wf(save_set_spec(s, p, u, true), p, u, true);
}

/// Unsaving is idempotent as well: clearing an absent bookmark is a no-op.
pub proof fn lemma_unsave_idempotent(s: Seq<SaveRow>, p: i32, u: i32)
    requires
        saves_wf(s),
    ensures
        save_set_spec(save_set_spec(s, p, u, false), p, u, false)
            == save_set_spec(s, p, u, false),
        save_count(save_set_spec(save_set_spec(s, p, u, false), p, u, false), p, u) == 0,
    decreases s.len(),
{
    lemma_save_set_wf(s, p, u, false);
    lemma_strip_save_frame(s, p, u);
    lemma_strip_save_absent(strip_save(s, p, u), p, u);
}

/// Stripping a pair that has no row changes nothing.
pub proof fn lemma_strip_save_absent(s: Seq<SaveRow>, p: i32, u: i32)
    requires
        save_count(s, p, u) == 0,
    ensures
        strip_save(s, p, u) == s,
    decreases s.len(),
{
    if s.len() > 0 {
        lemma_strip_save_absent(s.drop_last(), p, u);
        assert(strip_save(s, p, u) =~= s);
    }
}

} // verus!
