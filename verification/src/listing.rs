//! Filtered, ordered, paginated post listings: the parsed listing-type
//! and sort-order tokens, and the store's listing semantics.

use vstd::prelude::*;
use crate::domain::Post;
use crate::ledger::score_sum;
use crate::store::{read_view_spec, Database, PostView};

verus! {

/// Which posts a listing draws from.
#[derive(Clone, Copy, PartialEq, Eq, Structural, Debug)]
pub enum PostListingType {
    All,
    Subscribed,
    Community,
}

/// The order a listing is returned in.
#[derive(Clone, Copy, PartialEq, Eq, Structural, Debug)]
pub enum SortType {
    Hot,
    New,
    TopDay,
    TopWeek,
    TopMonth,
    TopYear,
    TopAll,
}

/// The listing-type token's parse: an unrecognized token parses to
/// nothing, never to a default.
pub open spec fn listing_type_spec(s: Seq<char>) -> Option<PostListingType> {
    if s == "All"@ {
        Some(PostListingType::All)
    } else if s == "Subscribed"@ {
        Some(PostListingType::Subscribed)
    } else if s == "Community"@ {
        Some(PostListingType::Community)
    } else {
        None
    }
}

/// The sort-order token's parse: an unrecognized token parses to
/// nothing, never to a default.
pub open spec fn sort_type_spec(s: Seq<char>) -> Option<SortType> {
    if s == "Hot"@ {
        Some(SortType::Hot)
    } else if s == "New"@ {
        Some(SortType::New)
    } else if s == "TopDay"@ {
        Some(SortType::TopDay)
    } else if s == "TopWeek"@ {
        Some(SortType::TopWeek)
    } else if s == "TopMonth"@ {
        Some(SortType::TopMonth)
    } else if s == "TopYear"@ {
        Some(SortType::TopYear)
    } else if s == "TopAll"@ {
        Some(SortType::TopAll)
    } else {
        None
    }
}

/// Whether two strings hold the same characters.
pub fn str_eq(a: &String, lit: &str) -> (r: bool)
    ensures
        r == (a@ == lit@),
{
    *a == lit.to_owned()
}

/// Parses a listing-type token.
pub fn parse_listing_type(s: &String) -> (r: Option<PostListingType>)
    ensures
        r == listing_type_spec(s@),
{
    if str_eq(s, "All") {
        Some(PostListingType::All)
    } else if str_eq(s, "Subscribed") {
        Some(PostListingType::Subscribed)
    } else if str_eq(s, "Community") {
        Some(PostListingType::Community)
    } else {
        None
    }
}

/// Parses a sort-order token.
pub fn parse_sort_type(s: &String) -> (r: Option<SortType>)
    ensures
        r == sort_type_spec(s@),
{
    if str_eq(s, "Hot") {
        Some(SortType::Hot)
    } else if str_eq(s, "New") {
        Some(SortType::New)
    } else if str_eq(s, "TopDay") {
        Some(SortType::TopDay)
    } else if str_eq(s, "TopWeek") {
        Some(SortType::TopWeek)
    } else if str_eq(s, "TopMonth") {
        Some(SortType::TopMonth)
    } else if str_eq(s, "TopYear") {
        Some(SortType::TopYear)
    } else if str_eq(s, "TopAll") {
        Some(SortType::TopAll)
    } else {
        None
    }
}

/// Whether a listing shows this post: soft-deleted and removed posts are
/// hidden, nsfw follows the viewer's preference, an explicit community
/// narrows the listing, and a subscribed listing needs a follow.
pub open spec fn admits(
    d: Database,
    t: PostListingType,
    community: Option<i32>,
    show_nsfw: bool,
    viewer: Option<i32>,
    p: Post,
) -> bool {
    &&& !p.removed
    &&& !p.deleted
    &&& (show_nsfw || !p.nsfw)
    &&& match community {
        Some(c) => p.community_id == c,
        None => true,
    }
    &&& match t {
        PostListingType::Subscribed => match viewer {
            Some(u) => d.follows_community(u, p.community_id),
            None => false,
        },
        _ => true,
    }
}

/// The stored posts a listing draws from, in stored (id-ascending) order.
pub open spec fn candidates(
    d: Database,
    t: PostListingType,
    community: Option<i32>,
    show_nsfw: bool,
    viewer: Option<i32>,
    s: Seq<Post>,
) -> Seq<Post>
    decreases s.len(),
{
    if s.len() == 0 {
        Seq::empty()
    } else {
        let rest = candidates(d, t, community, show_nsfw, viewer, s.drop_last());
        if admits(d, t, community, show_nsfw, viewer, s.last()) {
            rest.push(s.last())
        } else {
            rest
        }
    }
}

/// A candidate's rank: its aggregated score, tie-broken by newest id.
pub open spec fn key_of(d: Database, p: Post) -> (i64, i32) {
    (score_sum(d.votes@, p.id) as i64, p.id)
}

/// Descending rank order: higher score first, then newer post.
pub open spec fn key_ge(a: (i64, i32), b: (i64, i32)) -> bool {
    a.0 > b.0 || (a.0 == b.0 && a.1 >= b.1)
}

/// Inserts a key into a rank-descending sequence, keeping the order.
pub open spec fn insert_desc(s: Seq<(i64, i32)>, x: (i64, i32)) -> Seq<(i64, i32)>
    decreases s.len(),
{
    if s.len() == 0 {
        seq![x]
    } else if key_ge(s[0], x) {
        seq![s[0]] + insert_desc(s.drop_first(), x)
    } else {
        seq![x] + s
    }
}

/// Insertion sort into descending rank order.
pub open spec fn sort_desc(s: Seq<(i64, i32)>) -> Seq<(i64, i32)>
    decreases s.len(),
{
    if s.len() == 0 {
        Seq::empty()
    } else {
        insert_desc(sort_desc(s.drop_last()), s.last())
    }
}

/// The rank keys of a post sequence's candidates.
pub open spec fn keys_of(
    d: Database,
    t: PostListingType,
    community: Option<i32>,
    show_nsfw: bool,
    viewer: Option<i32>,
    s: Seq<Post>,
) -> Seq<(i64, i32)> {
    candidates(d, t, community, show_nsfw, viewer, s).map_values(|p: Post| key_of(d, p))
}

/// The views a viewer sees of a key sequence's posts.
pub open spec fn views_of(d: Database, ks: Seq<(i64, i32)>, viewer: Option<i32>) -> Seq<PostView> {
    ks.map_values(|k: (i64, i32)| read_view_spec(d, k.1, viewer)->Some_0)
}

/// The candidate keys in the order the sort asks for: newest first for
/// `New`, rank-descending for the top and hot sorts.
pub open spec fn ordered_keys(
    d: Database,
    t: PostListingType,
    srt: SortType,
    community: Option<i32>,
    show_nsfw: bool,
    viewer: Option<i32>,
) -> Seq<(i64, i32)> {
    let keys = keys_of(d, t, community, show_nsfw, viewer, d.posts@);
    match srt {
        SortType::New => keys.reverse(),
        _ => sort_desc(keys),
    }
}

/// One page of a listing: pages count from 1, a missing limit means the
/// store's default of 10, and a page past the end is empty.
pub open spec fn page_of(s: Seq<(i64, i32)>, page: Option<i64>, limit: Option<i64>) -> Seq<(i64, i32)> {
    let p: int = match page {
        Some(p) => if p < 1 { 1 } else { p as int },
        None => 1,
    };
    let l: int = match limit {
        Some(l) => if l < 0 { 0 } else { l as int },
        None => 10,
    };
    let start = (p - 1) * l;
    if start >= s.len() {
        Seq::empty()
    } else {
        s.subrange(start, if start + l <= s.len() { start + l } else { s.len() as int })
    }
}

/// The full listing: the requested page of the ordered candidates, each
/// rendered as the viewer's fresh view of that post.
pub open spec fn listing_spec(
    d: Database,
    t: PostListingType,
    srt: SortType,
    community: Option<i32>,
    show_nsfw: bool,
    viewer: Option<i32>,
    page: Option<i64>,
    limit: Option<i64>,
) -> Seq<PostView> {
    views_of(d, page_of(ordered_keys(d, t, srt, community, show_nsfw, viewer), page, limit), viewer)
}

/// The descending rank order is total: any two keys compare, ties only
/// between equal keys.
pub proof fn lemma_key_ge_total(a: (i64, i32), b: (i64, i32))
    ensures
        key_ge(a, b) || key_ge(b, a),
        key_ge(a, b) && key_ge(b, a) ==> a == b,
{
}

/// The ordered insert keeps a rank-descending sequence rank-descending.
proof fn lemma_insert_desc_sorted(s: Seq<(i64, i32)>, x: (i64, i32))
    requires
        forall|i: int, j: int| 0 <= i < j < s.len() ==> key_ge(#[trigger] s[i], #[trigger] s[j]),
    ensures
        forall|i: int, j: int|
            0 <= i < j < insert_desc(s, x).len()
                ==> key_ge(#[trigger] insert_desc(s, x)[i], #[trigger] insert_desc(s, x)[j]),
    decreases s.len(),
{
    let out = insert_desc(s, x);
    if s.len() == 0 {
    } else if key_ge(s[0], x) {
        let rest = s.drop_first();
        assert(forall|i: int, j: int|
            0 <= i < j < rest.len() ==> key_ge(#[trigger] rest[i], #[trigger] rest[j]));
        lemma_insert_desc_sorted(rest, x);
        lemma_insert_desc_elems(rest, x);
        assert(out == seq![s[0]] + insert_desc(rest, x));
        assert forall|i: int, j: int| 0 <= i < j < out.len()
            implies key_ge(#[trigger] out[i], #[trigger] out[j]) by {
            if i == 0 {
                assert(out[j] == insert_desc(rest, x)[j - 1]);
                if rest.contains(out[j]) {
                    let m = choose|m: int| 0 <= m < rest.len() && rest[m] == out[j];
                    assert(key_ge(s[0], s[m + 1]));
                } else {
                    assert(out[j] == x);
                }
            } else {
                assert(out[i] == insert_desc(rest, x)[i - 1]);
                assert(out[j] == insert_desc(rest, x)[j - 1]);
            }
        }
    } else {
        lemma_key_ge_total(s[0], x);
        assert(out == seq![x] + s);
        assert forall|i: int, j: int| 0 <= i < j < out.len()
            implies key_ge(#[trigger] out[i], #[trigger] out[j]) by {
            if i == 0 {
                assert(out[j] == s[j - 1]);
                if j > 1 {
                    assert(key_ge(s[0], s[j - 1]));
                }
                assert(key_ge(x, s[0]));
            } else {
                assert(out[i] == s[i - 1]);
                assert(out[j] == s[j - 1]);
            }
        }
    }
}

/// The top and hot listings really are rank-descending: every earlier
/// key of the sort is at least every later one.
pub proof fn lemma_sort_desc_sorted(s: Seq<(i64, i32)>)
    ensures
        forall|i: int, j: int|
            0 <= i < j < sort_desc(s).len()
                ==> key_ge(#[trigger] sort_desc(s)[i], #[trigger] sort_desc(s)[j]),
    decreases s.len(),
{
    if s.len() > 0 {
        lemma_sort_desc_sorted(s.drop_last());
        lemma_insert_desc_sorted(sort_desc(s.drop_last()), s.last());
    }
}

/// Inserting at the first position whose key is not at least `x` is what
/// the ordered insert does.
proof fn lemma_insert_desc_at(s: Seq<(i64, i32)>, x: (i64, i32), j: int)
    requires
        0 <= j <= s.len(),
        forall|p: int| 0 <= p < j ==> key_ge(#[trigger] s[p], x),
        j < s.len() ==> !key_ge(s[j], x),
    ensures
        insert_desc(s, x) == s.take(j) + seq![x] + s.skip(j),
    decreases s.len(),
{
    if j == 0 {
        if s.len() == 0 {
            assert(insert_desc(s, x) =~= s.take(0) + seq![x] + s.skip(0));
        } else {
            assert(insert_desc(s, x) =~= s.take(0) + seq![x] + s.skip(0));
        }
    } else {
        assert(key_ge(s[0], x));
        let rest = s.drop_first();
        assert(forall|p: int| 0 <= p < j - 1 ==> key_ge(#[trigger] rest[p], x));
        lemma_insert_desc_at(rest, x, j - 1);
        assert(insert_desc(s, x) == seq![s[0]] + insert_desc(rest, x));
        assert(insert_desc(s, x) =~= s.take(j) + seq![x] + s.skip(j));
    }
}

/// The ordered insert keeps the length and the elements, adding `x`.
proof fn lemma_insert_desc_elems(s: Seq<(i64, i32)>, x: (i64, i32))
    ensures
        insert_desc(s, x).len() == s.len() + 1,
        forall|k: int| 0 <= k < insert_desc(s, x).len()
            ==> s.contains(#[trigger] insert_desc(s, x)[k]) || insert_desc(s, x)[k] == x,
    decreases s.len(),
{
    if s.len() > 0 && key_ge(s[0], x) {
        let rest = s.drop_first();
        lemma_insert_desc_elems(rest, x);
        let out = insert_desc(s, x);
        assert(out == seq![s[0]] + insert_desc(rest, x));
        assert forall|k: int| 0 <= k < out.len()
            implies s.contains(#[trigger] out[k]) || out[k] == x by {
            if k == 0 {
                assert(s[0] == out[0]);
                assert(s.contains(out[0]));
            } else {
                assert(out[k] == insert_desc(rest, x)[k - 1]);
                if rest.contains(out[k]) {
                    let j = choose|j: int| 0 <= j < rest.len() && rest[j] == out[k];
                    assert(s[j + 1] == out[k]);
                    assert(s.contains(out[k]));
                }
            }
        }
    } else {
        assert forall|k: int| 0 <= k < insert_desc(s, x).len()
            implies s.contains(#[trigger] insert_desc(s, x)[k]) || insert_desc(s, x)[k] == x by {
            if s.len() == 0 {
            } else if k > 0 {
                assert(insert_desc(s, x)[k] == s[k - 1]);
                assert(s.contains(s[k - 1]));
            }
        }
    }
}

/// The sort keeps the length and the elements of its input.
proof fn lemma_sort_desc_elems(s: Seq<(i64, i32)>)
    ensures
        sort_desc(s).len() == s.len(),
        forall|k: int| 0 <= k < sort_desc(s).len() ==> s.contains(#[trigger] sort_desc(s)[k]),
    decreases s.len(),
{
    if s.len() > 0 {
        let rest = s.drop_last();
        lemma_sort_desc_elems(rest);
        lemma_insert_desc_elems(sort_desc(rest), s.last());
        let out = sort_desc(s);
        assert forall|k: int| 0 <= k < out.len() implies s.contains(#[trigger] out[k]) by {
            if sort_desc(rest).contains(out[k]) {
                let j = choose|j: int| 0 <= j < sort_desc(rest).len() && sort_desc(rest)[j] == out[k];
                assert(rest.contains(sort_desc(rest)[j]));
                let m = choose|m: int| 0 <= m < rest.len() && rest[m] == out[k];
                assert(s[m] == out[k]);
            } else {
                assert(out[k] == s.last());
                assert(s[s.len() - 1] == out[k]);
            }
        }
    }
}

/// Every candidate is a stored post, and there are no more candidates
/// than stored posts.
proof fn lemma_candidates_sub(
    d: Database,
    t: PostListingType,
    community: Option<i32>,
    show_nsfw: bool,
    viewer: Option<i32>,
    s: Seq<Post>,
)
    ensures
        candidates(d, t, community, show_nsfw, viewer, s).len() <= s.len(),
        forall|k: int| 0 <= k < candidates(d, t, community, show_nsfw, viewer, s).len()
            ==> s.contains(#[trigger] candidates(d, t, community, show_nsfw, viewer, s)[k]),
    decreases s.len(),
{
    if s.len() > 0 {
        let rest = s.drop_last();
        lemma_candidates_sub(d, t, community, show_nsfw, viewer, rest);
        let out = candidates(d, t, community, show_nsfw, viewer, s);
        let sub = candidates(d, t, community, show_nsfw, viewer, rest);
        assert forall|k: int| 0 <= k < out.len() implies s.contains(#[trigger] out[k]) by {
            if k < sub.len() {
                assert(sub[k] == out[k]);
                let m = choose|m: int| 0 <= m < rest.len() && rest[m] == out[k];
                assert(s[m] == out[k]);
            } else {
                assert(out[k] == s.last());
                assert(s[s.len() - 1] == out[k]);
            }
        }
    }
}

/// A strictly id-ascending post table cannot outgrow the id space.
proof fn lemma_posts_len_bound(s: Seq<Post>)
    requires
        forall|a: int, b: int|
            0 <= a < b < s.len() ==> (#[trigger] s[a]).id < (#[trigger] s[b]).id,
    ensures
        s.len() <= 0x1_0000_0000,
    decreases s.len(),
{
    if s.len() >= 2 {
        lemma_posts_id_gap(s);
    }
}

/// In a strictly ascending table the last id is at least the first plus
/// the number of rows between them.
proof fn lemma_posts_id_gap(s: Seq<Post>)
    requires
        s.len() >= 1,
        forall|a: int, b: int|
            0 <= a < b < s.len() ==> (#[trigger] s[a]).id < (#[trigger] s[b]).id,
    ensures
        s.last().id >= s[0].id + s.len() - 1,
    decreases s.len(),
{
    if s.len() >= 2 {
        let rest = s.drop_last();
        assert(forall|k: int| 0 <= k < rest.len() ==> #[trigger] rest[k] == s[k]);
        lemma_posts_id_gap(rest);
        assert(s.last().id > rest.last().id);
    }
}

impl Database {
    /// The store's filtered, ordered, paginated listing, rendered as the
    /// viewer's fresh views.
    #[verifier::rlimit(50)]
    pub fn list_posts(
        &self,
        t: PostListingType,
        srt: SortType,
        community: Option<i32>,
        show_nsfw: bool,
        viewer: Option<i32>,
        page: Option<i64>,
        limit: Option<i64>,
    ) -> (r: Vec<PostView>)
        requires
            self.wf(),
        ensures
            r@ == listing_spec(*self, t, srt, community, show_nsfw, viewer, page, limit),
    {
        let mut keys: Vec<(i64, i32)> = Vec::new();
        proof {
            assert(self.posts@.take(0) =~= Seq::<Post>::empty());
            assert(keys_of(*self, t, community, show_nsfw, viewer, self.posts@.take(0))
                =~= Seq::<(i64, i32)>::empty());
        }
        let mut i: usize = 0;
        while i < self.posts.len()
            invariant
                self.wf(),
                i <= self.posts@.len(),
                keys@ == keys_of(*self, t, community, show_nsfw, viewer, self.posts@.take(
                    i as int,
                )),
                keys@.len() <= i,
            decreases self.posts@.len() - i,
        {
            proof {
                assert(self.posts@.take(i + 1 as int).drop_last() =~= self.posts@.take(i as int));
                assert(self.posts@.take(i + 1 as int).last() == self.posts@[i as int]);
            }
            let p = &self.posts[i];
            let type_ok = match t {
                PostListingType::Subscribed => match viewer {
                    Some(u) => self.check_follows(u, p.community_id),
                    None => false,
                },
                _ => true,
            };
            let community_ok = match community {
                Some(c) => p.community_id == c,
                None => true,
            };
            if !p.removed && !p.deleted && (show_nsfw || !p.nsfw) && community_ok && type_ok {
                let score = self.score_of(p.id);
                keys.push((score, p.id));
                proof {
                    let c1 = candidates(*self, t, community, show_nsfw, viewer, self.posts@.take(
                        i as int,
                    ));
                    let c2 = candidates(*self, t, community, show_nsfw, viewer, self.posts@.take(
                        i + 1 as int,
                    ));
                    assert(c2 == c1.push(self.posts@[i as int]));
                    assert(keys_of(*self, t, community, show_nsfw, viewer, self.posts@.take(
                        i + 1 as int,
                    )) =~= keys_of(*self, t, community, show_nsfw, viewer, self.posts@.take(
                        i as int,
                    )).push(key_of(*self, self.posts@[i as int])));
                }
            }
            i = i + 1;
        }
        proof {
            assert(self.posts@.take(self.posts@.len() as int) =~= self.posts@);
        }
        let ghost cand = candidates(*self, t, community, show_nsfw, viewer, self.posts@);
        let ghost allkeys = keys_of(*self, t, community, show_nsfw, viewer, self.posts@);
        let ghost ordered = ordered_keys(*self, t, srt, community, show_nsfw, viewer);

        // Order the candidates as the sort asks.
        let is_new = match srt {
            SortType::New => true,
            _ => false,
        };
        let mut sorted: Vec<(i64, i32)> = Vec::new();
        if is_new {
            let mut j: usize = keys.len();
            while j > 0
                invariant
                    j <= keys@.len(),
                    sorted@.len() == keys@.len() - j,
                    forall|x: int| 0 <= x < sorted@.len()
                        ==> #[trigger] sorted@[x] == keys@[keys@.len() - 1 - x],
                decreases j,
            {
                sorted.push(keys[j - 1]);
                j = j - 1;
            }
            proof {
                assert(sorted@ =~= keys@.reverse());
            }
        } else {
            proof {
                assert(keys@.take(0) =~= Seq::<(i64, i32)>::empty());
            }
            let mut idx: usize = 0;
            while idx < keys.len()
                invariant
                    idx <= keys@.len(),
                    sorted@ == sort_desc(keys@.take(idx as int)),
                    sorted@.len() == idx,
                decreases keys@.len() - idx,
            {
                let x = keys[idx];
                let mut pos: usize = 0;
                while pos < sorted.len()
                    invariant_except_break
                        pos <= sorted@.len(),
                        forall|q: int| 0 <= q < pos ==> key_ge(#[trigger] sorted@[q], x),
                    ensures
                        pos <= sorted@.len(),
                        forall|q: int| 0 <= q < pos ==> key_ge(#[trigger] sorted@[q], x),
                        pos < sorted@.len() ==> !key_ge(sorted@[pos as int], x),
                    decreases sorted@.len() - pos,
                {
                    let y = sorted[pos];
                    if !(y.0 > x.0 || (y.0 == x.0 && y.1 >= x.1)) {
                        proof {
                            assert(!key_ge(sorted@[pos as int], x));
                        }
                        break;
                    }
                    pos = pos + 1;
                }
                proof {
                    lemma_insert_desc_elems(sorted@, x);
                }
                let ghost before = sorted@;
                sorted.insert(pos, x);
                proof {
                    lemma_insert_desc_at(before, x, pos as int);
                    assert(sorted@ =~= before.take(pos as int) + seq![x] + before.skip(pos as int));
                    assert(keys@.take(idx + 1 as int).drop_last() =~= keys@.take(idx as int));
                    assert(keys@.take(idx + 1 as int).last() == keys@[idx as int]);
                    assert(sorted@ == sort_desc(keys@.take(idx + 1 as int)));
                }
                idx = idx + 1;
            }
            proof {
                assert(keys@.take(keys@.len() as int) =~= keys@);
            }
        }
        proof {
            assert(sorted@ == ordered);
            lemma_candidates_sub(*self, t, community, show_nsfw, viewer, self.posts@);
            lemma_posts_len_bound(self.posts@);
            if !is_new {
                lemma_sort_desc_elems(allkeys);
            }
            assert(sorted@.len() <= 0x1_0000_0000);
        }

        // Page bounds: pages count from 1, limit defaults to 10.
        let p: i64 = match page {
            Some(p) => if p < 1 {
                1
            } else {
                p
            },
            None => 1,
        };
        let l: i64 = match limit {
            Some(l) => if l < 0 {
                0
            } else {
                l
            },
            None => 10,
        };
        let ghost pageseq = page_of(ordered, page, limit);
        let mut paged: Vec<(i64, i32)> = Vec::new();
        proof {
            assert((p - 1) as int * l as int >= 0) by (nonlinear_arith)
                requires
                    p >= 1,
                    l >= 0,
            ;
        }
        let start_opt = (p - 1).checked_mul(l);
        match start_opt {
            None => {
                proof {
                    assert(pageseq =~= Seq::<(i64, i32)>::empty());
                }
            },
            Some(st) => {
                if st >= sorted.len() as i64 {
                    proof {
                        assert(pageseq =~= Seq::<(i64, i32)>::empty());
                    }
                } else {
                    let start = st as usize;
                    let rem = sorted.len() - start;
                    let width: usize = if l as u64 <= rem as u64 {
                        l as usize
                    } else {
                        rem
                    };
                    proof {
                        assert(paged@ =~= sorted@.subrange(start as int, start as int));
                    }
                    let mut c: usize = 0;
                    while c < width
                        invariant
                            sorted@.len() <= 0x1_0000_0000,
                            start + width <= sorted@.len(),
                            c <= width,
                            paged@ == sorted@.subrange(start as int, start as int + c as int),
                        decreases width - c,
                    {
                        paged.push(sorted[start + c]);
                        proof {
                            assert(paged@ =~= sorted@.subrange(
                                start as int,
                                start as int + c + 1 as int,
                            ));
                        }
                        c = c + 1;
                    }
                    proof {
                        assert(paged@ =~= pageseq);
                        assert forall|x: int| 0 <= x < pageseq.len()
                            implies crate::store::post_id_in(
                            self.posts@,
                            (#[trigger] pageseq[x]).1,
                        ) by {
                            let kk = pageseq[x];
                            assert(kk == sorted@[st + x]);
                            match srt {
                                SortType::New => {
                                    assert(sorted@ == allkeys.reverse());
                                    assert(kk == allkeys[allkeys.len() - 1 - (st + x)]);
                                    assert(allkeys.contains(kk));
                                },
                                _ => {
                                    assert(sorted@ == sort_desc(allkeys));
                                    assert(allkeys.contains(kk));
                                },
                            }
                            let j = choose|j: int| 0 <= j < allkeys.len() && allkeys[j] == kk;
                            assert(allkeys[j] == key_of(*self, cand[j]));
                            assert(kk.1 == cand[j].id);
                            assert(self.posts@.contains(cand[j]));
                            let m2 = choose|m2: int|
                                0 <= m2 < self.posts@.len() && self.posts@[m2] == cand[j];
                            assert((self.posts@[m2]).id == kk.1);
                        }
                    }
                }
            },
        }

        // Render each listed post as the viewer's fresh view.
        let mut out: Vec<PostView> = Vec::new();
        proof {
            assert(views_of(*self, pageseq.take(0), viewer) =~= Seq::<PostView>::empty());
        }
        let mut m: usize = 0;
        while m < paged.len()
            invariant
                self.wf(),
                paged@ == pageseq,
                forall|x: int| 0 <= x < pageseq.len()
                    ==> crate::store::post_id_in(self.posts@, (#[trigger] pageseq[x]).1),
                m <= paged@.len(),
                out@ == views_of(*self, pageseq.take(m as int), viewer),
            decreases paged@.len() - m,
        {
            let kid = paged[m].1;
            proof {
                crate::store::lemma_find_post_exists(self.posts@, kid);
            }
            let v = match self.read_view(kid, viewer) {
                Some(v) => v,
                None => {
                    proof {
                        assert(false);
                    }
                    return out;
                },
            };
            out.push(v);
            proof {
                assert(views_of(*self, pageseq.take(m + 1 as int), viewer) =~= views_of(
                    *self,
                    pageseq.take(m as int),
                    viewer,
                ).push(read_view_spec(*self, pageseq[m as int].1, viewer)->Some_0));
            }
            m = m + 1;
        }
        proof {
            assert(pageseq.take(pageseq.len() as int) =~= pageseq);
        }
        out
    }
}

} // verus!
