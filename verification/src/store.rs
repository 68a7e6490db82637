//! The storage boundary of the post subsystem, modeled as an in-memory
//! store: all durable rows, their integrity invariant, and the reads and
//! writes the orchestrator drives.

use vstd::prelude::*;
use crate::domain::{
    clone_opt_string, Claims, Comment, Community, CommunityBanRow, FollowRow, ModLockRow,
    ModRemoveRow, ModeratorRow, Post, SaveRow, Session, User, VoteRow,
};
use crate::ledger::{
    lemma_replace_wf, lemma_save_set_wf, lemma_score_sum_bound, lemma_strip_frame, lemma_strip_wf,
    replace_spec, save_count, save_set_spec, saves_wf, score_sum, strip_pair, strip_save,
    valid_score, vote_lookup, votes_wf, VOTE_CAP,
};

verus! {

/// The complete field set a post create or update supplies. Fields left
/// `None` fall back to defaults; they never preserve previous values.
pub struct PostForm {
    pub name: String,
    pub url: Option<String>,
    pub body: Option<String>,
    pub creator_id: i32,
    pub community_id: i32,
    pub removed: Option<bool>,
    pub deleted: Option<bool>,
    pub nsfw: bool,
    pub locked: Option<bool>,
    pub updated: Option<i64>,
}

/// The read-optimized composite of a post: its fields plus the aggregated
/// score, the viewer's own vote (0 if none or anonymous), and whether the
/// viewer has saved it.
#[derive(Debug)]
pub struct PostView {
    pub id: i32,
    pub name: String,
    pub url: Option<String>,
    pub body: Option<String>,
    pub creator_id: i32,
    pub community_id: i32,
    pub removed: bool,
    pub deleted: bool,
    pub locked: bool,
    pub nsfw: bool,
    pub updated: Option<i64>,
    pub score: i64,
    pub my_vote: i16,
    pub saved: bool,
}

/// Every durable row of the subsystem. The store is the sole owner of
/// state; the orchestrator holds only transient values during a request.
pub struct Database {
    pub users: Vec<User>,
    pub communities: Vec<Community>,
    pub moderators: Vec<ModeratorRow>,
    pub community_bans: Vec<CommunityBanRow>,
    pub follows: Vec<FollowRow>,
    pub sessions: Vec<Session>,
    pub posts: Vec<Post>,
    pub comments: Vec<Comment>,
    pub votes: Vec<VoteRow>,
    pub saves: Vec<SaveRow>,
    pub mod_removals: Vec<ModRemoveRow>,
    pub mod_locks: Vec<ModLockRow>,
    pub disallowed_terms: Vec<String>,
    pub site_creator_id: i32,
    pub next_post_id: i32,
    pub clock: i64,
}

/// First stored post carrying the id, if any.
pub open spec fn find_post(s: Seq<Post>, id: i32) -> Option<Post>
    decreases s.len(),
{
    if s.len() == 0 {
        None
    } else if s[0].id == id {
        Some(s[0])
    } else {
        find_post(s.drop_first(), id)
    }
}

/// First stored community carrying the id, if any.
pub open spec fn find_community(s: Seq<Community>, id: i32) -> Option<Community>
    decreases s.len(),
{
    if s.len() == 0 {
        None
    } else if s[0].id == id {
        Some(s[0])
    } else {
        find_community(s.drop_first(), id)
    }
}

/// The claims certified by the first session holding the token, if any.
/// A token no session holds resolves to nothing: a decode failure and a
/// missing token are indistinguishable to callers.
pub open spec fn resolve_spec(s: Seq<Session>, tok: Seq<char>) -> Option<Claims>
    decreases s.len(),
{
    if s.len() == 0 {
        None
    } else if s[0].token@ == tok {
        Some(s[0].claims)
    } else {
        resolve_spec(s.drop_first(), tok)
    }
}

/// Some row of the sequence carries this user id.
pub open spec fn user_id_in(users: Seq<User>, id: i32) -> bool {
    exists|k: int| 0 <= k < users.len() && (#[trigger] users[k]).id == id
}

/// Some row of the sequence carries this community id.
pub open spec fn community_id_in(communities: Seq<Community>, id: i32) -> bool {
    exists|k: int| 0 <= k < communities.len() && (#[trigger] communities[k]).id == id
}

/// Some row of the sequence carries this post id.
pub open spec fn post_id_in(posts: Seq<Post>, id: i32) -> bool {
    exists|k: int| 0 <= k < posts.len() && (#[trigger] posts[k]).id == id
}

/// The ban list holds a row for the pair.
pub open spec fn ban_row_in(bans: Seq<CommunityBanRow>, user_id: i32, community_id: i32) -> bool {
    exists|k: int|
        0 <= k < bans.len() && #[trigger] bans[k] == CommunityBanRow { community_id, user_id }
}

/// The roster holds a row for the pair.
pub open spec fn mod_row_in(mods: Seq<ModeratorRow>, user_id: i32, community_id: i32) -> bool {
    exists|k: int|
        0 <= k < mods.len() && #[trigger] mods[k] == ModeratorRow { community_id, user_id }
}

/// Some row carries this user id with the global ban flag set.
pub open spec fn banned_user_in(users: Seq<User>, id: i32) -> bool {
    exists|k: int|
        0 <= k < users.len() && (#[trigger] users[k]).id == id && users[k].banned
}

/// Some row carries this user id with the site admin flag set.
pub open spec fn admin_user_in(users: Seq<User>, id: i32) -> bool {
    exists|k: int|
        0 <= k < users.len() && (#[trigger] users[k]).id == id && users[k].admin
}

/// The follow table holds a row for the pair.
pub open spec fn follow_row_in(fs: Seq<FollowRow>, user_id: i32, community_id: i32) -> bool {
    exists|k: int|
        0 <= k < fs.len() && #[trigger] fs[k] == FollowRow { community_id, user_id }
}

impl Database {
    /// Some user row carries this id.
    pub open spec fn user_exists(self, id: i32) -> bool {
        user_id_in(self.users@, id)
    }

    /// Some community row carries this id.
    pub open spec fn community_exists(self, id: i32) -> bool {
        community_id_in(self.communities@, id)
    }

    /// Some post row carries this id.
    pub open spec fn post_exists(self, id: i32) -> bool {
        post_id_in(self.posts@, id)
    }

    /// The user holds an active ban scoped to the community.
    pub open spec fn community_banned(self, user_id: i32, community_id: i32) -> bool {
        ban_row_in(self.community_bans@, user_id, community_id)
    }

    /// The user's account carries the global ban flag.
    pub open spec fn site_banned(self, user_id: i32) -> bool {
        banned_user_in(self.users@, user_id)
    }

    /// The user currently moderates the community.
    pub open spec fn is_moderator(self, user_id: i32, community_id: i32) -> bool {
        mod_row_in(self.moderators@, user_id, community_id)
    }

    /// The user's account carries the site admin flag.
    pub open spec fn is_admin(self, user_id: i32) -> bool {
        admin_user_in(self.users@, user_id)
    }

    /// The user follows the community.
    pub open spec fn follows_community(self, user_id: i32, community_id: i32) -> bool {
        follow_row_in(self.follows@, user_id, community_id)
    }

    /// Integrity of the store: unique keys, foreign keys, well-formed
    /// ledgers, and a fresh next post id.
    pub open spec fn wf(self) -> bool {
        &&& votes_wf(self.votes@)
        &&& self.votes@.len() <= VOTE_CAP
        &&& saves_wf(self.saves@)
        &&& forall|a: int, b: int|
            0 <= a < b < self.posts@.len()
                ==> (#[trigger] self.posts@[a]).id < (#[trigger] self.posts@[b]).id
        &&& forall|k: int|
            0 <= k < self.posts@.len() ==> (#[trigger] self.posts@[k]).id < self.next_post_id
        &&& forall|a: int, b: int|
            0 <= a < b < self.users@.len()
                ==> (#[trigger] self.users@[a]).id != (#[trigger] self.users@[b]).id
        &&& forall|a: int, b: int|
            0 <= a < b < self.communities@.len()
                ==> (#[trigger] self.communities@[a]).id
                    != (#[trigger] self.communities@[b]).id
        &&& forall|k: int|
            0 <= k < self.sessions@.len()
                ==> user_id_in(self.users@, (#[trigger] self.sessions@[k]).claims.id)
        &&& forall|k: int|
            0 <= k < self.votes@.len()
                ==> post_id_in(self.posts@, (#[trigger] self.votes@[k]).post_id)
        &&& forall|k: int|
            0 <= k < self.posts@.len()
                ==> community_id_in(self.communities@, (#[trigger] self.posts@[k]).community_id)
    }

    /// Resolves a bearer token to the claims it certifies, if any.
    pub fn resolve(&self, token: &String) -> (r: Option<Claims>)
        ensures
            r == resolve_spec(self.sessions@, token@),
    {
        proof {
            assert(self.sessions@.skip(0) =~= self.sessions@);
        }
        let mut i: usize = 0;
        while i < self.sessions.len()
            invariant
                i <= self.sessions@.len(),
                resolve_spec(self.sessions@.skip(i as int), token@)
                    == resolve_spec(self.sessions@, token@),
            decreases self.sessions@.len() - i,
        {
            proof {
                assert(self.sessions@.skip(i as int)[0] == self.sessions@[i as int]);
            }
            if self.sessions[i].token == *token {
                return Some(self.sessions[i].claims);
            }
            proof {
                assert(self.sessions@.skip(i as int).drop_first()
                    =~= self.sessions@.skip(i + 1 as int));
            }
            i = i + 1;
        }
        proof {
            assert(self.sessions@.skip(i as int).len() == 0);
        }
        None
    }

    /// Index of the post row carrying the id, if any.
    pub fn post_index(&self, id: i32) -> (r: Option<usize>)
        ensures
            match r {
                Some(k) => k < self.posts@.len() && self.posts@[k as int].id == id
                    && find_post(self.posts@, id) == Some(self.posts@[k as int]),
                None => find_post(self.posts@, id) is None,
            },
    {
        proof {
            assert(self.posts@.skip(0) =~= self.posts@);
        }
        let mut i: usize = 0;
        while i < self.posts.len()
            invariant
                i <= self.posts@.len(),
                find_post(self.posts@.skip(i as int), id) == find_post(self.posts@, id),
            decreases self.posts@.len() - i,
        {
            proof {
                assert(self.posts@.skip(i as int)[0] == self.posts@[i as int]);
            }
            if self.posts[i].id == id {
                return Some(i);
            }
            proof {
                assert(self.posts@.skip(i as int).drop_first()
                    =~= self.posts@.skip(i + 1 as int));
            }
            i = i + 1;
        }
        proof {
            assert(self.posts@.skip(i as int).len() == 0);
        }
        None
    }

    /// Index of the community row carrying the id, if any.
    pub fn community_index(&self, id: i32) -> (r: Option<usize>)
        ensures
            match r {
                Some(k) => k < self.communities@.len() && self.communities@[k as int].id == id
                    && find_community(self.communities@, id)
                        == Some(self.communities@[k as int]),
                None => find_community(self.communities@, id) is None,
            },
    {
        proof {
            assert(self.communities@.skip(0) =~= self.communities@);
        }
        let mut i: usize = 0;
        while i < self.communities.len()
            invariant
                i <= self.communities@.len(),
                find_community(self.communities@.skip(i as int), id)
                    == find_community(self.communities@, id),
            decreases self.communities@.len() - i,
        {
            proof {
                assert(self.communities@.skip(i as int)[0] == self.communities@[i as int]);
            }
            if self.communities[i].id == id {
                return Some(i);
            }
            proof {
                assert(self.communities@.skip(i as int).drop_first()
                    =~= self.communities@.skip(i + 1 as int));
            }
            i = i + 1;
        }
        proof {
            assert(self.communities@.skip(i as int).len() == 0);
        }
        None
    }

    /// Whether the user is banned in the community.
    pub fn check_community_ban(&self, user_id: i32, community_id: i32) -> (r: bool)
        ensures
            r == self.community_banned(user_id, community_id),
    {
        let row = CommunityBanRow { community_id, user_id };
        let mut i: usize = 0;
        while i < self.community_bans.len()
            invariant
                i <= self.community_bans@.len(),
                row == (CommunityBanRow { community_id, user_id }),
                forall|x: int| 0 <= x < i ==> #[trigger] self.community_bans@[x] != row,
            decreases self.community_bans@.len() - i,
        {
            if self.community_bans[i] == row {
                proof {
                    assert(self.community_bans@[i as int] == row);
                }
                return true;
            }
            i = i + 1;
        }
        false
    }

    /// Whether the user currently moderates the community.
    pub fn check_moderator(&self, user_id: i32, community_id: i32) -> (r: bool)
        ensures
            r == self.is_moderator(user_id, community_id),
    {
        let row = ModeratorRow { community_id, user_id };
        let mut i: usize = 0;
        while i < self.moderators.len()
            invariant
                i <= self.moderators@.len(),
                row == (ModeratorRow { community_id, user_id }),
                forall|x: int| 0 <= x < i ==> #[trigger] self.moderators@[x] != row,
            decreases self.moderators@.len() - i,
        {
            if self.moderators[i] == row {
                proof {
                    assert(self.moderators@[i as int] == row);
                }
                return true;
            }
            i = i + 1;
        }
        false
    }

    /// Whether the user follows the community.
    pub fn check_follows(&self, user_id: i32, community_id: i32) -> (r: bool)
        ensures
            r == self.follows_community(user_id, community_id),
    {
        let row = FollowRow { community_id, user_id };
        let mut i: usize = 0;
        while i < self.follows.len()
            invariant
                i <= self.follows@.len(),
                row == (FollowRow { community_id, user_id }),
                forall|x: int| 0 <= x < i ==> #[trigger] self.follows@[x] != row,
            decreases self.follows@.len() - i,
        {
            if self.follows[i] == row {
                proof {
                    assert(self.follows@[i as int] == row);
                }
                return true;
            }
            i = i + 1;
        }
        false
    }

    /// Whether the user's account carries the global ban flag.
    pub fn check_site_ban(&self, user_id: i32) -> (r: bool)
        requires
            self.wf(),
        ensures
            r == self.site_banned(user_id),
    {
        let mut i: usize = 0;
        while i < self.users.len()
            invariant
                self.wf(),
                i <= self.users@.len(),
                forall|x: int| 0 <= x < i ==> (#[trigger] self.users@[x]).id != user_id,
            decreases self.users@.len() - i,
        {
            if self.users[i].id == user_id {
                proof {
                    assert forall|k: int|
                        0 <= k < self.users@.len() && (#[trigger] self.users@[k]).id == user_id
                        implies k == i as int by {
                        if k != i as int {
                            assert(self.users@[k].id != self.users@[i as int].id);
                        }
                    }
                }
                return self.users[i].banned;
            }
            i = i + 1;
        }
        false
    }

    /// Whether the user's account carries the site admin flag.
    pub fn check_admin(&self, user_id: i32) -> (r: bool)
        requires
            self.wf(),
        ensures
            r == self.is_admin(user_id),
    {
        let mut i: usize = 0;
        while i < self.users.len()
            invariant
                self.wf(),
                i <= self.users@.len(),
                forall|x: int| 0 <= x < i ==> (#[trigger] self.users@[x]).id != user_id,
            decreases self.users@.len() - i,
        {
            if self.users[i].id == user_id {
                proof {
                    assert forall|k: int|
                        0 <= k < self.users@.len() && (#[trigger] self.users@[k]).id == user_id
                        implies k == i as int by {
                        if k != i as int {
                            assert(self.users@[k].id != self.users@[i as int].id);
                        }
                    }
                }
                return self.users[i].admin;
            }
            i = i + 1;
        }
        false
    }
}

/// The view a given viewer sees of a stored post, against given ledgers.
pub open spec fn view_spec(p: Post, votes: Seq<VoteRow>, saves: Seq<SaveRow>, viewer: Option<i32>) -> PostView {
    PostView {
        id: p.id,
        name: p.name,
        url: p.url,
        body: p.body,
        creator_id: p.creator_id,
        community_id: p.community_id,
        removed: p.removed,
        deleted: p.deleted,
        locked: p.locked,
        nsfw: p.nsfw,
        updated: p.updated,
        score: score_sum(votes, p.id) as i64,
        my_vote: match viewer {
            Some(u) => match vote_lookup(votes, p.id, u) {
                Some(v) => v,
                None => 0i16,
            },
            None => 0i16,
        },
        saved: match viewer {
            Some(u) => save_count(saves, p.id, u) > 0,
            None => false,
        },
    }
}

/// What a canonical re-read of the post returns: nothing for an unknown
/// id, else the fresh composite view.
pub open spec fn read_view_spec(d: Database, id: i32, viewer: Option<i32>) -> Option<PostView> {
    match find_post(d.posts@, id) {
        None => None,
        Some(p) => Some(view_spec(p, d.votes@, d.saves@, viewer)),
    }
}

impl Database {
    /// Aggregated score of a post: the sum of its ledger rows.
    pub fn score_of(&self, post_id: i32) -> (r: i64)
        requires
            self.wf(),
        ensures
            r as int == score_sum(self.votes@, post_id),
    {
        proof {
            lemma_score_sum_bound(self.votes@, post_id);
        }
        let mut acc: i64 = 0;
        let mut i: usize = 0;
        while i < self.votes.len()
            invariant
                self.wf(),
                i <= self.votes@.len(),
                acc as int == score_sum(self.votes@.take(i as int), post_id),
                -(i as int) <= acc as int <= i as int,
            decreases self.votes@.len() - i,
        {
            proof {
                assert(self.votes@.take(i + 1 as int).drop_last() =~= self.votes@.take(i as int));
                assert(self.votes@.take(i + 1 as int).last() == self.votes@[i as int]);
                assert(valid_score(self.votes@[i as int].score));
            }
            if self.votes[i].post_id == post_id {
                acc = acc + self.votes[i].score as i64;
            }
            i = i + 1;
        }
        proof {
            assert(self.votes@.take(self.votes@.len() as int) =~= self.votes@);
        }
        acc
    }

    /// The viewer's recorded vote on the post, if any.
    pub fn vote_of(&self, post_id: i32, user_id: i32) -> (r: Option<i16>)
        ensures
            r == vote_lookup(self.votes@, post_id, user_id),
    {
        proof {
            assert(self.votes@.take(self.votes@.len() as int) =~= self.votes@);
        }
        let mut i: usize = self.votes.len();
        while i > 0
            invariant
                i <= self.votes@.len(),
                vote_lookup(self.votes@.take(i as int), post_id, user_id)
                    == vote_lookup(self.votes@, post_id, user_id),
            decreases i,
        {
            proof {
                assert(self.votes@.take(i as int).drop_last() =~= self.votes@.take(i - 1));
                assert(self.votes@.take(i as int).last() == self.votes@[i - 1]);
            }
            if self.votes[i - 1].post_id == post_id && self.votes[i - 1].user_id == user_id {
                return Some(self.votes[i - 1].score);
            }
            i = i - 1;
        }
        None
    }

    /// Whether the viewer has saved the post.
    pub fn saved_by(&self, post_id: i32, user_id: i32) -> (r: bool)
        ensures
            r == (save_count(self.saves@, post_id, user_id) > 0),
    {
        proof {
            assert(self.saves@.take(self.saves@.len() as int) =~= self.saves@);
        }
        let mut i: usize = self.saves.len();
        while i > 0
            invariant
                i <= self.saves@.len(),
                save_count(self.saves@.take(i as int), post_id, user_id)
                    == save_count(self.saves@, post_id, user_id),
            decreases i,
        {
            proof {
                assert(self.saves@.take(i as int).drop_last() =~= self.saves@.take(i - 1));
                assert(self.saves@.take(i as int).last() == self.saves@[i - 1]);
            }
            if self.saves[i - 1].post_id == post_id && self.saves[i - 1].user_id == user_id {
                return true;
            }
            i = i - 1;
        }
        false
    }

    /// Canonical read of a post's composite view, always fresh from the
    /// stored rows.
    pub fn read_view(&self, id: i32, viewer: Option<i32>) -> (r: Option<PostView>)
        requires
            self.wf(),
        ensures
            r == read_view_spec(*self, id, viewer),
    {
        let k = match self.post_index(id) {
            Some(k) => k,
            None => {
                return None;
            },
        };
        let p = &self.posts[k];
        let score = self.score_of(p.id);
        let my_vote: i16 = match viewer {
            Some(u) => match self.vote_of(p.id, u) {
                Some(v) => v,
                None => 0,
            },
            None => 0,
        };
        let saved = match viewer {
            Some(u) => self.saved_by(p.id, u),
            None => false,
        };
        Some(PostView {
            id: p.id,
            name: p.name.clone(),
            url: clone_opt_string(&p.url),
            body: clone_opt_string(&p.body),
            creator_id: p.creator_id,
            community_id: p.community_id,
            removed: p.removed,
            deleted: p.deleted,
            locked: p.locked,
            nsfw: p.nsfw,
            updated: p.updated,
            score,
            my_vote,
            saved,
        })
    }
}

/// A defaulted optional flag: absent means false, never "leave as-is".
pub open spec fn opt_flag(o: Option<bool>) -> bool {
    match o {
        Some(b) => b,
        None => false,
    }
}

/// The stored post a full-field create or replace of a form yields.
pub open spec fn post_of_form(form: PostForm, id: i32) -> Post {
    Post {
        id,
        name: form.name,
        url: form.url,
        body: form.body,
        creator_id: form.creator_id,
        community_id: form.community_id,
        removed: opt_flag(form.removed),
        deleted: opt_flag(form.deleted),
        locked: opt_flag(form.locked),
        nsfw: form.nsfw,
        updated: form.updated,
    }
}

/// The rows no post operation ever writes are the same in both stores.
pub open spec fn core_rows_unchanged(a: Database, b: Database) -> bool {
    &&& a.users == b.users
    &&& a.communities == b.communities
    &&& a.moderators == b.moderators
    &&& a.community_bans == b.community_bans
    &&& a.follows == b.follows
    &&& a.sessions == b.sessions
    &&& a.comments == b.comments
    &&& a.disallowed_terms == b.disallowed_terms
    &&& a.site_creator_id == b.site_creator_id
    &&& a.clock == b.clock
}

/// A post with the id is found exactly when some row carries it.
pub proof fn lemma_find_post_exists(s: Seq<Post>, id: i32)
    ensures
        (find_post(s, id) is Some) <==> post_id_in(s, id),
    decreases s.len(),
{
    if s.len() == 0 {
    } else if s[0].id == id {
        assert(post_id_in(s, id));
    } else {
        lemma_find_post_exists(s.drop_first(), id);
        if post_id_in(s, id) {
            let k = choose|k: int| 0 <= k < s.len() && (#[trigger] s[k]).id == id;
            assert(s.drop_first()[k - 1] == s[k]);
            assert(post_id_in(s.drop_first(), id));
        }
        if post_id_in(s.drop_first(), id) {
            let k = choose|k: int|
                0 <= k < s.drop_first().len() && (#[trigger] s.drop_first()[k]).id == id;
            assert(s[k + 1] == s.drop_first()[k]);
            assert(post_id_in(s, id));
        }
    }
}

impl Database {
    /// A fresh, empty store: no rows, the first post id to allocate, and
    /// the clock at zero.
    pub fn empty(site_creator_id: i32) -> (r: Database)
        ensures
            r.wf(),
            r.users@.len() == 0,
            r.communities@.len() == 0,
            r.moderators@.len() == 0,
            r.community_bans@.len() == 0,
            r.follows@.len() == 0,
            r.sessions@.len() == 0,
            r.posts@.len() == 0,
            r.comments@.len() == 0,
            r.votes@.len() == 0,
            r.saves@.len() == 0,
            r.mod_removals@.len() == 0,
            r.mod_locks@.len() == 0,
            r.disallowed_terms@.len() == 0,
            r.site_creator_id == site_creator_id,
            r.next_post_id == 1,
            r.clock == 0,
    {
        Database {
            users: Vec::new(),
            communities: Vec::new(),
            moderators: Vec::new(),
            community_bans: Vec::new(),
            follows: Vec::new(),
            sessions: Vec::new(),
            posts: Vec::new(),
            comments: Vec::new(),
            votes: Vec::new(),
            saves: Vec::new(),
            mod_removals: Vec::new(),
            mod_locks: Vec::new(),
            disallowed_terms: Vec::new(),
            site_creator_id,
            next_post_id: 1,
            clock: 0,
        }
    }

    /// The vote ledger's replace: removes any row for the pair, then
    /// inserts a fresh one only for a score of -1 or +1. The insert step
    /// can fail on a full ledger; the removal then stands, leaving the
    /// pair with no vote.
    pub fn vote_replace(&mut self, post_id: i32, user_id: i32, score: i16) -> (r: Result<(), ()>)
        requires
            old(self).wf(),
            old(self).post_exists(post_id),
        ensures
            final(self).wf(),
            core_rows_unchanged(*old(self), *final(self)),
            final(self).posts == old(self).posts,
            final(self).next_post_id == old(self).next_post_id,
            final(self).saves == old(self).saves,
            final(self).mod_removals == old(self).mod_removals,
            final(self).mod_locks == old(self).mod_locks,
            r is Ok ==> final(self).votes@
                == replace_spec(old(self).votes@, post_id, user_id, score),
            r is Err ==> final(self).votes@ == strip_pair(old(self).votes@, post_id, user_id),
            r is Err <==> (valid_score(score)
                && strip_pair(old(self).votes@, post_id, user_id).len() == VOTE_CAP),
    {
        let ghost orig = self.votes@;
        let mut kept: Vec<VoteRow> = Vec::new();
        proof {
            assert(orig.take(0) =~= Seq::<VoteRow>::empty());
        }
        let mut i: usize = 0;
        while i < self.votes.len()
            invariant
                self.votes@ == orig,
                i <= orig.len(),
                kept@ == strip_pair(orig.take(i as int), post_id, user_id),
                kept@.len() <= i,
            decreases orig.len() - i,
        {
            proof {
                assert(orig.take(i + 1 as int).drop_last() =~= orig.take(i as int));
                assert(orig.take(i + 1 as int).last() == orig[i as int]);
            }
            let row = self.votes[i];
            if !(row.post_id == post_id && row.user_id == user_id) {
                kept.push(row);
            }
            i = i + 1;
        }
        proof {
            assert(orig.take(orig.len() as int) =~= orig);
            lemma_strip_wf(orig, post_id, user_id);
            lemma_strip_frame(orig, post_id, user_id);
        }
        let valid = score == 1 || score == -1;
        let mut failed = false;
        if valid {
            if kept.len() < VOTE_CAP {
                kept.push(VoteRow { post_id, user_id, score });
            } else {
                failed = true;
            }
        }
        self.votes = kept;
        proof {
            if valid && !failed {
                lemma_replace_wf(orig, post_id, user_id, score);
            }
            assert forall|k: int| 0 <= k < self.votes@.len()
                implies post_id_in(self.posts@, (#[trigger] self.votes@[k]).post_id) by {
                let stripped = strip_pair(orig, post_id, user_id);
                if k < stripped.len() {
                    let j = choose|j: int| 0 <= j < orig.len() && #[trigger] stripped[k] == orig[j];
                    assert(post_id_in(old(self).posts@, orig[j].post_id));
                } else {
                    assert(self.votes@[k].post_id == post_id);
                }
            }
        }
        if failed {
            Err(())
        } else {
            Ok(())
        }
    }

    /// The save ledger's set: with `saved`, ensures a row for the pair
    /// exists; without it, ensures none does. Idempotent either way.
    pub fn save_set(&mut self, post_id: i32, user_id: i32, saved: bool)
        requires
            old(self).wf(),
        ensures
            final(self).wf(),
            core_rows_unchanged(*old(self), *final(self)),
            final(self).posts == old(self).posts,
            final(self).next_post_id == old(self).next_post_id,
            final(self).votes == old(self).votes,
            final(self).mod_removals == old(self).mod_removals,
            final(self).mod_locks == old(self).mod_locks,
            final(self).saves@ == save_set_spec(old(self).saves@, post_id, user_id, saved),
    {
        proof {
            lemma_save_set_wf(old(self).saves@, post_id, user_id, saved);
        }
        if saved {
            if !self.saved_by(post_id, user_id) {
                self.saves.push(SaveRow { post_id, user_id });
            }
        } else {
            let ghost orig = self.saves@;
            let mut kept: Vec<SaveRow> = Vec::new();
            proof {
                assert(orig.take(0) =~= Seq::<SaveRow>::empty());
            }
            let mut i: usize = 0;
            while i < self.saves.len()
                invariant
                    self.saves@ == orig,
                    i <= orig.len(),
                    kept@ == strip_save(orig.take(i as int), post_id, user_id),
                decreases orig.len() - i,
            {
                proof {
                    assert(orig.take(i + 1 as int).drop_last() =~= orig.take(i as int));
                    assert(orig.take(i + 1 as int).last() == orig[i as int]);
                }
                let row = self.saves[i];
                if !(row.post_id == post_id && row.user_id == user_id) {
                    kept.push(row);
                }
                i = i + 1;
            }
            proof {
                assert(orig.take(orig.len() as int) =~= orig);
            }
            self.saves = kept;
        }
    }

    /// The store facade's create: persists a fresh post built from the
    /// full form, under a freshly allocated id. Fails only when no id is
    /// left to allocate or the named community does not exist.
    pub fn post_create(&mut self, form: PostForm) -> (r: Result<i32, ()>)
        requires
            old(self).wf(),
        ensures
            final(self).wf(),
            core_rows_unchanged(*old(self), *final(self)),
            final(self).votes == old(self).votes,
            final(self).saves == old(self).saves,
            final(self).mod_removals == old(self).mod_removals,
            final(self).mod_locks == old(self).mod_locks,
            r is Ok <==> (old(self).next_post_id < i32::MAX
                && old(self).community_exists(form.community_id)),
            r matches Ok(id) ==> id == old(self).next_post_id
                && final(self).posts@ == old(self).posts@.push(post_of_form(form, id))
                && final(self).next_post_id == old(self).next_post_id + 1
                && final(self).post_exists(id),
            r is Err ==> *final(self) == *old(self),
    {
        if self.next_post_id == i32::MAX {
            return Err(());
        }
        if self.community_index(form.community_id).is_none() {
            proof {
                lemma_find_community_exists(self.communities@, form.community_id);
            }
            return Err(());
        }
        proof {
            lemma_find_community_exists(self.communities@, form.community_id);
        }
        let id = self.next_post_id;
        let post = Post {
            id,
            name: form.name,
            url: form.url,
            body: form.body,
            creator_id: form.creator_id,
            community_id: form.community_id,
            removed: match form.removed {
                Some(b) => b,
                None => false,
            },
            deleted: match form.deleted {
                Some(b) => b,
                None => false,
            },
            locked: match form.locked {
                Some(b) => b,
                None => false,
            },
            nsfw: form.nsfw,
            updated: form.updated,
        };
        self.posts.push(post);
        self.next_post_id = id + 1;
        proof {
            let oldp = old(self).posts@;
            let newp = self.posts@;
            assert(newp.len() == oldp.len() + 1);
            assert(newp[newp.len() - 1].id == id);
            assert forall|a: int, b: int| 0 <= a < b < newp.len()
                implies (#[trigger] newp[a]).id < (#[trigger] newp[b]).id by {
                if b < oldp.len() {
                    assert(newp[a] == oldp[a]);
                    assert(newp[b] == oldp[b]);
                } else {
                    assert(newp[b].id == id);
                    assert(newp[a] == oldp[a]);
                    assert(oldp[a].id < old(self).next_post_id);
                }
            }
            assert forall|k: int| 0 <= k < newp.len()
                implies (#[trigger] newp[k]).id < self.next_post_id by {
                if k < oldp.len() {
                    assert(newp[k] == oldp[k]);
                    assert(oldp[k].id < old(self).next_post_id);
                }
            }
            assert forall|k: int| 0 <= k < self.votes@.len()
                implies post_id_in(newp, (#[trigger] self.votes@[k]).post_id) by {
                assert(post_id_in(oldp, self.votes@[k].post_id));
                let j = choose|j: int|
                    0 <= j < oldp.len() && (#[trigger] oldp[j]).id == self.votes@[k].post_id;
                assert(newp[j] == oldp[j]);
                assert(post_id_in(newp, self.votes@[k].post_id));
            }
            assert forall|k: int| 0 <= k < newp.len()
                implies community_id_in(self.communities@, (#[trigger] newp[k]).community_id) by {
                if k < oldp.len() {
                    assert(newp[k] == oldp[k]);
                    assert(community_id_in(self.communities@, oldp[k].community_id));
                }
            }
            assert(post_id_in(newp, id));
        }
        Ok(id)
    }

    /// The store facade's update: a full-field replace of the post's
    /// mutable fields from the form. Fails only when the post id is
    /// unknown or the named community does not exist.
    pub fn post_update(&mut self, id: i32, form: PostForm) -> (r: Result<(), ()>)
        requires
            old(self).wf(),
        ensures
            final(self).wf(),
            core_rows_unchanged(*old(self), *final(self)),
            final(self).votes == old(self).votes,
            final(self).saves == old(self).saves,
            final(self).mod_removals == old(self).mod_removals,
            final(self).mod_locks == old(self).mod_locks,
            final(self).next_post_id == old(self).next_post_id,
            r is Ok <==> (old(self).post_exists(id)
                && old(self).community_exists(form.community_id)),
            r is Ok ==> final(self).posts@.len() == old(self).posts@.len()
                && (forall|j: int| 0 <= j < old(self).posts@.len()
                    ==> #[trigger] final(self).posts@[j]
                        == if old(self).posts@[j].id == id {
                            post_of_form(form, id)
                        } else {
                            old(self).posts@[j]
                        }),
            r is Err ==> *final(self) == *old(self),
    {
        proof {
            lemma_find_post_exists(self.posts@, id);
        }
        let k = match self.post_index(id) {
            Some(k) => k,
            None => {
                return Err(());
            },
        };
        if self.community_index(form.community_id).is_none() {
            proof {
                lemma_find_community_exists(self.communities@, form.community_id);
            }
            return Err(());
        }
        proof {
            lemma_find_community_exists(self.communities@, form.community_id);
        }
        let post = Post {
            id,
            name: form.name,
            url: form.url,
            body: form.body,
            creator_id: form.creator_id,
            community_id: form.community_id,
            removed: match form.removed {
                Some(b) => b,
                None => false,
            },
            deleted: match form.deleted {
                Some(b) => b,
                None => false,
            },
            locked: match form.locked {
                Some(b) => b,
                None => false,
            },
            nsfw: form.nsfw,
            updated: form.updated,
        };
        let ghost oldp = self.posts@;
        self.posts.remove(k);
        self.posts.insert(k, post);
        proof {
            let newp = self.posts@;
            assert(newp =~= oldp.update(k as int, post_of_form(form, id)));
            assert forall|a: int, b: int| 0 <= a < b < newp.len()
                implies (#[trigger] newp[a]).id < (#[trigger] newp[b]).id by {
                assert(newp[a].id == oldp[a].id);
                assert(newp[b].id == oldp[b].id);
                assert(oldp[a].id < oldp[b].id);
            }
            assert forall|j: int| 0 <= j < oldp.len()
                implies #[trigger] newp[j]
                    == if oldp[j].id == id { post_of_form(form, id) } else { oldp[j] } by {
                if j != k as int && oldp[j].id == id {
                    if j < k as int {
                        assert(oldp[j].id < oldp[k as int].id);
                    } else {
                        assert(oldp[k as int].id < oldp[j].id);
                    }
                }
            }
            assert forall|x: int| 0 <= x < self.votes@.len()
                implies post_id_in(newp, (#[trigger] self.votes@[x]).post_id) by {
                assert(post_id_in(oldp, self.votes@[x].post_id));
                let j = choose|j: int|
                    0 <= j < oldp.len() && (#[trigger] oldp[j]).id == self.votes@[x].post_id;
                assert(newp[j].id == oldp[j].id);
                assert(post_id_in(newp, self.votes@[x].post_id));
            }
            assert forall|x: int| 0 <= x < newp.len()
                implies community_id_in(self.communities@, (#[trigger] newp[x]).community_id) by {
                if x != k as int {
                    assert(newp[x] == oldp[x]);
                    assert(community_id_in(self.communities@, oldp[x].community_id));
                } else {
                    assert(newp[x].community_id == form.community_id);
                }
            }
        }
        Ok(())
    }

    /// Appends one moderation record for a removal or restore.
    pub fn log_removal(&mut self, mod_user_id: i32, post_id: i32, removed: bool, reason: Option<String>)
        requires
            old(self).wf(),
        ensures
            final(self).wf(),
            core_rows_unchanged(*old(self), *final(self)),
            final(self).posts == old(self).posts,
            final(self).votes == old(self).votes,
            final(self).saves == old(self).saves,
            final(self).mod_locks == old(self).mod_locks,
            final(self).next_post_id == old(self).next_post_id,
            final(self).mod_removals@ == old(self).mod_removals@.push(
                ModRemoveRow { mod_user_id, post_id, removed, reason },
            ),
    {
        self.mod_removals.push(ModRemoveRow { mod_user_id, post_id, removed, reason });
    }

    /// Appends one moderation record for a lock or unlock.
    pub fn log_lock(&mut self, mod_user_id: i32, post_id: i32, locked: bool)
        requires
            old(self).wf(),
        ensures
            final(self).wf(),
            core_rows_unchanged(*old(self), *final(self)),
            final(self).posts == old(self).posts,
            final(self).votes == old(self).votes,
            final(self).saves == old(self).saves,
            final(self).mod_removals == old(self).mod_removals,
            final(self).next_post_id == old(self).next_post_id,
            final(self).mod_locks@ == old(self).mod_locks@.push(
                ModLockRow { mod_user_id, post_id, locked },
            ),
    {
        self.mod_locks.push(ModLockRow { mod_user_id, post_id, locked });
    }
}

/// A post's comments, in stored (append, oldest-first) order.
pub open spec fn comments_of(s: Seq<Comment>, post_id: i32) -> Seq<Comment>
    decreases s.len(),
{
    if s.len() == 0 {
        Seq::empty()
    } else {
        let rest = comments_of(s.drop_last(), post_id);
        if s.last().post_id == post_id {
            rest.push(s.last())
        } else {
            rest
        }
    }
}

/// The newest-first page of a post's comments, at most `cap` of them.
pub open spec fn comments_page(s: Seq<Comment>, post_id: i32, cap: int) -> Seq<Comment> {
    let all = comments_of(s, post_id).reverse();
    if all.len() <= cap {
        all
    } else {
        all.take(cap)
    }
}

/// A community's moderator roster, in stored order.
pub open spec fn mods_of(s: Seq<ModeratorRow>, community_id: i32) -> Seq<ModeratorRow>
    decreases s.len(),
{
    if s.len() == 0 {
        Seq::empty()
    } else {
        let rest = mods_of(s.drop_last(), community_id);
        if s.last().community_id == community_id {
            rest.push(s.last())
        } else {
            rest
        }
    }
}

/// The site admins, in stored order.
pub open spec fn admins_of(s: Seq<User>) -> Seq<User>
    decreases s.len(),
{
    if s.len() == 0 {
        Seq::empty()
    } else {
        let rest = admins_of(s.drop_last());
        if s.last().admin {
            rest.push(s.last())
        } else {
            rest
        }
    }
}

/// An admins list reordered so the site creator, when present, stands
/// first; a display convention, not an authorization signal.
pub open spec fn creator_first(a: Seq<User>, out: Seq<User>, creator_id: i32) -> bool {
    if forall|k: int| 0 <= k < a.len() ==> (#[trigger] a[k]).id != creator_id {
        out == a
    } else {
        exists|j: int|
            0 <= j < a.len() && (#[trigger] a[j]).id == creator_id && (forall|x: int|
                0 <= x < j ==> (#[trigger] a[x]).id != creator_id) && out == seq![a[j]]
                + a.remove(j)
    }
}

impl Database {
    /// Newest-first page of a post's comments, capped.
    pub fn list_comments(&self, post_id: i32, cap: usize) -> (r: Vec<Comment>)
        ensures
            r@ == comments_page(self.comments@, post_id, cap as int),
    {
        let mut all: Vec<Comment> = Vec::new();
        proof {
            assert(self.comments@.take(0) =~= Seq::<Comment>::empty());
        }
        let mut i: usize = 0;
        while i < self.comments.len()
            invariant
                i <= self.comments@.len(),
                all@ == comments_of(self.comments@.take(i as int), post_id),
                all@.len() <= i,
            decreases self.comments@.len() - i,
        {
            proof {
                assert(self.comments@.take(i + 1 as int).drop_last() =~= self.comments@.take(
                    i as int,
                ));
                assert(self.comments@.take(i + 1 as int).last() == self.comments@[i as int]);
            }
            if self.comments[i].post_id == post_id {
                all.push(self.comments[i].clone());
            }
            i = i + 1;
        }
        proof {
            assert(self.comments@.take(self.comments@.len() as int) =~= self.comments@);
        }
        let ghost allseq = comments_of(self.comments@, post_id);
        let mut out: Vec<Comment> = Vec::new();
        let mut j: usize = all.len();
        while j > 0
            invariant
                allseq == comments_of(self.comments@, post_id),
                all@ == allseq,
                j <= all@.len(),
                out@.len() == all@.len() - j,
                out@.len() <= cap,
                forall|x: int| 0 <= x < out@.len()
                    ==> #[trigger] out@[x] == all@[all@.len() - 1 - x],
            decreases j,
        {
            if out.len() == cap {
                proof {
                    assert(out@ =~= allseq.reverse().take(cap as int));
                }
                return out;
            }
            out.push(all[j - 1].clone());
            j = j - 1;
        }
        proof {
            assert(out@ =~= allseq.reverse());
        }
        out
    }

    /// The community's moderator roster.
    pub fn list_moderators(&self, community_id: i32) -> (r: Vec<ModeratorRow>)
        ensures
            r@ == mods_of(self.moderators@, community_id),
    {
        let mut out: Vec<ModeratorRow> = Vec::new();
        proof {
            assert(self.moderators@.take(0) =~= Seq::<ModeratorRow>::empty());
        }
        let mut i: usize = 0;
        while i < self.moderators.len()
            invariant
                i <= self.moderators@.len(),
                out@ == mods_of(self.moderators@.take(i as int), community_id),
            decreases self.moderators@.len() - i,
        {
            proof {
                assert(self.moderators@.take(i + 1 as int).drop_last() =~= self.moderators@.take(
                    i as int,
                ));
                assert(self.moderators@.take(i + 1 as int).last() == self.moderators@[i as int]);
            }
            if self.moderators[i].community_id == community_id {
                out.push(self.moderators[i]);
            }
            i = i + 1;
        }
        proof {
            assert(self.moderators@.take(self.moderators@.len() as int) =~= self.moderators@);
        }
        out
    }

    /// The site admins, with the site creator moved to the front when
    /// present among them.
    pub fn list_admins(&self) -> (r: Vec<User>)
        ensures
            creator_first(admins_of(self.users@), r@, self.site_creator_id),
    {
        let mut admins: Vec<User> = Vec::new();
        proof {
            assert(self.users@.take(0) =~= Seq::<User>::empty());
        }
        let mut i: usize = 0;
        while i < self.users.len()
            invariant
                i <= self.users@.len(),
                admins@ == admins_of(self.users@.take(i as int)),
            decreases self.users@.len() - i,
        {
            proof {
                assert(self.users@.take(i + 1 as int).drop_last() =~= self.users@.take(i as int));
                assert(self.users@.take(i + 1 as int).last() == self.users@[i as int]);
            }
            if self.users[i].admin {
                admins.push(self.users[i].clone());
            }
            i = i + 1;
        }
        proof {
            assert(self.users@.take(self.users@.len() as int) =~= self.users@);
        }
        let ghost aseq = admins_of(self.users@);
        let mut j: usize = 0;
        while j < admins.len()
            invariant
                aseq == admins_of(self.users@),
                admins@ == aseq,
                j <= admins@.len(),
                forall|x: int| 0 <= x < j ==> (#[trigger] admins@[x]).id != self.site_creator_id,
            decreases admins@.len() - j,
        {
            if admins[j].id == self.site_creator_id {
                let mut out: Vec<User> = Vec::new();
                out.push(admins[j].clone());
                let mut x: usize = 0;
                while x < admins.len()
                    invariant
                        aseq == admins_of(self.users@),
                        admins@ == aseq,
                        j < admins@.len(),
                        (admins@[j as int]).id == self.site_creator_id,
                        forall|y: int| 0 <= y < j
                            ==> (#[trigger] admins@[y]).id != self.site_creator_id,
                        x <= admins@.len(),
                        out@.len() == 1 + (if x <= j {
                            x as int
                        } else {
                            x - 1
                        }),
                        out@[0] == admins@[j as int],
                        forall|y: int| 0 <= y < x && y < j ==> #[trigger] out@[y + 1] == admins@[y],
                        forall|y: int| j < y < x ==> #[trigger] out@[y] == admins@[y],
                    decreases admins@.len() - x,
                {
                    if x != j {
                        out.push(admins[x].clone());
                    }
                    x = x + 1;
                }
                proof {
                    let target = seq![aseq[j as int]] + aseq.remove(j as int);
                    aseq.remove_ensures(j as int);
                    assert(out@.len() == aseq.len());
                    assert(target.len() == aseq.len());
                    assert forall|i: int| 0 <= i < out@.len() implies out@[i] == target[i] by {
                        if i == 0 {
                        } else if i <= j as int {
                            assert(out@[(i - 1) + 1] == aseq[i - 1]);
                            assert(aseq.remove(j as int)[i - 1] == aseq[i - 1]);
                        } else {
                            assert(out@[i] == aseq[i]);
                            assert(aseq.remove(j as int)[i - 1] == aseq[i]);
                        }
                    }
                    assert(out@ =~= target);
                    assert((aseq[j as int]).id == self.site_creator_id);
                    assert(creator_first(aseq, out@, self.site_creator_id));
                }
                return out;
            }
            j = j + 1;
        }
        admins
    }
}

/// A found post is one of the stored rows, carrying the id it was
/// looked up by.
pub proof fn lemma_find_post_row(s: Seq<Post>, id: i32)
    requires
        find_post(s, id) is Some,
    ensures
        exists|k: int|
            0 <= k < s.len() && #[trigger] s[k] == find_post(s, id)->Some_0 && s[k].id == id,
    decreases s.len(),
{
    if s.len() > 0 && s[0].id != id {
        lemma_find_post_row(s.drop_first(), id);
        let k0 = choose|k0: int|
            0 <= k0 < s.drop_first().len() && #[trigger] s.drop_first()[k0] == find_post(
                s.drop_first(),
                id,
            )->Some_0 && s.drop_first()[k0].id == id;
        assert(s[k0 + 1] == s.drop_first()[k0]);
    } else {
        assert(s[0] == find_post(s, id)->Some_0);
    }
}

/// A community with the id is found exactly when some row carries it.
pub proof fn lemma_find_community_exists(s: Seq<Community>, id: i32)
    ensures
        (find_community(s, id) is Some) <==> community_id_in(s, id),
    decreases s.len(),
{
    if s.len() == 0 {
    } else if s[0].id == id {
        assert(community_id_in(s, id));
    } else {
        lemma_find_community_exists(s.drop_first(), id);
        if community_id_in(s, id) {
            let k = choose|k: int| 0 <= k < s.len() && (#[trigger] s[k]).id == id;
            assert(s.drop_first()[k - 1] == s[k]);
            assert(community_id_in(s.drop_first(), id));
        }
        if community_id_in(s.drop_first(), id) {
            let k = choose|k: int|
                0 <= k < s.drop_first().len() && (#[trigger] s.drop_first()[k]).id == id;
            assert(s[k + 1] == s.drop_first()[k]);
            assert(community_id_in(s, id));
        }
    }
}

} // verus!
