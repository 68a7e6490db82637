//! The post orchestrator: the six public operations, each resolving
//! identity, performing authorization and ban checks, mutating the
//! relevant store, and re-reading the canonical view for the response.

use vstd::prelude::*;
use crate::domain::{
    clone_opt_string, ApiError, Claims, Comment, Community, ErrorKind, ModLockRow, ModRemoveRow,
    ModeratorRow, Operation, User, VoteRow, op_label,
};
use crate::ledger::{
    lemma_pair_count_zero, lemma_save_idempotent, lemma_strip_absent, lemma_vote_then_clear,
    lemma_vote_then_opposite, pair_count, replace_spec, save_count, save_set_spec, strip_pair,
    valid_score, vote_lookup, VOTE_CAP,
};
use crate::policy::{contains_any, has_disallowed};
use crate::store::{
    admins_of, comments_page, core_rows_unchanged, creator_first, find_community, find_post,
    lemma_find_community_exists, lemma_find_post_exists, lemma_find_post_row, mods_of,
    post_of_form, read_view_spec, resolve_spec, Database, PostForm, PostView,
};
use crate::listing::{
    listing_spec, listing_type_spec, parse_listing_type, parse_sort_type, sort_type_spec,
};

verus! {

/// The views of the store's disallowed terms.
pub open spec fn disallowed_views(d: Database) -> Seq<Seq<char>> {
    d.disallowed_terms@.map_values(|t: String| t@)
}

/// A name/body pair violates the content policy when either field holds
/// a disallowed term.
pub open spec fn text_disallowed(d: Database, name: Seq<char>, body: Option<String>) -> bool {
    ||| contains_any(name, disallowed_views(d))
    ||| match body {
        Some(b) => contains_any(b@, disallowed_views(d)),
        None => false,
    }
}

/// Request to create a post in a community.
pub struct CreatePost {
    pub name: String,
    pub url: Option<String>,
    pub body: Option<String>,
    pub nsfw: bool,
    pub community_id: i32,
    pub auth: String,
}

/// Response carrying a fresh canonical view of one post.
#[derive(Debug)]
pub struct PostResponse {
    pub op: String,
    pub post: PostView,
}

/// Request to vote on a post. Any score other than -1 or +1 clears the
/// caller's vote.
pub struct CreatePostLike {
    pub post_id: i32,
    pub score: i16,
    pub auth: String,
}

/// Response to a vote, carrying the re-read view of the post.
#[derive(Debug)]
pub struct CreatePostLikeResponse {
    pub op: String,
    pub post: PostView,
}

/// Request to edit a post: the complete replacement field set, plus the
/// claimed creator and community used for the authorization lookup.
pub struct EditPost {
    pub edit_id: i32,
    pub creator_id: i32,
    pub community_id: i32,
    pub name: String,
    pub url: Option<String>,
    pub body: Option<String>,
    pub removed: Option<bool>,
    pub deleted: Option<bool>,
    pub nsfw: bool,
    pub locked: Option<bool>,
    pub reason: Option<String>,
    pub auth: String,
}

/// Request to save or unsave a post for the calling user.
pub struct SavePost {
    pub post_id: i32,
    pub save: bool,
    pub auth: String,
}

/// The full form a create persists: caller-supplied content, the
/// resolved creator, and defaulted flags.
pub open spec fn create_form_spec(req: CreatePost, uid: i32) -> PostForm {
    PostForm {
        name: req.name,
        url: req.url,
        body: req.body,
        creator_id: uid,
        community_id: req.community_id,
        removed: None,
        deleted: None,
        nsfw: req.nsfw,
        locked: None,
        updated: None,
    }
}

/// The full replacement form an edit persists, stamped with the store's
/// current time.
pub open spec fn edit_form_spec(req: EditPost, now: i64) -> PostForm {
    PostForm {
        name: req.name,
        url: req.url,
        body: req.body,
        creator_id: req.creator_id,
        community_id: req.community_id,
        removed: req.removed,
        deleted: req.deleted,
        nsfw: req.nsfw,
        locked: req.locked,
        updated: Some(now),
    }
}

/// Everything a create leaves untouched besides posts and votes.
pub open spec fn create_frame(d0: Database, d1: Database) -> bool {
    &&& core_rows_unchanged(d0, d1)
    &&& d1.saves == d0.saves
    &&& d1.mod_removals == d0.mod_removals
    &&& d1.mod_locks == d0.mod_locks
}

/// The complete outcome of a create: which error it returns on which
/// store, and what a success persists and responds.
pub open spec fn create_post_outcome(
    d0: Database,
    d1: Database,
    req: CreatePost,
    r: Result<PostResponse, ApiError>,
) -> bool {
    match resolve_spec(d0.sessions@, req.auth@) {
        None => d1 == d0 && r == Err::<PostResponse, ApiError>(
            ApiError { op: Operation::CreatePost, kind: ErrorKind::NotAuthenticated },
        ),
        Some(claims) => {
            let uid = claims.id;
            if text_disallowed(d0, req.name@, req.body) {
                d1 == d0 && r == Err::<PostResponse, ApiError>(
                    ApiError { op: Operation::CreatePost, kind: ErrorKind::DisallowedContent },
                )
            } else if d0.community_banned(uid, req.community_id) {
                d1 == d0 && r == Err::<PostResponse, ApiError>(
                    ApiError { op: Operation::CreatePost, kind: ErrorKind::CommunityBanned },
                )
            } else if d0.site_banned(uid) {
                d1 == d0 && r == Err::<PostResponse, ApiError>(
                    ApiError { op: Operation::CreatePost, kind: ErrorKind::SiteBanned },
                )
            } else if !(d0.next_post_id < i32::MAX && d0.community_exists(req.community_id)) {
                d1 == d0 && r == Err::<PostResponse, ApiError>(
                    ApiError { op: Operation::CreatePost, kind: ErrorKind::CouldntCreatePost },
                )
            } else {
                let pid = d0.next_post_id;
                &&& create_frame(d0, d1)
                &&& d1.posts@ == d0.posts@.push(post_of_form(create_form_spec(req, uid), pid))
                &&& d1.next_post_id == d0.next_post_id + 1
                &&& if d0.votes@.len() == VOTE_CAP {
                    d1.votes@ == d0.votes@ && r == Err::<PostResponse, ApiError>(
                        ApiError { op: Operation::CreatePost, kind: ErrorKind::CouldntLikePost },
                    )
                } else {
                    &&& d1.votes@ == d0.votes@.push(
                        VoteRow { post_id: pid, user_id: uid, score: 1i16 },
                    )
                    &&& match r {
                        Ok(resp) => resp.op@ == op_label(Operation::CreatePost)
                            && read_view_spec(d1, pid, Some(uid)) == Some(resp.post),
                        Err(_) => false,
                    }
                }
            }
        },
    }
}

impl CreatePost {
    /// Creates a post: resolve identity, scan content, check community
    /// then site ban, persist, record the creator's self-upvote, and
    /// re-read the canonical view. A failing self-upvote is reported but
    /// leaves the post created.
    pub fn perform(&self, db: &mut Database) -> (r: Result<PostResponse, ApiError>)
        requires
            old(db).wf(),
        ensures
            final(db).wf(),
            create_post_outcome(*old(db), *final(db), *self, r),
    {
        let claims = match db.resolve(&self.auth) {
            Some(c) => c,
            None => {
                return Err(ApiError { op: Operation::CreatePost, kind: ErrorKind::NotAuthenticated });
            },
        };
        let uid = claims.id;
        let name_bad = has_disallowed(self.name.as_str(), &db.disallowed_terms);
        let body_bad = match &self.body {
            Some(b) => has_disallowed(b.as_str(), &db.disallowed_terms),
            None => false,
        };
        if name_bad || body_bad {
            return Err(ApiError { op: Operation::CreatePost, kind: ErrorKind::DisallowedContent });
        }
        if db.check_community_ban(uid, self.community_id) {
            return Err(ApiError { op: Operation::CreatePost, kind: ErrorKind::CommunityBanned });
        }
        if db.check_site_ban(uid) {
            return Err(ApiError { op: Operation::CreatePost, kind: ErrorKind::SiteBanned });
        }
        let form = PostForm {
            name: self.name.clone(),
            url: clone_opt_string(&self.url),
            body: clone_opt_string(&self.body),
            creator_id: uid,
            community_id: self.community_id,
            removed: None,
            deleted: None,
            nsfw: self.nsfw,
            locked: None,
            updated: None,
        };
        let pid = match db.post_create(form) {
            Ok(id) => id,
            Err(()) => {
                return Err(
                    ApiError { op: Operation::CreatePost, kind: ErrorKind::CouldntCreatePost },
                );
            },
        };
        proof {
            assert forall|k: int| 0 <= k < db.votes@.len()
                implies (#[trigger] db.votes@[k]).post_id != pid by {
                assert(crate::store::post_id_in(old(db).posts@, db.votes@[k].post_id));
                let j = choose|j: int|
                    0 <= j < old(db).posts@.len()
                        && (#[trigger] old(db).posts@[j]).id == db.votes@[k].post_id;
                assert(old(db).posts@[j].id < old(db).next_post_id);
            }
            lemma_pair_count_zero(db.votes@, pid, uid);
            lemma_strip_absent(db.votes@, pid, uid);
        }
        match db.vote_replace(pid, uid, 1) {
            Ok(()) => {},
            Err(()) => {
                return Err(ApiError { op: Operation::CreatePost, kind: ErrorKind::CouldntLikePost });
            },
        }
        let view = match db.read_view(pid, Some(uid)) {
            Some(v) => v,
            None => {
                proof {
                    lemma_find_post_exists(db.posts@, pid);
                    assert(false);
                }
                return Err(ApiError { op: Operation::CreatePost, kind: ErrorKind::NotFound });
            },
        };
        Ok(PostResponse { op: Operation::CreatePost.label(), post: view })
    }
}

/// The complete outcome of a vote: the target post must exist, bans
/// block it, and the ledger is left in the replaced state.
pub open spec fn like_outcome(
    d0: Database,
    d1: Database,
    req: CreatePostLike,
    r: Result<CreatePostLikeResponse, ApiError>,
) -> bool {
    match resolve_spec(d0.sessions@, req.auth@) {
        None => d1 == d0 && r == Err::<CreatePostLikeResponse, ApiError>(
            ApiError { op: Operation::CreatePostLike, kind: ErrorKind::NotAuthenticated },
        ),
        Some(claims) => {
            let uid = claims.id;
            match find_post(d0.posts@, req.post_id) {
                None => d1 == d0 && r == Err::<CreatePostLikeResponse, ApiError>(
                    ApiError { op: Operation::CreatePostLike, kind: ErrorKind::NotFound },
                ),
                Some(post) => {
                    if d0.community_banned(uid, post.community_id) {
                        d1 == d0 && r == Err::<CreatePostLikeResponse, ApiError>(
                            ApiError {
                                op: Operation::CreatePostLike,
                                kind: ErrorKind::CommunityBanned,
                            },
                        )
                    } else if d0.site_banned(uid) {
                        d1 == d0 && r == Err::<CreatePostLikeResponse, ApiError>(
                            ApiError { op: Operation::CreatePostLike, kind: ErrorKind::SiteBanned },
                        )
                    } else {
                        &&& core_rows_unchanged(d0, d1)
                        &&& d1.posts == d0.posts
                        &&& d1.saves == d0.saves
                        &&& d1.mod_removals == d0.mod_removals
                        &&& d1.mod_locks == d0.mod_locks
                        &&& d1.next_post_id == d0.next_post_id
                        &&& if valid_score(req.score)
                            && strip_pair(d0.votes@, req.post_id, uid).len() == VOTE_CAP {
                            d1.votes@ == strip_pair(d0.votes@, req.post_id, uid) && r == Err::<CreatePostLikeResponse, ApiError>(
                                ApiError {
                                    op: Operation::CreatePostLike,
                                    kind: ErrorKind::CouldntLikePost,
                                },
                            )
                        } else {
                            &&& d1.votes@ == replace_spec(d0.votes@, req.post_id, uid, req.score)
                            &&& match r {
                                Ok(resp) => resp.op@ == op_label(Operation::CreatePostLike)
                                    && read_view_spec(d1, req.post_id, Some(uid))
                                        == Some(resp.post),
                                Err(_) => false,
                            }
                        }
                    }
                },
            }
        },
    }
}

impl CreatePostLike {
    /// Votes on a post: resolve identity, load the post to learn its
    /// community, check community then site ban, replace the caller's
    /// ledger row, and re-read the view whose score reflects the change.
    pub fn perform(&self, db: &mut Database) -> (r: Result<CreatePostLikeResponse, ApiError>)
        requires
            old(db).wf(),
        ensures
            final(db).wf(),
            like_outcome(*old(db), *final(db), *self, r),
    {
        let claims = match db.resolve(&self.auth) {
            Some(c) => c,
            None => {
                return Err(
                    ApiError { op: Operation::CreatePostLike, kind: ErrorKind::NotAuthenticated },
                );
            },
        };
        let uid = claims.id;
        let k = match db.post_index(self.post_id) {
            Some(k) => k,
            None => {
                return Err(ApiError { op: Operation::CreatePostLike, kind: ErrorKind::NotFound });
            },
        };
        let community_id = db.posts[k].community_id;
        if db.check_community_ban(uid, community_id) {
            return Err(ApiError { op: Operation::CreatePostLike, kind: ErrorKind::CommunityBanned });
        }
        if db.check_site_ban(uid) {
            return Err(ApiError { op: Operation::CreatePostLike, kind: ErrorKind::SiteBanned });
        }
        proof {
            lemma_find_post_exists(db.posts@, self.post_id);
        }
        match db.vote_replace(self.post_id, uid, self.score) {
            Ok(()) => {},
            Err(()) => {
                return Err(
                    ApiError { op: Operation::CreatePostLike, kind: ErrorKind::CouldntLikePost },
                );
            },
        }
        let view = match db.read_view(self.post_id, Some(uid)) {
            Some(v) => v,
            None => {
                proof {
                    lemma_find_post_exists(db.posts@, self.post_id);
                    assert(false);
                }
                return Err(ApiError { op: Operation::CreatePostLike, kind: ErrorKind::NotFound });
            },
        };
        Ok(CreatePostLikeResponse { op: Operation::CreatePostLike.label(), post: view })
    }
}

/// The set of authorized editors of a post: its claimed creator, the
/// claimed community's current moderators, and the site admins.
pub open spec fn may_edit(d: Database, uid: i32, req: EditPost) -> bool {
    ||| uid == req.creator_id
    ||| d.is_moderator(uid, req.community_id)
    ||| d.is_admin(uid)
}

/// The complete outcome of an edit: content scan before authentication,
/// authority before bans, a full-field replace, and one moderation log
/// record per flag the request supplies.
pub open spec fn edit_post_outcome(
    d0: Database,
    d1: Database,
    req: EditPost,
    r: Result<PostResponse, ApiError>,
) -> bool {
    if text_disallowed(d0, req.name@, req.body) {
        d1 == d0 && r == Err::<PostResponse, ApiError>(
            ApiError { op: Operation::EditPost, kind: ErrorKind::DisallowedContent },
        )
    } else {
        match resolve_spec(d0.sessions@, req.auth@) {
            None => d1 == d0 && r == Err::<PostResponse, ApiError>(
                ApiError { op: Operation::EditPost, kind: ErrorKind::NotAuthenticated },
            ),
            Some(claims) => {
                let uid = claims.id;
                if !may_edit(d0, uid, req) {
                    d1 == d0 && r == Err::<PostResponse, ApiError>(
                        ApiError { op: Operation::EditPost, kind: ErrorKind::EditNotAllowed },
                    )
                } else if d0.community_banned(uid, req.community_id) {
                    d1 == d0 && r == Err::<PostResponse, ApiError>(
                        ApiError { op: Operation::EditPost, kind: ErrorKind::CommunityBanned },
                    )
                } else if d0.site_banned(uid) {
                    d1 == d0 && r == Err::<PostResponse, ApiError>(
                        ApiError { op: Operation::EditPost, kind: ErrorKind::SiteBanned },
                    )
                } else if !(d0.post_exists(req.edit_id)
                    && d0.community_exists(req.community_id)) {
                    d1 == d0 && r == Err::<PostResponse, ApiError>(
                        ApiError { op: Operation::EditPost, kind: ErrorKind::CouldntUpdatePost },
                    )
                } else {
                    &&& core_rows_unchanged(d0, d1)
                    &&& d1.votes == d0.votes
                    &&& d1.saves == d0.saves
                    &&& d1.next_post_id == d0.next_post_id
                    &&& d1.posts@.len() == d0.posts@.len()
                    &&& (forall|j: int| 0 <= j < d0.posts@.len()
                        ==> #[trigger] d1.posts@[j] == if d0.posts@[j].id == req.edit_id {
                            post_of_form(edit_form_spec(req, d0.clock), req.edit_id)
                        } else {
                            d0.posts@[j]
                        })
                    &&& d1.mod_removals@ == match req.removed {
                        Some(flag) => d0.mod_removals@.push(
                            ModRemoveRow {
                                mod_user_id: uid,
                                post_id: req.edit_id,
                                removed: flag,
                                reason: req.reason,
                            },
                        ),
                        None => d0.mod_removals@,
                    }
                    &&& d1.mod_locks@ == match req.locked {
                        Some(flag) => d0.mod_locks@.push(
                            ModLockRow { mod_user_id: uid, post_id: req.edit_id, locked: flag },
                        ),
                        None => d0.mod_locks@,
                    }
                    &&& match r {
                        Ok(resp) => resp.op@ == op_label(Operation::EditPost)
                            && read_view_spec(d1, req.edit_id, Some(uid)) == Some(resp.post),
                        Err(_) => false,
                    }
                }
            },
        }
    }
}

impl EditPost {
    /// Edits a post: scan content first, resolve identity, require the
    /// caller to be the claimed creator, a moderator of the claimed
    /// community, or a site admin, check bans, replace every mutable
    /// field with an update stamp, log supplied moderation flags, and
    /// re-read the canonical view.
    pub fn perform(&self, db: &mut Database) -> (r: Result<PostResponse, ApiError>)
        requires
            old(db).wf(),
        ensures
            final(db).wf(),
            edit_post_outcome(*old(db), *final(db), *self, r),
    {
        let name_bad = has_disallowed(self.name.as_str(), &db.disallowed_terms);
        let body_bad = match &self.body {
            Some(b) => has_disallowed(b.as_str(), &db.disallowed_terms),
            None => false,
        };
        if name_bad || body_bad {
            return Err(ApiError { op: Operation::EditPost, kind: ErrorKind::DisallowedContent });
        }
        let claims = match db.resolve(&self.auth) {
            Some(c) => c,
            None => {
                return Err(ApiError { op: Operation::EditPost, kind: ErrorKind::NotAuthenticated });
            },
        };
        let uid = claims.id;
        let allowed = uid == self.creator_id || db.check_moderator(uid, self.community_id)
            || db.check_admin(uid);
        if !allowed {
            return Err(ApiError { op: Operation::EditPost, kind: ErrorKind::EditNotAllowed });
        }
        if db.check_community_ban(uid, self.community_id) {
            return Err(ApiError { op: Operation::EditPost, kind: ErrorKind::CommunityBanned });
        }
        if db.check_site_ban(uid) {
            return Err(ApiError { op: Operation::EditPost, kind: ErrorKind::SiteBanned });
        }
        let now = db.clock;
        let form = PostForm {
            name: self.name.clone(),
            url: clone_opt_string(&self.url),
            body: clone_opt_string(&self.body),
            creator_id: self.creator_id,
            community_id: self.community_id,
            removed: self.removed,
            deleted: self.deleted,
            nsfw: self.nsfw,
            locked: self.locked,
            updated: Some(now),
        };
        match db.post_update(self.edit_id, form) {
            Ok(()) => {},
            Err(()) => {
                return Err(
                    ApiError { op: Operation::EditPost, kind: ErrorKind::CouldntUpdatePost },
                );
            },
        }
        if let Some(removed_flag) = self.removed {
            db.log_removal(uid, self.edit_id, removed_flag, clone_opt_string(&self.reason));
        }
        if let Some(locked_flag) = self.locked {
            db.log_lock(uid, self.edit_id, locked_flag);
        }
        proof {
            lemma_find_post_exists(old(db).posts@, self.edit_id);
            lemma_find_post_exists(db.posts@, self.edit_id);
            let j = choose|j: int|
                0 <= j < old(db).posts@.len()
                    && (#[trigger] old(db).posts@[j]).id == self.edit_id;
            assert(db.posts@[j].id == self.edit_id);
            assert(crate::store::post_id_in(db.posts@, self.edit_id));
        }
        let view = match db.read_view(self.edit_id, Some(uid)) {
            Some(v) => v,
            None => {
                proof {
                    assert(false);
                }
                return Err(ApiError { op: Operation::EditPost, kind: ErrorKind::NotFound });
            },
        };
        Ok(PostResponse { op: Operation::EditPost.label(), post: view })
    }
}

/// The complete outcome of a save: identity is required, the ledger is
/// set idempotently, and the response re-reads the post, which must
/// exist at read time.
pub open spec fn save_post_outcome(
    d0: Database,
    d1: Database,
    req: SavePost,
    r: Result<PostResponse, ApiError>,
) -> bool {
    match resolve_spec(d0.sessions@, req.auth@) {
        None => d1 == d0 && r == Err::<PostResponse, ApiError>(
            ApiError { op: Operation::SavePost, kind: ErrorKind::NotAuthenticated },
        ),
        Some(claims) => {
            let uid = claims.id;
            &&& core_rows_unchanged(d0, d1)
            &&& d1.posts == d0.posts
            &&& d1.votes == d0.votes
            &&& d1.mod_removals == d0.mod_removals
            &&& d1.mod_locks == d0.mod_locks
            &&& d1.next_post_id == d0.next_post_id
            &&& d1.saves@ == save_set_spec(d0.saves@, req.post_id, uid, req.save)
            &&& match find_post(d0.posts@, req.post_id) {
                None => r == Err::<PostResponse, ApiError>(
                    ApiError { op: Operation::SavePost, kind: ErrorKind::NotFound },
                ),
                Some(_) => match r {
                    Ok(resp) => resp.op@ == op_label(Operation::SavePost)
                        && read_view_spec(d1, req.post_id, Some(uid)) == Some(resp.post),
                    Err(_) => false,
                },
            }
        },
    }
}

impl SavePost {
    /// Saves or unsaves a post for the caller: resolve identity, set the
    /// save ledger idempotently, and re-read the canonical view.
    pub fn perform(&self, db: &mut Database) -> (r: Result<PostResponse, ApiError>)
        requires
            old(db).wf(),
        ensures
            final(db).wf(),
            save_post_outcome(*old(db), *final(db), *self, r),
    {
        let claims = match db.resolve(&self.auth) {
            Some(c) => c,
            None => {
                return Err(ApiError { op: Operation::SavePost, kind: ErrorKind::NotAuthenticated });
            },
        };
        let uid = claims.id;
        db.save_set(self.post_id, uid, self.save);
        let view = match db.read_view(self.post_id, Some(uid)) {
            Some(v) => v,
            None => {
                return Err(ApiError { op: Operation::SavePost, kind: ErrorKind::NotFound });
            },
        };
        Ok(PostResponse { op: Operation::SavePost.label(), post: view })
    }
}

/// The page size a single post's comment fetch uses: effectively
/// unbounded for practical threads.
pub const COMMENT_PAGE_LIMIT: usize = 9999;

/// Request to fetch one post with its surrounding context.
pub struct GetPost {
    pub id: i32,
    pub auth: Option<String>,
}

/// Response to a single-post fetch: the view, the post's comments
/// newest-first, its community, the community's moderators, and the
/// site admins with the site creator listed first.
#[derive(Debug)]
pub struct GetPostResponse {
    pub op: String,
    pub post: PostView,
    pub comments: Vec<Comment>,
    pub community: Community,
    pub moderators: Vec<ModeratorRow>,
    pub admins: Vec<User>,
}

/// Request to list posts under filters. Unrecognized type or sort tokens
/// are rejected, never defaulted.
pub struct GetPosts {
    pub type_: String,
    pub sort: String,
    pub page: Option<i64>,
    pub limit: Option<i64>,
    pub community_id: Option<i32>,
    pub auth: Option<String>,
}

/// Response to a listing request.
#[derive(Debug)]
pub struct GetPostsResponse {
    pub op: String,
    pub posts: Vec<PostView>,
}

/// The claims an optional token resolves to; reads degrade to anonymous
/// on a missing or unknown token.
pub open spec fn opt_claims(d: Database, auth: Option<String>) -> Option<Claims> {
    match auth {
        Some(tok) => resolve_spec(d.sessions@, tok@),
        None => None,
    }
}

/// The complete outcome of a single-post fetch.
pub open spec fn get_post_outcome(
    d: Database,
    req: GetPost,
    r: Result<GetPostResponse, ApiError>,
) -> bool {
    let viewer = match opt_claims(d, req.auth) {
        Some(c) => Some(c.id),
        None => None,
    };
    match find_post(d.posts@, req.id) {
        None => r == Err::<GetPostResponse, ApiError>(
            ApiError { op: Operation::GetPost, kind: ErrorKind::NotFound },
        ),
        Some(post) => match r {
            Ok(resp) => {
                &&& resp.op@ == op_label(Operation::GetPost)
                &&& read_view_spec(d, req.id, viewer) == Some(resp.post)
                &&& resp.comments@ == comments_page(
                    d.comments@,
                    req.id,
                    COMMENT_PAGE_LIMIT as int,
                )
                &&& find_community(d.communities@, post.community_id) == Some(resp.community)
                &&& resp.moderators@ == mods_of(d.moderators@, post.community_id)
                &&& creator_first(admins_of(d.users@), resp.admins@, d.site_creator_id)
            },
            Err(_) => false,
        },
    }
}

impl GetPost {
    /// Fetches one post with its context: the viewer-specific view, the
    /// comments newest-first, the community, its moderator roster, and
    /// the admins with the site creator first. Anonymous viewers are
    /// allowed.
    pub fn perform(&self, db: &Database) -> (r: Result<GetPostResponse, ApiError>)
        requires
            db.wf(),
        ensures
            get_post_outcome(*db, *self, r),
    {
        let viewer: Option<i32> = match &self.auth {
            Some(tok) => match db.resolve(tok) {
                Some(c) => Some(c.id),
                None => None,
            },
            None => None,
        };
        let view = match db.read_view(self.id, viewer) {
            Some(v) => v,
            None => {
                return Err(ApiError { op: Operation::GetPost, kind: ErrorKind::NotFound });
            },
        };
        proof {
            lemma_find_post_row(db.posts@, self.id);
            let k = choose|k: int|
                0 <= k < db.posts@.len() && #[trigger] db.posts@[k] == find_post(
                    db.posts@,
                    self.id,
                )->Some_0 && db.posts@[k].id == self.id;
            assert(crate::store::community_id_in(db.communities@, db.posts@[k].community_id));
            lemma_find_community_exists(db.communities@, view.community_id);
        }
        let comments = db.list_comments(self.id, COMMENT_PAGE_LIMIT);
        let ck = match db.community_index(view.community_id) {
            Some(ck) => ck,
            None => {
                proof {
                    assert(false);
                }
                return Err(ApiError { op: Operation::GetPost, kind: ErrorKind::NotFound });
            },
        };
        let community = db.communities[ck].clone();
        let moderators = db.list_moderators(view.community_id);
        let admins = db.list_admins();
        Ok(GetPostResponse {
            op: Operation::GetPost.label(),
            post: view,
            comments,
            community,
            moderators,
            admins,
        })
    }
}

/// The complete outcome of a listing request: unparseable tokens are a
/// `BadRequest`, and a success carries exactly the store's page for the
/// resolved viewer and nsfw preference.
pub open spec fn get_posts_outcome(
    d: Database,
    req: GetPosts,
    r: Result<GetPostsResponse, ApiError>,
) -> bool {
    let claims = opt_claims(d, req.auth);
    let viewer = match claims {
        Some(c) => Some(c.id),
        None => None,
    };
    let show_nsfw = match claims {
        Some(c) => c.show_nsfw,
        None => false,
    };
    match listing_type_spec(req.type_@) {
        None => r == Err::<GetPostsResponse, ApiError>(
            ApiError { op: Operation::GetPosts, kind: ErrorKind::BadRequest },
        ),
        Some(t) => match sort_type_spec(req.sort@) {
            None => r == Err::<GetPostsResponse, ApiError>(
                ApiError { op: Operation::GetPosts, kind: ErrorKind::BadRequest },
            ),
            Some(srt) => match r {
                Ok(resp) => resp.op@ == op_label(Operation::GetPosts) && resp.posts@
                    == listing_spec(
                    d,
                    t,
                    srt,
                    req.community_id,
                    show_nsfw,
                    viewer,
                    req.page,
                    req.limit,
                ),
                Err(_) => false,
            },
        },
    }
}

impl GetPosts {
    /// Lists posts: resolve the optional identity for the nsfw
    /// preference, parse the listing-type and sort tokens strictly, and
    /// delegate to the store's filtered, ordered, paginated listing.
    pub fn perform(&self, db: &Database) -> (r: Result<GetPostsResponse, ApiError>)
        requires
            db.wf(),
        ensures
            get_posts_outcome(*db, *self, r),
    {
        let claims: Option<Claims> = match &self.auth {
            Some(tok) => db.resolve(tok),
            None => None,
        };
        let viewer: Option<i32> = match &claims {
            Some(c) => Some(c.id),
            None => None,
        };
        let show_nsfw = match &claims {
            Some(c) => c.show_nsfw,
            None => false,
        };
        let t = match parse_listing_type(&self.type_) {
            Some(t) => t,
            None => {
                return Err(ApiError { op: Operation::GetPosts, kind: ErrorKind::BadRequest });
            },
        };
        let srt = match parse_sort_type(&self.sort) {
            Some(s) => s,
            None => {
                return Err(ApiError { op: Operation::GetPosts, kind: ErrorKind::BadRequest });
            },
        };
        let posts = db.list_posts(t, srt, self.community_id, show_nsfw, viewer, self.page, self.limit);
        Ok(GetPostsResponse { op: Operation::GetPosts.label(), posts })
    }
}

/// Replace, never accumulate: after a successful vote of +1 and then a
/// successful vote of -1 by the same user on the same post, the ledger
/// holds exactly one row for the pair, and it carries -1.
pub proof fn lemma_like_replaces_never_accumulates(
    d0: Database,
    d1: Database,
    d2: Database,
    req1: CreatePostLike,
    req2: CreatePostLike,
    r1: Result<CreatePostLikeResponse, ApiError>,
    r2: Result<CreatePostLikeResponse, ApiError>,
    uid: i32,
)
    requires
        d0.wf(),
        like_outcome(d0, d1, req1, r1),
        like_outcome(d1, d2, req2, r2),
        r1 is Ok,
        r2 is Ok,
        req1.post_id == req2.post_id,
        req1.score == 1i16,
        req2.score == -1i16,
        resolve_spec(d0.sessions@, req1.auth@) matches Some(c1) && c1.id == uid,
        resolve_spec(d1.sessions@, req2.auth@) matches Some(c2) && c2.id == uid,
    ensures
        pair_count(d2.votes@, req1.post_id, uid) == 1,
        vote_lookup(d2.votes@, req1.post_id, uid) == Some(-1i16),
{
    lemma_vote_then_opposite(d0.votes@, req1.post_id, uid);
}

/// Clearing removes, not zeroes: after a successful vote of +1 and then
/// a successful vote of 0 by the same user on the same post, no ledger
/// row is left for the pair.
pub proof fn lemma_like_then_clear_removes_row(
    d0: Database,
    d1: Database,
    d2: Database,
    req1: CreatePostLike,
    req2: CreatePostLike,
    r1: Result<CreatePostLikeResponse, ApiError>,
    r2: Result<CreatePostLikeResponse, ApiError>,
    uid: i32,
)
    requires
        d0.wf(),
        like_outcome(d0, d1, req1, r1),
        like_outcome(d1, d2, req2, r2),
        r1 is Ok,
        r2 is Ok,
        req1.post_id == req2.post_id,
        req1.score == 1i16,
        req2.score == 0i16,
        resolve_spec(d0.sessions@, req1.auth@) matches Some(c1) && c1.id == uid,
        resolve_spec(d1.sessions@, req2.auth@) matches Some(c2) && c2.id == uid,
    ensures
        pair_count(d2.votes@, req1.post_id, uid) == 0,
        vote_lookup(d2.votes@, req1.post_id, uid) is None,
{
    lemma_vote_then_clear(d0.votes@, req1.post_id, uid);
}

/// Saving is idempotent across the public operation: performing the same
/// save twice leaves the save ledger exactly as one save does, with one
/// row for the pair.
pub proof fn lemma_save_post_idempotent(
    d0: Database,
    d1: Database,
    d2: Database,
    req: SavePost,
    r1: Result<PostResponse, ApiError>,
    r2: Result<PostResponse, ApiError>,
    uid: i32,
)
    requires
        d0.wf(),
        save_post_outcome(d0, d1, req, r1),
        save_post_outcome(d1, d2, req, r2),
        req.save == true,
        resolve_spec(d0.sessions@, req.auth@) matches Some(c) && c.id == uid,
    ensures
        d2.saves@ == d1.saves@,
        save_count(d2.saves@, req.post_id, uid) == 1,
{
    lemma_save_idempotent(d0.saves@, req.post_id, uid);
}

/// A user who is neither the claimed creator, a moderator of the claimed
/// community, nor a site admin is refused an edit with `EditNotAllowed`,
/// even with a valid token, and the store is left untouched.
pub proof fn lemma_edit_refused_without_authority(
    d0: Database,
    d1: Database,
    req: EditPost,
    r: Result<PostResponse, ApiError>,
    uid: i32,
)
    requires
        edit_post_outcome(d0, d1, req, r),
        !text_disallowed(d0, req.name@, req.body),
        resolve_spec(d0.sessions@, req.auth@) matches Some(c) && c.id == uid,
        uid != req.creator_id,
        !d0.is_moderator(uid, req.community_id),
        !d0.is_admin(uid),
    ensures
        r == Err::<PostResponse, ApiError>(
            ApiError { op: Operation::EditPost, kind: ErrorKind::EditNotAllowed },
        ),
        d1 == d0,
{
}

/// A create whose name or body holds a disallowed term fails with
/// `DisallowedContent`, and no post row is persisted.
pub proof fn lemma_create_refused_on_disallowed_content(
    d0: Database,
    d1: Database,
    req: CreatePost,
    r: Result<PostResponse, ApiError>,
)
    requires
        create_post_outcome(d0, d1, req, r),
        resolve_spec(d0.sessions@, req.auth@) is Some,
        text_disallowed(d0, req.name@, req.body),
    ensures
        r == Err::<PostResponse, ApiError>(
            ApiError { op: Operation::CreatePost, kind: ErrorKind::DisallowedContent },
        ),
        d1 == d0,
{
}

/// A community-banned user fails a create with `CommunityBanned` even
/// when not site-banned; one site-banned but not community-banned fails
/// it with `SiteBanned`. Either way the store is untouched.
pub proof fn lemma_create_ban_precedence(
    d0: Database,
    d1: Database,
    req: CreatePost,
    r: Result<PostResponse, ApiError>,
    uid: i32,
)
    requires
        create_post_outcome(d0, d1, req, r),
        resolve_spec(d0.sessions@, req.auth@) matches Some(c) && c.id == uid,
        !text_disallowed(d0, req.name@, req.body),
    ensures
        d0.community_banned(uid, req.community_id) ==> r == Err::<PostResponse, ApiError>(
            ApiError { op: Operation::CreatePost, kind: ErrorKind::CommunityBanned },
        ) && d1 == d0,
        !d0.community_banned(uid, req.community_id) && d0.site_banned(uid)
            ==> r == Err::<PostResponse, ApiError>(
            ApiError { op: Operation::CreatePost, kind: ErrorKind::SiteBanned },
        ) && d1 == d0,
{
}

/// The same ban precedence on a vote against an existing post.
pub proof fn lemma_like_ban_precedence(
    d0: Database,
    d1: Database,
    req: CreatePostLike,
    r: Result<CreatePostLikeResponse, ApiError>,
    uid: i32,
)
    requires
        like_outcome(d0, d1, req, r),
        resolve_spec(d0.sessions@, req.auth@) matches Some(c) && c.id == uid,
        find_post(d0.posts@, req.post_id) is Some,
    ensures
        d0.community_banned(uid, find_post(d0.posts@, req.post_id)->Some_0.community_id)
            ==> r == Err::<CreatePostLikeResponse, ApiError>(
            ApiError { op: Operation::CreatePostLike, kind: ErrorKind::CommunityBanned },
        ) && d1 == d0,
        !d0.community_banned(uid, find_post(d0.posts@, req.post_id)->Some_0.community_id)
            && d0.site_banned(uid) ==> r == Err::<CreatePostLikeResponse, ApiError>(
            ApiError { op: Operation::CreatePostLike, kind: ErrorKind::SiteBanned },
        ) && d1 == d0,
{
}

/// The same ban precedence on an edit by an otherwise authorized user.
pub proof fn lemma_edit_ban_precedence(
    d0: Database,
    d1: Database,
    req: EditPost,
    r: Result<PostResponse, ApiError>,
    uid: i32,
)
    requires
        edit_post_outcome(d0, d1, req, r),
        !text_disallowed(d0, req.name@, req.body),
        resolve_spec(d0.sessions@, req.auth@) matches Some(c) && c.id == uid,
        may_edit(d0, uid, req),
    ensures
        d0.community_banned(uid, req.community_id) ==> r == Err::<PostResponse, ApiError>(
            ApiError { op: Operation::EditPost, kind: ErrorKind::CommunityBanned },
        ) && d1 == d0,
        !d0.community_banned(uid, req.community_id) && d0.site_banned(uid)
            ==> r == Err::<PostResponse, ApiError>(
            ApiError { op: Operation::EditPost, kind: ErrorKind::SiteBanned },
        ) && d1 == d0,
{
}

} // verus!
