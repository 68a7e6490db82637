//! The data rows of the post subsystem and its error vocabulary.

use vstd::prelude::*;

verus! {

/// A verified identity claim derived from a bearer token: the user it
/// names and their nsfw display preference.
#[derive(Clone, Copy, PartialEq, Eq, Structural, Debug)]
pub struct Claims {
    pub id: i32,
    pub show_nsfw: bool,
}

/// One login session: an opaque bearer token and the claims it certifies.
#[derive(Debug)]
pub struct Session {
    pub token: String,
    pub claims: Claims,
}

/// A registered user account.
#[derive(Debug)]
pub struct User {
    pub id: i32,
    pub name: String,
    pub banned: bool,
    pub admin: bool,
}

impl Clone for User {
    fn clone(&self) -> (r: User)
        ensures
            r == *self,
    {
        User {
            id: self.id,
            name: self.name.clone(),
            banned: self.banned,
            admin: self.admin,
        }
    }
}

/// A community (sub-forum) with its own moderator roster and ban list.
#[derive(Debug)]
pub struct Community {
    pub id: i32,
    pub name: String,
    pub creator_id: i32,
}

impl Clone for Community {
    fn clone(&self) -> (r: Community)
        ensures
            r == *self,
    {
        Community { id: self.id, name: self.name.clone(), creator_id: self.creator_id }
    }
}

/// Moderator roster entry: `user_id` moderates `community_id`.
#[derive(Clone, Copy, PartialEq, Eq, Structural, Debug)]
pub struct ModeratorRow {
    pub community_id: i32,
    pub user_id: i32,
}

/// Community ban entry: `user_id` is banned from `community_id`.
#[derive(Clone, Copy, PartialEq, Eq, Structural, Debug)]
pub struct CommunityBanRow {
    pub community_id: i32,
    pub user_id: i32,
}

/// Subscription entry: `user_id` follows `community_id`.
#[derive(Clone, Copy, PartialEq, Eq, Structural, Debug)]
pub struct FollowRow {
    pub community_id: i32,
    pub user_id: i32,
}

/// A stored post. Never hard-deleted: `deleted` and `removed` are soft flags.
#[derive(Debug)]
pub struct Post {
    pub id: i32,
    pub name: String,
    pub url: Option<String>,
    pub body: Option<String>,
    pub creator_id: i32,
    pub community_id: i32,
    pub removed: bool,
    pub deleted: bool,
    pub locked: bool,
    pub nsfw: bool,
    pub updated: Option<i64>,
}

/// Clones an optional string, keeping its value.
pub fn clone_opt_string(s: &Option<String>) -> (r: Option<String>)
    ensures
        r == *s,
{
    match s {
        Some(v) => Some(v.clone()),
        None => None,
    }
}

impl Clone for Post {
    fn clone(&self) -> (r: Post)
        ensures
            r == *self,
    {
        Post {
            id: self.id,
            name: self.name.clone(),
            url: clone_opt_string(&self.url),
            body: clone_opt_string(&self.body),
            creator_id: self.creator_id,
            community_id: self.community_id,
            removed: self.removed,
            deleted: self.deleted,
            locked: self.locked,
            nsfw: self.nsfw,
            updated: self.updated,
        }
    }
}

/// A comment under a post.
#[derive(Debug)]
pub struct Comment {
    pub id: i32,
    pub post_id: i32,
    pub creator_id: i32,
    pub content: String,
}

impl Clone for Comment {
    fn clone(&self) -> (r: Comment)
        ensures
            r == *self,
    {
        Comment {
            id: self.id,
            post_id: self.post_id,
            creator_id: self.creator_id,
            content: self.content.clone(),
        }
    }
}

/// One signed vote: at most one row per (post, user) pair, score -1 or +1.
#[derive(Clone, Copy, PartialEq, Eq, Structural, Debug)]
pub struct VoteRow {
    pub post_id: i32,
    pub user_id: i32,
    pub score: i16,
}

/// One bookmark: at most one row per (post, user) pair.
#[derive(Clone, Copy, PartialEq, Eq, Structural, Debug)]
pub struct SaveRow {
    pub post_id: i32,
    pub user_id: i32,
}

/// Moderation log entry for a removal or restore of a post.
#[derive(Debug)]
pub struct ModRemoveRow {
    pub mod_user_id: i32,
    pub post_id: i32,
    pub removed: bool,
    pub reason: Option<String>,
}

/// Moderation log entry for locking or unlocking a post.
#[derive(Clone, Copy, PartialEq, Eq, Structural, Debug)]
pub struct ModLockRow {
    pub mod_user_id: i32,
    pub post_id: i32,
    pub locked: bool,
}

/// The six public operations, named for client-side correlation.
#[derive(Clone, Copy, PartialEq, Eq, Structural, Debug)]
pub enum Operation {
    CreatePost,
    GetPost,
    GetPosts,
    CreatePostLike,
    EditPost,
    SavePost,
}

/// The operation's wire name.
pub open spec fn op_label(op: Operation) -> Seq<char> {
    match op {
        Operation::CreatePost => "CreatePost"@,
        Operation::GetPost => "GetPost"@,
        Operation::GetPosts => "GetPosts"@,
        Operation::CreatePostLike => "CreatePostLike"@,
        Operation::EditPost => "EditPost"@,
        Operation::SavePost => "SavePost"@,
    }
}

impl Operation {
    /// Renders the operation's wire name.
    pub fn label(&self) -> (r: String)
        ensures
            r@ == op_label(*self),
    {
        match self {
            Operation::CreatePost => String::from_str("CreatePost"),
            Operation::GetPost => String::from_str("GetPost"),
            Operation::GetPosts => String::from_str("GetPosts"),
            Operation::CreatePostLike => String::from_str("CreatePostLike"),
            Operation::EditPost => String::from_str("EditPost"),
            Operation::SavePost => String::from_str("SavePost"),
        }
    }
}

/// One stable machine-readable code per failure cause.
#[derive(Clone, Copy, PartialEq, Eq, Structural, Debug)]
pub enum ErrorKind {
    NotAuthenticated,
    DisallowedContent,
    CommunityBanned,
    SiteBanned,
    EditNotAllowed,
    NotFound,
    BadRequest,
    CouldntCreatePost,
    CouldntLikePost,
    CouldntUpdatePost,
    CouldntSavePost,
    CouldntGetPosts,
}

/// The structured error every failing operation returns: the originating
/// operation and the failure code. Raw store failures never surface.
#[derive(Clone, Copy, PartialEq, Eq, Structural, Debug)]
pub struct ApiError {
    pub op: Operation,
    pub kind: ErrorKind,
}

/// The stable snake_case wire code of a failure cause.
pub open spec fn kind_code(kind: ErrorKind) -> Seq<char> {
    match kind {
        ErrorKind::NotAuthenticated => "not_logged_in"@,
        ErrorKind::DisallowedContent => "no_slurs"@,
        ErrorKind::CommunityBanned => "community_ban"@,
        ErrorKind::SiteBanned => "site_ban"@,
        ErrorKind::EditNotAllowed => "no_post_edit_allowed"@,
        ErrorKind::NotFound => "couldnt_find_post"@,
        ErrorKind::BadRequest => "bad_request"@,
        ErrorKind::CouldntCreatePost => "couldnt_create_post"@,
        ErrorKind::CouldntLikePost => "couldnt_like_post"@,
        ErrorKind::CouldntUpdatePost => "couldnt_update_post"@,
        ErrorKind::CouldntSavePost => "couldnt_save_post"@,
        ErrorKind::CouldntGetPosts => "couldnt_get_posts"@,
    }
}

impl ApiError {
    /// Renders the failure's stable wire code.
    pub fn code(&self) -> (r: String)
        ensures
            r@ == kind_code(self.kind),
    {
        match self.kind {
            ErrorKind::NotAuthenticated => String::from_str("not_logged_in"),
            ErrorKind::DisallowedContent => String::from_str("no_slurs"),
            ErrorKind::CommunityBanned => String::from_str("community_ban"),
            ErrorKind::SiteBanned => String::from_str("site_ban"),
            ErrorKind::EditNotAllowed => String::from_str("no_post_edit_allowed"),
            ErrorKind::NotFound => String::from_str("couldnt_find_post"),
            ErrorKind::BadRequest => String::from_str("bad_request"),
            ErrorKind::CouldntCreatePost => String::from_str("couldnt_create_post"),
            ErrorKind::CouldntLikePost => String::from_str("couldnt_like_post"),
            ErrorKind::CouldntUpdatePost => String::from_str("couldnt_update_post"),
            ErrorKind::CouldntSavePost => String::from_str("couldnt_save_post"),
            ErrorKind::CouldntGetPosts => String::from_str("couldnt_get_posts"),
        }
    }
}

} // verus!
