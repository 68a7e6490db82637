use post_api::api::{CreatePost, CreatePostLike, EditPost, SavePost};
use post_api::domain::{
    ApiError, Claims, Community, CommunityBanRow, ErrorKind, ModeratorRow, Operation, Session,
    User,
};
use post_api::store::Database;

fn user(id: i32, name: &str, banned: bool, admin: bool) -> User {
    User { id, name: String::from(name), banned, admin }
}

fn session(token: &str, id: i32, show_nsfw: bool) -> Session {
    Session { token: String::from(token), claims: Claims { id, show_nsfw } }
}

/// A store with six users: a plain one, one banned in community 5, a
/// site-banned one, a moderator of community 5, an admin, and the site
/// creator (also an admin). Communities 5 and 7 exist.
fn fixture() -> Database {
    let mut db = Database::empty(6);
    db.users = vec![
        user(1, "alice", false, false),
        user(2, "bob", false, false),
        user(3, "carol", true, false),
        user(4, "dave", false, false),
        user(5, "erin", false, true),
        user(6, "frank", false, true),
    ];
    db.communities = vec![
        Community { id: 5, name: String::from("general"), creator_id: 6 },
        Community { id: 7, name: String::from("quiet"), creator_id: 6 },
    ];
    db.moderators = vec![ModeratorRow { community_id: 5, user_id: 4 }];
    db.community_bans = vec![CommunityBanRow { community_id: 5, user_id: 2 }];
    db.sessions = vec![
        session("tok-alice", 1, false),
        session("tok-bob", 2, false),
        session("tok-carol", 3, false),
        session("tok-dave", 4, false),
        session("tok-erin", 5, true),
        session("tok-frank", 6, true),
    ];
    db.disallowed_terms = vec![String::from("zorblat")];
    db.clock = 1_700_000_000;
    db
}

fn create_req(name: &str, body: Option<&str>, community_id: i32, auth: &str) -> CreatePost {
    CreatePost {
        name: String::from(name),
        url: None,
        body: body.map(String::from),
        nsfw: false,
        community_id,
        auth: String::from(auth),
    }
}

fn like_req(post_id: i32, score: i16, auth: &str) -> CreatePostLike {
    CreatePostLike { post_id, score, auth: String::from(auth) }
}

fn edit_req(edit_id: i32, creator_id: i32, community_id: i32, auth: &str) -> EditPost {
    EditPost {
        edit_id,
        creator_id,
        community_id,
        name: String::from("Hello"),
        url: None,
        body: None,
        removed: None,
        deleted: None,
        nsfw: false,
        locked: None,
        reason: None,
        auth: String::from(auth),
    }
}

fn vote_rows(db: &Database, post_id: i32, user_id: i32) -> Vec<i16> {
    db.votes
        .iter()
        .filter(|v| v.post_id == post_id && v.user_id == user_id)
        .map(|v| v.score)
        .collect()
}

#[test]
fn create_hello_post_scores_one() {
    let mut db = fixture();
    let resp = create_req("Hello", None, 5, "tok-alice").perform(&mut db).unwrap();
    assert_eq!(resp.op, "CreatePost");
    assert_eq!(resp.post.id, 1);
    assert_eq!(resp.post.creator_id, 1);
    assert_eq!(resp.post.community_id, 5);
    assert_eq!(resp.post.score, 1);
    assert_eq!(resp.post.my_vote, 1);
    assert!(!resp.post.nsfw);
    assert_eq!(db.posts.len(), 1);
    assert_eq!(vote_rows(&db, 1, 1), vec![1]);
}

#[test]
fn community_banned_user_cannot_like() {
    let mut db = fixture();
    create_req("Hello", None, 5, "tok-alice").perform(&mut db).unwrap();
    let err = like_req(1, 1, "tok-bob").perform(&mut db).unwrap_err();
    assert_eq!(err, ApiError { op: Operation::CreatePostLike, kind: ErrorKind::CommunityBanned });
    assert_eq!(err.code(), "community_ban");
}

#[test]
fn vote_then_opposite_leaves_single_row() {
    let mut db = fixture();
    create_req("Hello", None, 5, "tok-alice").perform(&mut db).unwrap();
    like_req(1, 1, "tok-dave").perform(&mut db).unwrap();
    let resp = like_req(1, -1, "tok-dave").perform(&mut db).unwrap();
    assert_eq!(vote_rows(&db, 1, 4), vec![-1]);
    assert_eq!(resp.post.my_vote, -1);
    assert_eq!(resp.post.score, 0); // alice's self-vote plus dave's -1
}

#[test]
fn vote_then_zero_clears_row() {
    let mut db = fixture();
    create_req("Hello", None, 5, "tok-alice").perform(&mut db).unwrap();
    like_req(1, 1, "tok-dave").perform(&mut db).unwrap();
    let resp = like_req(1, 0, "tok-dave").perform(&mut db).unwrap();
    assert!(vote_rows(&db, 1, 4).is_empty());
    assert_eq!(resp.post.my_vote, 0);
    assert_eq!(resp.post.score, 1);
}

#[test]
fn out_of_range_score_clears_vote() {
    let mut db = fixture();
    create_req("Hello", None, 5, "tok-alice").perform(&mut db).unwrap();
    like_req(1, 1, "tok-dave").perform(&mut db).unwrap();
    like_req(1, 7, "tok-dave").perform(&mut db).unwrap();
    assert!(vote_rows(&db, 1, 4).is_empty());
}

#[test]
fn save_twice_leaves_single_row() {
    let mut db = fixture();
    create_req("Hello", None, 5, "tok-alice").perform(&mut db).unwrap();
    let save = SavePost { post_id: 1, save: true, auth: String::from("tok-dave") };
    save.perform(&mut db).unwrap();
    let resp = save.perform(&mut db).unwrap();
    let rows = db.saves.iter().filter(|s| s.post_id == 1 && s.user_id == 4).count();
    assert_eq!(rows, 1);
    assert!(resp.post.saved);
}

#[test]
fn unsave_absent_is_no_error() {
    let mut db = fixture();
    create_req("Hello", None, 5, "tok-alice").perform(&mut db).unwrap();
    let unsave = SavePost { post_id: 1, save: false, auth: String::from("tok-dave") };
    let resp = unsave.perform(&mut db).unwrap();
    assert!(!resp.post.saved);
    assert!(db.saves.is_empty());
}

#[test]
fn disallowed_name_rejected_and_nothing_persisted() {
    let mut db = fixture();
    let err = create_req("a zorblat appears", None, 5, "tok-alice")
        .perform(&mut db)
        .unwrap_err();
    assert_eq!(err, ApiError { op: Operation::CreatePost, kind: ErrorKind::DisallowedContent });
    assert_eq!(err.code(), "no_slurs");
    assert!(db.posts.is_empty());
    assert!(db.votes.is_empty());
}

#[test]
fn disallowed_body_rejected() {
    let mut db = fixture();
    let err = create_req("fine title", Some("but zorblat inside"), 5, "tok-alice")
        .perform(&mut db)
        .unwrap_err();
    assert_eq!(err.kind, ErrorKind::DisallowedContent);
    assert!(db.posts.is_empty());
}

#[test]
fn bad_token_is_not_logged_in() {
    let mut db = fixture();
    let err = create_req("Hello", None, 5, "no-such-token").perform(&mut db).unwrap_err();
    assert_eq!(err, ApiError { op: Operation::CreatePost, kind: ErrorKind::NotAuthenticated });
    assert_eq!(err.code(), "not_logged_in");
}

#[test]
fn community_banned_user_cannot_create() {
    let mut db = fixture();
    let err = create_req("Hello", None, 5, "tok-bob").perform(&mut db).unwrap_err();
    assert_eq!(err.kind, ErrorKind::CommunityBanned);
    assert!(db.posts.is_empty());
}

#[test]
fn site_banned_user_cannot_create() {
    let mut db = fixture();
    let err = create_req("Hello", None, 5, "tok-carol").perform(&mut db).unwrap_err();
    assert_eq!(err.kind, ErrorKind::SiteBanned);
    assert_eq!(err.code(), "site_ban");
}

#[test]
fn site_banned_user_cannot_like() {
    let mut db = fixture();
    create_req("Hello", None, 5, "tok-alice").perform(&mut db).unwrap();
    let err = like_req(1, 1, "tok-carol").perform(&mut db).unwrap_err();
    assert_eq!(err.kind, ErrorKind::SiteBanned);
}

#[test]
fn like_on_unknown_post_is_not_found() {
    let mut db = fixture();
    let err = like_req(99, 1, "tok-alice").perform(&mut db).unwrap_err();
    assert_eq!(err, ApiError { op: Operation::CreatePostLike, kind: ErrorKind::NotFound });
    assert_eq!(err.code(), "couldnt_find_post");
}

#[test]
fn edit_by_stranger_is_refused() {
    let mut db = fixture();
    create_req("Hello", None, 5, "tok-alice").perform(&mut db).unwrap();
    // bob holds a valid token but is neither creator, moderator, nor admin;
    // the authority check comes before the ban checks.
    let err = edit_req(1, 1, 5, "tok-bob").perform(&mut db).unwrap_err();
    assert_eq!(err, ApiError { op: Operation::EditPost, kind: ErrorKind::EditNotAllowed });
    assert_eq!(err.code(), "no_post_edit_allowed");
}

#[test]
fn edit_by_banned_moderator_fails_community_ban() {
    let mut db = fixture();
    create_req("Hello", None, 5, "tok-alice").perform(&mut db).unwrap();
    db.community_bans.push(CommunityBanRow { community_id: 5, user_id: 4 });
    let err = edit_req(1, 1, 5, "tok-dave").perform(&mut db).unwrap_err();
    assert_eq!(err.kind, ErrorKind::CommunityBanned);
}

#[test]
fn edit_by_site_banned_admin_fails_site_ban() {
    let mut db = fixture();
    create_req("Hello", None, 5, "tok-erin").perform(&mut db).unwrap();
    db.users[4].banned = true; // erin, the admin
    let err = edit_req(1, 5, 5, "tok-erin").perform(&mut db).unwrap_err();
    assert_eq!(err.kind, ErrorKind::SiteBanned);
}

#[test]
fn edit_by_moderator_updates_and_logs() {
    let mut db = fixture();
    create_req("Hello", None, 5, "tok-alice").perform(&mut db).unwrap();
    let mut req = edit_req(1, 1, 5, "tok-dave");
    req.name = String::from("Hello (removed)");
    req.removed = Some(true);
    req.locked = Some(true);
    req.reason = Some(String::from("off topic"));
    let resp = req.perform(&mut db).unwrap();
    assert_eq!(resp.op, "EditPost");
    assert!(resp.post.removed);
    assert!(resp.post.locked);
    assert_eq!(resp.post.name, "Hello (removed)");
    assert_eq!(resp.post.updated, Some(1_700_000_000));
    assert_eq!(db.mod_removals.len(), 1);
    assert_eq!(db.mod_removals[0].mod_user_id, 4);
    assert_eq!(db.mod_removals[0].post_id, 1);
    assert!(db.mod_removals[0].removed);
    assert_eq!(db.mod_removals[0].reason.as_deref(), Some("off topic"));
    assert_eq!(db.mod_locks.len(), 1);
    assert!(db.mod_locks[0].locked);
}

#[test]
fn edit_without_flags_appends_no_log() {
    let mut db = fixture();
    create_req("Hello", None, 5, "tok-alice").perform(&mut db).unwrap();
    edit_req(1, 1, 5, "tok-alice").perform(&mut db).unwrap();
    assert!(db.mod_removals.is_empty());
    assert!(db.mod_locks.is_empty());
}

#[test]
fn edit_on_unknown_post_is_couldnt_update() {
    let mut db = fixture();
    let err = edit_req(42, 1, 5, "tok-alice").perform(&mut db).unwrap_err();
    assert_eq!(err.kind, ErrorKind::CouldntUpdatePost);
    assert_eq!(err.code(), "couldnt_update_post");
}

#[test]
fn edit_trusts_caller_supplied_community() {
    // The edit request's community_id drives the moderator-roster lookup
    // and the ban checks; a caller can thus name a community other than
    // the post's. This pins the trust boundary as it stands.
    let mut db = fixture();
    create_req("Hello", None, 5, "tok-alice").perform(&mut db).unwrap();
    db.moderators.push(ModeratorRow { community_id: 7, user_id: 2 });
    // bob is banned in community 5, but the request claims community 7,
    // where bob moderates and holds no ban.
    let resp = edit_req(1, 1, 7, "tok-bob").perform(&mut db).unwrap();
    assert_eq!(resp.post.community_id, 7);
}

#[test]
fn save_on_unknown_post_is_not_found() {
    let mut db = fixture();
    let save = SavePost { post_id: 8, save: true, auth: String::from("tok-alice") };
    let err = save.perform(&mut db).unwrap_err();
    assert_eq!(err, ApiError { op: Operation::SavePost, kind: ErrorKind::NotFound });
}

#[test]
fn error_codes_are_stable() {
    let e = |kind| ApiError { op: Operation::CreatePost, kind };
    assert_eq!(e(ErrorKind::CouldntCreatePost).code(), "couldnt_create_post");
    assert_eq!(e(ErrorKind::CouldntLikePost).code(), "couldnt_like_post");
    assert_eq!(e(ErrorKind::CouldntSavePost).code(), "couldnt_save_post");
    assert_eq!(e(ErrorKind::CouldntGetPosts).code(), "couldnt_get_posts");
    assert_eq!(e(ErrorKind::BadRequest).code(), "bad_request");
}

#[test]
fn create_in_unknown_community_fails() {
    let mut db = fixture();
    let err = create_req("Hello", None, 999, "tok-alice").perform(&mut db).unwrap_err();
    assert_eq!(err.kind, ErrorKind::CouldntCreatePost);
    assert!(db.posts.is_empty());
}

#[test]
fn create_fails_when_id_space_exhausted() {
    let mut db = fixture();
    db.next_post_id = i32::MAX;
    let err = create_req("Hello", None, 5, "tok-alice").perform(&mut db).unwrap_err();
    assert_eq!(err.kind, ErrorKind::CouldntCreatePost);
    assert!(db.posts.is_empty());
}
