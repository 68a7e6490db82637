use post_api::api::{CreatePost, CreatePostLike, GetPost, GetPosts};
use post_api::domain::{
    ApiError, Claims, Comment, Community, ErrorKind, ModeratorRow, Operation, Session, User,
};
use post_api::store::Database;

fn user(id: i32, name: &str, banned: bool, admin: bool) -> User {
    User { id, name: String::from(name), banned, admin }
}

fn session(token: &str, id: i32, show_nsfw: bool) -> Session {
    Session { token: String::from(token), claims: Claims { id, show_nsfw } }
}

fn fixture() -> Database {
    let mut db = Database::empty(6);
    db.users = vec![
        user(1, "alice", false, false),
        user(4, "dave", false, false),
        user(5, "erin", false, true),
        user(6, "frank", false, true),
    ];
    db.communities = vec![Community { id: 5, name: String::from("general"), creator_id: 6 }];
    db.moderators = vec![ModeratorRow { community_id: 5, user_id: 4 }];
    db.sessions = vec![
        session("tok-alice", 1, false),
        session("tok-dave", 4, false),
        session("tok-erin", 5, true),
        session("tok-frank", 6, true),
    ];
    db.clock = 1_700_000_000;
    db
}

fn create_named(db: &mut Database, name: &str, nsfw: bool, auth: &str) -> i32 {
    let req = CreatePost {
        name: String::from(name),
        url: None,
        body: None,
        nsfw,
        community_id: 5,
        auth: String::from(auth),
    };
    req.perform(db).unwrap().post.id
}

fn comment(id: i32, post_id: i32, creator_id: i32, content: &str) -> Comment {
    Comment { id, post_id, creator_id, content: String::from(content) }
}

fn listing(db: &Database, type_: &str, sort: &str, auth: Option<&str>) -> Vec<i32> {
    let req = GetPosts {
        type_: String::from(type_),
        sort: String::from(sort),
        page: None,
        limit: None,
        community_id: None,
        auth: auth.map(String::from),
    };
    req.perform(db).unwrap().posts.iter().map(|v| v.id).collect()
}

#[test]
fn get_posts_invalid_sort_is_bad_request() {
    let db = fixture();
    let req = GetPosts {
        type_: String::from("All"),
        sort: String::from("invalid_token"),
        page: None,
        limit: None,
        community_id: None,
        auth: None,
    };
    let err = req.perform(&db).unwrap_err();
    assert_eq!(err, ApiError { op: Operation::GetPosts, kind: ErrorKind::BadRequest });
}

#[test]
fn get_posts_invalid_type_is_bad_request() {
    let db = fixture();
    let req = GetPosts {
        type_: String::from("Everything"),
        sort: String::from("New"),
        page: None,
        limit: None,
        community_id: None,
        auth: None,
    };
    let err = req.perform(&db).unwrap_err();
    assert_eq!(err.kind, ErrorKind::BadRequest);
}

#[test]
fn get_posts_new_is_newest_first() {
    let mut db = fixture();
    create_named(&mut db, "first", false, "tok-alice");
    create_named(&mut db, "second", false, "tok-alice");
    create_named(&mut db, "third", false, "tok-alice");
    assert_eq!(listing(&db, "All", "New", None), vec![3, 2, 1]);
}

#[test]
fn get_posts_top_orders_by_score() {
    let mut db = fixture();
    create_named(&mut db, "first", false, "tok-alice"); // score 1
    create_named(&mut db, "second", false, "tok-alice"); // score 1, then +2
    create_named(&mut db, "third", false, "tok-alice"); // score 1, then -1 -> 0
    let like = |db: &mut Database, post_id, score, auth: &str| {
        CreatePostLike { post_id, score, auth: String::from(auth) }.perform(db).unwrap();
    };
    like(&mut db, 2, 1, "tok-dave");
    like(&mut db, 2, 1, "tok-erin");
    like(&mut db, 3, -1, "tok-dave");
    // scores: post 1 -> 1, post 2 -> 3, post 3 -> 0; ties break newest-first
    assert_eq!(listing(&db, "All", "TopAll", None), vec![2, 1, 3]);
}

#[test]
fn get_posts_hides_nsfw_from_anonymous() {
    let mut db = fixture();
    create_named(&mut db, "tame", false, "tok-alice");
    create_named(&mut db, "spicy", true, "tok-alice");
    assert_eq!(listing(&db, "All", "New", None), vec![1]);
    // alice's preference hides nsfw as well
    assert_eq!(listing(&db, "All", "New", Some("tok-alice")), vec![1]);
    // erin opted in
    assert_eq!(listing(&db, "All", "New", Some("tok-erin")), vec![2, 1]);
}

#[test]
fn get_posts_subscribed_needs_follows() {
    let mut db = fixture();
    create_named(&mut db, "general news", false, "tok-alice");
    assert_eq!(listing(&db, "Subscribed", "New", Some("tok-dave")), Vec::<i32>::new());
    db.follows.push(post_api::domain::FollowRow { community_id: 5, user_id: 4 });
    assert_eq!(listing(&db, "Subscribed", "New", Some("tok-dave")), vec![1]);
}

#[test]
fn get_posts_paginates() {
    let mut db = fixture();
    for k in 0..5 {
        create_named(&mut db, &format!("post {}", k), false, "tok-alice");
    }
    let page = |page, limit| {
        let req = GetPosts {
            type_: String::from("All"),
            sort: String::from("New"),
            page,
            limit,
            community_id: None,
            auth: None,
        };
        req.perform(&db)
            .unwrap()
            .posts
            .iter()
            .map(|v| v.id)
            .collect::<Vec<i32>>()
    };
    assert_eq!(page(Some(1), Some(2)), vec![5, 4]);
    assert_eq!(page(Some(2), Some(2)), vec![3, 2]);
    assert_eq!(page(Some(3), Some(2)), vec![1]);
    assert_eq!(page(Some(4), Some(2)), Vec::<i32>::new());
}

#[test]
fn get_post_returns_full_context() {
    let mut db = fixture();
    create_named(&mut db, "Hello", false, "tok-alice");
    db.comments = vec![
        comment(1, 1, 4, "first!"),
        comment(2, 1, 5, "second"),
        comment(3, 1, 1, "thanks all"),
    ];
    let req = GetPost { id: 1, auth: Some(String::from("tok-alice")) };
    let resp = req.perform(&db).unwrap();
    assert_eq!(resp.op, "GetPost");
    assert_eq!(resp.post.id, 1);
    assert_eq!(resp.post.my_vote, 1);
    // comments come newest-first
    let ids: Vec<i32> = resp.comments.iter().map(|c| c.id).collect();
    assert_eq!(ids, vec![3, 2, 1]);
    assert_eq!(resp.community.id, 5);
    assert_eq!(resp.community.name, "general");
    assert_eq!(resp.moderators, vec![ModeratorRow { community_id: 5, user_id: 4 }]);
    // the site creator (frank) stands first among the admins
    let admin_ids: Vec<i32> = resp.admins.iter().map(|u| u.id).collect();
    assert_eq!(admin_ids, vec![6, 5]);
}

#[test]
fn get_post_anonymous_sees_no_viewer_state() {
    let mut db = fixture();
    create_named(&mut db, "Hello", false, "tok-alice");
    let resp = GetPost { id: 1, auth: None }.perform(&db).unwrap();
    assert_eq!(resp.post.my_vote, 0);
    assert!(!resp.post.saved);
    assert_eq!(resp.post.score, 1);
}

#[test]
fn get_post_unknown_id_is_not_found() {
    let db = fixture();
    let err = GetPost { id: 12, auth: None }.perform(&db).unwrap_err();
    assert_eq!(err, ApiError { op: Operation::GetPost, kind: ErrorKind::NotFound });
}

#[test]
fn get_post_bad_token_degrades_to_anonymous() {
    let mut db = fixture();
    create_named(&mut db, "Hello", false, "tok-alice");
    let req = GetPost { id: 1, auth: Some(String::from("expired-token")) };
    let resp = req.perform(&db).unwrap();
    assert_eq!(resp.post.my_vote, 0);
}

#[test]
fn get_posts_filters_by_community() {
    let mut db = fixture();
    db.communities.push(Community { id: 9, name: String::from("other"), creator_id: 6 });
    create_named(&mut db, "in general", false, "tok-alice");
    let other = CreatePost {
        name: String::from("elsewhere"),
        url: None,
        body: None,
        nsfw: false,
        community_id: 9,
        auth: String::from("tok-alice"),
    };
    other.perform(&mut db).unwrap();
    let req = GetPosts {
        type_: String::from("All"),
        sort: String::from("New"),
        page: None,
        limit: None,
        community_id: Some(9),
        auth: None,
    };
    let ids: Vec<i32> = req.perform(&db).unwrap().posts.iter().map(|v| v.id).collect();
    assert_eq!(ids, vec![2]);
}

#[test]
fn get_post_keeps_admin_order_without_creator() {
    let mut db = fixture();
    // the site creator is no longer an admin; the list keeps stored order
    db.users[3].admin = false; // frank
    create_named(&mut db, "Hello", false, "tok-alice");
    let resp = GetPost { id: 1, auth: None }.perform(&db).unwrap();
    let admin_ids: Vec<i32> = resp.admins.iter().map(|u| u.id).collect();
    assert_eq!(admin_ids, vec![5]);
}
