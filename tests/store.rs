use hitori::db::{
    add_post, add_post_to_db, delete_post, from_posts, get_posts, update_sync_status, PostStore,
    StoreError,
};
use hitori::post::{created_before, less_bytes, Post};

fn post_at(id: &str, content: &str, at: &str) -> Post {
    Post {
        id: id.to_string(),
        content: content.to_string(),
        created_at: at.to_string(),
        updated_at: at.to_string(),
        is_synced: false,
    }
}

fn crud_round(content: &str) {
    let mut store = PostStore::new();
    let now = chrono::Utc::now().to_rfc3339();
    let id = uuid::Uuid::new_v4().to_string();
    let post = Post {
        id: id.clone(),
        content: content.to_string(),
        created_at: now.clone(),
        updated_at: now.clone(),
        is_synced: false,
    };
    add_post_to_db(&mut store, post).unwrap();

    let posts = get_posts(&store);
    assert_eq!(posts.len(), 1);
    assert_eq!(posts[0].id, id);
    assert_eq!(posts[0].content, content);
    assert_eq!(posts[0].is_synced, false);

    update_sync_status(&mut store, vec![id.clone()], true);
    let posts = get_posts(&store);
    assert_eq!(posts.len(), 1);
    assert_eq!(posts[0].is_synced, true);

    delete_post(&mut store, id.clone());
    let posts = get_posts(&store);
    assert_eq!(posts.len(), 0);
}

fn multiple_round(contents: [&str; 3]) {
    let mut store = PostStore::new();
    let now = chrono::Utc::now().to_rfc3339();
    let id1 = uuid::Uuid::new_v4().to_string();
    let id2 = uuid::Uuid::new_v4().to_string();
    let id3 = uuid::Uuid::new_v4().to_string();
    add_post_to_db(&mut store, post_at(&id1, contents[0], &now)).unwrap();
    add_post_to_db(&mut store, post_at(&id2, contents[1], &now)).unwrap();
    add_post_to_db(&mut store, post_at(&id3, contents[2], &now)).unwrap();

    let posts = get_posts(&store);
    assert_eq!(posts.len(), 3);

    update_sync_status(&mut store, vec![id1.clone(), id3.clone()], true);
    let posts = get_posts(&store);
    let mut synced_count = 0;
    for post in posts {
        if post.id == id1 || post.id == id3 {
            assert_eq!(post.is_synced, true);
            synced_count += 1;
        } else {
            assert_eq!(post.is_synced, false);
        }
    }
    assert_eq!(synced_count, 2);
}

#[test]
fn test_crud_operations() {
    crud_round("テスト投稿です");
}

#[test]
fn test_crud_operations_directly() {
    crud_round("Test post");
}

#[test]
fn db_test_multiple_posts() {
    multiple_round(["投稿1", "投稿2", "投稿3"]);
}

#[test]
fn lib_test_multiple_posts() {
    multiple_round(["Post 1", "Post 2", "Post 3"]);
}

#[test]
fn add_post_fills_fields() {
    let mut store = PostStore::new();
    let p = add_post(&mut store, "hello".to_string()).unwrap();
    assert_eq!(p.content, "hello");
    assert!(!p.is_synced);
    assert_eq!(p.created_at, p.updated_at);
    assert!(!p.id.is_empty());
    assert!(!p.created_at.is_empty());
}

#[test]
fn add_post_empty_content() {
    let mut store = PostStore::new();
    let p = add_post(&mut store, String::new()).unwrap();
    assert_eq!(p.content, "");
    assert!(!p.is_synced);
}

#[test]
fn add_post_gives_distinct_ids() {
    let mut store = PostStore::new();
    let a = add_post(&mut store, "a".to_string()).unwrap();
    let b = add_post(&mut store, "b".to_string()).unwrap();
    assert_ne!(a.id, b.id);
    assert_eq!(get_posts(&store).len(), 2);
}

#[test]
fn listed_once_after_add() {
    let mut store = PostStore::new();
    add_post_to_db(&mut store, post_at("x", "other", "2024-01-01T00:00:00+00:00")).unwrap();
    let p = add_post(&mut store, "mine".to_string()).unwrap();
    let posts = get_posts(&store);
    let same: Vec<&Post> = posts.iter().filter(|q| q.id == p.id).collect();
    assert_eq!(same.len(), 1);
    assert_eq!(same[0].content, p.content);
    assert_eq!(same[0].created_at, p.created_at);
    assert_eq!(same[0].updated_at, p.updated_at);
    assert_eq!(same[0].is_synced, p.is_synced);
}

#[test]
fn listed_newest_first() {
    let mut store = PostStore::new();
    add_post_to_db(&mut store, post_at("a", "A", "2024-01-01T00:00:00+00:00")).unwrap();
    add_post_to_db(&mut store, post_at("b", "B", "2024-01-02T00:00:00+00:00")).unwrap();
    add_post_to_db(&mut store, post_at("c", "C", "2024-01-03T00:00:00+00:00")).unwrap();
    let ids: Vec<String> = get_posts(&store).into_iter().map(|p| p.id).collect();
    assert_eq!(ids, vec!["c", "b", "a"]);
}

#[test]
fn listed_newest_first_out_of_order_insert() {
    let mut store = PostStore::new();
    add_post_to_db(&mut store, post_at("b", "B", "2024-01-02T00:00:00+00:00")).unwrap();
    add_post_to_db(&mut store, post_at("c", "C", "2024-01-03T00:00:00+00:00")).unwrap();
    add_post_to_db(&mut store, post_at("a", "A", "2024-01-01T00:00:00+00:00")).unwrap();
    let ids: Vec<String> = get_posts(&store).into_iter().map(|p| p.id).collect();
    assert_eq!(ids, vec!["c", "b", "a"]);
}

#[test]
fn equal_times_keep_insertion_order() {
    let mut store = PostStore::new();
    add_post_to_db(&mut store, post_at("first", "1", "2024-01-01T00:00:00+00:00")).unwrap();
    add_post_to_db(&mut store, post_at("second", "2", "2024-01-01T00:00:00+00:00")).unwrap();
    let ids: Vec<String> = get_posts(&store).into_iter().map(|p| p.id).collect();
    assert_eq!(ids, vec!["first", "second"]);
}

#[test]
fn duplicate_id_refused() {
    let mut store = PostStore::new();
    add_post_to_db(&mut store, post_at("same", "one", "2024-01-01T00:00:00+00:00")).unwrap();
    let r = add_post_to_db(&mut store, post_at("same", "two", "2024-01-02T00:00:00+00:00"));
    assert_eq!(r, Err(StoreError::DuplicateId));
    let posts = get_posts(&store);
    assert_eq!(posts.len(), 1);
    assert_eq!(posts[0].content, "one");
}

#[test]
fn delete_existing_removes_it() {
    let mut store = PostStore::new();
    add_post_to_db(&mut store, post_at("a", "A", "2024-01-01T00:00:00+00:00")).unwrap();
    add_post_to_db(&mut store, post_at("b", "B", "2024-01-02T00:00:00+00:00")).unwrap();
    delete_post(&mut store, "a".to_string());
    let posts = get_posts(&store);
    assert_eq!(posts.len(), 1);
    assert!(posts.iter().all(|p| p.id != "a"));
    assert_eq!(posts[0].id, "b");
}

#[test]
fn delete_missing_is_noop() {
    let mut store = PostStore::new();
    add_post_to_db(&mut store, post_at("a", "A", "2024-01-01T00:00:00+00:00")).unwrap();
    delete_post(&mut store, "nope".to_string());
    let posts = get_posts(&store);
    assert_eq!(posts.len(), 1);
    assert_eq!(posts[0].id, "a");
    assert_eq!(posts[0].content, "A");
}

#[test]
fn delete_from_empty_store() {
    let mut store = PostStore::new();
    delete_post(&mut store, "a".to_string());
    assert_eq!(get_posts(&store).len(), 0);
}

#[test]
fn update_selected_ids_only() {
    let mut store = PostStore::new();
    add_post_to_db(&mut store, post_at("id1", "1", "2024-01-01T00:00:00+00:00")).unwrap();
    add_post_to_db(&mut store, post_at("id2", "2", "2024-01-02T00:00:00+00:00")).unwrap();
    add_post_to_db(&mut store, post_at("id3", "3", "2024-01-03T00:00:00+00:00")).unwrap();
    update_sync_status(&mut store, vec!["id1".to_string(), "id3".to_string(), "ghost".to_string()], true);
    let posts = get_posts(&store);
    assert_eq!(posts.len(), 3);
    assert_eq!((posts[0].id.as_str(), posts[0].is_synced), ("id3", true));
    assert_eq!((posts[1].id.as_str(), posts[1].is_synced), ("id2", false));
    assert_eq!((posts[2].id.as_str(), posts[2].is_synced), ("id1", true));
    assert_eq!(posts[0].updated_at, "2024-01-03T00:00:00+00:00");
}

#[test]
fn update_can_clear_flag() {
    let mut store = PostStore::new();
    add_post_to_db(&mut store, post_at("id1", "1", "2024-01-01T00:00:00+00:00")).unwrap();
    update_sync_status(&mut store, vec!["id1".to_string()], true);
    update_sync_status(&mut store, vec!["id1".to_string()], false);
    assert!(!get_posts(&store)[0].is_synced);
}

#[test]
fn update_with_no_ids_is_noop() {
    let mut store = PostStore::new();
    add_post_to_db(&mut store, post_at("id1", "1", "2024-01-01T00:00:00+00:00")).unwrap();
    update_sync_status(&mut store, Vec::new(), true);
    let posts = get_posts(&store);
    assert_eq!(posts.len(), 1);
    assert!(!posts[0].is_synced);
}

#[test]
fn from_posts_orders_rows() {
    let rows = vec![
        post_at("a", "A", "2024-01-01T00:00:00+00:00"),
        post_at("c", "C", "2024-01-03T00:00:00+00:00"),
        post_at("b", "B", "2024-01-02T00:00:00+00:00"),
    ];
    let store = from_posts(rows).unwrap();
    let ids: Vec<String> = get_posts(&store).into_iter().map(|p| p.id).collect();
    assert_eq!(ids, vec!["c", "b", "a"]);
}

#[test]
fn from_posts_refuses_duplicate_ids() {
    let rows = vec![
        post_at("a", "A", "2024-01-01T00:00:00+00:00"),
        post_at("a", "B", "2024-01-02T00:00:00+00:00"),
    ];
    assert!(matches!(from_posts(rows), Err(StoreError::DuplicateId)));
}

#[test]
fn from_posts_empty() {
    let store = from_posts(Vec::new()).unwrap();
    assert!(get_posts(&store).is_empty());
}

#[test]
fn byte_order() {
    assert!(less_bytes(b"abc", b"abd"));
    assert!(!less_bytes(b"abd", b"abc"));
    assert!(less_bytes(b"ab", b"abc"));
    assert!(!less_bytes(b"abc", b"ab"));
    assert!(!less_bytes(b"abc", b"abc"));
    assert!(less_bytes(b"", b"a"));
    assert!(!less_bytes(b"", b""));
}

#[test]
fn created_before_compares_times() {
    let a = post_at("a", "A", "2024-01-01T00:00:00+00:00");
    let b = post_at("b", "B", "2024-01-02T00:00:00+00:00");
    assert!(created_before(&a, &b));
    assert!(!created_before(&b, &a));
    assert!(!created_before(&a, &a));
}

#[test]
fn duplicate_copies_all_fields() {
    let mut a = post_at("a", "A", "2024-01-01T00:00:00+00:00");
    a.is_synced = true;
    let b = a.duplicate();
    assert_eq!(b.id, a.id);
    assert_eq!(b.content, a.content);
    assert_eq!(b.created_at, a.created_at);
    assert_eq!(b.updated_at, a.updated_at);
    assert_eq!(b.is_synced, a.is_synced);
}

#[test]
fn add_post_id_is_hyphenated_v4_uuid() {
    let mut store = PostStore::new();
    let p = add_post(&mut store, "x".to_string()).unwrap();
    let chars: Vec<char> = p.id.chars().collect();
    assert_eq!(chars.len(), 36);
    for (i, c) in chars.iter().enumerate() {
        if i == 8 || i == 13 || i == 18 || i == 23 {
            assert_eq!(*c, '-');
        } else {
            assert!(c.is_ascii_digit() || ('a'..='f').contains(c));
        }
    }
    assert_eq!(chars[14], '4');
    assert!(matches!(chars[19], '8' | '9' | 'a' | 'b'));
}

#[test]
fn add_post_time_is_utc_rfc3339() {
    let mut store = PostStore::new();
    let p = add_post(&mut store, "x".to_string()).unwrap();
    assert!(p.created_at.len() > 6);
    assert!(p.created_at.ends_with("+00:00"));
    assert_eq!(p.created_at.as_bytes()[4], b'-');
    assert_eq!(p.created_at.as_bytes()[10], b'T');
}

#[test]
fn add_post_on_empty_store_succeeds() {
    let mut store = PostStore::new();
    assert!(add_post(&mut store, "a very long text ".repeat(1000)).is_ok());
    assert_eq!(get_posts(&store).len(), 1);
}
