use iemanja::persistency::memory::MemoryStore;
use iemanja::persistency::models::FindAllOptions;
use iemanja::persistency::posts::errors::PostRepositoryError;
use iemanja::persistency::posts::models::NewPost;
use iemanja::persistency::tags::errors::TagRepositoryError;
use iemanja::persistency::tags::models::NewTag;

fn new_tag(name: &str) -> NewTag {
    NewTag { name: name.to_string() }
}

fn new_post(title: &str, content: &str, tags: &[&str]) -> NewPost {
    NewPost {
        title: title.to_string(),
        content: content.to_string(),
        tags: tags.iter().map(|t| t.to_string()).collect(),
    }
}

fn options(limit: usize, offset: usize) -> FindAllOptions {
    FindAllOptions { limit, offset }
}

#[test]
fn test_tag_validation_reports_exactly_the_missing_names() {
    // Creating a post that references unknown tag names fails with exactly
    // those names and leaves both collections untouched.
    let mut store = MemoryStore::new();
    store.create_tag(new_tag("x")).unwrap();

    let result = store.create_post(new_post("T", "C", &["x", "y", "z"]));
    match result {
        Err(PostRepositoryError::TagsNotFound(missing)) => {
            assert_eq!(missing, vec!["y".to_string(), "z".to_string()]);
        }
        _ => panic!("expected the unresolved names to be reported"),
    }

    let tags = store.find_all_tags(options(10, 0)).unwrap();
    assert_eq!(tags.total, 1);
    let posts = store.find_all_posts(options(10, 0)).unwrap();
    assert_eq!(posts.total, 0);
    assert!(posts.posts.is_empty());
}

#[test]
fn test_pagination_bound_and_total() {
    let mut store = MemoryStore::new();
    for name in ["a", "b", "c", "d", "e"] {
        store.create_tag(new_tag(name)).unwrap();
    }

    let page = store.find_all_tags(options(2, 1)).unwrap();
    assert_eq!(page.tags.len(), 2);
    assert_eq!(page.tags[0].name, "b");
    assert_eq!(page.tags[1].name, "c");
    assert_eq!(page.total, 5);

    let all = store.find_all_tags(options(100, 0)).unwrap();
    assert_eq!(all.tags.len(), 5);
    assert_eq!(all.total, 5);

    let none = store.find_all_tags(options(0, 0)).unwrap();
    assert!(none.tags.is_empty());
    assert_eq!(none.total, 5);

    let beyond = store.find_all_tags(options(3, 9)).unwrap();
    assert!(beyond.tags.is_empty());
    assert_eq!(beyond.total, 5);
}

#[test]
fn test_post_pagination_bound_and_total() {
    let mut store = MemoryStore::new();
    store.create_tag(new_tag("t")).unwrap();
    for i in 0..4 {
        store.create_post(new_post(&format!("p{i}"), "c", &["t"])).unwrap();
    }
    let page = store.find_all_posts(options(3, 2)).unwrap();
    assert_eq!(page.posts.len(), 2);
    assert_eq!(page.posts[0].title, "p2");
    assert_eq!(page.total, 4);
}

#[test]
fn test_round_trip_create_then_get() {
    let mut store = MemoryStore::new();
    store.create_tag(new_tag("x")).unwrap();

    let created = store.create_post(new_post("T", "C", &["x"])).unwrap();
    let fetched = store.get_post(&created.id).unwrap();

    assert_eq!(fetched.id, created.id);
    assert_eq!(fetched.title, "T");
    assert_eq!(fetched.content, "C");
    assert_eq!(fetched.tags.len(), 1);
    assert_eq!(fetched.tags[0].name, "x");
}

#[test]
fn test_resync_replaces_associations() {
    // A post created with {a, b} and then rewritten with {b, c} ends up
    // associated with exactly {b, c}: "a" is gone, "c" is new.
    let mut store = MemoryStore::new();
    store.create_tag(new_tag("a")).unwrap();
    store.create_tag(new_tag("b")).unwrap();
    store.create_tag(new_tag("c")).unwrap();

    let created = store.create_post(new_post("T", "C", &["a", "b"])).unwrap();
    let mut names: Vec<String> = created.tags.iter().map(|t| t.name.clone()).collect();
    names.sort();
    assert_eq!(names, vec!["a".to_string(), "b".to_string()]);

    let updated = store.update_post(&created.id, new_post("T2", "C2", &["b", "c"])).unwrap();
    assert_eq!(updated.title, "T2");
    assert_eq!(updated.content, "C2");

    let fetched = store.get_post(&created.id).unwrap();
    let mut names: Vec<String> = fetched.tags.iter().map(|t| t.name.clone()).collect();
    names.sort();
    assert_eq!(names, vec!["b".to_string(), "c".to_string()]);
}

#[test]
fn test_deleting_a_tag_leaves_the_post_and_omits_the_tag() {
    // Deleting an associated tag does not delete the post; the dangling
    // association is skipped when the post is read back.
    let mut store = MemoryStore::new();
    store.create_tag(new_tag("x")).unwrap();
    store.create_tag(new_tag("y")).unwrap();
    let created = store.create_post(new_post("T", "C", &["x", "y"])).unwrap();

    store.delete_tag("x").unwrap();

    let fetched = store.get_post(&created.id).unwrap();
    assert_eq!(fetched.title, "T");
    let names: Vec<String> = fetched.tags.iter().map(|t| t.name.clone()).collect();
    assert_eq!(names, vec!["y".to_string()]);
}

#[test]
fn test_listing_is_idempotent_without_writes() {
    let mut store = MemoryStore::new();
    store.create_tag(new_tag("a")).unwrap();
    store.create_tag(new_tag("b")).unwrap();
    store.create_post(new_post("p1", "c1", &["a"])).unwrap();
    store.create_post(new_post("p2", "c2", &["b"])).unwrap();

    let first = store.find_all_posts(options(10, 0)).unwrap();
    let second = store.find_all_posts(options(10, 0)).unwrap();
    assert_eq!(first.total, second.total);
    assert_eq!(first.posts.len(), second.posts.len());
    for (p, q) in first.posts.iter().zip(second.posts.iter()) {
        assert_eq!(p.id, q.id);
        assert_eq!(p.title, q.title);
        let pn: Vec<&String> = p.tags.iter().map(|t| &t.name).collect();
        let qn: Vec<&String> = q.tags.iter().map(|t| &t.name).collect();
        assert_eq!(pn, qn);
    }

    let t1 = store.find_all_tags(options(10, 0)).unwrap();
    let t2 = store.find_all_tags(options(10, 0)).unwrap();
    assert_eq!(t1.total, t2.total);
    let n1: Vec<&String> = t1.tags.iter().map(|t| &t.name).collect();
    let n2: Vec<&String> = t2.tags.iter().map(|t| &t.name).collect();
    assert_eq!(n1, n2);
}

#[test]
fn test_create_tag_rejects_duplicate_name() {
    let mut store = MemoryStore::new();
    store.create_tag(new_tag("x")).unwrap();
    let result = store.create_tag(new_tag("x"));
    assert!(matches!(result, Err(TagRepositoryError::TagCreation)));
    assert_eq!(store.find_all_tags(options(10, 0)).unwrap().total, 1);
}

#[test]
fn test_get_tag_and_not_found() {
    let mut store = MemoryStore::new();
    let created = store.create_tag(new_tag("x")).unwrap();
    let fetched = store.get_tag("x").unwrap();
    assert_eq!(fetched.id, created.id);
    assert_eq!(fetched.name, "x");

    assert!(matches!(store.get_tag("nope"), Err(TagRepositoryError::TagNotFound)));
}

#[test]
fn test_update_tag_renames_and_keeps_associations() {
    let mut store = MemoryStore::new();
    store.create_tag(new_tag("old")).unwrap();
    let post = store.create_post(new_post("T", "C", &["old"])).unwrap();

    let renamed = store.update_tag("old", new_tag("new")).unwrap();
    assert_eq!(renamed.name, "new");

    let fetched = store.get_post(&post.id).unwrap();
    assert_eq!(fetched.tags.len(), 1);
    assert_eq!(fetched.tags[0].name, "new");
}

#[test]
fn test_update_tag_errors() {
    let mut store = MemoryStore::new();
    store.create_tag(new_tag("a")).unwrap();
    store.create_tag(new_tag("b")).unwrap();

    assert!(matches!(
        store.update_tag("missing", new_tag("c")),
        Err(TagRepositoryError::TagNotFound)
    ));
    assert!(matches!(store.update_tag("a", new_tag("b")), Err(TagRepositoryError::TagUpdate)));
    // Renaming a tag to its own name is allowed.
    assert!(store.update_tag("a", new_tag("a")).is_ok());
}

#[test]
fn test_delete_tag_is_silent_on_missing() {
    let mut store = MemoryStore::new();
    assert!(store.delete_tag("ghost").is_ok());
}

#[test]
fn test_find_in_names_returns_only_requested_subset() {
    let mut store = MemoryStore::new();
    for name in ["a", "b", "c"] {
        store.create_tag(new_tag(name)).unwrap();
    }
    let found = store
        .find_in_names(&vec!["b".to_string(), "z".to_string(), "a".to_string()])
        .unwrap();
    let names: Vec<String> = found.iter().map(|t| t.name.clone()).collect();
    // Store order, absent names silently omitted.
    assert_eq!(names, vec!["a".to_string(), "b".to_string()]);
}

#[test]
fn test_get_post_not_found() {
    let store = MemoryStore::new();
    assert!(matches!(store.get_post("0"), Err(PostRepositoryError::PostGet)));
}

#[test]
fn test_update_post_errors() {
    let mut store = MemoryStore::new();
    store.create_tag(new_tag("a")).unwrap();

    // Unknown post, resolvable tags: the not-found condition.
    assert!(matches!(
        store.update_post("99", new_post("T", "C", &["a"])),
        Err(PostRepositoryError::PostUpdate)
    ));

    // Unresolvable tag names are rejected before anything is written.
    let created = store.create_post(new_post("T", "C", &["a"])).unwrap();
    let result = store.update_post(&created.id, new_post("T", "C", &["a", "zz"]));
    match result {
        Err(PostRepositoryError::TagsNotFound(missing)) => {
            assert_eq!(missing, vec!["zz".to_string()]);
        }
        _ => panic!("expected the unresolved names to be reported"),
    }
    // The failed update left the post as it was.
    let fetched = store.get_post(&created.id).unwrap();
    assert_eq!(fetched.title, "T");
    assert_eq!(fetched.tags.len(), 1);
}

#[test]
fn test_delete_post_removes_row_and_orphans_relations() {
    let mut store = MemoryStore::new();
    store.create_tag(new_tag("a")).unwrap();
    let created = store.create_post(new_post("T", "C", &["a"])).unwrap();

    store.delete_post(&created.id).unwrap();
    assert!(matches!(store.get_post(&created.id), Err(PostRepositoryError::PostGet)));
    assert_eq!(store.find_all_posts(options(10, 0)).unwrap().total, 0);
    // The tag itself is untouched.
    assert!(store.get_tag("a").is_ok());
    // Deleting again is silent.
    assert!(store.delete_post(&created.id).is_ok());
}

#[test]
fn test_timestamps_follow_the_store_clock() {
    let mut store = MemoryStore::new();
    store.create_tag(new_tag("a")).unwrap();
    store.set_now(100);
    let created = store.create_post(new_post("T", "C", &["a"])).unwrap();
    assert_eq!(created.created_at, 100);
    assert_eq!(created.updated_at, 100);

    store.set_now(250);
    let updated = store.update_post(&created.id, new_post("T2", "C2", &["a"])).unwrap();
    assert_eq!(updated.created_at, 100);
    assert_eq!(updated.updated_at, 250);
    assert!(updated.updated_at >= updated.created_at);
}

#[test]
fn test_ids_are_assigned_and_distinct() {
    let mut store = MemoryStore::new();
    let a = store.create_tag(new_tag("a")).unwrap();
    let b = store.create_tag(new_tag("b")).unwrap();
    assert_ne!(a.id, b.id);
    let p = store.create_post(new_post("T", "C", &[])).unwrap();
    assert_ne!(p.id, a.id);
    assert_ne!(p.id, b.id);
}
