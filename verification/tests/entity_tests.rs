use iemanja::ids::u64_to_dec;
use iemanja::models::Tag;
use iemanja::persistency::models::{
    count_from_records, default_limit, default_offset, FindAllOptions, SurrealCountRecord,
};
use iemanja::persistency::posts::errors::PostRepositoryError;
use iemanja::persistency::posts::models::{
    first_post_row_or, posts_from_rows, NewPost, SurrealPostEntityInput, SurrealPostEntityOutput,
    SurrealPostEntityWithTagsOutput,
};
use iemanja::persistency::posts::utils::{
    create_post_entity, ensure_all_tags_found, missing_tag_names, post_entity_now, relation_refs,
};
use iemanja::persistency::posts_tags::models::{first_record_tags, SurrealTagsEntityOutput};
use iemanja::persistency::tags::errors::TagRepositoryError;
use iemanja::persistency::tags::models::{
    first_tag_or, tags_from_rows, NewTag, SurrealTagEntityInput, SurrealTagEntityOutput,
};
use iemanja::utils::tag::tags_diff_set;

fn tag(id: &str, name: &str) -> Tag {
    Tag { id: id.to_string(), name: name.to_string() }
}

#[test]
fn test_create_post_entity() {
    let now = 1706992260000i64;
    let post_entity = create_post_entity("title".to_string(), "content".to_string(), now);

    assert_eq!(post_entity.title, "title");
    assert_eq!(post_entity.content, "content");
    assert_eq!(post_entity.created_at, now);
    assert_eq!(post_entity.updated_at, now);

    assert_eq!(
        post_entity,
        SurrealPostEntityInput {
            title: "title".to_string(),
            content: "content".to_string(),
            created_at: now,
            updated_at: now,
        }
    );
}

#[test]
fn test_post_entity_now_stamps_both_timestamps_alike() {
    let entity = post_entity_now("t".to_string(), "c".to_string());
    assert_eq!(entity.title, "t");
    assert_eq!(entity.content, "c");
    assert_eq!(entity.created_at, entity.updated_at);
}

#[test]
fn test_u64_to_dec_renders_decimal() {
    assert_eq!(u64_to_dec(0), "0");
    assert_eq!(u64_to_dec(7), "7");
    assert_eq!(u64_to_dec(10), "10");
    assert_eq!(u64_to_dec(1234567890), "1234567890");
    assert_eq!(u64_to_dec(u64::MAX), "18446744073709551615");
}

#[test]
fn test_defaults() {
    assert_eq!(default_limit(), 10);
    assert_eq!(default_offset(), 0);
    let options = FindAllOptions::default();
    assert_eq!(options.limit, 10);
    assert_eq!(options.offset, 0);
    assert_eq!(SurrealCountRecord::default().count, 0);
}

#[test]
fn test_count_from_records_takes_first_or_zero() {
    assert_eq!(count_from_records(&vec![]), 0);
    assert_eq!(
        count_from_records(&vec![SurrealCountRecord { count: 42 }, SurrealCountRecord { count: 7 }]),
        42
    );
}

#[test]
fn test_tag_conversions() {
    let input = SurrealTagEntityInput::from(NewTag { name: "rust".to_string() });
    assert_eq!(input.name, "rust");

    let out = SurrealTagEntityOutput { id: "9".to_string(), name: "rust".to_string() };
    let t = Tag::from(out);
    assert_eq!(t.id, "9");
    assert_eq!(t.name, "rust");
}

#[test]
fn test_first_tag_or_decodes_first_row() {
    let rows = vec![
        SurrealTagEntityOutput { id: "1".to_string(), name: "a".to_string() },
        SurrealTagEntityOutput { id: "2".to_string(), name: "b".to_string() },
    ];
    let t = first_tag_or(rows, TagRepositoryError::TagCreation).unwrap();
    assert_eq!(t.id, "1");
    assert_eq!(t.name, "a");

    let none = first_tag_or(vec![], TagRepositoryError::TagCreation);
    assert!(matches!(none, Err(TagRepositoryError::TagCreation)));
}

#[test]
fn test_first_post_row_or_decodes_first_row() {
    let rows = vec![SurrealPostEntityOutput {
        id: "5".to_string(),
        title: "t".to_string(),
        content: "c".to_string(),
        created_at: 3,
        updated_at: 4,
    }];
    let row = first_post_row_or(rows, PostRepositoryError::PostCreation).unwrap();
    assert_eq!(row.id, "5");

    let none = first_post_row_or(vec![], PostRepositoryError::PostCreation);
    assert!(matches!(none, Err(PostRepositoryError::PostCreation)));
}

#[test]
fn test_row_conversions_keep_order_and_fields() {
    let tags = tags_from_rows(vec![
        SurrealTagEntityOutput { id: "1".to_string(), name: "a".to_string() },
        SurrealTagEntityOutput { id: "2".to_string(), name: "b".to_string() },
    ]);
    assert_eq!(tags.len(), 2);
    assert_eq!(tags[0].name, "a");
    assert_eq!(tags[1].name, "b");

    let posts = posts_from_rows(vec![SurrealPostEntityWithTagsOutput {
        id: "5".to_string(),
        title: "t".to_string(),
        content: "c".to_string(),
        tags: vec![tag("1", "a")],
        created_at: 3,
        updated_at: 4,
    }]);
    assert_eq!(posts.len(), 1);
    assert_eq!(posts[0].id, "5");
    assert_eq!(posts[0].tags.len(), 1);
    assert_eq!(posts[0].tags[0].name, "a");
    assert_eq!(posts[0].created_at, 3);
    assert_eq!(posts[0].updated_at, 4);
}

#[test]
fn test_first_record_tags() {
    let rows = vec![SurrealTagsEntityOutput {
        tags: vec![SurrealTagEntityOutput { id: "1".to_string(), name: "a".to_string() }],
    }];
    let tags = first_record_tags(rows).unwrap();
    assert_eq!(tags.len(), 1);
    assert_eq!(tags[0].name, "a");

    assert!(first_record_tags(vec![]).is_none());
}

#[test]
fn test_tags_diff_set_symmetric_difference() {
    let tags = vec![tag("1", "a"), tag("2", "b")];
    let not_in = vec!["b".to_string(), "c".to_string(), "d".to_string()];
    let diff = tags_diff_set(tags, &not_in);
    assert_eq!(diff, vec!["a".to_string(), "c".to_string(), "d".to_string()]);
}

#[test]
fn test_tags_diff_set_empty_when_equal() {
    let tags = vec![tag("1", "a"), tag("2", "b")];
    let not_in = vec!["a".to_string(), "b".to_string()];
    let diff = tags_diff_set(tags, &not_in);
    assert!(diff.is_empty());
}

#[test]
fn test_missing_tag_names_reports_unresolved_in_request_order() {
    let requested = vec!["x".to_string(), "a".to_string(), "y".to_string()];
    let found = vec![tag("1", "a")];
    assert_eq!(missing_tag_names(&requested, &found), vec!["x".to_string(), "y".to_string()]);
}

#[test]
fn test_ensure_all_tags_found() {
    let requested = vec!["a".to_string(), "b".to_string()];
    let found = vec![tag("1", "a"), tag("2", "b")];
    let passed = ensure_all_tags_found(found, &requested).unwrap();
    assert_eq!(passed.len(), 2);

    let partial = vec![tag("1", "a")];
    let result = ensure_all_tags_found(partial, &requested);
    match result {
        Err(PostRepositoryError::TagsNotFound(missing)) => {
            assert_eq!(missing, vec!["b".to_string()]);
        }
        _ => panic!("expected the unresolved names to be reported"),
    }
}

#[test]
fn test_relation_refs_prefixes_record_ids() {
    let tags = vec![tag("3", "a"), tag("8", "b")];
    let (post_ref, tag_refs) = relation_refs("7", &tags);
    assert_eq!(post_ref, "posts:7");
    assert_eq!(tag_refs, vec!["tags:3".to_string(), "tags:8".to_string()]);
}

#[test]
fn test_error_messages() {
    assert_eq!(
        TagRepositoryError::TagCreation.message(),
        "Failed to create tag in the database"
    );
    assert_eq!(
        TagRepositoryError::Database("boom".to_string()).message(),
        "Database error: boom"
    );
    assert_eq!(
        PostRepositoryError::Database("boom".to_string()).message(),
        "Database query failed: boom"
    );
    assert_eq!(
        PostRepositoryError::TagsNotFound(vec!["a".to_string(), "b".to_string()]).message(),
        "Tags not found: a, b"
    );
    assert_eq!(
        PostRepositoryError::PostCreation.message(),
        "Failed to create post in the database"
    );
}

#[test]
fn test_new_post_shape() {
    let new_post = NewPost {
        title: "T".to_string(),
        content: "C".to_string(),
        tags: vec!["x".to_string()],
    };
    assert_eq!(new_post.tags.len(), 1);
}
