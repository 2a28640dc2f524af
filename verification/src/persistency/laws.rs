use vstd::prelude::*;

use crate::ids::{dec_seq, lemma_dec_seq_injective};
use crate::models::{PostV, TagV};
use crate::persistency::memory::{
    compose_post, find_tag_by_key, lemma_rels_without_post_none, rel_tag_views, rels_for,
    rels_without_post, row_tag, MemoryStore, PostRowV, Relation, TagRowV,
};
use crate::persistency::models::spec_page;

verus! {

/// Looking a row up by its own key finds exactly that row, provided keys
/// are unique.
pub proof fn lemma_find_by_key_self(tags: Seq<TagRowV>, j: int)
    requires
        0 <= j < tags.len(),
        forall|a: int, b: int|
            #![trigger tags[a], tags[b]]
            0 <= a < b < tags.len() ==> tags[a].key != tags[b].key,
    ensures
        find_tag_by_key(tags, tags[j].key) == Some(tags[j]),
    decreases tags.len(),
{
    if j > 0 {
        let rest = tags.drop_first();
        assert(tags[0].key != tags[j].key);
        assert forall|a: int, b: int|
            #![trigger rest[a], rest[b]]
            0 <= a < b < rest.len() implies rest[a].key != rest[b].key by {
            assert(rest[a] == tags[a + 1]);
            assert(rest[b] == tags[b + 1]);
        }
        lemma_find_by_key_self(rest, j - 1);
        assert(rest[j - 1] == tags[j]);
    }
}

/// A post with no associations resolves to no tags.
pub proof fn lemma_rel_tag_views_none(rels: Seq<Relation>, tags: Seq<TagRowV>, post_key: u64)
    requires
        forall|i: int| 0 <= i < rels.len() ==> (#[trigger] rels[i]).post_key != post_key,
    ensures
        rel_tag_views(rels, tags, post_key).len() == 0,
    decreases rels.len(),
{
    if rels.len() > 0 {
        let rest = rels.drop_last();
        assert(forall|i: int| 0 <= i < rest.len() ==> (#[trigger] rest[i]) == rels[i]);
        lemma_rel_tag_views_none(rest, tags, post_key);
        assert(rels[rels.len() - 1] == rels.last());
    }
}

/// Resolving tags over a concatenated relation resolves each part.
pub proof fn lemma_rel_tag_views_concat(
    a: Seq<Relation>,
    b: Seq<Relation>,
    tags: Seq<TagRowV>,
    post_key: u64,
)
    ensures
        rel_tag_views(a + b, tags, post_key) =~= rel_tag_views(a, tags, post_key) + rel_tag_views(
            b,
            tags,
            post_key,
        ),
    decreases b.len(),
{
    if b.len() == 0 {
        assert(a + b =~= a);
        assert(rel_tag_views(b, tags, post_key).len() == 0);
    } else {
        assert((a + b).drop_last() =~= a + b.drop_last());
        assert((a + b).last() == b.last());
        lemma_rel_tag_views_concat(a, b.drop_last(), tags, post_key);
    }
}

/// Associations written for a resolved tag set read back as exactly those
/// tags, in order, provided each resolved row is a stored row and stored
/// keys are unique.
pub proof fn lemma_rels_for_read_back(
    resolved: Seq<TagRowV>,
    tags: Seq<TagRowV>,
    post_key: u64,
)
    requires
        forall|a: int| 0 <= a < resolved.len() ==> tags.contains(#[trigger] resolved[a]),
        forall|a: int, b: int|
            #![trigger tags[a], tags[b]]
            0 <= a < b < tags.len() ==> tags[a].key != tags[b].key,
    ensures
        rel_tag_views(rels_for(resolved, post_key), tags, post_key).len() == resolved.len(),
        forall|i: int|
            0 <= i < resolved.len() ==> rel_tag_views(rels_for(resolved, post_key), tags, post_key)[i]
                == row_tag(#[trigger] resolved[i]),
    decreases resolved.len(),
{
    let rf = rels_for(resolved, post_key);
    if resolved.len() > 0 {
        let rest = resolved.drop_last();
        assert(forall|a: int| 0 <= a < rest.len() ==> rest[a] == resolved[a]);
        lemma_rels_for_read_back(rest, tags, post_key);
        assert(rf.drop_last() =~= rels_for(rest, post_key));
        assert(rf.last() == Relation { post_key: post_key, tag_key: resolved.last().key });
        let t = resolved.last();
        assert(tags.contains(t));
        let j = choose|j: int| 0 <= j < tags.len() && tags[j] == t;
        lemma_find_by_key_self(tags, j);
        assert(find_tag_by_key(tags, t.key) == Some(t));
        assert(rel_tag_views(rf, tags, post_key) == rel_tag_views(
            rf.drop_last(),
            tags,
            post_key,
        ).push(row_tag(t)));
        assert(resolved[resolved.len() - 1] == t);
    }
}

/// Relation synchronization is exact. Once a post's associations consist of
/// one association per resolved tag and every other association belongs to
/// other posts — the state both creation and a full resync establish —
/// reading the post's tags back over the relation yields exactly the
/// resolved tags, in order: no extras, no omissions.
pub proof fn lemma_synced_relations_read_back(
    others: Seq<Relation>,
    resolved: Seq<TagRowV>,
    tags: Seq<TagRowV>,
    post_key: u64,
)
    requires
        forall|i: int| 0 <= i < others.len() ==> (#[trigger] others[i]).post_key != post_key,
        forall|a: int| 0 <= a < resolved.len() ==> tags.contains(#[trigger] resolved[a]),
        forall|a: int, b: int|
            #![trigger tags[a], tags[b]]
            0 <= a < b < tags.len() ==> tags[a].key != tags[b].key,
    ensures
        rel_tag_views(others + rels_for(resolved, post_key), tags, post_key).len()
            == resolved.len(),
        forall|i: int|
            0 <= i < resolved.len() ==> rel_tag_views(
                others + rels_for(resolved, post_key),
                tags,
                post_key,
            )[i] == row_tag(#[trigger] resolved[i]),
{
    lemma_rel_tag_views_concat(others, rels_for(resolved, post_key), tags, post_key);
    lemma_rel_tag_views_none(others, tags, post_key);
    lemma_rels_for_read_back(resolved, tags, post_key);
    assert(rel_tag_views(others + rels_for(resolved, post_key), tags, post_key)
        =~= rel_tag_views(rels_for(resolved, post_key), tags, post_key));
}

/// Listing posts is a pure function of the store and the options: any two
/// responses that satisfy the listing contract against the same store and
/// options — two calls with no write between them — agree on the page and
/// on the total.
pub proof fn lemma_find_all_posts_deterministic(
    posts: Seq<PostRowV>,
    rels: Seq<Relation>,
    tags: Seq<TagRowV>,
    limit: nat,
    offset: nat,
    page1: Seq<PostV>,
    total1: nat,
    page2: Seq<PostV>,
    total2: nat,
)
    requires
        page1.len() == spec_page(posts, limit, offset).len(),
        forall|i: int|
            0 <= i < page1.len() ==> page1[i] == compose_post(
                #[trigger] spec_page(posts, limit, offset)[i],
                rel_tag_views(rels, tags, spec_page(posts, limit, offset)[i].key),
            ),
        total1 == posts.len(),
        page2.len() == spec_page(posts, limit, offset).len(),
        forall|i: int|
            0 <= i < page2.len() ==> page2[i] == compose_post(
                #[trigger] spec_page(posts, limit, offset)[i],
                rel_tag_views(rels, tags, spec_page(posts, limit, offset)[i].key),
            ),
        total2 == posts.len(),
    ensures
        page1 =~= page2,
        total1 == total2,
{
    assert forall|i: int| 0 <= i < page1.len() implies page1[i] == page2[i] by {
        let row = spec_page(posts, limit, offset)[i];
        assert(page1[i] == compose_post(row, rel_tag_views(rels, tags, row.key)));
        assert(page2[i] == compose_post(row, rel_tag_views(rels, tags, row.key)));
    }
}

/// Listing tags is a pure function of the store and the options, in the
/// same sense.
pub proof fn lemma_find_all_tags_deterministic(
    tags: Seq<TagRowV>,
    limit: nat,
    offset: nat,
    page1: Seq<TagV>,
    page2: Seq<TagV>,
)
    requires
        page1.len() == spec_page(tags, limit, offset).len(),
        forall|i: int|
            0 <= i < page1.len() ==> page1[i] == row_tag(
                #[trigger] spec_page(tags, limit, offset)[i],
            ),
        page2.len() == spec_page(tags, limit, offset).len(),
        forall|i: int|
            0 <= i < page2.len() ==> page2[i] == row_tag(
                #[trigger] spec_page(tags, limit, offset)[i],
            ),
    ensures
        page1 =~= page2,
{
    assert forall|i: int| 0 <= i < page1.len() implies page1[i] == page2[i] by {
        let row = spec_page(tags, limit, offset)[i];
        assert(page1[i] == row_tag(row));
        assert(page2[i] == row_tag(row));
    }
}

/// A full resync is exact. Replacing a post's associations as a whole —
/// every other association kept, one fresh association per resolved tag —
/// makes the post read back with exactly the resolved tags, in order: what
/// was dropped from the set is no longer associated, what was added is.
pub proof fn lemma_resync_read_back(
    rels: Seq<Relation>,
    resolved: Seq<TagRowV>,
    tags: Seq<TagRowV>,
    post_key: u64,
)
    requires
        forall|a: int| 0 <= a < resolved.len() ==> tags.contains(#[trigger] resolved[a]),
        forall|a: int, b: int|
            #![trigger tags[a], tags[b]]
            0 <= a < b < tags.len() ==> tags[a].key != tags[b].key,
    ensures
        rel_tag_views(
            rels_without_post(rels, post_key) + rels_for(resolved, post_key),
            tags,
            post_key,
        ).len() == resolved.len(),
        forall|i: int|
            0 <= i < resolved.len() ==> rel_tag_views(
                rels_without_post(rels, post_key) + rels_for(resolved, post_key),
                tags,
                post_key,
            )[i] == row_tag(#[trigger] resolved[i]),
{
    lemma_rels_without_post_none(rels, post_key);
    lemma_synced_relations_read_back(
        rels_without_post(rels, post_key),
        resolved,
        tags,
        post_key,
    );
}

/// In a well-formed store the rendered id picks out at most one tag row:
/// distinct keys render to distinct decimal strings.
pub proof fn lemma_tag_id_unique(s: MemoryStore, i: int, j: int)
    requires
        s.wf(),
        0 <= i < s.tags_v().len(),
        0 <= j < s.tags_v().len(),
        dec_seq(s.tags_v()[i].key as nat) == dec_seq(s.tags_v()[j].key as nat),
    ensures
        i == j,
{
    if i != j {
        lemma_dec_seq_injective(s.tags_v()[i].key as nat, s.tags_v()[j].key as nat);
    }
}

/// In a well-formed store the rendered id picks out at most one post row,
/// so a lookup by id is unambiguous.
pub proof fn lemma_post_id_unique(s: MemoryStore, i: int, j: int)
    requires
        s.wf(),
        0 <= i < s.posts_v().len(),
        0 <= j < s.posts_v().len(),
        dec_seq(s.posts_v()[i].key as nat) == dec_seq(s.posts_v()[j].key as nat),
    ensures
        i == j,
{
    if i != j {
        lemma_dec_seq_injective(s.posts_v()[i].key as nat, s.posts_v()[j].key as nat);
    }
}

/// A post just created reads back with exactly its resolved tags. In a
/// well-formed store every existing association carries a key the store
/// assigned earlier, so none of them mentions the fresh key: the fresh
/// key's associations are exactly the ones creation wrote.
pub proof fn lemma_created_post_reads_back(s: MemoryStore, resolved: Seq<TagRowV>)
    requires
        s.wf(),
        forall|a: int| 0 <= a < resolved.len() ==> s.tags_v().contains(#[trigger] resolved[a]),
    ensures
        rel_tag_views(
            s.rels() + rels_for(resolved, s.next_key),
            s.tags_v(),
            s.next_key,
        ).len() == resolved.len(),
        forall|i: int|
            0 <= i < resolved.len() ==> rel_tag_views(
                s.rels() + rels_for(resolved, s.next_key),
                s.tags_v(),
                s.next_key,
            )[i] == row_tag(#[trigger] resolved[i]),
{
    assert forall|i: int| 0 <= i < s.rels().len() implies (#[trigger] s.rels()[i]).post_key
        != s.next_key by {
        assert(s.rels()[i].post_key < s.next_key);
    }
    lemma_synced_relations_read_back(s.rels(), resolved, s.tags_v(), s.next_key);
}

} // verus!
