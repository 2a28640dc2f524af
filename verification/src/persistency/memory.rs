use vstd::prelude::*;

use crate::ids::{dec_seq, u64_to_dec};
use crate::models::{string_views, Post, PostV, Tag, TagV};
use crate::persistency::models::{spec_page, FindAllOptions};
use crate::persistency::posts::errors::PostRepositoryError;
use crate::persistency::posts::models::{FindPostsResponse, NewPost};
use crate::persistency::tags::errors::TagRepositoryError;
use crate::persistency::tags::models::{FindTagsResponse, NewTag};
use crate::seqs::lemma_take_push;
use crate::text::str_eq;
use crate::utils::tag::{lemma_names_not_in_empty, lemma_names_not_in_push, names_not_in};

verus! {

/// Abstract value of a stored tag row.
pub struct TagRowV {
    pub key: u64,
    pub name: Seq<char>,
}

/// A stored tag row: the numeric key the store assigned (rendered in
/// decimal as the public id) and the name.
#[derive(Debug)]
pub struct TagRow {
    pub key: u64,
    pub name: String,
}

impl View for TagRow {
    type V = TagRowV;

    open spec fn view(&self) -> TagRowV {
        TagRowV { key: self.key, name: self.name@ }
    }
}

impl Clone for TagRow {
    fn clone(&self) -> (r: Self)
        ensures
            r == *self,
    {
        TagRow { key: self.key, name: self.name.clone() }
    }
}

/// Abstract value of a stored post row.
pub struct PostRowV {
    pub key: u64,
    pub title: Seq<char>,
    pub content: Seq<char>,
    pub created_at: i64,
    pub updated_at: i64,
}

/// A stored post row. Timestamps are milliseconds since the Unix epoch.
#[derive(Debug)]
pub struct PostRow {
    pub key: u64,
    pub title: String,
    pub content: String,
    pub created_at: i64,
    pub updated_at: i64,
}

impl View for PostRow {
    type V = PostRowV;

    open spec fn view(&self) -> PostRowV {
        PostRowV {
            key: self.key,
            title: self.title@,
            content: self.content@,
            created_at: self.created_at,
            updated_at: self.updated_at,
        }
    }
}

impl Clone for PostRow {
    fn clone(&self) -> (r: Self)
        ensures
            r == *self,
    {
        PostRow {
            key: self.key,
            title: self.title.clone(),
            content: self.content.clone(),
            created_at: self.created_at,
            updated_at: self.updated_at,
        }
    }
}

/// One post/tag association, by row keys; it carries nothing else.
#[derive(Clone, Copy, Debug, PartialEq, Eq, Structural)]
pub struct Relation {
    pub post_key: u64,
    pub tag_key: u64,
}

/// The abstract values of a sequence of tag rows.
pub open spec fn tag_row_views(rows: Seq<TagRow>) -> Seq<TagRowV> {
    rows.map_values(|t: TagRow| t@)
}

/// The abstract values of a sequence of post rows.
pub open spec fn post_row_views(rows: Seq<PostRow>) -> Seq<PostRowV> {
    rows.map_values(|p: PostRow| p@)
}

/// The names borne by a sequence of tag rows, in order.
pub open spec fn row_names(tags: Seq<TagRowV>) -> Seq<Seq<char>> {
    tags.map_values(|t: TagRowV| t.name)
}

/// The public face of a tag row: the key rendered in decimal, and the name.
pub open spec fn row_tag(t: TagRowV) -> TagV {
    TagV { id: dec_seq(t.key as nat), name: t.name }
}

/// True when some row of `tags` bears `name`.
pub open spec fn has_tag_name(tags: Seq<TagRowV>, name: Seq<char>) -> bool {
    exists|i: int| 0 <= i < tags.len() && tags[i].name == name
}

/// True when some row of `posts` has `id` as its rendered key.
pub open spec fn has_post_id(posts: Seq<PostRowV>, id: Seq<char>) -> bool {
    exists|i: int| 0 <= i < posts.len() && dec_seq(posts[i].key as nat) == id
}

/// The tag rows whose name occurs in `names`, in store order.
pub open spec fn rows_with_names(tags: Seq<TagRowV>, names: Seq<Seq<char>>) -> Seq<TagRowV>
    decreases tags.len(),
{
    if tags.len() == 0 {
        Seq::empty()
    } else {
        let rest = rows_with_names(tags.drop_last(), names);
        if names.contains(tags.last().name) {
            rest.push(tags.last())
        } else {
            rest
        }
    }
}

/// Extending the store by one row extends the resolution exactly when the
/// row's name was asked for.
pub proof fn lemma_rows_with_names_push(tags: Seq<TagRowV>, names: Seq<Seq<char>>, t: TagRowV)
    ensures
        rows_with_names(tags.push(t), names) == if names.contains(t.name) {
            rows_with_names(tags, names).push(t)
        } else {
            rows_with_names(tags, names)
        },
{
    assert(tags.push(t).drop_last() =~= tags);
    assert(tags.push(t).last() == t);
}

/// Every resolved row is a row of the store.
pub proof fn lemma_rows_with_names_from(tags: Seq<TagRowV>, names: Seq<Seq<char>>, k: int)
    requires
        0 <= k < rows_with_names(tags, names).len(),
    ensures
        exists|j: int| 0 <= j < tags.len() && tags[j] == rows_with_names(tags, names)[k],
    decreases tags.len(),
{
    if tags.len() > 0 {
        let rest = tags.drop_last();
        let r = rows_with_names(tags, names);
        if names.contains(tags.last().name) && k == r.len() - 1 {
            assert(tags[tags.len() - 1] == r[k]);
        } else {
            lemma_rows_with_names_from(rest, names, k);
            let j = choose|j: int| 0 <= j < rest.len() && rest[j] == rows_with_names(
                rest,
                names,
            )[k];
            assert(tags[j] == r[k]);
        }
    }
}

/// Membership in a row-name listing is bearing the name.
pub proof fn lemma_row_names_has(tags: Seq<TagRowV>, name: Seq<char>)
    ensures
        row_names(tags).contains(name) <==> has_tag_name(tags, name),
{
    if row_names(tags).contains(name) {
        let i = choose|i: int| 0 <= i < row_names(tags).len() && row_names(tags)[i] == name;
        assert(tags[i].name == name);
    }
    if has_tag_name(tags, name) {
        let i = choose|i: int| 0 <= i < tags.len() && tags[i].name == name;
        assert(row_names(tags)[i] == name);
    }
}

/// An in-process store holding the tag collection, the post collection and
/// the post/tag relation, with the store clock and the key counter. It
/// carries the full repository capability set for both entities and is the
/// reference implementation the repository contracts are stated against.
#[derive(Debug)]
pub struct MemoryStore {
    pub tags: Vec<TagRow>,
    pub posts: Vec<PostRow>,
    pub relations: Vec<Relation>,
    pub next_key: u64,
    pub now: i64,
}

impl MemoryStore {
    /// The abstract tag rows.
    pub open spec fn tags_v(self) -> Seq<TagRowV> {
        tag_row_views(self.tags@)
    }

    /// The abstract post rows.
    pub open spec fn posts_v(self) -> Seq<PostRowV> {
        post_row_views(self.posts@)
    }

    /// The association rows.
    pub open spec fn rels(self) -> Seq<Relation> {
        self.relations@
    }

    /// Well-formedness: every key was assigned by the store (it is below
    /// `next_key`), keys are unique per collection, tag names are unique,
    /// and no post was updated before it was created or after the store's
    /// current instant.
    pub open spec fn wf(self) -> bool {
        &&& forall|i: int|
            0 <= i < self.tags_v().len() ==> (#[trigger] self.tags_v()[i]).key < self.next_key
        &&& forall|i: int|
            0 <= i < self.posts_v().len() ==> (#[trigger] self.posts_v()[i]).key < self.next_key
        &&& forall|i: int|
            0 <= i < self.rels().len() ==> (#[trigger] self.rels()[i]).post_key < self.next_key
                && self.rels()[i].tag_key < self.next_key
        &&& forall|i: int, j: int|
            #![trigger self.tags_v()[i], self.tags_v()[j]]
            0 <= i < j < self.tags_v().len() ==> self.tags_v()[i].name != self.tags_v()[j].name
                && self.tags_v()[i].key != self.tags_v()[j].key
        &&& forall|i: int, j: int|
            #![trigger self.posts_v()[i], self.posts_v()[j]]
            0 <= i < j < self.posts_v().len() ==> self.posts_v()[i].key != self.posts_v()[j].key
        &&& forall|i: int|
            0 <= i < self.posts_v().len() ==> (#[trigger] self.posts_v()[i]).created_at
                <= self.posts_v()[i].updated_at <= self.now
    }

    /// A fresh, empty store at instant zero.
    pub fn new() -> (r: MemoryStore)
        ensures
            r.wf(),
            r.tags_v() =~= Seq::<TagRowV>::empty(),
            r.posts_v() =~= Seq::<PostRowV>::empty(),
            r.rels() =~= Seq::<Relation>::empty(),
            r.next_key == 0,
            r.now == 0,
    {
        MemoryStore {
            tags: Vec::new(),
            posts: Vec::new(),
            relations: Vec::new(),
            next_key: 0,
            now: 0,
        }
    }

    /// Moves the store clock forward; it never runs backwards.
    pub fn set_now(&mut self, now: i64)
        requires
            old(self).wf(),
            now >= old(self).now,
        ensures
            final(self).wf(),
            final(self).tags@ == old(self).tags@,
            final(self).posts@ == old(self).posts@,
            final(self).relations@ == old(self).relations@,
            final(self).next_key == old(self).next_key,
            final(self).now == now,
    {
        self.now = now;
        proof {
            assert(self.tags_v() =~= old(self).tags_v());
            assert(self.posts_v() =~= old(self).posts_v());
            assert(self.rels() =~= old(self).rels());
        }
    }

    /// True when some stored tag bears `name`.
    fn tag_name_taken(&self, name: &str) -> (r: bool)
        ensures
            r == has_tag_name(self.tags_v(), name@),
    {
        let mut i: usize = 0;
        while i < self.tags.len()
            invariant
                i <= self.tags@.len(),
                forall|j: int| 0 <= j < i as int ==> self.tags@[j].name@ != name@,
            decreases self.tags@.len() - i,
        {
            if str_eq(self.tags[i].name.as_str(), name) {
                proof {
                    assert(self.tags_v()[i as int].name == name@);
                }
                return true;
            }
            i = i + 1;
        }
        proof {
            assert forall|k: int| 0 <= k < self.tags_v().len() implies (
            #[trigger] self.tags_v()[k]).name != name@ by {
                assert(self.tags_v()[k].name == self.tags@[k].name@);
            }
        }
        false
    }

    /// Creates a tag. The name is the natural key: a second tag with the
    /// same name is refused, as the unique index in the storage schema
    /// would refuse it, and nothing else is touched.
    pub fn create_tag(&mut self, new_tag: NewTag) -> (r: Result<Tag, TagRepositoryError>)
        requires
            old(self).wf(),
            old(self).next_key < u64::MAX,
        ensures
            final(self).wf(),
            r is Ok <==> !has_tag_name(old(self).tags_v(), new_tag.name@),
            r matches Err(e) ==> *final(self) == *old(self) && e is TagCreation,
            r matches Ok(t) ==> {
                &&& final(self).tags_v() =~= old(self).tags_v().push(
                    TagRowV { key: old(self).next_key, name: new_tag.name@ },
                )
                &&& final(self).posts@ == old(self).posts@
                &&& final(self).relations@ == old(self).relations@
                &&& final(self).next_key == old(self).next_key + 1
                &&& final(self).now == old(self).now
                &&& t@ == row_tag(TagRowV { key: old(self).next_key, name: new_tag.name@ })
            },
    {
        if self.tag_name_taken(new_tag.name.as_str()) {
            return Err(TagRepositoryError::TagCreation);
        }
        let key: u64 = self.next_key;
        let id = u64_to_dec(key);
        self.tags.push(TagRow { key, name: new_tag.name.clone() });
        self.next_key = key + 1;
        proof {
            let oldv = old(self).tags_v();
            let newv = self.tags_v();
            assert(newv =~= oldv.push(TagRowV { key, name: new_tag.name@ }));
            assert forall|a: int| 0 <= a < newv.len() implies (#[trigger] newv[a]).key
                < self.next_key by {
                if a < oldv.len() {
                    assert(newv[a] == oldv[a]);
                    assert(oldv[a].key < old(self).next_key);
                }
            }
            assert forall|a: int, b: int|
                #![trigger newv[a], newv[b]]
                0 <= a < b < newv.len() implies newv[a].name != newv[b].name && newv[a].key
                != newv[b].key by {
                if b < oldv.len() {
                    assert(oldv[a].name != oldv[b].name);
                    assert(oldv[a].key != oldv[b].key);
                } else {
                    assert(newv[b] == TagRowV { key, name: new_tag.name@ });
                    assert(newv[a] == oldv[a]);
                    assert(oldv[a].key < old(self).next_key);
                    if oldv[a].name == new_tag.name@ {
                        assert(has_tag_name(oldv, new_tag.name@));
                    }
                }
            }
            assert(self.posts_v() =~= old(self).posts_v());
            assert(self.rels() =~= old(self).rels());
        }
        Ok(Tag { id, name: new_tag.name })
    }

    /// Lists one page of tags and counts the whole collection. The page and
    /// the total come from the same snapshot here; a two-query storage
    /// backend only promises each of the two separately.
    pub fn find_all_tags(&self, options: FindAllOptions) -> (r: Result<
        FindTagsResponse,
        TagRepositoryError,
    >)
        requires
            self.wf(),
        ensures
            r is Ok,
            r matches Ok(resp) ==> {
                let page = spec_page(self.tags_v(), options.limit as nat, options.offset as nat);
                &&& resp.total == self.tags@.len()
                &&& resp.tags@.len() == page.len()
                &&& resp.tags@.len() <= options.limit
                &&& forall|i: int|
                    0 <= i < page.len() ==> (#[trigger] resp.tags@[i])@ == row_tag(page[i])
            },
    {
        let ghost page = spec_page(self.tags_v(), options.limit as nat, options.offset as nat);
        let len: usize = self.tags.len();
        let start: usize = if options.offset > len {
            len
        } else {
            options.offset
        };
        let remaining: usize = len - start;
        let count: usize = if options.limit < remaining {
            options.limit
        } else {
            remaining
        };
        proof {
            assert(page.len() == count);
            assert(forall|i: int| 0 <= i < count as int ==> page[i] == self.tags_v()[start + i]);
        }
        let mut tags: Vec<Tag> = Vec::new();
        let mut i: usize = 0;
        while i < count
            invariant
                i <= count,
                start <= self.tags@.len(),
                start + count <= self.tags@.len(),
                start + count <= usize::MAX,
                page.len() == count,
                forall|k: int| 0 <= k < count as int ==> page[k] == self.tags_v()[start + k],
                tags@.len() == i,
                forall|k: int| 0 <= k < i as int ==> (#[trigger] tags@[k])@ == row_tag(page[k]),
            decreases count - i,
        {
            let row = &self.tags[start + i];
            tags.push(Tag { id: u64_to_dec(row.key), name: row.name.clone() });
            i = i + 1;
        }
        Ok(FindTagsResponse { tags, total: len })
    }

    /// Resolves tag names to tags: exactly the stored tags whose name is in
    /// `names`, in store order. Absent names are omitted without error, so
    /// every returned name is one of the requested names — callers compare
    /// cardinalities to detect missing names.
    pub fn find_in_names(&self, names: &Vec<String>) -> (r: Result<Vec<Tag>, TagRepositoryError>)
        requires
            self.wf(),
        ensures
            r is Ok,
            r matches Ok(tags) ==> {
                let resolved = rows_with_names(self.tags_v(), string_views(names@));
                &&& tags@.len() == resolved.len()
                &&& forall|i: int|
                    0 <= i < resolved.len() ==> (#[trigger] tags@[i])@ == row_tag(resolved[i])
                &&& forall|i: int|
                    0 <= i < tags@.len() ==> string_views(names@).contains(
                        (#[trigger] tags@[i])@.name,
                    )
            },
    {
        let rows = self.matching_tag_rows(names);
        let ghost resolved = rows_with_names(self.tags_v(), string_views(names@));
        let mut tags: Vec<Tag> = Vec::new();
        let mut i: usize = 0;
        while i < rows.len()
            invariant
                i <= rows@.len(),
                tag_row_views(rows@) =~= resolved,
                resolved == rows_with_names(self.tags_v(), string_views(names@)),
                tags@.len() == i,
                forall|k: int| 0 <= k < i as int ==> (#[trigger] tags@[k])@ == row_tag(resolved[k]),
            decreases rows@.len() - i,
        {
            let row = &rows[i];
            tags.push(Tag { id: u64_to_dec(row.key), name: row.name.clone() });
            i = i + 1;
        }
        proof {
            assert forall|k: int| 0 <= k < tags@.len() implies string_views(names@).contains(
                (#[trigger] tags@[k])@.name,
            ) by {
                lemma_rows_with_names_names(self.tags_v(), string_views(names@), k);
            }
        }
        Ok(tags)
    }

    /// The stored tag rows whose name is in `names`, in store order.
    fn matching_tag_rows(&self, names: &Vec<String>) -> (r: Vec<TagRow>)
        ensures
            tag_row_views(r@) =~= rows_with_names(self.tags_v(), string_views(names@)),
    {
        let ghost nm = string_views(names@);
        let mut r: Vec<TagRow> = Vec::new();
        let mut i: usize = 0;
        while i < self.tags.len()
            invariant
                i <= self.tags@.len(),
                nm == string_views(names@),
                tag_row_views(r@) =~= rows_with_names(self.tags_v().take(i as int), nm),
            decreases self.tags@.len() - i,
        {
            let hit = crate::utils::tag::contains_name(names, self.tags[i].name.as_str());
            proof {
                lemma_take_push(self.tags_v(), i as int);
                lemma_rows_with_names_push(self.tags_v().take(i as int), nm, self.tags_v()[i as int]);
                assert(self.tags_v()[i as int].name == self.tags@[i as int].name@);
            }
            if hit {
                r.push(self.tags[i].clone());
            }
            i = i + 1;
        }
        proof {
            assert(self.tags_v().take(self.tags@.len() as int) =~= self.tags_v());
        }
        r
    }

    /// Looks a tag up by name; fails with the not-found condition when no
    /// row bears it.
    pub fn get_tag(&self, name: &str) -> (r: Result<Tag, TagRepositoryError>)
        requires
            self.wf(),
        ensures
            r is Ok <==> has_tag_name(self.tags_v(), name@),
            r matches Ok(t) ==> exists|i: int|
                0 <= i < self.tags_v().len() && (#[trigger] self.tags_v()[i]).name == name@ && t@
                    == row_tag(self.tags_v()[i]),
            r matches Err(e) ==> e is TagNotFound,
    {
        let mut i: usize = 0;
        while i < self.tags.len()
            invariant
                i <= self.tags@.len(),
                forall|j: int| 0 <= j < i as int ==> self.tags@[j].name@ != name@,
            decreases self.tags@.len() - i,
        {
            if str_eq(self.tags[i].name.as_str(), name) {
                let row = &self.tags[i];
                proof {
                    assert(self.tags_v()[i as int].name == name@);
                }
                return Ok(Tag { id: u64_to_dec(row.key), name: row.name.clone() });
            }
            i = i + 1;
        }
        proof {
            assert forall|k: int| 0 <= k < self.tags_v().len() implies (
            #[trigger] self.tags_v()[k]).name != name@ by {
                assert(self.tags_v()[k].name == self.tags@[k].name@);
            }
        }
        Err(TagRepositoryError::TagNotFound)
    }

    /// Renames a tag in place. Fails with the not-found condition when no
    /// row bears `name`, and with the update failure when the new name
    /// would collide with a different existing tag. The tag keeps its key,
    /// so existing post associations keep pointing at it.
    pub fn update_tag(&mut self, name: &str, new_tag: NewTag) -> (r: Result<
        Tag,
        TagRepositoryError,
    >)
        requires
            old(self).wf(),
        ensures
            final(self).wf(),
            r is Ok <==> has_tag_name(old(self).tags_v(), name@) && (new_tag.name@ == name@
                || !has_tag_name(old(self).tags_v(), new_tag.name@)),
            !has_tag_name(old(self).tags_v(), name@) ==> *final(self) == *old(self) && (r matches Err(e)
                && e is TagNotFound),
            has_tag_name(old(self).tags_v(), name@) && new_tag.name@ != name@ && has_tag_name(
                old(self).tags_v(),
                new_tag.name@,
            ) ==> *final(self) == *old(self) && (r matches Err(e) && e is TagUpdate),
            r matches Ok(t) ==> exists|i: int|
                {
                    &&& 0 <= i < old(self).tags_v().len()
                    &&& (#[trigger] old(self).tags_v()[i]).name == name@
                    &&& final(self).tags_v() =~= old(self).tags_v().update(
                        i,
                        TagRowV { key: old(self).tags_v()[i].key, name: new_tag.name@ },
                    )
                    &&& t@ == row_tag(
                        TagRowV { key: old(self).tags_v()[i].key, name: new_tag.name@ },
                    )
                },
            final(self).posts@ == old(self).posts@,
            final(self).relations@ == old(self).relations@,
            final(self).next_key == old(self).next_key,
            final(self).now == old(self).now,
    {
        let mut i: usize = 0;
        while i < self.tags.len()
            invariant
                *self == *old(self),
                old(self).wf(),
                i <= self.tags@.len(),
                forall|j: int| 0 <= j < i as int ==> self.tags@[j].name@ != name@,
            decreases self.tags@.len() - i,
        {
            if str_eq(self.tags[i].name.as_str(), name) {
                proof {
                    assert(self.tags_v()[i as int].name == name@);
                }
                if !str_eq(new_tag.name.as_str(), name) && self.tag_name_taken(
                    new_tag.name.as_str(),
                ) {
                    return Err(TagRepositoryError::TagUpdate);
                }
                let key: u64 = self.tags[i].key;
                self.tags.set(i, TagRow { key, name: new_tag.name.clone() });
                proof {
                    let oldv = old(self).tags_v();
                    let newv = self.tags_v();
                    assert(newv =~= oldv.update(i as int, TagRowV { key, name: new_tag.name@ }));
                    assert forall|a: int| 0 <= a < newv.len() implies (#[trigger] newv[a]).key
                        < self.next_key by {
                        if a != i as int {
                            assert(newv[a] == oldv[a]);
                        }
                        assert(oldv[a].key < old(self).next_key);
                    }
                    assert forall|a: int, b: int|
                        #![trigger newv[a], newv[b]]
                        0 <= a < b < newv.len() implies newv[a].name != newv[b].name && newv[a].key
                        != newv[b].key by {
                        assert(oldv[a].name != oldv[b].name);
                        assert(oldv[a].key != oldv[b].key);
                        if a != i as int && b != i as int {
                            assert(newv[a] == oldv[a]);
                            assert(newv[b] == oldv[b]);
                        } else if a == i as int {
                            assert(newv[b] == oldv[b]);
                            if oldv[b].name == new_tag.name@ {
                                assert(has_tag_name(oldv, new_tag.name@));
                            }
                        } else {
                            assert(newv[a] == oldv[a]);
                            if oldv[a].name == new_tag.name@ {
                                assert(has_tag_name(oldv, new_tag.name@));
                            }
                        }
                    }
                    assert(self.posts_v() =~= old(self).posts_v());
                    assert(self.rels() =~= old(self).rels());
                }
                return Ok(Tag { id: u64_to_dec(key), name: new_tag.name });
            }
            i = i + 1;
        }
        proof {
            assert forall|k: int| 0 <= k < self.tags_v().len() implies (
            #[trigger] self.tags_v()[k]).name != name@ by {
                assert(self.tags_v()[k].name == self.tags@[k].name@);
            }
        }
        Err(TagRepositoryError::TagNotFound)
    }

    /// Deletes the tag bearing `name`, if any. Existing post associations
    /// are deliberately left in place: a dangling association is possible
    /// by design, and read paths skip it. Deleting never fails, matching a
    /// fire-and-forget delete statement.
    pub fn delete_tag(&mut self, name: &str) -> (r: Result<(), TagRepositoryError>)
        requires
            old(self).wf(),
        ensures
            final(self).wf(),
            r is Ok,
            final(self).posts@ == old(self).posts@,
            final(self).relations@ == old(self).relations@,
            final(self).next_key == old(self).next_key,
            final(self).now == old(self).now,
            !has_tag_name(old(self).tags_v(), name@) ==> final(self).tags@ == old(self).tags@,
            has_tag_name(old(self).tags_v(), name@) ==> exists|i: int|
                {
                    &&& 0 <= i < old(self).tags_v().len()
                    &&& (#[trigger] old(self).tags_v()[i]).name == name@
                    &&& final(self).tags_v() =~= old(self).tags_v().remove(i)
                },
    {
        let mut i: usize = 0;
        while i < self.tags.len()
            invariant
                *self == *old(self),
                old(self).wf(),
                i <= self.tags@.len(),
                forall|j: int| 0 <= j < i as int ==> self.tags@[j].name@ != name@,
            decreases self.tags@.len() - i,
        {
            if str_eq(self.tags[i].name.as_str(), name) {
                proof {
                    assert(self.tags_v()[i as int].name == name@);
                }
                self.tags.remove(i);
                proof {
                    let oldv = old(self).tags_v();
                    let newv = self.tags_v();
                    assert(newv =~= oldv.remove(i as int));
                    oldv.remove_ensures(i as int);
                    assert forall|a: int| 0 <= a < newv.len() implies (#[trigger] newv[a]).key
                        < self.next_key by {
                        if a < i as int {
                            assert(newv[a] == oldv[a]);
                        } else {
                            assert(newv[a] == oldv[a + 1]);
                        }
                    }
                    assert forall|a: int, b: int|
                        #![trigger newv[a], newv[b]]
                        0 <= a < b < newv.len() implies newv[a].name != newv[b].name && newv[a].key
                        != newv[b].key by {
                        let c = if a < i as int { a } else { a + 1 };
                        let d = if b < i as int { b } else { b + 1 };
                        assert(newv[a] == oldv[c]);
                        assert(newv[b] == oldv[d]);
                        assert(oldv[c].name != oldv[d].name);
                        assert(oldv[c].key != oldv[d].key);
                    }
                    assert(self.posts_v() =~= old(self).posts_v());
                    assert(self.rels() =~= old(self).rels());
                }
                return Ok(());
            }
            i = i + 1;
        }
        proof {
            assert forall|k: int| 0 <= k < self.tags_v().len() implies (
            #[trigger] self.tags_v()[k]).name != name@ by {
                assert(self.tags_v()[k].name == self.tags@[k].name@);
            }
        }
        Ok(())
    }
}

/// Every resolved row's name was requested.
pub proof fn lemma_rows_with_names_names(tags: Seq<TagRowV>, names: Seq<Seq<char>>, k: int)
    requires
        0 <= k < rows_with_names(tags, names).len(),
    ensures
        names.contains(rows_with_names(tags, names)[k].name),
    decreases tags.len(),
{
    if tags.len() > 0 {
        let rest = tags.drop_last();
        let r = rows_with_names(tags, names);
        if names.contains(tags.last().name) && k == r.len() - 1 {
        } else {
            lemma_rows_with_names_names(rest, names, k);
        }
    }
}

/// The first tag row bearing `key`, if any.
pub open spec fn find_tag_by_key(tags: Seq<TagRowV>, key: u64) -> Option<TagRowV>
    decreases tags.len(),
{
    if tags.len() == 0 {
        None
    } else if tags[0].key == key {
        Some(tags[0])
    } else {
        find_tag_by_key(tags.drop_first(), key)
    }
}

/// The tags a post resolves to over the relation: one per association of
/// `post_key` whose tag row still exists, in association order; a dangling
/// association is skipped.
pub open spec fn rel_tag_views(rels: Seq<Relation>, tags: Seq<TagRowV>, post_key: u64) -> Seq<TagV>
    decreases rels.len(),
{
    if rels.len() == 0 {
        Seq::empty()
    } else {
        let rest = rel_tag_views(rels.drop_last(), tags, post_key);
        if rels.last().post_key == post_key {
            match find_tag_by_key(tags, rels.last().tag_key) {
                Some(t) => rest.push(row_tag(t)),
                None => rest,
            }
        } else {
            rest
        }
    }
}

/// Extending the relation by one association extends a post's resolved tags
/// exactly when the association is the post's and its tag row exists.
pub proof fn lemma_rel_tag_views_push(
    rels: Seq<Relation>,
    tags: Seq<TagRowV>,
    post_key: u64,
    x: Relation,
)
    ensures
        rel_tag_views(rels.push(x), tags, post_key) == if x.post_key == post_key {
            match find_tag_by_key(tags, x.tag_key) {
                Some(t) => rel_tag_views(rels, tags, post_key).push(row_tag(t)),
                None => rel_tag_views(rels, tags, post_key),
            }
        } else {
            rel_tag_views(rels, tags, post_key)
        },
{
    assert(rels.push(x).drop_last() =~= rels);
    assert(rels.push(x).last() == x);
}

/// The associations of posts other than `post_key`, in order.
pub open spec fn rels_without_post(rels: Seq<Relation>, post_key: u64) -> Seq<Relation>
    decreases rels.len(),
{
    if rels.len() == 0 {
        Seq::empty()
    } else {
        let rest = rels_without_post(rels.drop_last(), post_key);
        if rels.last().post_key != post_key {
            rest.push(rels.last())
        } else {
            rest
        }
    }
}

/// Extending the relation by one association extends the remainder exactly
/// when the association is another post's.
pub proof fn lemma_rels_without_post_push(rels: Seq<Relation>, post_key: u64, x: Relation)
    ensures
        rels_without_post(rels.push(x), post_key) == if x.post_key != post_key {
            rels_without_post(rels, post_key).push(x)
        } else {
            rels_without_post(rels, post_key)
        },
{
    assert(rels.push(x).drop_last() =~= rels);
    assert(rels.push(x).last() == x);
}

/// Every kept association is an association of the full relation.
pub proof fn lemma_rels_without_post_from(rels: Seq<Relation>, post_key: u64, k: int)
    requires
        0 <= k < rels_without_post(rels, post_key).len(),
    ensures
        exists|j: int| 0 <= j < rels.len() && rels[j] == rels_without_post(rels, post_key)[k],
    decreases rels.len(),
{
    if rels.len() > 0 {
        let rest = rels.drop_last();
        let r = rels_without_post(rels, post_key);
        if rels.last().post_key != post_key && k == r.len() - 1 {
            assert(rels[rels.len() - 1] == r[k]);
        } else {
            lemma_rels_without_post_from(rest, post_key, k);
            let j = choose|j: int| 0 <= j < rest.len() && rest[j] == rels_without_post(
                rest,
                post_key,
            )[k];
            assert(rels[j] == r[k]);
        }
    }
}

/// No kept association is the removed post's.
pub proof fn lemma_rels_without_post_none(rels: Seq<Relation>, post_key: u64)
    ensures
        forall|k: int|
            0 <= k < rels_without_post(rels, post_key).len() ==> (#[trigger] rels_without_post(
                rels,
                post_key,
            )[k]).post_key != post_key,
    decreases rels.len(),
{
    if rels.len() > 0 {
        let rest = rels.drop_last();
        lemma_rels_without_post_none(rest, post_key);
        let r = rels_without_post(rels, post_key);
        assert forall|k: int| 0 <= k < r.len() implies (#[trigger] r[k]).post_key != post_key by {
            if !(rels.last().post_key != post_key && k == r.len() - 1) {
                assert(r[k] == rels_without_post(rest, post_key)[k]);
            }
        }
    }
}

/// The associations tying `post_key` to each row of `resolved`, in order.
pub open spec fn rels_for(resolved: Seq<TagRowV>, post_key: u64) -> Seq<Relation> {
    Seq::new(resolved.len(), |i: int| Relation { post_key: post_key, tag_key: resolved[i].key })
}

/// A post row composed with its resolved tags, as callers see it.
pub open spec fn compose_post(row: PostRowV, tags: Seq<TagV>) -> PostV {
    PostV {
        id: dec_seq(row.key as nat),
        title: row.title,
        content: row.content,
        tags,
        created_at: row.created_at,
        updated_at: row.updated_at,
    }
}

impl MemoryStore {
    /// The requested names no stored tag bears, in request order.
    fn missing_store_names(&self, names: &Vec<String>) -> (r: Vec<String>)
        ensures
            string_views(r@) =~= names_not_in(string_views(names@), row_names(self.tags_v())),
    {
        let ghost req = string_views(names@);
        let ghost rn = row_names(self.tags_v());
        let mut r: Vec<String> = Vec::new();
        let mut i: usize = 0;
        while i < names.len()
            invariant
                i <= names@.len(),
                req == string_views(names@),
                rn == row_names(self.tags_v()),
                req.len() == names@.len(),
                forall|j: int| 0 <= j < names@.len() ==> req[j] == names@[j]@,
                string_views(r@) =~= names_not_in(req.take(i as int), rn),
            decreases names@.len() - i,
        {
            let hit = self.tag_name_taken(names[i].as_str());
            proof {
                lemma_take_push(req, i as int);
                lemma_names_not_in_push(req.take(i as int), rn, req[i as int]);
                lemma_row_names_has(self.tags_v(), names@[i as int]@);
            }
            if !hit {
                r.push(names[i].clone());
            }
            i = i + 1;
        }
        proof {
            assert(req.take(names@.len() as int) =~= req);
        }
        r
    }

    /// The first stored tag row bearing `key`, if any.
    #[verifier::loop_isolation(false)]
    fn tag_by_key(&self, key: u64) -> (r: Option<TagRow>)
        ensures
            match r {
                Some(t) => find_tag_by_key(self.tags_v(), key) == Some(t@),
                None => find_tag_by_key(self.tags_v(), key) is None,
            },
    {
        proof {
            assert(self.tags_v().skip(0) =~= self.tags_v());
        }
        let mut i: usize = 0;
        while i < self.tags.len()
            invariant
                i <= self.tags@.len(),
                find_tag_by_key(self.tags_v(), key) == find_tag_by_key(
                    self.tags_v().skip(i as int),
                    key,
                ),
            decreases self.tags@.len() - i,
        {
            let ghost sk = self.tags_v().skip(i as int);
            proof {
                assert(sk.len() > 0);
                assert(sk[0] == self.tags_v()[i as int]);
            }
            if self.tags[i].key == key {
                proof {
                    assert(find_tag_by_key(sk, key) == Some(sk[0]));
                }
                return Some(self.tags[i].clone());
            }
            proof {
                assert(sk.drop_first() =~= self.tags_v().skip(i + 1));
                assert(find_tag_by_key(sk, key) == find_tag_by_key(
                    self.tags_v().skip(i + 1),
                    key,
                ));
            }
            i = i + 1;
        }
        proof {
            assert(self.tags_v().skip(self.tags@.len() as int).len() == 0);
        }
        None
    }

    /// The tags `post_key` resolves to over the relation, skipping dangling
    /// associations.
    #[verifier::loop_isolation(false)]
    fn post_tags_for(&self, post_key: u64) -> (r: Vec<Tag>)
        ensures
            r@.len() == rel_tag_views(self.rels(), self.tags_v(), post_key).len(),
            forall|i: int|
                0 <= i < r@.len() ==> (#[trigger] r@[i])@ == rel_tag_views(
                    self.rels(),
                    self.tags_v(),
                    post_key,
                )[i],
    {
        let mut r: Vec<Tag> = Vec::new();
        let mut i: usize = 0;
        while i < self.relations.len()
            invariant
                i <= self.relations@.len(),
                r@.len() == rel_tag_views(self.rels().take(i as int), self.tags_v(), post_key).len(),
                forall|k: int|
                    0 <= k < r@.len() ==> (#[trigger] r@[k])@ == rel_tag_views(
                        self.rels().take(i as int),
                        self.tags_v(),
                        post_key,
                    )[k],
            decreases self.relations@.len() - i,
        {
            let rel = self.relations[i];
            proof {
                lemma_take_push(self.rels(), i as int);
                lemma_rel_tag_views_push(
                    self.rels().take(i as int),
                    self.tags_v(),
                    post_key,
                    self.rels()[i as int],
                );
            }
            if rel.post_key == post_key {
                match self.tag_by_key(rel.tag_key) {
                    Some(t) => {
                        let ghost tv = t@;
                        r.push(Tag { id: u64_to_dec(t.key), name: t.name });
                        proof {
                            assert(r@.last()@ == row_tag(tv));
                        }
                    },
                    None => {},
                }
            }
            i = i + 1;
        }
        proof {
            assert(self.rels().take(self.relations@.len() as int) =~= self.rels());
        }
        r
    }

    /// Creates a post. Every requested tag name must already exist as a tag
    /// row: tags are never created on this path, and on failure nothing at
    /// all is written and exactly the unresolved names are reported. On
    /// success the post row is written with both timestamps at the store's
    /// current instant, and one association per resolved tag is added.
    #[verifier::loop_isolation(false)]
    pub fn create_post(&mut self, new_post: NewPost) -> (r: Result<Post, PostRepositoryError>)
        requires
            old(self).wf(),
            old(self).next_key < u64::MAX,
        ensures
            final(self).wf(),
            r is Ok <==> (forall|i: int|
                0 <= i < new_post.tags@.len() ==> has_tag_name(
                    old(self).tags_v(),
                    (#[trigger] new_post.tags@[i])@,
                )),
            r matches Err(e) ==> *final(self) == *old(self) && (e matches
                PostRepositoryError::TagsNotFound(missing) && string_views(missing@)
                =~= names_not_in(string_views(new_post.tags@), row_names(old(self).tags_v()))),
            r matches Ok(p) ==> ({
                let resolved = rows_with_names(old(self).tags_v(), string_views(new_post.tags@));
                &&& final(self).tags@ == old(self).tags@
                &&& final(self).posts_v() =~= old(self).posts_v().push(
                    PostRowV {
                        key: old(self).next_key,
                        title: new_post.title@,
                        content: new_post.content@,
                        created_at: old(self).now,
                        updated_at: old(self).now,
                    },
                )
                &&& final(self).rels() =~= old(self).rels() + rels_for(
                    resolved,
                    old(self).next_key,
                )
                &&& final(self).next_key == old(self).next_key + 1
                &&& final(self).now == old(self).now
                &&& p@.id == dec_seq(old(self).next_key as nat)
                &&& p@.title == new_post.title@
                &&& p@.content == new_post.content@
                &&& p@.created_at == old(self).now
                &&& p@.updated_at == old(self).now
                &&& p@.tags.len() == resolved.len()
                &&& forall|i: int|
                    0 <= i < resolved.len() ==> p@.tags[i] == row_tag(#[trigger] resolved[i])
            }),
    {
        let ghost req = string_views(new_post.tags@);
        let ghost rn = row_names(self.tags_v());
        let missing = self.missing_store_names(&new_post.tags);
        proof {
            lemma_names_not_in_empty(req, rn);
            let all_req = forall|i: int|
                0 <= i < new_post.tags@.len() ==> has_tag_name(
                    old(self).tags_v(),
                    (#[trigger] new_post.tags@[i])@,
                );
            if all_req {
                assert forall|i: int| 0 <= i < req.len() implies rn.contains(
                    #[trigger] req[i],
                ) by {
                    assert(req[i] == new_post.tags@[i]@);
                    assert(has_tag_name(old(self).tags_v(), new_post.tags@[i]@));
                    lemma_row_names_has(old(self).tags_v(), new_post.tags@[i]@);
                }
                assert(names_not_in(req, rn).len() == 0);
            }
            if names_not_in(req, rn).len() == 0 {
                assert forall|i: int| 0 <= i < new_post.tags@.len() implies has_tag_name(
                    old(self).tags_v(),
                    (#[trigger] new_post.tags@[i])@,
                ) by {
                    assert(rn.contains(req[i]));
                    assert(req[i] == new_post.tags@[i]@);
                    lemma_row_names_has(old(self).tags_v(), new_post.tags@[i]@);
                }
            }
        }
        if missing.len() > 0 {
            return Err(PostRepositoryError::TagsNotFound(missing));
        }
        let resolved = self.matching_tag_rows(&new_post.tags);
        let ghost resolved_v = rows_with_names(old(self).tags_v(), string_views(new_post.tags@));
        proof {
            assert forall|k: int| 0 <= k < resolved_v.len() implies (
            #[trigger] resolved_v[k]).key < old(self).next_key by {
                lemma_rows_with_names_from(old(self).tags_v(), req, k);
                let j = choose|j: int|
                    0 <= j < old(self).tags_v().len() && old(self).tags_v()[j] == resolved_v[k];
                assert(old(self).tags_v()[j].key < old(self).next_key);
            }
        }
        let key: u64 = self.next_key;
        let now: i64 = self.now;
        self.posts.push(
            PostRow {
                key,
                title: new_post.title.clone(),
                content: new_post.content.clone(),
                created_at: now,
                updated_at: now,
            },
        );
        self.next_key = key + 1;
        proof {
            assert(self.posts_v() =~= old(self).posts_v().push(
                PostRowV {
                    key,
                    title: new_post.title@,
                    content: new_post.content@,
                    created_at: now,
                    updated_at: now,
                },
            ));
            assert(self.tags_v() =~= old(self).tags_v());
        }
        let ghost mid_posts = self.posts@;
        let mut i: usize = 0;
        while i < resolved.len()
            invariant
                i <= resolved@.len(),
                self.relations@ =~= old(self).relations@ + rels_for(resolved_v, key).take(
                    i as int,
                ),
                self.posts@ == mid_posts,
                self.tags@ == old(self).tags@,
                self.next_key == key + 1,
                self.now == now,
            decreases resolved@.len() - i,
        {
            proof {
                assert(tag_row_views(resolved@)[i as int] == resolved_v[i as int]);
                lemma_take_push(rels_for(resolved_v, key), i as int);
            }
            self.relations.push(Relation { post_key: key, tag_key: resolved[i].key });
            proof {
                assert(old(self).relations@ + rels_for(resolved_v, key).take(i as int).push(
                    rels_for(resolved_v, key)[i as int],
                ) =~= (old(self).relations@ + rels_for(resolved_v, key).take(i as int)).push(
                    rels_for(resolved_v, key)[i as int],
                ));
            }
            i = i + 1;
        }
        proof {
            assert(rels_for(resolved_v, key).take(resolved_v.len() as int) =~= rels_for(
                resolved_v,
                key,
            ));
        }
        let mut rtags: Vec<Tag> = Vec::new();
        let mut j: usize = 0;
        while j < resolved.len()
            invariant
                j <= resolved@.len(),
                rtags@.len() == j,
                forall|k: int|
                    0 <= k < j as int ==> (#[trigger] rtags@[k])@ == row_tag(resolved_v[k]),
            decreases resolved@.len() - j,
        {
            proof {
                assert(tag_row_views(resolved@)[j as int] == resolved_v[j as int]);
            }
            let row = &resolved[j];
            rtags.push(Tag { id: u64_to_dec(row.key), name: row.name.clone() });
            j = j + 1;
        }
        proof {
            let newp = self.posts_v();
            let oldp = old(self).posts_v();
            assert forall|a: int| 0 <= a < newp.len() implies (#[trigger] newp[a]).key
                < self.next_key by {
                if a < oldp.len() {
                    assert(newp[a] == oldp[a]);
                    assert(oldp[a].key < old(self).next_key);
                }
            }
            assert forall|a: int, b: int|
                #![trigger newp[a], newp[b]]
                0 <= a < b < newp.len() implies newp[a].key != newp[b].key by {
                if b < oldp.len() {
                    assert(oldp[a].key != oldp[b].key);
                } else {
                    assert(newp[a] == oldp[a]);
                    assert(oldp[a].key < old(self).next_key);
                }
            }
            assert forall|a: int| 0 <= a < newp.len() implies (#[trigger] newp[a]).created_at
                <= newp[a].updated_at <= self.now by {
                if a < oldp.len() {
                    assert(newp[a] == oldp[a]);
                    assert(oldp[a].created_at <= oldp[a].updated_at <= old(self).now);
                }
            }
            let newr = self.rels();
            assert forall|a: int| 0 <= a < newr.len() implies (#[trigger] newr[a]).post_key
                < self.next_key && newr[a].tag_key < self.next_key by {
                if a < old(self).relations@.len() {
                    assert(newr[a] == old(self).rels()[a]);
                    assert(old(self).rels()[a].post_key < old(self).next_key);
                    assert(old(self).rels()[a].tag_key < old(self).next_key);
                } else {
                    let k = a - old(self).relations@.len();
                    assert(newr[a] == rels_for(resolved_v, key)[k]);
                    assert(resolved_v[k].key < old(self).next_key);
                }
            }
        }
        Ok(
            Post {
                id: u64_to_dec(key),
                title: new_post.title,
                content: new_post.content,
                tags: rtags,
                created_at: now,
                updated_at: now,
            },
        )
    }
}

impl MemoryStore {
    /// Composes one stored post row with its resolved tags.
    fn compose_row(&self, i: usize) -> (p: Post)
        requires
            i < self.posts@.len(),
        ensures
            p@ == compose_post(
                self.posts_v()[i as int],
                rel_tag_views(self.rels(), self.tags_v(), self.posts_v()[i as int].key),
            ),
    {
        let row = &self.posts[i];
        let tags = self.post_tags_for(row.key);
        let p = Post {
            id: u64_to_dec(row.key),
            title: row.title.clone(),
            content: row.content.clone(),
            tags,
            created_at: row.created_at,
            updated_at: row.updated_at,
        };
        proof {
            assert(p@.tags =~= rel_tag_views(
                self.rels(),
                self.tags_v(),
                self.posts_v()[i as int].key,
            ));
        }
        p
    }

    /// Lists one page of posts, each composed with its tags in the same
    /// joined read, and counts the whole collection. The page and the total
    /// come from the same snapshot here; a two-query storage backend only
    /// promises each of the two separately.
    #[verifier::loop_isolation(false)]
    pub fn find_all_posts(&self, options: FindAllOptions) -> (r: Result<
        FindPostsResponse,
        PostRepositoryError,
    >)
        requires
            self.wf(),
        ensures
            r is Ok,
            r matches Ok(resp) ==> {
                let page = spec_page(self.posts_v(), options.limit as nat, options.offset as nat);
                &&& resp.total == self.posts@.len()
                &&& resp.posts@.len() == page.len()
                &&& resp.posts@.len() <= options.limit
                &&& forall|i: int|
                    0 <= i < page.len() ==> (#[trigger] resp.posts@[i])@ == compose_post(
                        page[i],
                        rel_tag_views(self.rels(), self.tags_v(), page[i].key),
                    )
            },
    {
        let ghost page = spec_page(self.posts_v(), options.limit as nat, options.offset as nat);
        let len: usize = self.posts.len();
        let start: usize = if options.offset > len {
            len
        } else {
            options.offset
        };
        let remaining: usize = len - start;
        let count: usize = if options.limit < remaining {
            options.limit
        } else {
            remaining
        };
        proof {
            assert(page.len() == count);
            assert(forall|i: int| 0 <= i < count as int ==> page[i] == self.posts_v()[start + i]);
        }
        let mut posts: Vec<Post> = Vec::new();
        let mut i: usize = 0;
        while i < count
            invariant
                i <= count,
                posts@.len() == i,
                forall|k: int|
                    0 <= k < i as int ==> (#[trigger] posts@[k])@ == compose_post(
                        page[k],
                        rel_tag_views(self.rels(), self.tags_v(), page[k].key),
                    ),
            decreases count - i,
        {
            posts.push(self.compose_row(start + i));
            i = i + 1;
        }
        Ok(FindPostsResponse { posts, total: len })
    }

    /// Looks a post up by id, composing it with its tags in the same joined
    /// read; fails with the not-found condition when no row matches. A tag
    /// deleted since the association was written is omitted from the result.
    #[verifier::loop_isolation(false)]
    pub fn get_post(&self, id: &str) -> (r: Result<Post, PostRepositoryError>)
        requires
            self.wf(),
        ensures
            r is Ok <==> has_post_id(self.posts_v(), id@),
            r matches Ok(p) ==> exists|i: int|
                0 <= i < self.posts_v().len() && dec_seq(
                    (#[trigger] self.posts_v()[i]).key as nat,
                ) == id@ && p@ == compose_post(
                    self.posts_v()[i],
                    rel_tag_views(self.rels(), self.tags_v(), self.posts_v()[i].key),
                ),
            r matches Err(e) ==> e is PostGet,
    {
        let mut i: usize = 0;
        while i < self.posts.len()
            invariant
                i <= self.posts@.len(),
                forall|j: int|
                    0 <= j < i as int ==> dec_seq((#[trigger] self.posts_v()[j]).key as nat)
                        != id@,
            decreases self.posts@.len() - i,
        {
            let rid = u64_to_dec(self.posts[i].key);
            if str_eq(rid.as_str(), id) {
                proof {
                    assert(dec_seq(self.posts_v()[i as int].key as nat) == id@);
                }
                return Ok(self.compose_row(i));
            }
            i = i + 1;
        }
        Err(PostRepositoryError::PostGet)
    }

    /// Deletes the post matching `id`, if any. Its associations are left in
    /// place and become orphaned: no cleanup pass exists by design.
    /// Deleting never fails, matching a fire-and-forget delete statement.
    #[verifier::loop_isolation(false)]
    pub fn delete_post(&mut self, id: &str) -> (r: Result<(), PostRepositoryError>)
        requires
            old(self).wf(),
        ensures
            final(self).wf(),
            r is Ok,
            final(self).tags@ == old(self).tags@,
            final(self).relations@ == old(self).relations@,
            final(self).next_key == old(self).next_key,
            final(self).now == old(self).now,
            !has_post_id(old(self).posts_v(), id@) ==> final(self).posts@ == old(self).posts@,
            has_post_id(old(self).posts_v(), id@) ==> exists|i: int|
                {
                    &&& 0 <= i < old(self).posts_v().len()
                    &&& dec_seq((#[trigger] old(self).posts_v()[i]).key as nat) == id@
                    &&& final(self).posts_v() =~= old(self).posts_v().remove(i)
                },
    {
        let mut i: usize = 0;
        while i < self.posts.len()
            invariant
                *self == *old(self),
                i <= self.posts@.len(),
                forall|j: int|
                    0 <= j < i as int ==> dec_seq((#[trigger] self.posts_v()[j]).key as nat)
                        != id@,
            decreases self.posts@.len() - i,
        {
            let rid = u64_to_dec(self.posts[i].key);
            if str_eq(rid.as_str(), id) {
                proof {
                    assert(dec_seq(self.posts_v()[i as int].key as nat) == id@);
                }
                self.posts.remove(i);
                proof {
                    let oldp = old(self).posts_v();
                    let newp = self.posts_v();
                    assert(newp =~= oldp.remove(i as int));
                    oldp.remove_ensures(i as int);
                    assert forall|a: int| 0 <= a < newp.len() implies (#[trigger] newp[a]).key
                        < self.next_key by {
                        if a < i as int {
                            assert(newp[a] == oldp[a]);
                        } else {
                            assert(newp[a] == oldp[a + 1]);
                        }
                    }
                    assert forall|a: int, b: int|
                        #![trigger newp[a], newp[b]]
                        0 <= a < b < newp.len() implies newp[a].key != newp[b].key by {
                        let c = if a < i as int {
                            a
                        } else {
                            a + 1
                        };
                        let d = if b < i as int {
                            b
                        } else {
                            b + 1
                        };
                        assert(newp[a] == oldp[c]);
                        assert(newp[b] == oldp[d]);
                        assert(oldp[c].key != oldp[d].key);
                    }
                    assert forall|a: int| 0 <= a < newp.len() implies (
                    #[trigger] newp[a]).created_at <= newp[a].updated_at <= self.now by {
                        if a < i as int {
                            assert(newp[a] == oldp[a]);
                        } else {
                            assert(newp[a] == oldp[a + 1]);
                        }
                    }
                    assert(self.tags_v() =~= old(self).tags_v());
                    assert(self.rels() =~= old(self).rels());
                }
                return Ok(());
            }
            i = i + 1;
        }
        Ok(())
    }

    /// Rewrites the post matching `id`. The same validation as on create
    /// applies: every requested tag name must resolve, else exactly the
    /// unresolved names are reported and nothing is written. On success the
    /// title and content are replaced, `created_at` is kept, `updated_at`
    /// is refreshed to the store's current instant, and the post's
    /// associations are replaced as a whole by the newly resolved set —
    /// a full resync, never a merge.
    #[verifier::loop_isolation(false)]
    pub fn update_post(&mut self, id: &str, new_post: NewPost) -> (r: Result<
        Post,
        PostRepositoryError,
    >)
        requires
            old(self).wf(),
        ensures
            final(self).wf(),
            final(self).tags@ == old(self).tags@,
            final(self).next_key == old(self).next_key,
            final(self).now == old(self).now,
            r is Ok <==> ((forall|i: int|
                0 <= i < new_post.tags@.len() ==> has_tag_name(
                    old(self).tags_v(),
                    (#[trigger] new_post.tags@[i])@,
                )) && has_post_id(old(self).posts_v(), id@)),
            r matches Err(e) ==> *final(self) == *old(self),
            !(forall|i: int|
                0 <= i < new_post.tags@.len() ==> has_tag_name(
                    old(self).tags_v(),
                    (#[trigger] new_post.tags@[i])@,
                )) ==> (r matches Err(e) && e matches PostRepositoryError::TagsNotFound(missing)
                && string_views(missing@) =~= names_not_in(
                string_views(new_post.tags@),
                row_names(old(self).tags_v()),
            )),
            (forall|i: int|
                0 <= i < new_post.tags@.len() ==> has_tag_name(
                    old(self).tags_v(),
                    (#[trigger] new_post.tags@[i])@,
                )) && !has_post_id(old(self).posts_v(), id@) ==> (r matches Err(e)
                && e is PostUpdate),
            r matches Ok(p) ==> exists|i: int|
                {
                    let resolved = rows_with_names(
                        old(self).tags_v(),
                        string_views(new_post.tags@),
                    );
                    let pk = old(self).posts_v()[i].key;
                    &&& 0 <= i < old(self).posts_v().len()
                    &&& dec_seq((#[trigger] old(self).posts_v()[i]).key as nat) == id@
                    &&& final(self).posts_v() =~= old(self).posts_v().update(
                        i,
                        PostRowV {
                            key: pk,
                            title: new_post.title@,
                            content: new_post.content@,
                            created_at: old(self).posts_v()[i].created_at,
                            updated_at: old(self).now,
                        },
                    )
                    &&& final(self).rels() =~= rels_without_post(old(self).rels(), pk) + rels_for(
                        resolved,
                        pk,
                    )
                    &&& p@.id == id@
                    &&& p@.title == new_post.title@
                    &&& p@.content == new_post.content@
                    &&& p@.created_at == old(self).posts_v()[i].created_at
                    &&& p@.updated_at == old(self).now
                    &&& p@.tags.len() == resolved.len()
                    &&& forall|k: int|
                        0 <= k < resolved.len() ==> p@.tags[k] == row_tag(#[trigger] resolved[k])
                },
    {
        let ghost req = string_views(new_post.tags@);
        let ghost rn = row_names(self.tags_v());
        let missing = self.missing_store_names(&new_post.tags);
        proof {
            lemma_names_not_in_empty(req, rn);
            let all_req = forall|i: int|
                0 <= i < new_post.tags@.len() ==> has_tag_name(
                    old(self).tags_v(),
                    (#[trigger] new_post.tags@[i])@,
                );
            if all_req {
                assert forall|i: int| 0 <= i < req.len() implies rn.contains(
                    #[trigger] req[i],
                ) by {
                    assert(req[i] == new_post.tags@[i]@);
                    assert(has_tag_name(old(self).tags_v(), new_post.tags@[i]@));
                    lemma_row_names_has(old(self).tags_v(), new_post.tags@[i]@);
                }
                assert(names_not_in(req, rn).len() == 0);
            }
            if names_not_in(req, rn).len() == 0 {
                assert forall|i: int| 0 <= i < new_post.tags@.len() implies has_tag_name(
                    old(self).tags_v(),
                    (#[trigger] new_post.tags@[i])@,
                ) by {
                    assert(rn.contains(req[i]));
                    assert(req[i] == new_post.tags@[i]@);
                    lemma_row_names_has(old(self).tags_v(), new_post.tags@[i]@);
                }
            }
        }
        if missing.len() > 0 {
            return Err(PostRepositoryError::TagsNotFound(missing));
        }
        let mut i: usize = 0;
        let mut found: Option<usize> = None;
        while i < self.posts.len()
            invariant
                *self == *old(self),
                i <= self.posts@.len(),
                found is None,
                forall|j: int|
                    0 <= j < i as int ==> dec_seq((#[trigger] self.posts_v()[j]).key as nat)
                        != id@,
            decreases self.posts@.len() - i,
        {
            let rid = u64_to_dec(self.posts[i].key);
            if str_eq(rid.as_str(), id) {
                proof {
                    assert(dec_seq(self.posts_v()[i as int].key as nat) == id@);
                }
                found = Some(i);
                break ;
            }
            i = i + 1;
        }
        let at: usize = match found {
            Some(v) => v,
            None => {
                return Err(PostRepositoryError::PostUpdate);
            },
        };
        let ghost oldp = old(self).posts_v();
        let resolved = self.matching_tag_rows(&new_post.tags);
        let ghost resolved_v = rows_with_names(old(self).tags_v(), string_views(new_post.tags@));
        proof {
            assert forall|k: int| 0 <= k < resolved_v.len() implies (
            #[trigger] resolved_v[k]).key < old(self).next_key by {
                lemma_rows_with_names_from(old(self).tags_v(), req, k);
                let j = choose|j: int|
                    0 <= j < old(self).tags_v().len() && old(self).tags_v()[j] == resolved_v[k];
                assert(old(self).tags_v()[j].key < old(self).next_key);
            }
        }
        let key: u64 = self.posts[at].key;
        let created_at: i64 = self.posts[at].created_at;
        let now: i64 = self.now;
        self.posts.set(
            at,
            PostRow {
                key,
                title: new_post.title.clone(),
                content: new_post.content.clone(),
                created_at,
                updated_at: now,
            },
        );
        proof {
            let newp = self.posts_v();
            assert(newp =~= oldp.update(
                at as int,
                PostRowV {
                    key,
                    title: new_post.title@,
                    content: new_post.content@,
                    created_at,
                    updated_at: now,
                },
            ));
            assert forall|a: int| 0 <= a < newp.len() implies (#[trigger] newp[a]).key
                < self.next_key by {
                if a != at as int {
                    assert(newp[a] == oldp[a]);
                }
                assert(oldp[a].key < old(self).next_key);
            }
            assert forall|a: int, b: int|
                #![trigger newp[a], newp[b]]
                0 <= a < b < newp.len() implies newp[a].key != newp[b].key by {
                assert(oldp[a].key != oldp[b].key);
                if a != at as int {
                    assert(newp[a] == oldp[a]);
                }
                if b != at as int {
                    assert(newp[b] == oldp[b]);
                }
            }
            assert forall|a: int| 0 <= a < newp.len() implies (#[trigger] newp[a]).created_at
                <= newp[a].updated_at <= self.now by {
                assert(oldp[a].created_at <= oldp[a].updated_at <= old(self).now);
                if a != at as int {
                    assert(newp[a] == oldp[a]);
                }
            }
            assert(self.tags_v() =~= old(self).tags_v());
        }
        let ghost mid_posts = self.posts@;
        let mut keep: Vec<Relation> = Vec::new();
        let mut ri: usize = 0;
        while ri < self.relations.len()
            invariant
                ri <= self.relations@.len(),
                self.relations@ == old(self).relations@,
                keep@ =~= rels_without_post(old(self).rels().take(ri as int), key),
            decreases self.relations@.len() - ri,
        {
            let rel = self.relations[ri];
            proof {
                lemma_take_push(old(self).rels(), ri as int);
                lemma_rels_without_post_push(
                    old(self).rels().take(ri as int),
                    key,
                    old(self).rels()[ri as int],
                );
            }
            if rel.post_key != key {
                keep.push(rel);
            }
            ri = ri + 1;
        }
        proof {
            assert(old(self).rels().take(old(self).relations@.len() as int) =~= old(self).rels());
        }
        let mut rj: usize = 0;
        while rj < resolved.len()
            invariant
                rj <= resolved@.len(),
                keep@ =~= rels_without_post(old(self).rels(), key) + rels_for(
                    resolved_v,
                    key,
                ).take(rj as int),
                self.posts@ == mid_posts,
                self.tags@ == old(self).tags@,
                self.relations@ == old(self).relations@,
            decreases resolved@.len() - rj,
        {
            proof {
                assert(tag_row_views(resolved@)[rj as int] == resolved_v[rj as int]);
                lemma_take_push(rels_for(resolved_v, key), rj as int);
            }
            keep.push(Relation { post_key: key, tag_key: resolved[rj].key });
            proof {
                assert(rels_without_post(old(self).rels(), key) + rels_for(
                    resolved_v,
                    key,
                ).take(rj as int).push(rels_for(resolved_v, key)[rj as int]) =~= (
                rels_without_post(old(self).rels(), key) + rels_for(resolved_v, key).take(
                    rj as int,
                )).push(rels_for(resolved_v, key)[rj as int]));
            }
            rj = rj + 1;
        }
        proof {
            assert(rels_for(resolved_v, key).take(resolved_v.len() as int) =~= rels_for(
                resolved_v,
                key,
            ));
        }
        self.relations = keep;
        proof {
            let newr = self.rels();
            let kept = rels_without_post(old(self).rels(), key);
            assert forall|a: int| 0 <= a < newr.len() implies (#[trigger] newr[a]).post_key
                < self.next_key && newr[a].tag_key < self.next_key by {
                if a < kept.len() {
                    assert(newr[a] == kept[a]);
                    lemma_rels_without_post_from(old(self).rels(), key, a);
                    let j = choose|j: int|
                        0 <= j < old(self).rels().len() && old(self).rels()[j] == kept[a];
                    assert(old(self).rels()[j].post_key < old(self).next_key);
                    assert(old(self).rels()[j].tag_key < old(self).next_key);
                } else {
                    let k = a - kept.len();
                    assert(newr[a] == rels_for(resolved_v, key)[k]);
                    assert(resolved_v[k].key < old(self).next_key);
                    assert(oldp[at as int].key < old(self).next_key);
                }
            }
        }
        let mut rtags: Vec<Tag> = Vec::new();
        let mut tj: usize = 0;
        while tj < resolved.len()
            invariant
                tj <= resolved@.len(),
                rtags@.len() == tj,
                forall|k: int|
                    0 <= k < tj as int ==> (#[trigger] rtags@[k])@ == row_tag(resolved_v[k]),
            decreases resolved@.len() - tj,
        {
            proof {
                assert(tag_row_views(resolved@)[tj as int] == resolved_v[tj as int]);
            }
            let row = &resolved[tj];
            rtags.push(Tag { id: u64_to_dec(row.key), name: row.name.clone() });
            tj = tj + 1;
        }
        let rid = u64_to_dec(key);
        proof {
            assert(dec_seq(oldp[at as int].key as nat) == id@);
            assert(rid@ =~= id@);
        }
        Ok(
            Post {
                id: rid,
                title: new_post.title,
                content: new_post.content,
                tags: rtags,
                created_at,
                updated_at: now,
            },
        )
    }
}

} // verus!
