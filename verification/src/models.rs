use vstd::prelude::*;

verus! {

/// Abstract value of a [`Tag`]: identifier and name as character sequences.
pub struct TagV {
    pub id: Seq<char>,
    pub name: Seq<char>,
}

/// A named label. `name` is the natural key used by callers; `id` is assigned
/// by the store when the tag is created and never changes afterwards.
#[derive(Debug)]
pub struct Tag {
    pub id: String,
    pub name: String,
}

impl View for Tag {
    type V = TagV;

    open spec fn view(&self) -> TagV {
        TagV { id: self.id@, name: self.name@ }
    }
}

impl Clone for Tag {
    fn clone(&self) -> (r: Self)
        ensures
            r == *self,
    {
        Tag { id: self.id.clone(), name: self.name.clone() }
    }
}

/// Abstract value of a [`Post`].
pub struct PostV {
    pub id: Seq<char>,
    pub title: Seq<char>,
    pub content: Seq<char>,
    pub tags: Seq<TagV>,
    pub created_at: i64,
    pub updated_at: i64,
}

/// The abstract values of a sequence of tags.
pub open spec fn tag_views(tags: Seq<Tag>) -> Seq<TagV> {
    tags.map_values(|t: Tag| t@)
}

/// The names of a sequence of abstract tags, in order.
pub open spec fn tag_names(tags: Seq<TagV>) -> Seq<Seq<char>> {
    tags.map_values(|t: TagV| t.name)
}

/// The character sequences of a sequence of strings, in order.
pub open spec fn string_views(ss: Seq<String>) -> Seq<Seq<char>> {
    ss.map_values(|s: String| s@)
}

/// A content record. `tags` is materialized from the post/tag relation at
/// read time, not stored inline. Timestamps are milliseconds since the Unix
/// epoch.
#[derive(Debug)]
pub struct Post {
    pub id: String,
    pub title: String,
    pub content: String,
    pub tags: Vec<Tag>,
    pub created_at: i64,
    pub updated_at: i64,
}

impl View for Post {
    type V = PostV;

    open spec fn view(&self) -> PostV {
        PostV {
            id: self.id@,
            title: self.title@,
            content: self.content@,
            tags: self.tags@.map_values(|t: Tag| t@),
            created_at: self.created_at,
            updated_at: self.updated_at,
        }
    }
}

impl Clone for Post {
    fn clone(&self) -> (r: Self)
        ensures
            r@ == self@,
    {
        let mut tags: Vec<Tag> = Vec::new();
        let mut i: usize = 0;
        while i < self.tags.len()
            invariant
                i <= self.tags.len(),
                tags@.map_values(|t: Tag| t@) =~= self.tags@.take(i as int).map_values(
                    |t: Tag| t@,
                ),
            decreases self.tags.len() - i,
        {
            tags.push(self.tags[i].clone());
            proof {
                assert(self.tags@.take(i + 1).drop_last() =~= self.tags@.take(i as int));
                assert(self.tags@.take(i + 1).map_values(|t: Tag| t@) =~= self.tags@.take(
                    i as int,
                ).map_values(|t: Tag| t@).push(self.tags@[i as int]@));
            }
            i = i + 1;
        }
        proof {
            assert(self.tags@.take(self.tags@.len() as int) =~= self.tags@);
        }
        Post {
            id: self.id.clone(),
            title: self.title.clone(),
            content: self.content.clone(),
            tags,
            created_at: self.created_at,
            updated_at: self.updated_at,
        }
    }
}

} // verus!
