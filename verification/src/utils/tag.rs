use vstd::prelude::*;

use crate::models::{string_views, tag_names, tag_views, Tag};
use crate::seqs::lemma_take_push;
use crate::text::str_eq;

verus! {

/// The names of `xs` that occur nowhere in `ys`, in the order of `xs`.
pub open spec fn names_not_in(xs: Seq<Seq<char>>, ys: Seq<Seq<char>>) -> Seq<Seq<char>>
    decreases xs.len(),
{
    if xs.len() == 0 {
        Seq::empty()
    } else {
        let rest = names_not_in(xs.drop_last(), ys);
        if !ys.contains(xs.last()) {
            rest.push(xs.last())
        } else {
            rest
        }
    }
}

/// Extending `xs` by one name extends the difference exactly when the name
/// is absent from `ys`.
pub proof fn lemma_names_not_in_push(xs: Seq<Seq<char>>, ys: Seq<Seq<char>>, x: Seq<char>)
    ensures
        names_not_in(xs.push(x), ys) == if !ys.contains(x) {
            names_not_in(xs, ys).push(x)
        } else {
            names_not_in(xs, ys)
        },
{
    assert(xs.push(x).drop_last() =~= xs);
    assert(xs.push(x).last() == x);
}

/// The difference is empty exactly when every name of `xs` occurs in `ys`.
pub proof fn lemma_names_not_in_empty(xs: Seq<Seq<char>>, ys: Seq<Seq<char>>)
    ensures
        names_not_in(xs, ys).len() == 0 <==> (forall|i: int|
            0 <= i < xs.len() ==> ys.contains(#[trigger] xs[i])),
    decreases xs.len(),
{
    if xs.len() > 0 {
        let rest = xs.drop_last();
        lemma_names_not_in_empty(rest, ys);
        assert(forall|i: int| 0 <= i < rest.len() ==> rest[i] == xs[i]);
        assert(xs[xs.len() - 1] == xs.last());
    }
}

/// True when some string in `names` equals `name`.
pub fn contains_name(names: &Vec<String>, name: &str) -> (r: bool)
    ensures
        r == string_views(names@).contains(name@),
{
    let mut i: usize = 0;
    while i < names.len()
        invariant
            i <= names@.len(),
            forall|j: int| 0 <= j < i as int ==> names@[j]@ != name@,
        decreases names@.len() - i,
    {
        if str_eq(names[i].as_str(), name) {
            proof {
                assert(string_views(names@)[i as int] == name@);
            }
            return true;
        }
        i = i + 1;
    }
    proof {
        assert forall|k: int| 0 <= k < string_views(names@).len() implies string_views(names@)[k]
            != name@ by {
            assert(string_views(names@)[k] == names@[k]@);
        }
    }
    false
}

/// True when some tag in `tags` bears `name`.
pub fn tags_contain_name(tags: &Vec<Tag>, name: &str) -> (r: bool)
    ensures
        r == tag_names(tag_views(tags@)).contains(name@),
{
    let mut i: usize = 0;
    while i < tags.len()
        invariant
            i <= tags@.len(),
            forall|j: int| 0 <= j < i as int ==> tags@[j].name@ != name@,
        decreases tags@.len() - i,
    {
        if str_eq(tags[i].name.as_str(), name) {
            proof {
                assert(tag_names(tag_views(tags@))[i as int] == name@);
            }
            return true;
        }
        i = i + 1;
    }
    proof {
        assert forall|k: int|
            0 <= k < tag_names(tag_views(tags@)).len() implies tag_names(tag_views(tags@))[k]
            != name@ by {
            assert(tag_names(tag_views(tags@))[k] == tags@[k].name@);
        }
    }
    false
}

/// The symmetric difference between the names borne by `tags` and the names
/// in `not_in`: first the tag names absent from `not_in`, in tag order, then
/// the names of `not_in` that no tag bears, in their order.
pub fn tags_diff_set(tags: Vec<Tag>, not_in: &Vec<String>) -> (r: Vec<String>)
    ensures
        string_views(r@) =~= names_not_in(tag_names(tag_views(tags@)), string_views(not_in@))
            + names_not_in(string_views(not_in@), tag_names(tag_views(tags@))),
{
    let ghost tnames = tag_names(tag_views(tags@));
    let ghost nnames = string_views(not_in@);
    let mut r: Vec<String> = Vec::new();
    let mut i: usize = 0;
    while i < tags.len()
        invariant
            i <= tags@.len(),
            tnames == tag_names(tag_views(tags@)),
            nnames == string_views(not_in@),
            tnames.len() == tags@.len(),
            forall|j: int| 0 <= j < tags@.len() ==> tnames[j] == tags@[j].name@,
            string_views(r@) =~= names_not_in(tnames.take(i as int), nnames),
        decreases tags@.len() - i,
    {
        let hit = contains_name(not_in, tags[i].name.as_str());
        proof {
            lemma_take_push(tnames, i as int);
            lemma_names_not_in_push(tnames.take(i as int), nnames, tnames[i as int]);
        }
        if !hit {
            r.push(tags[i].name.clone());
        }
        i = i + 1;
    }
    proof {
        assert(tnames.take(tags@.len() as int) =~= tnames);
    }
    let ghost part1 = names_not_in(tnames, nnames);
    let mut j: usize = 0;
    while j < not_in.len()
        invariant
            j <= not_in@.len(),
            tnames == tag_names(tag_views(tags@)),
            nnames == string_views(not_in@),
            part1 == names_not_in(tnames, nnames),
            nnames.len() == not_in@.len(),
            forall|k: int| 0 <= k < not_in@.len() ==> nnames[k] == not_in@[k]@,
            string_views(r@) =~= part1 + names_not_in(nnames.take(j as int), tnames),
        decreases not_in@.len() - j,
    {
        let hit = tags_contain_name(&tags, not_in[j].as_str());
        proof {
            lemma_take_push(nnames, j as int);
            lemma_names_not_in_push(nnames.take(j as int), tnames, nnames[j as int]);
        }
        if !hit {
            r.push(not_in[j].clone());
            proof {
                assert(part1 + names_not_in(nnames.take(j as int), tnames).push(nnames[j as int])
                    =~= (part1 + names_not_in(nnames.take(j as int), tnames)).push(
                    nnames[j as int],
                ));
            }
        }
        j = j + 1;
    }
    proof {
        assert(nnames.take(not_in@.len() as int) =~= nnames);
    }
    r
}

} // verus!
