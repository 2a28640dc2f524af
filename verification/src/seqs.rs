use vstd::prelude::*;

verus! {

/// Taking one more element appends exactly that element.
pub proof fn lemma_take_push<A>(s: Seq<A>, i: int)
    requires
        0 <= i < s.len(),
    ensures
        s.take(i + 1) =~= s.take(i).push(s[i]),
{
}

} // verus!
