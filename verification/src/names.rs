//! Lists of names.

use crate::text::same_text;
use vstd::prelude::*;

verus! {

/// Whether a name is in a list.
pub open spec fn named(names: Seq<String>, name: Seq<char>) -> bool {
    exists|k: int| 0 <= k < names.len() && #[trigger] names[k]@ == name
}

/// Whether no name is in a list twice.
pub open spec fn distinct(names: Seq<String>) -> bool {
    forall|j: int, k: int| 0 <= j < k < names.len() ==> #[trigger] names[j]@ != #[trigger] names[k]@
}

/// One name more.
pub proof fn lemma_named_push(names: Seq<String>, added: String)
    ensures
        forall|name: Seq<char>| #[trigger]
            named(names.push(added), name) <==> named(names, name) || name == added@,
{
    assert forall|name: Seq<char>| #[trigger]
        named(names.push(added), name) <==> named(names, name) || name == added@ by {
        if named(names, name) {
            let k = choose|k: int| 0 <= k < names.len() && #[trigger] names[k]@ == name;
            assert(names.push(added)[k]@ == name);
        }
        assert(names.push(added)[names.len() as int]@ == added@);
    }
}

/// Whether a name is in a list.
pub fn contains(names: &Vec<String>, name: &str) -> (r: bool)
    ensures
        r == named(names@, name@),
{
    let mut k: usize = 0;
    while k < names.len()
        invariant
            k <= names.len(),
            forall|j: int| 0 <= j < k ==> #[trigger] names@[j]@ != name@,
        decreases names.len() - k,
    {
        if same_text(names[k].as_str(), name) {
            assert(names@[k as int]@ == name@);
            return true;
        }
        k = k + 1;
    }
    false
}

/// A list of which everything is kept stays as it is.
pub proof fn lemma_all_kept<A>(list: Seq<A>, keep: spec_fn(A) -> bool)
    requires
        forall|i: int| 0 <= i < list.len() ==> keep(#[trigger] list[i]),
    ensures
        list.filter(keep) == list,
    decreases list.len(),
{
    reveal(Seq::filter);
    if list.len() > 0 {
        let front = list.drop_last();
        assert forall|i: int| 0 <= i < front.len() implies keep(#[trigger] front[i]) by {
            assert(front[i] == list[i]);
        }
        lemma_all_kept(front, keep);
        assert(keep(list[list.len() - 1]));
        assert(list =~= front.push(list.last()));
    } else {
        assert(list.filter(keep) =~= list);
    }
}

} // verus!
