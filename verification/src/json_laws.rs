//! What holds of JSON values as a whole.

use vstd::prelude::*;
use crate::json::{member_from, JsonView};

verus! {

/// A member is found by its key, whatever members of other keys stand before and behind it.
pub proof fn law_member_is_found(
    before: Seq<(Seq<char>, JsonView)>,
    key: Seq<char>,
    value: JsonView,
    after: Seq<(Seq<char>, JsonView)>,
)
    requires
        forall|i: int| 0 <= i < before.len() ==> (#[trigger] before[i]).0 != key,
    ensures
        JsonView::Object(before.push((key, value)) + after).field(key) == Some(value),
        JsonView::Object(before.push((key, value)) + after).at(key) == value,
        JsonView::Object(before).field(key) is None,
        JsonView::Object(before).at(key) is Null,
{
    lemma_member_found(before, key, value, after, 0);
}

proof fn lemma_member_found(
    before: Seq<(Seq<char>, JsonView)>,
    key: Seq<char>,
    value: JsonView,
    after: Seq<(Seq<char>, JsonView)>,
    from: int,
)
    requires
        0 <= from <= before.len(),
        forall|i: int| 0 <= i < before.len() ==> (#[trigger] before[i]).0 != key,
    ensures
        member_from(before.push((key, value)) + after, key, from) == Some(value),
        member_from(before, key, from) is None,
    decreases before.len() - from,
{
    let all = before.push((key, value)) + after;
    if from < before.len() {
        assert(all[from] == before[from]);
        lemma_member_found(before, key, value, after, from + 1);
    } else {
        assert(all[from] == (key, value));
    }
}

} // verus!
