//! Laws of what is attached to a presented identity.

use vstd::prelude::*;

use crate::presented::lookup;

verus! {

/// A text that is attached is found under its name, unless one was attached
/// under that name before, and changes nothing under other names.
pub proof fn the_first_text_under_a_name_counts(
    pairs: Seq<(Seq<char>, Seq<char>)>,
    name: Seq<char>,
    text: Seq<char>,
    asked: Seq<char>,
)
    ensures
        lookup(pairs.push((name, text)), asked) == (if lookup(pairs, asked) is None && name
            == asked {
            Some(text)
        } else {
            lookup(pairs, asked)
        }),
    decreases pairs.len(),
{
    let more = pairs.push((name, text));
    assert(more.drop_first() =~= if pairs.len() > 0 {
        pairs.drop_first().push((name, text))
    } else {
        pairs
    });
    if pairs.len() > 0 {
        the_first_text_under_a_name_counts(pairs.drop_first(), name, text, asked);
    }
}

/// `text` is the first text under `name`.
pub open spec fn first_under(
    pairs: Seq<(Seq<char>, Seq<char>)>,
    name: Seq<char>,
    text: Seq<char>,
) -> bool {
    exists|i: int|
        {
            &&& 0 <= i < pairs.len()
            &&& #[trigger] pairs[i] == (name, text)
            &&& forall|j: int| 0 <= j < i ==> (#[trigger] pairs[j]).0 != name
        }
}

/// A text is found under a name exactly where it is the first under it, and none
/// is found exactly where none is there.
pub proof fn a_text_is_found_where_it_is_the_first_under_its_name(
    pairs: Seq<(Seq<char>, Seq<char>)>,
    name: Seq<char>,
    text: Seq<char>,
)
    ensures
        lookup(pairs, name) == Some(text) <==> first_under(pairs, name, text),
        lookup(pairs, name) is None <==> forall|i: int|
            0 <= i < pairs.len() ==> (#[trigger] pairs[i]).0 != name,
    decreases pairs.len(),
{
    if pairs.len() > 0 {
        let others = pairs.drop_first();
        a_text_is_found_where_it_is_the_first_under_its_name(others, name, text);
        if pairs[0].0 == name {
            if first_under(pairs, name, text) {
                let i = choose|i: int|
                    {
                        &&& 0 <= i < pairs.len()
                        &&& #[trigger] pairs[i] == (name, text)
                        &&& forall|j: int| 0 <= j < i ==> (#[trigger] pairs[j]).0 != name
                    };
                assert(i == 0);
            }
            if lookup(pairs, name) == Some(text) {
                assert(pairs[0] == (name, text));
            }
        } else {
            if first_under(others, name, text) {
                let i = choose|i: int|
                    {
                        &&& 0 <= i < others.len()
                        &&& #[trigger] others[i] == (name, text)
                        &&& forall|j: int| 0 <= j < i ==> (#[trigger] others[j]).0 != name
                    };
                assert(pairs[i + 1] == (name, text));
                assert forall|j: int| 0 <= j < i + 1 implies (#[trigger] pairs[j]).0 != name by {
                    if j > 0 {
                        assert(others[j - 1].0 != name);
                    }
                }
            }
            if first_under(pairs, name, text) {
                let i = choose|i: int|
                    {
                        &&& 0 <= i < pairs.len()
                        &&& #[trigger] pairs[i] == (name, text)
                        &&& forall|j: int| 0 <= j < i ==> (#[trigger] pairs[j]).0 != name
                    };
                assert(others[i - 1] == (name, text));
                assert forall|j: int| 0 <= j < i - 1 implies (#[trigger] others[j]).0 != name by {
                    assert(pairs[j + 1].0 != name);
                }
            }
            if forall|i: int| 0 <= i < others.len() ==> (#[trigger] others[i]).0 != name {
                assert forall|i: int| 0 <= i < pairs.len() implies (#[trigger] pairs[i]).0 != name by {
                    if i > 0 {
                        assert(others[i - 1].0 != name);
                    }
                }
            }
            if forall|i: int| 0 <= i < pairs.len() ==> (#[trigger] pairs[i]).0 != name {
                assert forall|i: int| 0 <= i < others.len() implies (#[trigger] others[i]).0
                    != name by {
                    assert(pairs[i + 1].0 != name);
                }
            }
        }
    }
}

} // verus!
