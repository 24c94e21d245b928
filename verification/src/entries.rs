//! Entries of a journal, as far as their stored form needs reading.

use vstd::prelude::*;
use vstd::std_specs::iter::IteratorSpec;

verus! {

/// The tags that a stored list of tags names: the pieces between its
/// commas. A list without a comma is one tag, and an empty list is one empty
/// tag.
pub open spec fn split_tags_spec(list: Seq<char>) -> Seq<Seq<char>>
    decreases list.len(),
{
    if list.len() == 0 {
        seq![Seq::empty()]
    } else {
        let before = split_tags_spec(list.drop_last());
        if list.last() == ',' {
            before.push(Seq::empty())
        } else {
            before.drop_last().push(before.last().push(list.last()))
        }
    }
}

/// The texts of a vector of strings.
pub open spec fn texts_of(strings: Seq<String>) -> Seq<Seq<char>> {
    strings.map_values(|s: String| s@)
}

/// Splits a stored list of tags at its commas.
pub fn split_tags(list: &str) -> (tags: Vec<String>)
    ensures
        texts_of(tags@) == split_tags_spec(list@),
{
    let mut tags: Vec<String> = Vec::new();
    let mut current = String::new();
    let mut chars = list.chars();
    let ghost mut read: Seq<char> = Seq::empty();
    assert(texts_of(tags@).push(current@) =~= split_tags_spec(read));
    assert(read + chars.remaining() =~= list@);
    loop
        invariant_except_break
            texts_of(tags@).push(current@) == split_tags_spec(read),
            read + chars.remaining() == list@,
        ensures
            texts_of(tags@).push(current@) == split_tags_spec(list@),
        decreases list@.len() - read.len(),
    {
        let ghost rest = chars.remaining();
        match chars.next() {
            None => {
                assert(read =~= list@);
                break;
            },
            Some(c) => {
                let ghost done = texts_of(tags@);
                let ghost word = current@;
                proof {
                    assert((read.push(c)).drop_last() =~= read);
                    assert(done.push(word).drop_last() =~= done);
                    assert(read.push(c) + rest.drop_first() =~= read + rest);
                    read = read.push(c);
                }
                if c == ',' {
                    tags.push(current);
                    current = String::new();
                    assert(texts_of(tags@) =~= done.push(word));
                } else {
                    current.push(c);
                }
            },
        }
    }
    let ghost done = texts_of(tags@);
    tags.push(current);
    assert(texts_of(tags@) =~= done.push(current@));
    tags
}

} // verus!
