//! The names that complete what a user has typed so far.

use crate::database::DatabaseContents;
use vstd::prelude::*;
use vstd::string::*;

verus! {

/// Whether `text` begins with `prefix`.
pub fn starts_with(text: &str, prefix: &str) -> (begins: bool)
    ensures
        begins == prefix@.is_prefix_of(text@),
{
    let length: usize = prefix.unicode_len();
    if length > text.unicode_len() {
        return false;
    }
    let mut i: usize = 0;
    while i < length
        invariant
            i <= length,
            length == prefix@.len(),
            length <= text@.len(),
            forall|j: int| 0 <= j < i ==> prefix@[j] == text@[j],
        decreases length - i,
    {
        if text.get_char(i) != prefix.get_char(i) {
            return false;
        }
        i += 1;
    }
    true
}

/// The names among `names` that begin with `partial`, in their order.
pub open spec fn completions(names: Seq<Seq<char>>, partial: Seq<char>) -> Seq<Seq<char>> {
    names.filter(|name: Seq<char>| partial.is_prefix_of(name))
}

/// The texts, each as mathematics.
pub open spec fn text_views(texts: Seq<String>) -> Seq<Seq<char>> {
    texts.map_values(|text: String| text@)
}

/// The names of the locations that begin with `partial`, in the order of the store.
pub fn location(contents: &DatabaseContents, partial: &str) -> (names: Vec<String>)
    ensures
        text_views(names@) == completions(
            contents@.locations.map_values(|l: crate::database::LocationView| l.name),
            partial@,
        ),
{
    let ghost all = contents@.locations.map_values(|l: crate::database::LocationView| l.name);
    let ghost begins = |name: Seq<char>| partial@.is_prefix_of(name);
    let mut names: Vec<String> = Vec::new();
    let mut i: usize = 0;
    proof {
        reveal(Seq::filter);
    }
    while i < contents.locations.len()
        invariant
            i <= contents.locations.len(),
            all == contents@.locations.map_values(|l: crate::database::LocationView| l.name),
            begins == (|name: Seq<char>| partial@.is_prefix_of(name)),
            text_views(names@) == all.take(i as int).filter(begins),
        decreases contents.locations.len() - i,
    {
        let name = &contents.locations[i].name.0;
        proof {
            reveal(Seq::filter);
            assert(all.take(i + 1).drop_last() == all.take(i as int));
        }
        if starts_with(name.as_str(), partial) {
            names.push(name.clone());
        }
        i += 1;
    }
    assert(all.take(contents.locations.len() as int) == all);
    names
}

/// The names of the watched satellites that begin with `partial`, in the
/// order of the store; a satellite that is watched twice is named twice.
pub fn watched_satellite(contents: &DatabaseContents, partial: &str) -> (names: Vec<String>)
    ensures
        text_views(names@) == completions(
            contents@.watched_satellites.map_values(
                |w: crate::database::WatchedSatelliteView| w.name,
            ),
            partial@,
        ),
{
    let ghost all = contents@.watched_satellites.map_values(
        |w: crate::database::WatchedSatelliteView| w.name,
    );
    let ghost begins = |name: Seq<char>| partial@.is_prefix_of(name);
    let mut names: Vec<String> = Vec::new();
    let mut i: usize = 0;
    proof {
        reveal(Seq::filter);
    }
    while i < contents.watched_satellites.len()
        invariant
            i <= contents.watched_satellites.len(),
            all == contents@.watched_satellites.map_values(
                |w: crate::database::WatchedSatelliteView| w.name,
            ),
            begins == (|name: Seq<char>| partial@.is_prefix_of(name)),
            text_views(names@) == all.take(i as int).filter(begins),
        decreases contents.watched_satellites.len() - i,
    {
        let name = &contents.watched_satellites[i].name;
        proof {
            reveal(Seq::filter);
            assert(all.take(i + 1).drop_last() == all.take(i as int));
        }
        if starts_with(name.as_str(), partial) {
            names.push(name.clone());
        }
        i += 1;
    }
    assert(all.take(contents.watched_satellites.len() as int) == all);
    names
}

} // verus!
