//! Listings of the objects in a store.

use vstd::multiset::Multiset;
use vstd::prelude::*;

use super::scan::{join_url, joined_url};
use crate::error::{DeltaResult, Error};
use crate::expressions::order::{
    codes, lemma_lexical_reversed, lemma_lexical_transitive, lexical_order, order_text, Order,
};
use crate::text::{from_chars, to_chars};
use crate::FileMeta;

verus! {

// ---------------------------------------------------------------------------------------------
// What is listed
// ---------------------------------------------------------------------------------------------

/// A path without its last part.
pub open spec fn parent(path: Seq<char>) -> Seq<char>
    decreases path.len(),
{
    if path.len() == 0 {
        Seq::empty()
    } else if path.last() == '/' {
        path.drop_last()
    } else {
        parent(path.drop_last())
    }
}

/// Below which path objects are listed, for a URL: below the path itself where the path of the URL is
/// a directory, which ends with a slash, else below the parent of the path.
pub open spec fn prefix_of(url_path: Seq<char>, offset: Seq<char>) -> Seq<char> {
    if url_path.len() > 0 && url_path.last() == '/' {
        offset
    } else {
        parent(offset)
    }
}

/// Below which path of the store objects are listed, for a URL whose path in the store is `offset`.
/// Those that come after `offset` are asked for.
pub fn listing_prefix(url_path: &str, offset: &str) -> (r: String)
    ensures
        r@ == prefix_of(url_path@, offset@),
{
    let url_chars: Vec<char> = to_chars(url_path);
    if url_chars.len() > 0 && url_chars[url_chars.len() - 1] == '/' {
        return offset.to_owned();
    }
    let path: Vec<char> = to_chars(offset);
    let mut n: usize = path.len();
    assert(path@.take(n as int) =~= path@);
    while n > 0
        invariant
            n <= path@.len(),
            path@ == offset@,
            !(url_path@.len() > 0 && url_path@.last() == '/'),
            parent(path@.take(n as int)) == parent(offset@),
        decreases n,
    {
        assert(path@.take(n as int).last() == path@[n - 1]);
        assert(path@.take(n as int).drop_last() =~= path@.take(n - 1));
        if path[n - 1] == '/' {
            let above: &[char] = vstd::slice::slice_subrange(path.as_slice(), 0, n - 1);
            assert(above@ =~= path@.take(n - 1));
            return from_chars(above);
        }
        n -= 1;
    }
    assert(path@.take(0) =~= Seq::<char>::empty());
    String::new()
}

// ---------------------------------------------------------------------------------------------
// In which order
// ---------------------------------------------------------------------------------------------

/// Whether an object does not come after another one, by their paths.
pub open spec fn in_order(a: FileMeta, b: FileMeta) -> bool {
    !(lexical_order(codes(a.location@), codes(b.location@)) is Greater)
}

/// Objects come in the order of their paths.
pub open spec fn listing_sorted(objects: Seq<FileMeta>) -> bool {
    forall|i: int, j: int|
        #![trigger objects[i], objects[j]]
        0 <= i < j < objects.len() ==> in_order(objects[i], objects[j])
}

proof fn lemma_in_order(a: FileMeta, b: FileMeta, c: FileMeta)
    ensures
        in_order(a, b) || in_order(b, a),
        in_order(a, b) && in_order(b, c) ==> in_order(a, c),
{
    let x = codes(a.location@);
    let y = codes(b.location@);
    let z = codes(c.location@);
    lemma_lexical_reversed(x, y);
    lemma_lexical_reversed(y, z);
    if lexical_order(x, y) is Less && lexical_order(y, z) is Less {
        lemma_lexical_transitive(x, y, z);
    }
}

/// An object put where it belongs adds itself to a sorted listing, and nothing else.
proof fn lemma_put(objects: Seq<FileMeta>, at: int, object: FileMeta)
    requires
        listing_sorted(objects),
        0 <= at <= objects.len(),
        forall|i: int| 0 <= i < at ==> in_order(#[trigger] objects[i], object),
        at < objects.len() ==> in_order(object, objects[at]),
    ensures
        listing_sorted(objects.insert(at, object)),
        objects.insert(at, object).to_multiset() == objects.to_multiset().insert(object),
{
    let more = objects.insert(at, object);
    assert forall|i: int, j: int|
        #![trigger more[i], more[j]]
        0 <= i < j < more.len() implies in_order(more[i], more[j]) by {
        let a = if i < at { i } else { i - 1 };
        let b = if j < at { j } else { j - 1 };
        if i == at {
            if b > at {
                assert(in_order(objects[at], objects[b]));
                lemma_in_order(object, objects[at], objects[b]);
            }
        } else if j == at {
            assert(in_order(objects[i], object));
        } else {
            assert(in_order(objects[a], objects[b]));
        }
    }
    assert(more.remove(at) =~= objects);
    vstd::seq_lib::to_multiset_remove(more, at);
    more.to_multiset_ensures();
    assert(more[at] == object);
    assert(more.to_multiset().count(object) > 0) by {
        assert(more.contains(object));
    }
    assert(more.to_multiset() =~= objects.to_multiset().insert(object));
}

/// The place of an object in a sorted listing.
fn place_of(objects: &Vec<FileMeta>, object: &FileMeta) -> (at: usize)
    requires
        listing_sorted(objects@),
    ensures
        at <= objects@.len(),
        forall|i: int| 0 <= i < at ==> in_order(#[trigger] objects@[i], *object),
        at < objects@.len() ==> in_order(*object, objects@[at as int]),
{
    let mut at: usize = 0;
    while at < objects.len()
        invariant
            at <= objects@.len(),
            forall|i: int| 0 <= i < at ==> in_order(#[trigger] objects@[i], *object),
        decreases objects@.len() - at,
    {
        match order_text(objects[at].location.as_str(), object.location.as_str()) {
            Order::Greater => {
                proof {
                    lemma_in_order(objects@[at as int], *object, *object);
                }
                return at;
            },
            _ => {},
        }
        at += 1;
    }
    at
}

/// Objects in the order of their paths.
pub fn sort_listing(objects: Vec<FileMeta>) -> (r: Vec<FileMeta>)
    ensures
        listing_sorted(r@),
        r@.to_multiset() == objects@.to_multiset(),
{
    let ghost all = objects@;
    let mut rest: Vec<FileMeta> = objects;
    let mut r: Vec<FileMeta> = Vec::new();
    proof {
        all.to_multiset_ensures();
        assert(r@ =~= Seq::<FileMeta>::empty());
        r@.to_multiset_ensures();
        assert(r@.to_multiset() =~= Multiset::empty());
        assert(all.to_multiset() =~= r@.to_multiset().add(rest@.to_multiset()));
    }
    while rest.len() > 0
        invariant
            listing_sorted(r@),
            all == objects@,
            all.to_multiset() == r@.to_multiset().add(rest@.to_multiset()),
        decreases rest@.len(),
    {
        let ghost before = rest@;
        let ghost so_far = r@;
        match rest.pop() {
            Some(object) => {
                let at: usize = place_of(&r, &object);
                proof {
                    lemma_put(so_far, at as int, object);
                    assert(before =~= rest@.push(object));
                    vstd::seq_lib::to_multiset_build(rest@, object);
                    assert(so_far.to_multiset().add(rest@.to_multiset().insert(object))
                        =~= so_far.to_multiset().insert(object).add(rest@.to_multiset()));
                }
                r.insert(at, object);
            },
            None => {
                assert(false);
            },
        }
    }
    proof {
        assert(rest@ =~= Seq::<FileMeta>::empty());
        rest@.to_multiset_ensures();
        assert(rest@.to_multiset() =~= Multiset::empty());
        assert(r@.to_multiset() =~= all.to_multiset());
    }
    r
}

// ---------------------------------------------------------------------------------------------
// Under which URLs
// ---------------------------------------------------------------------------------------------

/// Whether a result is an object of a store as a file: at the URL that its path has relative to a
/// base, where there is one.
pub open spec fn is_listed_file(
    base_url: Seq<char>,
    object: FileMeta,
    r: DeltaResult<FileMeta>,
) -> bool {
    match joined_url(base_url, object.location@) {
        Ok(url) => r matches Ok(file) && file.location@ == url && file.last_modified
            == object.last_modified && file.size == object.size,
        Err(message) => r matches Err(Error::Generic(text)) && text@
            == "Failed to construct URL: "@ + message,
    }
}

/// The files that some objects of a store are, in the order of their paths.
pub fn listed_files(base_url: &str, objects: Vec<FileMeta>) -> (r: Vec<DeltaResult<FileMeta>>)
    ensures
        exists|sorted: Seq<FileMeta>| #[trigger]
            listing_sorted(sorted) && sorted.to_multiset() == objects@.to_multiset()
                && sorted.len() == r@.len() && forall|i: int|
                0 <= i < r@.len() ==> is_listed_file(base_url@, sorted[i], #[trigger] r@[i]),
{
    let sorted: Vec<FileMeta> = sort_listing(objects);
    let mut r: Vec<DeltaResult<FileMeta>> = Vec::new();
    let mut i: usize = 0;
    while i < sorted.len()
        invariant
            i <= sorted@.len(),
            r@.len() == i,
            forall|j: int|
                0 <= j < i ==> is_listed_file(base_url@, sorted@[j], #[trigger] r@[j]),
        decreases sorted@.len() - i,
    {
        let object: &FileMeta = &sorted[i];
        let file: DeltaResult<FileMeta> = match join_url(base_url, object.location.as_str()) {
            Ok(location) => Ok(
                FileMeta { location, last_modified: object.last_modified, size: object.size },
            ),
            Err(text) => {
                let mut message: String = "Failed to construct URL: ".to_owned();
                message.append(text.as_str());
                Err(Error::Generic(message))
            },
        };
        r.push(file);
        i += 1;
    }
    assert(listing_sorted(sorted@));
    r
}

} // verus!
