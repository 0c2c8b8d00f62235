use vstd::prelude::*;

use crate::link::{convert_obsidian_links, rewritten};

verus! {

/// A chapter of a book: its text, its nested items, and the rest of its fields,
/// which are carried through untouched.
pub struct Chapter<T> {
    pub content: Option<String>,
    pub sub_items: Option<Vec<Item<T>>>,
    pub rest: T,
}

/// An entry of a book: a chapter, or another kind of entry (a separator, a part
/// title) that is kept as it is.
pub enum Item<T> {
    Chapter(Chapter<T>),
    Other(T),
}

/// A book: its top-level items, and the rest of its fields.
pub struct Book<T> {
    pub sections: Option<Vec<Item<T>>>,
    pub rest: T,
}

/// `new` is `old` with the links of its text rewritten.
pub open spec fn content_rewritten(new: Option<String>, old: Option<String>) -> bool {
    match old {
        Some(text) => new matches Some(t) && t@ == rewritten(text@),
        None => new is None,
    }
}

/// `new` is `old` with the links of every chapter in it rewritten: the same
/// kind of entry, the same fields but the texts, the same nested items in the
/// same order.
pub open spec fn item_rewritten<T>(new: Item<T>, old: Item<T>) -> bool
    decreases old,
{
    match old {
        Item::Chapter(c) => match new {
            Item::Chapter(d) => {
                &&& d.rest == c.rest
                &&& content_rewritten(d.content, c.content)
                &&& match c.sub_items {
                    Some(v) => d.sub_items matches Some(w) && w@.len() == v@.len() && forall|
                        k: int,
                    |
                        0 <= k < v@.len() ==> item_rewritten(#[trigger] w@[k], v@[k]),
                    None => d.sub_items is None,
                }
            },
            Item::Other(_) => false,
        },
        Item::Other(x) => new == Item::<T>::Other(x),
    }
}

/// Each entry of `new` is the rewriting of the entry of `old` at its place.
pub open spec fn items_rewritten<T>(new: Seq<Item<T>>, old: Seq<Item<T>>) -> bool {
    new.len() == old.len() && forall|k: int|
        0 <= k < old.len() ==> item_rewritten(#[trigger] new[k], old[k])
}

/// Rewriting keeps the shape of the tree: a chapter stays a chapter with the
/// same other fields and, item for item and in the same order, the rewriting
/// of its nested items; any other entry stays exactly as it was.
pub proof fn lemma_structure_kept<T>(new: Item<T>, old: Item<T>)
    requires
        item_rewritten(new, old),
    ensures
        old is Other ==> new == old,
        old matches Item::Chapter(c) ==> new matches Item::Chapter(d) && d.rest == c.rest && match
            c.sub_items {
            Some(v) => d.sub_items matches Some(w) && items_rewritten(w@, v@),
            None => d.sub_items is None,
        },
{
}

/// Rewrites the links of a chapter's text and of all its nested items; any
/// other entry comes back unchanged.
pub fn process_item<T>(item: Item<T>) -> (r: Item<T>)
    ensures
        item_rewritten(r, item),
    decreases item,
{
    match item {
        Item::Chapter(chapter) => {
            let Chapter { content, sub_items, rest } = chapter;
            let content = match content {
                Some(text) => Some(convert_obsidian_links(text.as_str())),
                None => None,
            };
            let sub_items = match sub_items {
                Some(items) => {
                    proof {
                        vstd::std_specs::vec::axiom_vec_decreases_to_view(items);
                    }
                    Some(process_items(items))
                },
                None => None,
            };
            Item::Chapter(Chapter { content, sub_items, rest })
        },
        Item::Other(x) => Item::Other(x),
    }
}

/// Rewrites each entry of `items`, keeping their number and order.
#[verifier::loop_isolation(false)]
pub fn process_items<T>(mut items: Vec<Item<T>>) -> (r: Vec<Item<T>>)
    ensures
        items_rewritten(r@, items@),
    decreases items@,
{
    let ghost all = items@;
    let mut out: Vec<Item<T>> = Vec::new();
    while items.len() > 0
        invariant
            items@ == all.subrange(out@.len() as int, all.len() as int),
            out@.len() <= all.len(),
            items_rewritten(out@, all.subrange(0, out@.len() as int)),
        decreases items@.len(),
    {
        let item = items.remove(0);
        proof {
            assert(out@.len() < all.len());
            assert(item == all[out@.len() as int]);
            vstd::seq::axiom_seq_index_decreases(all, out@.len() as int);
        }
        let done = process_item(item);
        let ghost k = out@.len() as int;
        out.push(done);
        assert(all.subrange(k + 1, all.len() as int) =~= all.subrange(k, all.len() as int).drop_first());
        assert forall|j: int| 0 <= j < out@.len() implies item_rewritten(
            #[trigger] out@[j],
            all.subrange(0, out@.len() as int)[j],
        ) by {
            if j < k {
                assert(all.subrange(0, k)[j] == all[j]);
            }
        }
    }
    assert(all.subrange(0, out@.len() as int) =~= all);
    out
}

/// `new` is `old` with the links of every chapter in it rewritten.
pub open spec fn book_rewritten<T>(new: Book<T>, old: Book<T>) -> bool {
    &&& new.rest == old.rest
    &&& match old.sections {
        Some(v) => new.sections matches Some(w) && items_rewritten(w@, v@),
        None => new.sections is None,
    }
}

/// Rewrites the links of every chapter of the book, at any depth.
pub fn process_book<T>(book: Book<T>) -> (r: Book<T>)
    ensures
        book_rewritten(r, book),
{
    let Book { sections, rest } = book;
    let sections = match sections {
        Some(items) => Some(process_items(items)),
        None => None,
    };
    Book { sections, rest }
}

} // verus!
