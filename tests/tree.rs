use obsidian_links::cli::capability_query;
use obsidian_links::envelope::{extract_book, process_request, Input, InputError};
use obsidian_links::tree::{process_book, process_item, process_items, Book, Chapter, Item};

fn chapter(content: Option<&str>, sub_items: Option<Vec<Item<u32>>>, rest: u32) -> Item<u32> {
    Item::Chapter(Chapter { content: content.map(|c| c.to_string()), sub_items, rest })
}

fn content_of(item: &Item<u32>) -> Option<String> {
    match item {
        Item::Chapter(c) => c.content.clone(),
        Item::Other(_) => None,
    }
}

fn subs_of(item: &Item<u32>) -> &Vec<Item<u32>> {
    match item {
        Item::Chapter(c) => c.sub_items.as_ref().unwrap(),
        Item::Other(_) => panic!("not a chapter"),
    }
}

#[test]
fn nested_chapters_are_rewritten_in_place() {
    let inner = chapter(Some("see [[b#C d]]"), None, 3);
    let middle = chapter(Some("[[a]]"), Some(vec![inner, Item::Other(9)]), 2);
    let out = process_item(middle);
    assert_eq!(content_of(&out).as_deref(), Some("[a](a.md)"));
    let subs = subs_of(&out);
    assert_eq!(subs.len(), 2);
    assert_eq!(content_of(&subs[0]).as_deref(), Some("see [b](b.md#c-d)"));
    assert!(matches!(subs[1], Item::Other(9)));
    match &out {
        Item::Chapter(c) => assert_eq!(c.rest, 2),
        Item::Other(_) => panic!("not a chapter"),
    }
}

#[test]
fn sub_item_count_and_order_are_kept() {
    let items: Vec<Item<u32>> = (0..5).map(|k| chapter(Some(&format!("[[p{}]]", k)), Some(vec![]), k)).collect();
    let parent = chapter(None, Some(items), 100);
    let out = process_item(parent);
    assert_eq!(content_of(&out), None);
    let subs = subs_of(&out);
    assert_eq!(subs.len(), 5);
    for (k, s) in subs.iter().enumerate() {
        assert_eq!(content_of(s), Some(format!("[p{}](p{}.md)", k, k)));
        match s {
            Item::Chapter(c) => {
                assert_eq!(c.rest, k as u32);
                assert_eq!(c.sub_items.as_ref().map(|v| v.len()), Some(0));
            }
            Item::Other(_) => panic!("not a chapter"),
        }
    }
}

#[test]
fn other_entries_pass_through() {
    let out = process_items(vec![Item::Other(7), chapter(None, None, 1), Item::Other(8)]);
    assert_eq!(out.len(), 3);
    assert!(matches!(out[0], Item::Other(7)));
    assert!(matches!(out[2], Item::Other(8)));
    match &out[1] {
        Item::Chapter(c) => {
            assert!(c.content.is_none());
            assert!(c.sub_items.is_none());
            assert_eq!(c.rest, 1);
        }
        Item::Other(_) => panic!("not a chapter"),
    }
}

#[test]
fn book_sections_are_rewritten() {
    let book = Book { sections: Some(vec![chapter(Some("[[x|Y]]"), None, 0)]), rest: 42u32 };
    let out = process_book(book);
    assert_eq!(out.rest, 42);
    let sections = out.sections.unwrap();
    assert_eq!(content_of(&sections[0]).as_deref(), Some("[Y](x.md)"));
    let empty = process_book(Book::<u32> { sections: None, rest: 1 });
    assert!(empty.sections.is_none());
}

#[test]
fn both_envelopes_give_the_same_book() {
    let from_array = extract_book(Input::Array(vec!["context", "payload"]));
    let from_object = extract_book(Input::Object(Some("payload")));
    assert_eq!(from_array, Ok("payload"));
    assert_eq!(from_array, from_object);
}

#[test]
fn other_envelopes_are_refused() {
    assert_eq!(extract_book(Input::Array(vec![1, 2, 3])), Err(InputError::WrongLength(3)));
    assert_eq!(extract_book(Input::<u8>::Array(vec![])), Err(InputError::WrongLength(0)));
    assert_eq!(extract_book(Input::<u8>::Object(None)), Err(InputError::UnexpectedShape));
    assert_eq!(extract_book(Input::<u8>::Other), Err(InputError::UnexpectedShape));
}

fn args(list: &[&str]) -> Vec<String> {
    list.iter().map(|s| s.to_string()).collect()
}

#[test]
fn capability_query_exit_codes() {
    assert_eq!(capability_query(&args(&["prog", "supports", "html"])), Some(0));
    assert_eq!(capability_query(&args(&["prog", "supports", "not-supported"])), Some(1));
    assert_eq!(capability_query(&args(&["prog"])), None);
    assert_eq!(capability_query(&args(&["prog", "support", "html"])), None);
    assert_eq!(capability_query(&args(&["prog", "supports"])), None);
    assert_eq!(capability_query(&args(&["prog", "supports", "x", "y"])), None);
}

fn book_text(result: Result<Book<u32>, InputError>) -> Option<String> {
    let book = result.unwrap();
    assert_eq!(book.rest, 5);
    content_of(&book.sections.unwrap()[0])
}

#[test]
fn request_is_answered_alike_from_both_envelopes() {
    let make = || Book { sections: Some(vec![chapter(Some("[[a#B C|X]]"), None, 0)]), rest: 5u32 };
    let context = Book { sections: None, rest: 0u32 };
    let from_array = book_text(process_request(Input::Array(vec![context, make()])));
    let from_object = book_text(process_request(Input::Object(Some(make()))));
    assert_eq!(from_array.as_deref(), Some("[X](a.md#b-c)"));
    assert_eq!(from_array, from_object);
}

#[test]
fn request_of_wrong_shape_is_refused() {
    let three = (0..3).map(|k| Book { sections: None, rest: k as u32 }).collect();
    assert!(matches!(process_request(Input::Array(three)), Err(InputError::WrongLength(3))));
    assert!(matches!(process_request(Input::<Book<u32>>::Other), Err(InputError::UnexpectedShape)));
}
