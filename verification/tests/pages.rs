use rooting_forms::page::{same_text, El, Page};
use rooting_forms::CSS_CLASS_HIDDEN;

fn texts(list: &[String]) -> Vec<&str> {
    list.iter().map(|s| s.as_str()).collect()
}

#[test]
fn a_new_page_is_empty() {
    let page = Page::new();
    assert_eq!(page.len(), 0);
}

#[test]
fn el_creates_blank_elements_in_order() {
    let mut page = Page::new();
    let a = page.el("span");
    let b = page.el("input");
    assert_eq!(a, El { index: 0 });
    assert_eq!(b, El { index: 1 });
    assert_eq!(page.len(), 2);
    let first = page.get(a);
    assert_eq!(first.tag, "span");
    assert!(first.classes.is_empty());
    assert!(first.attrs.is_empty());
    assert_eq!(first.text, "");
    assert!(first.children.is_empty());
    assert!(first.events.is_empty());
    assert_eq!(first.value, "");
    assert!(!first.checked);
    assert_eq!(page.get(b).tag, "input");
}

#[test]
fn classes_are_added_once() {
    let mut page = Page::new();
    let a = page.el("div");
    page.classes(a, &["one", "two"]);
    page.classes(a, &["two", "three", "one"]);
    assert_eq!(texts(&page.get(a).classes), vec!["one", "two", "three"]);
    page.classes(a, &[]);
    assert_eq!(texts(&page.get(a).classes), vec!["one", "two", "three"]);
}

#[test]
fn modify_classes_adds_and_removes() {
    let mut page = Page::new();
    let a = page.el("div");
    let other = page.el("div");
    page.classes(a, &["one", "two"]);
    page.modify_classes(a, &[("two", false), ("three", true), ("one", true)]);
    assert_eq!(texts(&page.get(a).classes), vec!["one", "three"]);
    page.modify_classes(a, &[("absent", false)]);
    assert_eq!(texts(&page.get(a).classes), vec!["one", "three"]);
    page.modify_classes(a, &[("x", true), ("x", false)]);
    assert_eq!(texts(&page.get(a).classes), vec!["one", "three"]);
    assert!(page.get(other).classes.is_empty());
}

#[test]
fn hidden_follows_the_hidden_class() {
    let mut page = Page::new();
    let a = page.el("div");
    assert!(!page.hidden(a));
    page.modify_classes(a, &[(CSS_CLASS_HIDDEN, true)]);
    assert!(page.hidden(a));
    page.modify_classes(a, &[(CSS_CLASS_HIDDEN, false)]);
    assert!(!page.hidden(a));
}

#[test]
fn set_hidden_marks_from_a_position_on() {
    let mut page = Page::new();
    let els = vec![page.el("a"), page.el("b"), page.el("c")];
    page.set_hidden(&els, 1, true);
    assert_eq!(
        (page.hidden(els[0]), page.hidden(els[1]), page.hidden(els[2])),
        (false, true, true)
    );
    page.set_hidden(&els, 0, false);
    assert_eq!(
        (page.hidden(els[0]), page.hidden(els[1]), page.hidden(els[2])),
        (false, false, false)
    );
    page.set_hidden(&els, 3, true);
    assert_eq!(
        (page.hidden(els[0]), page.hidden(els[1]), page.hidden(els[2])),
        (false, false, false)
    );
}

#[test]
fn attr_sets_and_replaces() {
    let mut page = Page::new();
    let a = page.el("input");
    page.attr(a, "type", "text");
    page.attr(a, "aria-label", "Name");
    page.attr(a, "type", "password");
    let attrs: Vec<(&str, &str)> =
        page.get(a).attrs.iter().map(|(k, v)| (k.as_str(), v.as_str())).collect();
    assert_eq!(attrs, vec![("type", "password"), ("aria-label", "Name")]);
}

#[test]
fn text_children_and_events() {
    let mut page = Page::new();
    let parent = page.el("div");
    let a = page.el("span");
    let b = page.el("span");
    let c = page.el("span");
    page.text(a, "hello");
    page.text(a, "world");
    page.push(parent, a);
    page.extend(parent, &vec![b, c]);
    page.extend(parent, &vec![]);
    page.on(parent, "click");
    page.on(parent, "change");
    assert_eq!(page.get(a).text, "world");
    assert_eq!(page.get(parent).children, vec![a, b, c]);
    assert_eq!(texts(&page.get(parent).events), vec!["click", "change"]);
    assert_eq!(page.get(b).text, "");
}

#[test]
fn entries_are_kept_as_entered() {
    let mut page = Page::new();
    let a = page.el("input");
    let b = page.el("input");
    assert_eq!(page.value(a), "");
    assert!(!page.checked(a));
    page.set_value(a, "typed");
    page.set_checked(b, true);
    assert_eq!(page.value(a), "typed");
    assert_eq!(page.value(b), "");
    assert!(!page.checked(a));
    assert!(page.checked(b));
    page.set_checked(b, false);
    assert!(!page.checked(b));
}

#[test]
fn same_text_compares_texts() {
    assert!(same_text("change", "change"));
    assert!(same_text("", ""));
    assert!(!same_text("change", "click"));
    assert!(!same_text("change", "chang"));
}
