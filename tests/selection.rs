use pdf_ocr::selection::SelectionList;

fn s(x: &str) -> String {
    x.to_string()
}

#[test]
fn new_list_is_absent() {
    let l = SelectionList::new();
    assert!(l.is_absent());
    assert_eq!(l.len(), 0);
    assert!(l.paths().is_empty());
}

#[test]
fn add_keeps_insertion_order_and_duplicates() {
    let mut l = SelectionList::new();
    l.add(s("a"));
    l.add(s("b"));
    l.add(s("a"));
    assert!(!l.is_absent());
    assert_eq!(l.paths(), vec![s("a"), s("b"), s("a")]);
}

#[test]
fn remove_drops_every_duplicate() {
    let mut l = SelectionList::new();
    l.add(s("a"));
    l.add(s("b"));
    l.add(s("a"));
    l.remove(&s("a"));
    assert_eq!(l.paths(), vec![s("b")]);
}

#[test]
fn remove_without_match_changes_nothing() {
    let mut l = SelectionList::new();
    l.add(s("x.pdf"));
    l.add(s("y.pdf"));
    l.remove(&s("z.pdf"));
    assert_eq!(l.paths(), vec![s("x.pdf"), s("y.pdf")]);

    let mut absent = SelectionList::new();
    absent.remove(&s("z.pdf"));
    assert!(absent.is_absent());
}

#[test]
fn removing_last_entry_leaves_list_present() {
    let mut l = SelectionList::new();
    l.add(s("only.pdf"));
    l.remove(&s("only.pdf"));
    assert!(!l.is_absent());
    assert_eq!(l.len(), 0);
}

#[test]
fn clear_returns_to_absent() {
    let mut l = SelectionList::new();
    l.clear();
    assert!(l.is_absent());
    l.add(s("a"));
    l.add(s("b"));
    l.clear();
    assert!(l.is_absent());
    assert_eq!(l.len(), 0);
}

#[test]
fn mixed_operations_keep_surviving_adds_in_order() {
    let mut l = SelectionList::new();
    l.add(s("old"));
    l.clear();
    l.add(s("a"));
    l.add(s("b"));
    l.add(s("c"));
    l.remove(&s("b"));
    l.add(s("b"));
    l.add(s("d"));
    l.remove(&s("a"));
    assert_eq!(l.paths(), vec![s("c"), s("b"), s("d")]);
}
