use todo_core::entry::Entry;
use todo_core::render::render;

#[test]
fn empty_list_renders_bare_page() {
    let page = render(&Vec::new());
    assert_eq!(page, b"<html><body><ul></ul></body></html>".to_vec());
}

#[test]
fn one_entry_renders_one_item() {
    let entries = vec![Entry::new(1, b"buy milk".to_vec())];
    let page = render(&entries);
    assert_eq!(
        page,
        b"<html><body><ul><li>1: buy milk</li></ul></body></html>".to_vec()
    );
}

#[test]
fn entries_render_in_order() {
    let entries = vec![
        Entry::new(10, b"a".to_vec()),
        Entry::new(2, b"b".to_vec()),
    ];
    let page = render(&entries);
    assert_eq!(
        page,
        b"<html><body><ul><li>10: a</li><li>2: b</li></ul></body></html>".to_vec()
    );
}

#[test]
fn reserved_characters_are_escaped() {
    let entries = vec![Entry::new(7, b"<script>\"&'".to_vec())];
    let page = render(&entries);
    assert_eq!(
        page,
        b"<html><body><ul><li>7: &lt;script&gt;&quot;&amp;&#x27;</li></ul></body></html>".to_vec()
    );
}
