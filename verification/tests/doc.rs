use agenda::doc::{plain_text, DocNode};

fn text(s: &str) -> DocNode {
    DocNode { text: Some(s.to_string()), kind: Some("text".to_string()), content: None }
}

fn node(kind: &str, content: Vec<DocNode>) -> DocNode {
    DocNode { text: None, kind: Some(kind.to_string()), content: Some(content) }
}

#[test]
fn rich_notes_become_plain_text() {
    let doc = node("doc", vec![node("paragraph", vec![text("Rich notes")])]);
    assert_eq!(plain_text(&doc).as_deref(), Some("Rich notes"));
}

#[test]
fn blocks_end_lines() {
    let doc = node(
        "doc",
        vec![
            node("heading", vec![text("План")]),
            node("paragraph", vec![text("Купить "), text("хлеб")]),
            node("bulletList", vec![node("listItem", vec![node("paragraph", vec![text("молоко")])])]),
            node("blockquote", vec![text("цитата")]),
        ],
    );
    assert_eq!(plain_text(&doc).as_deref(), Some("План\nКупить хлеб\nмолоко\n\nцитата"));
}

#[test]
fn empty_documents_have_no_text() {
    assert_eq!(plain_text(&node("doc", vec![node("paragraph", vec![])])), None);
    assert_eq!(plain_text(&DocNode { text: None, kind: None, content: None }), None);
    assert_eq!(plain_text(&node("doc", vec![text("   ")])), None);
}

#[test]
fn a_block_without_children_ends_no_line() {
    let doc = node("doc", vec![DocNode { text: Some("a".to_string()), kind: Some("paragraph".to_string()), content: None }, text("b")]);
    assert_eq!(plain_text(&doc).as_deref(), Some("ab"));
}
