//! Rich-text documents of task notes, as the Engine stores them, and their
//! plain text.
use vstd::prelude::*;
use crate::text::{push_char, push_str, str_equal, trim, trim_ws};

verus! {

/// A node of a rich-text document: its own text, its kind (paragraph,
/// heading, ...) and its children, where it has them.
#[derive(Debug)]
pub struct DocNode {
    pub text: Option<String>,
    pub kind: Option<String>,
    pub content: Option<Vec<DocNode>>,
}

/// Kinds of nodes that end a line.
pub open spec fn block_kind(k: Option<String>) -> bool {
    match k {
        Some(s) => s@ == "paragraph"@ || s@ == "heading"@ || s@ == "blockquote"@ || s@ == "listItem"@,
        None => false,
    }
}

/// The text of a node: its own, then its children's, then a line break
/// when it is a block with children.
pub open spec fn node_text(n: DocNode) -> Seq<char>
    decreases n,
{
    let own = match n.text {
        Some(s) => s@,
        None => seq![],
    };
    match n.content {
        Some(cs) => own + nodes_text(cs@) + if block_kind(n.kind) {
            seq!['\n']
        } else {
            seq![]
        },
        None => own,
    }
}

pub open spec fn nodes_text(cs: Seq<DocNode>) -> Seq<char>
    decreases cs,
{
    if cs.len() == 0 {
        seq![]
    } else {
        nodes_text(cs.drop_last()) + node_text(cs.last())
    }
}

fn is_block(k: &Option<String>) -> (r: bool)
    ensures
        r == block_kind(*k),
{
    match k {
        Some(s) => str_equal(s.as_str(), "paragraph") || str_equal(s.as_str(), "heading")
            || str_equal(s.as_str(), "blockquote") || str_equal(s.as_str(), "listItem"),
        None => false,
    }
}

fn visit(n: &DocNode, out: &mut String)
    ensures
        final(out)@ == old(out)@ + node_text(*n),
    decreases n,
{
    match &n.text {
        Some(s) => push_str(out, s.as_str()),
        None => {},
    }
    let ghost start = *out;
    match &n.content {
        Some(cs) => {
            let mut i: usize = 0;
            proof {
                assert(cs@.take(0) =~= Seq::<DocNode>::empty());
            }
            while i < cs.len()
                invariant
                    n.content == Some(*cs),
                    i <= cs@.len(),
                    out@ == start@ + nodes_text(cs@.take(i as int)),
                decreases cs@.len() - i,
            {
                proof {
                    assert(cs@.take(i + 1).drop_last() =~= cs@.take(i as int));
                    assert(cs@.take(i + 1).last() == cs@[i as int]);
                    assert(decreases_to!(*n => n.content));
                    assert(decreases_to!(n.content => n.content->Some_0));
                    assert(n.content->Some_0 == *cs);
                    assert(decreases_to!(*cs => cs@));
                    assert(decreases_to!(cs@ => cs@[i as int]));
                    assert(decreases_to!(*n => cs@[i as int]));
                }
                visit(&cs[i], out);
                proof {
                    assert(out@ =~= start@ + nodes_text(cs@.take(i + 1)));
                }
                i = i + 1;
            }
            proof {
                assert(cs@.take(cs@.len() as int) =~= cs@);
            }
            if is_block(&n.kind) {
                push_char(out, '\n');
            }
        },
        None => {},
    }
}

/// The plain text of a document, trimmed; `None` when only whitespace is
/// left.
pub open spec fn plain_text_of(n: DocNode) -> Option<Seq<char>> {
    if trim_ws(node_text(n)).len() == 0 {
        None
    } else {
        Some(trim_ws(node_text(n)))
    }
}

/// The plain text of a rich-text document.
pub fn plain_text(n: &DocNode) -> (r: Option<String>)
    ensures
        crate::model::opt_view(r) == plain_text_of(*n),
{
    let mut text = String::new();
    visit(n, &mut text);
    proof {
        assert(text@ =~= node_text(*n));
    }
    let t = trim(text.as_str());
    if t.as_str().is_empty() {
        None
    } else {
        Some(t)
    }
}

} // verus!
