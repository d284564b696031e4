//! The document tree that the converter reads, and its encoding as a stream
//! of enter/leave events in document order.
use vstd::prelude::*;
use std::collections::VecDeque;

verus! {

/// How the items of a list are marked.
pub enum ListKind {
    Bullet,
    Ordered,
}

/// What a node of the document is, with the values the converter reads.
pub enum NodeKind {
    Document,
    FrontMatter,
    BlockQuote,
    List(ListKind),
    Item,
    CodeBlock { info: String, literal: String },
    HtmlBlock(String),
    Paragraph,
    Heading(u8),
    ThematicBreak,
    FootnoteDefinition(String),
    /// A table with this many column alignments.
    Table(usize),
    TableRow,
    TableCell,
    Text(String),
    /// A task list item; the symbol between the brackets, if it is checked.
    TaskItem(Option<char>),
    SoftBreak,
    LineBreak,
    Code(String),
    HtmlInline(String),
    Emph,
    Strong,
    Strikethrough,
    Link(String),
    Image(String),
    FootnoteReference(String),
    Math { display: bool, literal: String },
    /// Any other kind of node; it produces no output.
    Other,
}

/// A node and its children, in document order.
pub struct Node {
    pub kind: NodeKind,
    pub children: Vec<Node>,
}

/// One step of a walk through the tree.
pub enum Event {
    Enter(NodeKind),
    Leave,
}

/// A child of a node is smaller than the node, as recursion over the tree
/// needs.
pub(crate) proof fn lemma_child_decreases(n: Node, k: int)
    requires
        0 <= k < n.children@.len(),
    ensures
        decreases_to!(n => n.children@[k]),
{
    assert(decreases_to!(n => n.children));
    assert(decreases_to!(n.children => n.children@));
    assert(decreases_to!(n.children@ => n.children@[k]));
}

/// The walk through a node: entering it, its children's walks, leaving it.
pub open spec fn tree_events(n: Node) -> Seq<Event>
    decreases n,
{
    seq![Event::Enter(n.kind)] + forest_events(n.children@) + seq![Event::Leave]
}

/// The walks through a sequence of sibling nodes, one after the other.
pub open spec fn forest_events(ns: Seq<Node>) -> Seq<Event>
    decreases ns,
{
    if ns.len() == 0 {
        seq![]
    } else {
        tree_events(ns[0]) + forest_events(ns.drop_first())
    }
}


proof fn lemma_forest_events_push(xs: Seq<Node>, y: Node)
    ensures
        forest_events(xs.push(y)) == forest_events(xs) + tree_events(y),
    decreases xs.len(),
{
    if xs.len() == 0 {
        assert(xs.push(y).drop_first() == Seq::<Node>::empty());
        assert(forest_events(Seq::<Node>::empty()) == Seq::<Event>::empty());
        assert(forest_events(xs.push(y)) == tree_events(y) + Seq::<Event>::empty());
    } else {
        lemma_forest_events_push(xs.drop_first(), y);
        assert(xs.push(y).drop_first() == xs.drop_first().push(y));
        assert(xs.push(y)[0] == xs[0]);
    }
}

/// Whether an event enters a node.
fn is_enter(e: &Event) -> (b: bool)
    ensures
        b == (*e is Enter),
{
    match e {
        Event::Enter(_) => true,
        Event::Leave => false,
    }
}

/// Takes the walk through one node off the front of the queue and builds the
/// node.
fn build_node(evs: &mut VecDeque<Event>, Ghost(t): Ghost<Node>, Ghost(rest): Ghost<Seq<Event>>) -> (n:
    Node)
    requires
        old(evs)@ == tree_events(t) + rest,
    ensures
        tree_events(n) == tree_events(t),
        final(evs)@ == rest,
    decreases t,
{
    let ghost kids = t.children@;
    assert(old(evs)@[0] == Event::Enter(t.kind));
    let first = evs.pop_front();
    let kind = match first {
        Some(Event::Enter(k)) => k,
        _ => {
            proof {
                assert(false);
            }
            NodeKind::Other
        },
    };
    assert(evs@ == forest_events(kids) + seq![Event::Leave] + rest) by {
        assert(tree_events(t) + rest == seq![Event::Enter(t.kind)] + (forest_events(kids)
            + seq![Event::Leave] + rest));
    }
    let mut children: Vec<Node> = Vec::new();
    let ghost mut k: int = 0;
    assert(kids.skip(0) == kids);
    while evs.len() > 0 && is_enter(&evs[0])
        invariant
            kids == t.children@,
            0 <= k <= kids.len(),
            evs@ == forest_events(kids.skip(k)) + seq![Event::Leave] + rest,
            forest_events(children@) == forest_events(kids.take(k)),
        decreases kids.len() - k,
    {
        assert(k < kids.len()) by {
            if k == kids.len() {
                assert(kids.skip(k).len() == 0);
                assert(evs@[0] == Event::Leave);
            }
        }
        let ghost child_t = kids[k];
        let ghost after = forest_events(kids.skip(k + 1)) + seq![Event::Leave] + rest;
        assert(kids.skip(k)[0] == child_t);
        assert(kids.skip(k).drop_first() == kids.skip(k + 1));
        assert(evs@ == tree_events(child_t) + after);
        proof {
            lemma_child_decreases(t, k);
        }
        let child = build_node(evs, Ghost(child_t), Ghost(after));
        let ghost before = children@;
        children.push(child);
        proof {
            lemma_forest_events_push(before, child);
            lemma_forest_events_push(kids.take(k), child_t);
            assert(kids.take(k + 1) == kids.take(k).push(child_t));
            k = k + 1;
        }
    }
    assert(k == kids.len()) by {
        if k < kids.len() {
            let c = kids[k];
            assert(kids.skip(k)[0] == c);
            let fe = forest_events(kids.skip(k));
            assert(fe == tree_events(c) + forest_events(kids.skip(k).drop_first()));
            let te = tree_events(c);
            assert(te[0] == Event::Enter(c.kind));
            assert(fe[0] == Event::Enter(c.kind));
            assert(evs@[0] == Event::Enter(c.kind));
        }
    }
    assert(kids.skip(k) == Seq::<Node>::empty());
    assert(kids.take(k) == kids);
    assert(evs@ == seq![Event::Leave] + rest);
    let last = evs.pop_front();
    proof {
        assert(evs@ == rest);
    }
    Node { kind, children }
}

/// The tree whose walk is the given event sequence.
pub fn tree_from_events(evs: VecDeque<Event>) -> (n: Node)
    requires
        exists|t: Node| evs@ == tree_events(t),
    ensures
        tree_events(n) == evs@,
{
    let ghost t = choose|t: Node| evs@ == tree_events(t);
    let mut q = evs;
    assert(q@ == tree_events(t) + Seq::<Event>::empty());
    build_node(&mut q, Ghost(t), Ghost(Seq::<Event>::empty()))
}

} // verus!
