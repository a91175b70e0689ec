//! Building the instruction tree from the token sequence.

use vstd::prelude::*;
use crate::lexer::Token;

verus! {

/// One node of the instruction tree.
///
/// A `Loop` owns its body exclusively; the tree is strictly nested, so
/// evaluation is left-to-right and depth-first.
#[derive(Debug)]
pub enum Node {
    IncPtr,
    DecPtr,
    IncCell,
    DecCell,
    Output,
    Input,
    Loop(Vec<Node>),
}

/// The mathematical shape of an instruction tree: the same seven variants,
/// with a loop body as a sequence.
pub ghost enum NodeV {
    IncPtr,
    DecPtr,
    IncCell,
    DecCell,
    Output,
    Input,
    Loop(Seq<NodeV>),
}

/// The abstract tree that one concrete node stands for.
pub open spec fn view_node(n: Node) -> NodeV
    decreases n,
{
    match n {
        Node::IncPtr => NodeV::IncPtr,
        Node::DecPtr => NodeV::DecPtr,
        Node::IncCell => NodeV::IncCell,
        Node::DecCell => NodeV::DecCell,
        Node::Output => NodeV::Output,
        Node::Input => NodeV::Input,
        Node::Loop(body) => NodeV::Loop(view_nodes(body@)),
    }
}

/// The abstract trees of a sequence of concrete nodes.
pub open spec fn view_nodes(ns: Seq<Node>) -> Seq<NodeV>
    decreases ns,
{
    if ns.len() == 0 {
        Seq::empty()
    } else {
        seq![view_node(ns[0])] + view_nodes(ns.subrange(1, ns.len() as int))
    }
}

/// `p` pushed up to at least `lo` and cut down to at most `hi`.
pub open spec fn clamp_pos(p: nat, lo: nat, hi: nat) -> nat {
    let a = if p < lo {
        lo
    } else {
        p
    };
    if a > hi {
        hi
    } else {
        a
    }
}

/// Prepends one leaf node to a parse result.
pub open spec fn cons_leaf(v: NodeV, r: (Seq<NodeV>, nat)) -> (Seq<NodeV>, nat) {
    (seq![v] + r.0, r.1)
}

/// The parse of the tokens from position `pos` on: the nodes up to the
/// matching loop-end (or the end of the tokens), and the position just
/// past what was consumed.
///
/// A loop-start token opens a nested body; the matching loop-end closes
/// it; a loop-end with no open loop ends the sequence; a loop left open at
/// the end of the tokens is closed there silently. The clamp on the resume
/// position changes nothing (`lemma_spec_parse_pos`); it only bounds the
/// recursion.
pub open spec fn spec_parse_inner(toks: Seq<Token>, pos: nat) -> (Seq<NodeV>, nat)
    decreases toks.len() - pos,
{
    if pos >= toks.len() {
        (Seq::empty(), pos)
    } else {
        match toks[pos as int] {
            Token::LoopEnd => (Seq::empty(), (pos + 1) as nat),
            Token::LoopStart => {
                let r1 = spec_parse_inner(toks, (pos + 1) as nat);
                let p2 = clamp_pos(r1.1, (pos + 2) as nat, toks.len());
                let r2 = spec_parse_inner(toks, p2);
                (seq![NodeV::Loop(r1.0)] + r2.0, r2.1)
            },
            Token::IncPtr => cons_leaf(NodeV::IncPtr, spec_parse_inner(toks, (pos + 1) as nat)),
            Token::DecPtr => cons_leaf(NodeV::DecPtr, spec_parse_inner(toks, (pos + 1) as nat)),
            Token::IncCell => cons_leaf(NodeV::IncCell, spec_parse_inner(toks, (pos + 1) as nat)),
            Token::DecCell => cons_leaf(NodeV::DecCell, spec_parse_inner(toks, (pos + 1) as nat)),
            Token::Output => cons_leaf(NodeV::Output, spec_parse_inner(toks, (pos + 1) as nat)),
            Token::Input => cons_leaf(NodeV::Input, spec_parse_inner(toks, (pos + 1) as nat)),
        }
    }
}

/// The parse of a suffix always ends past the first token it consumed and
/// never past the end of the tokens, so the clamp inside
/// `spec_parse_inner` is the identity.
pub proof fn lemma_spec_parse_pos(toks: Seq<Token>, pos: nat)
    requires
        pos <= toks.len(),
    ensures
        pos < toks.len() ==> pos + 1 <= spec_parse_inner(toks, pos).1 <= toks.len(),
        pos == toks.len() ==> spec_parse_inner(toks, pos).1 == pos,
    decreases toks.len() - pos,
{
    if pos < toks.len() {
        match toks[pos as int] {
            Token::LoopStart => {
                lemma_spec_parse_pos(toks, (pos + 1) as nat);
                let r1 = spec_parse_inner(toks, (pos + 1) as nat);
                let p2 = clamp_pos(r1.1, (pos + 2) as nat, toks.len());
                lemma_spec_parse_pos(toks, p2);
            },
            Token::LoopEnd => {},
            _ => {
                lemma_spec_parse_pos(toks, (pos + 1) as nat);
            },
        }
    }
}

/// Appending one node appends its abstract tree.
pub proof fn lemma_view_nodes_push(ns: Seq<Node>, n: Node)
    ensures
        view_nodes(ns.push(n)) == view_nodes(ns) + seq![view_node(n)],
    decreases ns.len(),
{
    let p = ns.push(n);
    if ns.len() == 0 {
        assert(p[0] == n);
        assert(p.subrange(1, p.len() as int) =~= Seq::<Node>::empty());
        assert(view_nodes(p) == seq![view_node(p[0])] + view_nodes(p.subrange(1, p.len() as int)));
        assert(view_nodes(p.subrange(1, p.len() as int)) == Seq::<NodeV>::empty());
        assert(view_nodes(p) =~= view_nodes(ns) + seq![view_node(n)]);
    } else {
        assert(p[0] == ns[0]);
        assert(p.subrange(1, p.len() as int) =~= ns.subrange(1, ns.len() as int).push(n));
        lemma_view_nodes_push(ns.subrange(1, ns.len() as int), n);
        assert(view_nodes(p) =~= view_nodes(ns) + seq![view_node(n)]);
    }
}

/// Parses the nodes from `*pos` up to the matching loop-end token or the
/// end of the tokens, leaving `*pos` just past what was consumed.
fn parse_inner(tokens: &Vec<Token>, pos: &mut usize) -> (nodes: Vec<Node>)
    requires
        *old(pos) <= tokens@.len(),
    ensures
        view_nodes(nodes@) == spec_parse_inner(tokens@, *old(pos) as nat).0,
        *final(pos) == spec_parse_inner(tokens@, *old(pos) as nat).1,
    decreases tokens@.len() - *old(pos),
{
    let ghost pos0 = *pos as nat;
    let mut nodes: Vec<Node> = Vec::new();
    proof {
        assert(view_nodes(nodes@) =~= Seq::<NodeV>::empty());
        assert(view_nodes(nodes@) + spec_parse_inner(tokens@, pos0).0 =~= spec_parse_inner(
            tokens@,
            pos0,
        ).0);
    }
    while *pos < tokens.len()
        invariant
            pos0 == *old(pos) as nat,
            pos0 <= *pos <= tokens@.len(),
            spec_parse_inner(tokens@, pos0).0 == view_nodes(nodes@) + spec_parse_inner(
                tokens@,
                *pos as nat,
            ).0,
            spec_parse_inner(tokens@, pos0).1 == spec_parse_inner(tokens@, *pos as nat).1,
        decreases tokens@.len() - *pos,
    {
        let ghost pcur = *pos as nat;
        let t = tokens[*pos];
        *pos = *pos + 1;
        let nd: Node;
        match t {
            Token::LoopEnd => {
                proof {
                    assert(view_nodes(nodes@) + Seq::<NodeV>::empty() =~= view_nodes(nodes@));
                }
                return nodes;
            },
            Token::LoopStart => {
                let body = parse_inner(tokens, pos);
                proof {
                    lemma_spec_parse_pos(tokens@, (pcur + 1) as nat);
                    assert(clamp_pos(
                        spec_parse_inner(tokens@, (pcur + 1) as nat).1,
                        (pcur + 2) as nat,
                        tokens@.len(),
                    ) == spec_parse_inner(tokens@, (pcur + 1) as nat).1);
                }
                nd = Node::Loop(body);
            },
            Token::IncPtr => {
                nd = Node::IncPtr;
            },
            Token::DecPtr => {
                nd = Node::DecPtr;
            },
            Token::IncCell => {
                nd = Node::IncCell;
            },
            Token::DecCell => {
                nd = Node::DecCell;
            },
            Token::Output => {
                nd = Node::Output;
            },
            Token::Input => {
                nd = Node::Input;
            },
        }
        let ghost before = nodes@;
        nodes.push(nd);
        proof {
            let nd0 = nodes@[nodes@.len() - 1];
            assert(nodes@ == before.push(nd0));
            lemma_view_nodes_push(before, nd0);
            let rest = spec_parse_inner(tokens@, *pos as nat).0;
            assert((view_nodes(before) + seq![view_node(nd0)]) + rest =~= view_nodes(before) + (
            seq![view_node(nd0)] + rest));
        }
    }
    proof {
        assert(view_nodes(nodes@) + Seq::<NodeV>::empty() =~= view_nodes(nodes@));
    }
    nodes
}

/// Turns the token sequence into the instruction tree. The parser closes
/// every loop-start with its matching loop-end; a loop-start left
/// unmatched at the end of the tokens is closed there silently, and a
/// loop-end with no open loop ends the tree.
pub fn parse(tokens: &Vec<Token>) -> (nodes: Vec<Node>)
    ensures
        view_nodes(nodes@) == spec_parse_inner(tokens@, 0).0,
{
    let mut pos: usize = 0;
    parse_inner(tokens, &mut pos)
}

} // verus!
