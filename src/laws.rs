//! Laws of resolution, stated over the model of element trees.
use vstd::prelude::*;

use crate::model::{is_primitive, join_lines, produce, resolve, resolve_children, resolve_each, ElementView, PropsView};

verus! {

/// A primitive container without children renders to `<tag></tag>`.
pub proof fn lemma_primitive_without_children(e: ElementView, depth: nat)
    requires
        is_primitive(e.props),
        !(e.props is Text),
        e.children.len() == 0,
        depth >= 1,
    ensures
        resolve(e, depth) == Some(seq!['<'] + e.tag + seq!['>', '<', '/'] + e.tag + seq!['>']),
{
    assert(resolve_each(e.children, (depth - 1) as nat) == Some(Seq::<Seq<char>>::empty()));
    assert(seq!['<'] + e.tag + seq!['>'] + Seq::<char>::empty() + seq!['<', '/'] + e.tag
        + seq!['>'] =~= seq!['<'] + e.tag + seq!['>', '<', '/'] + e.tag + seq!['>']);
}

/// The children `[a, b]` render to the rendering of `a`, a newline, and the
/// rendering of `b`.
pub proof fn lemma_two_children_join(e: ElementView, a: ElementView, b: ElementView, depth: nat)
    requires
        e.children == seq![a, b],
    ensures
        resolve_children(e, depth) == match (resolve(a, depth), resolve(b, depth)) {
            (Some(x), Some(y)) => Some(x + seq!['\n'] + y),
            _ => None,
        },
{
    let cs = e.children;
    assert(cs.drop_last() =~= seq![a]);
    assert(cs.drop_last().drop_last() =~= Seq::<ElementView>::empty());
    let first = resolve_each(seq![a], depth);
    if let Some(x) = resolve(a, depth) {
        assert(seq![a].drop_last() =~= Seq::<ElementView>::empty());
        assert(seq![a].last() == a);
        assert(resolve_each(Seq::<ElementView>::empty(), depth) == Some(Seq::<Seq<char>>::empty()));
        assert(Seq::<Seq<char>>::empty().push(x) =~= seq![x]);
        assert(first == Some(seq![x]));
        if let Some(y) = resolve(b, depth) {
            let parts = seq![x].push(y);
            assert(parts.drop_last() =~= seq![x]);
            assert(seq![x][0] == x);
            assert(join_lines(seq![x]) == x);
            assert(parts.last() == y);
            assert(join_lines(parts) == x + seq!['\n'] + y);
        }
    }
}

/// A composite whose production is nothing renders to the empty text.
pub proof fn lemma_no_production_is_empty(e: ElementView, depth: nat)
    requires
        !is_primitive(e.props),
        produce(e) is None,
        depth >= 1,
    ensures
        resolve(e, depth) == Some(Seq::<char>::empty()),
{
}

/// Once resolution succeeds within some depth, a larger depth gives the same text.
pub proof fn lemma_resolve_depth_monotone(e: ElementView, d1: nat, d2: nat)
    requires
        d1 <= d2,
        resolve(e, d1) is Some,
    ensures
        resolve(e, d2) == resolve(e, d1),
    decreases d1, 0nat,
{
    if d1 > 0 {
        match e.props {
            PropsView::Text { .. } => {},
            _ => {
                if is_primitive(e.props) {
                    lemma_each_depth_monotone(e.children, (d1 - 1) as nat, (d2 - 1) as nat);
                } else if let Some(next) = produce(e) {
                    lemma_resolve_depth_monotone(next, (d1 - 1) as nat, (d2 - 1) as nat);
                }
            },
        }
    }
}

/// Once every element of `cs` resolves within some depth, a larger depth
/// gives the same texts.
pub proof fn lemma_each_depth_monotone(cs: Seq<ElementView>, d1: nat, d2: nat)
    requires
        d1 <= d2,
        resolve_each(cs, d1) is Some,
    ensures
        resolve_each(cs, d2) == resolve_each(cs, d1),
    decreases d1, cs.len() + 1,
{
    if cs.len() > 0 {
        lemma_each_depth_monotone(cs.drop_last(), d1, d2);
        lemma_resolve_depth_monotone(cs.last(), d1, d2);
    }
}

/// A chain of composite productions `chain[0] -> chain[1] -> ...` ending in
/// a primitive resolves to exactly what the primitive resolves to: whatever
/// the length of the chain, given depth for the chain's own steps.
pub proof fn lemma_chain_resolves_to_primitive(
    chain: Seq<ElementView>,
    out: Seq<char>,
    k: nat,
    depth: nat,
)
    requires
        chain.len() >= 1,
        forall|i: int|
            0 <= i < chain.len() - 1 ==> !is_primitive(#[trigger] chain[i].props) && produce(
                chain[i],
            ) == Some(chain[i + 1]),
        is_primitive(chain.last().props),
        resolve(chain.last(), k) == Some(out),
        depth >= k + chain.len() - 1,
    ensures
        resolve(chain[0], depth) == Some(out),
    decreases chain.len(),
{
    if chain.len() == 1 {
        lemma_resolve_depth_monotone(chain[0], k, depth);
    } else {
        let rest = chain.drop_first();
        assert forall|i: int| 0 <= i < rest.len() - 1 implies !is_primitive(
            #[trigger] rest[i].props,
        ) && produce(rest[i]) == Some(rest[i + 1]) by {
            assert(rest[i] == chain[i + 1]);
            assert(rest[i + 1] == chain[i + 2]);
        }
        assert(rest.last() == chain.last());
        lemma_chain_resolves_to_primitive(rest, out, k, (depth - 1) as nat);
        assert(!is_primitive(chain[0].props));
        assert(produce(chain[0]) == Some(chain[1]));
        assert(!(chain[0].props is Text));
    }
}

} // verus!
