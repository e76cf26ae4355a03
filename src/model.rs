//! The mathematical model of element trees and of their resolution to markup.
use vstd::prelude::*;

use crate::tag::{props_suffix, tag_from_name};

verus! {

/// The model of a property payload: one variant per payload type.
pub enum PropsView {
    Text { text: Seq<char> },
    Div { class: Seq<char> },
    P { class: Seq<char> },
    Person { name: Seq<char> },
    Name { show: bool, name: Seq<char> },
    If { cond: bool },
}

/// The model of an element: its tag, its payload and its children in order.
pub struct ElementView {
    pub tag: Seq<char>,
    pub props: PropsView,
    pub children: Seq<ElementView>,
}

/// The declared type name of a payload, without its `Props` suffix.
pub open spec fn payload_stem(p: PropsView) -> Seq<char> {
    match p {
        PropsView::Text { .. } => seq!['T', 'e', 'x', 't'],
        PropsView::Div { .. } => seq!['D', 'i', 'v'],
        PropsView::P { .. } => seq!['P'],
        PropsView::Person { .. } => seq!['P', 'e', 'r', 's', 'o', 'n'],
        PropsView::Name { .. } => seq!['N', 'a', 'm', 'e'],
        PropsView::If { .. } => seq!['I', 'f'],
    }
}

/// The declared type name of a payload.
pub open spec fn payload_type_name(p: PropsView) -> Seq<char> {
    payload_stem(p) + props_suffix()
}

/// The tag of every element that carries a payload like `p`.
pub open spec fn tag_of(p: PropsView) -> Seq<char> {
    tag_from_name(payload_type_name(p))
}

/// A fresh element, with its tag derived from its payload.
pub open spec fn node(p: PropsView, children: Seq<ElementView>) -> ElementView {
    ElementView { tag: tag_of(p), props: p, children }
}

pub open spec fn text_node(text: Seq<char>) -> ElementView {
    node(PropsView::Text { text }, seq![])
}

/// Whether an element is primitive: it serializes itself instead of
/// producing another element.
pub open spec fn is_primitive(p: PropsView) -> bool {
    match p {
        PropsView::Text { .. } | PropsView::Div { .. } | PropsView::P { .. } => true,
        _ => false,
    }
}

/// The element that a composite element produces in its place, if any.
pub open spec fn produce(e: ElementView) -> Option<ElementView> {
    match e.props {
        PropsView::Person { name } => Some(node(PropsView::Name { show: true, name }, seq![])),
        PropsView::Name { show, name } => if show {
            Some(
                node(
                    PropsView::Div { class: "form-control"@ },
                    seq![text_node("SHOWING"@), text_node(name)],
                ),
            )
        } else {
            Some(node(PropsView::P { class: seq![] }, seq![text_node("NOT_SHOWING"@)]))
        },
        PropsView::If { cond } => if cond {
            Some(node(PropsView::Div { class: "form-control"@ }, e.children))
        } else {
            None
        },
        _ => None,
    }
}

/// `<tag>body</tag>`.
pub open spec fn markup(tag: Seq<char>, body: Seq<char>) -> Seq<char> {
    seq!['<'] + tag + seq!['>'] + body + seq!['<', '/'] + tag + seq!['>']
}

/// The parts in order, with a newline between each two.
pub open spec fn join_lines(parts: Seq<Seq<char>>) -> Seq<char>
    decreases parts.len(),
{
    if parts.len() == 0 {
        seq![]
    } else if parts.len() == 1 {
        parts[0]
    } else {
        join_lines(parts.drop_last()) + seq!['\n'] + parts.last()
    }
}

/// The text that an element resolves to when at most `depth` nested steps
/// (descents into a child or composite productions) may be taken; `None`
/// when resolution needs more.
pub open spec fn resolve(e: ElementView, depth: nat) -> Option<Seq<char>>
    decreases depth, 0nat,
{
    if depth == 0 {
        None
    } else {
        match e.props {
            PropsView::Text { text } => Some(text),
            _ => if is_primitive(e.props) {
                match resolve_each(e.children, (depth - 1) as nat) {
                    Some(parts) => Some(markup(e.tag, join_lines(parts))),
                    None => None,
                }
            } else {
                match produce(e) {
                    Some(next) => resolve((next), (depth - 1) as nat),
                    None => Some(seq![]),
                }
            },
        }
    }
}

/// The resolution of each element of `cs`, in order; `None` when one of them
/// needs more than `depth` steps.
pub open spec fn resolve_each(cs: Seq<ElementView>, depth: nat) -> Option<Seq<Seq<char>>>
    decreases depth, cs.len() + 1,
{
    if cs.len() == 0 {
        Some(seq![])
    } else {
        match resolve_each(cs.drop_last(), depth) {
            Some(parts) => match resolve(cs.last(), depth) {
                Some(s) => Some(parts.push(s)),
                None => None,
            },
            None => None,
        }
    }
}

/// The joined resolution of the children of `e`.
pub open spec fn resolve_children(e: ElementView, depth: nat) -> Option<Seq<char>> {
    match resolve_each(e.children, depth) {
        Some(parts) => Some(join_lines(parts)),
        None => None,
    }
}

} // verus!
