//! Elements: payload types, the factory, and the resolver that turns an
//! element tree into markup.
use std::rc::Rc;

use vstd::prelude::*;

use crate::model::{
    is_primitive, join_lines, markup, node, payload_stem, payload_type_name, produce, resolve,
    resolve_children, resolve_each, tag_of, text_node, ElementView, PropsView,
};
use crate::tag::{derive_tag, lemma_tag_of_suffixed_name, lower_seq, props_suffix, push_char};

verus! {

/// The deepest nesting of steps that `render_to_string` follows.
pub const MAX_RENDER_DEPTH: usize = 512;

/// Why an element tree could not be rendered.
#[derive(Debug, Clone, Copy, PartialEq, Eq)]
pub enum RenderError {
    /// Resolution nested deeper than the allowed number of steps, as a
    /// composite that keeps producing elements would.
    DepthExceeded,
}

/// A run of text; renders as the text itself.
#[derive(Debug, Clone)]
pub struct TextProps {
    pub text: String,
}

/// A `div` container.
#[derive(Debug, Clone)]
pub struct DivProps {
    pub class: String,
}

/// A `p` container.
#[derive(Debug, Clone)]
pub struct PProps {
    pub class: String,
}

/// A person; renders as a shown name.
#[derive(Debug, Clone)]
pub struct PersonProps {
    pub name: String,
}

/// A name, shown or hidden.
#[derive(Debug, Clone)]
pub struct NameProps {
    pub show: bool,
    pub name: String,
}

/// Renders its children inside a `div` when the condition holds, else nothing.
#[derive(Debug, Clone)]
pub struct IfProps {
    pub cond: bool,
}

/// The payload of an element: one of the payload types.
#[derive(Debug, Clone)]
pub enum Props {
    Text(TextProps),
    Div(DivProps),
    P(PProps),
    Person(PersonProps),
    Name(NameProps),
    If(IfProps),
}

impl View for Props {
    type V = PropsView;

    open spec fn view(&self) -> PropsView {
        match self {
            Props::Text(p) => PropsView::Text { text: p.text@ },
            Props::Div(p) => PropsView::Div { class: p.class@ },
            Props::P(p) => PropsView::P { class: p.class@ },
            Props::Person(p) => PropsView::Person { name: p.name@ },
            Props::Name(p) => PropsView::Name { show: p.show, name: p.name@ },
            Props::If(p) => PropsView::If { cond: p.cond },
        }
    }
}

/// A payload type that an element can carry.
pub trait Payload: Sized {
    spec fn payload_view(&self) -> PropsView;

    fn into_props(self) -> (r: Props)
        ensures
            r@ == self.payload_view(),
    ;
}

impl Payload for TextProps {
    open spec fn payload_view(&self) -> PropsView {
        PropsView::Text { text: self.text@ }
    }

    fn into_props(self) -> (r: Props) {
        Props::Text(self)
    }
}

impl Payload for DivProps {
    open spec fn payload_view(&self) -> PropsView {
        PropsView::Div { class: self.class@ }
    }

    fn into_props(self) -> (r: Props) {
        Props::Div(self)
    }
}

impl Payload for PProps {
    open spec fn payload_view(&self) -> PropsView {
        PropsView::P { class: self.class@ }
    }

    fn into_props(self) -> (r: Props) {
        Props::P(self)
    }
}

impl Payload for PersonProps {
    open spec fn payload_view(&self) -> PropsView {
        PropsView::Person { name: self.name@ }
    }

    fn into_props(self) -> (r: Props) {
        Props::Person(self)
    }
}

impl Payload for NameProps {
    open spec fn payload_view(&self) -> PropsView {
        PropsView::Name { show: self.show, name: self.name@ }
    }

    fn into_props(self) -> (r: Props) {
        Props::Name(self)
    }
}

impl Payload for IfProps {
    open spec fn payload_view(&self) -> PropsView {
        PropsView::If { cond: self.cond }
    }

    fn into_props(self) -> (r: Props) {
        Props::If(self)
    }
}

impl Payload for Props {
    open spec fn payload_view(&self) -> PropsView {
        self@
    }

    fn into_props(self) -> (r: Props) {
        self
    }
}

impl Props {
    /// The declared name of the payload's type.
    pub fn payload_name(&self) -> (r: &'static str)
        ensures
            r@ == payload_type_name(self@),
    {
        match self {
            Props::Text(_) => {
                proof {
                    reveal_strlit("TextProps");
                }
                assert("TextProps"@ =~= payload_type_name(self@));
                "TextProps"
            },
            Props::Div(_) => {
                proof {
                    reveal_strlit("DivProps");
                }
                assert("DivProps"@ =~= payload_type_name(self@));
                "DivProps"
            },
            Props::P(_) => {
                proof {
                    reveal_strlit("PProps");
                }
                assert("PProps"@ =~= payload_type_name(self@));
                "PProps"
            },
            Props::Person(_) => {
                proof {
                    reveal_strlit("PersonProps");
                }
                assert("PersonProps"@ =~= payload_type_name(self@));
                "PersonProps"
            },
            Props::Name(_) => {
                proof {
                    reveal_strlit("NameProps");
                }
                assert("NameProps"@ =~= payload_type_name(self@));
                "NameProps"
            },
            Props::If(_) => {
                proof {
                    reveal_strlit("IfProps");
                }
                assert("IfProps"@ =~= payload_type_name(self@));
                "IfProps"
            },
        }
    }
}

/// Every payload type gets a non-empty tag: its lower-cased stem.
pub proof fn lemma_payload_tag(p: PropsView)
    ensures
        tag_of(p) == lower_seq(payload_stem(p)),
        tag_of(p).len() > 0,
{
    let stem = payload_stem(p);
    assert forall|j: int| 0 <= j < stem.len() implies stem[j] != '{' by {}
    lemma_tag_of_suffixed_name(stem);
}

/// An immutable node of an element tree.
pub struct Element {
    tag: String,
    props: Props,
    children: Vec<Rc<Element>>,
}

/// The models of a sequence of shared elements.
pub open spec fn children_view(cs: Seq<Rc<Element>>) -> Seq<ElementView> {
    cs.map_values(|c: Rc<Element>| c@)
}

/// The model of an element tree.
pub closed spec fn element_view(e: Element) -> ElementView
    decreases e,
{
    ElementView {
        tag: e.tag@,
        props: e.props@,
        children: Seq::new(
            e.children@.len(),
            |i: int|
                {
                    if 0 <= i < e.children@.len() {
                        element_view(*e.children@[i])
                    } else {
                        arbitrary()
                    }
                },
        ),
    }
}

impl View for Element {
    type V = ElementView;

    open spec fn view(&self) -> ElementView {
        element_view(*self)
    }
}

proof fn lemma_view_fields(e: Element)
    ensures
        e@.tag == e.tag@,
        e@.props == e.props@,
        e@.children == children_view(e.children@),
{
    assert(e@.children =~= children_view(e.children@));
}

/// Relies on `Rc::clone`: the new handle refers to the same element.
#[verifier::external_body]
fn share(e: &Rc<Element>) -> (r: Rc<Element>)
    ensures
        r == *e,
{
    Rc::clone(e)
}

/// Builds an element from a payload and its children; the tag is derived
/// from the payload's type name.
pub fn create_element<P: Payload>(props: P, children: Vec<Rc<Element>>) -> (r: Rc<Element>)
    ensures
        r@ == node(props.payload_view(), children_view(children@)),
{
    let p = props.into_props();
    let name = p.payload_name();
    proof {
        lemma_payload_tag(p@);
    }
    let tag = match derive_tag(name) {
        Ok(t) => t,
        Err(_) => String::new(),
    };
    let e = Element { tag, props: p, children };
    proof {
        lemma_view_fields(e);
    }
    Rc::new(e)
}

/// A text element without children.
fn text_element(text: String) -> (r: Rc<Element>)
    ensures
        r@ == text_node(text@),
{
    let none: Vec<Rc<Element>> = Vec::new();
    assert(children_view(none@) =~= Seq::<ElementView>::empty());
    create_element(TextProps { text }, none)
}

impl Element {
    #[verifier::type_invariant]
    spec fn tag_matches_payload(&self) -> bool {
        self.tag@ == tag_of(self.props@)
    }

    /// The element's tag.
    pub fn get_tag(&self) -> (r: &String)
        ensures
            r@ == self@.tag,
            r@ == tag_of(self@.props),
    {
        proof {
            use_type_invariant(self);
            lemma_view_fields(*self);
        }
        &self.tag
    }

    /// The element's children, in order.
    pub fn get_children(&self) -> (r: &Vec<Rc<Element>>)
        ensures
            children_view(r@) == self@.children,
    {
        proof {
            lemma_view_fields(*self);
        }
        &self.children
    }

    /// The element's payload.
    pub fn get_props(&self) -> (r: &Props)
        ensures
            r@ == self@.props,
    {
        proof {
            lemma_view_fields(*self);
        }
        &self.props
    }

    /// Whether the element is primitive and serializes itself.
    pub fn should_render(&self) -> (r: bool)
        ensures
            r == is_primitive(self@.props),
    {
        proof {
            lemma_view_fields(*self);
        }
        match &self.props {
            Props::Text(_) | Props::Div(_) | Props::P(_) => true,
            _ => false,
        }
    }

    /// The element that a composite element produces in its place.
    pub fn render(&self) -> (r: Option<Rc<Element>>)
        ensures
            match produce(self@) {
                Some(n) => r is Some && r->Some_0@ == n,
                None => r is None,
            },
    {
        proof {
            lemma_view_fields(*self);
        }
        match &self.props {
            Props::Person(p) => {
                let none: Vec<Rc<Element>> = Vec::new();
                assert(children_view(none@) =~= Seq::<ElementView>::empty());
                Some(create_element(NameProps { show: true, name: p.name.clone() }, none))
            },
            Props::Name(p) => {
                if p.show {
                    let first = text_element("SHOWING".to_string());
                    let second = text_element(p.name.clone());
                    let cs = vec![first, second];
                    assert(children_view(cs@) =~= seq![first@, second@]);
                    Some(create_element(DivProps { class: "form-control".to_string() }, cs))
                } else {
                    let only = text_element("NOT_SHOWING".to_string());
                    let cs = vec![only];
                    assert(children_view(cs@) =~= seq![only@]);
                    Some(create_element(PProps { class: String::new() }, cs))
                }
            },
            Props::If(p) => {
                if p.cond {
                    let mut cs: Vec<Rc<Element>> = Vec::new();
                    let mut i: usize = 0;
                    while i < self.children.len()
                        invariant
                            i <= self.children@.len(),
                            cs@ == self.children@.take(i as int),
                        decreases self.children@.len() - i,
                    {
                        cs.push(share(&self.children[i]));
                        i = i + 1;
                        assert(cs@ =~= self.children@.take(i as int));
                    }
                    assert(cs@ =~= self.children@);
                    Some(create_element(DivProps { class: "form-control".to_string() }, cs))
                } else {
                    None
                }
            },
            _ => None,
        }
    }
}

proof fn lemma_each_step(cs: Seq<ElementView>, i: int, depth: nat)
    requires
        0 <= i < cs.len(),
    ensures
        resolve_each(cs.take(i + 1), depth) == match resolve_each(cs.take(i), depth) {
            Some(parts) => match resolve(cs[i], depth) {
                Some(s) => Some(parts.push(s)),
                None => None,
            },
            None => None,
        },
{
    assert(cs.take(i + 1).drop_last() =~= cs.take(i));
    assert(cs.take(i + 1).last() == cs[i]);
}

proof fn lemma_each_none(cs: Seq<ElementView>, k: int, depth: nat)
    requires
        0 <= k <= cs.len(),
        resolve_each(cs.take(k), depth) is None,
    ensures
        resolve_each(cs, depth) is None,
    decreases cs.len() - k,
{
    if k == cs.len() {
        assert(cs.take(k) =~= cs);
    } else {
        lemma_each_step(cs, k, depth);
        lemma_each_none(cs, k + 1, depth);
    }
}

impl Element {
    /// Resolves the element to markup, taking at most `depth` nested steps.
    pub fn render_within(&self, depth: usize) -> (r: Result<String, RenderError>)
        ensures
            match resolve(self@, depth as nat) {
                Some(s) => r is Ok && r->Ok_0@ == s,
                None => r is Err && r->Err_0 == RenderError::DepthExceeded,
            },
        decreases depth, 0nat,
    {
        proof {
            lemma_view_fields(*self);
        }
        if depth == 0 {
            return Err(RenderError::DepthExceeded);
        }
        if let Props::Text(p) = &self.props {
            return Ok(p.text.clone());
        }
        if self.should_render() {
            match self.render_children_within(depth - 1) {
                Ok(body) => {
                    let mut out = String::new();
                    push_char(&mut out, '<');
                    out.append(self.tag.as_str());
                    push_char(&mut out, '>');
                    out.append(body.as_str());
                    push_char(&mut out, '<');
                    push_char(&mut out, '/');
                    out.append(self.tag.as_str());
                    push_char(&mut out, '>');
                    assert(out@ =~= markup(self@.tag, body@));
                    Ok(out)
                },
                Err(e) => Err(e),
            }
        } else {
            match self.render() {
                Some(next) => next.render_within(depth - 1),
                None => Ok(String::new()),
            }
        }
    }

    /// Resolves each child, taking at most `depth` nested steps for each, and
    /// joins the results with newlines.
    pub fn render_children_within(&self, depth: usize) -> (r: Result<String, RenderError>)
        ensures
            match resolve_children(self@, depth as nat) {
                Some(s) => r is Ok && r->Ok_0@ == s,
                None => r is Err && r->Err_0 == RenderError::DepthExceeded,
            },
        decreases depth, 1nat,
    {
        proof {
            lemma_view_fields(*self);
        }
        let ghost cs = self@.children;
        let n = self.children.len();
        let mut out = String::new();
        let mut i: usize = 0;
        proof {
            assert(cs.take(0) =~= Seq::<ElementView>::empty());
        }
        while i < n
            invariant
                n == self.children@.len(),
                cs == children_view(self.children@),
                cs == self@.children,
                i <= n,
                resolve_each(cs.take(i as int), depth as nat) is Some,
                out@ == join_lines(resolve_each(cs.take(i as int), depth as nat)->Some_0),
                resolve_each(cs.take(i as int), depth as nat)->Some_0.len() == i,
            decreases n - i,
        {
            let ghost parts = resolve_each(cs.take(i as int), depth as nat)->Some_0;
            proof {
                lemma_each_step(cs, i as int, depth as nat);
                assert(cs[i as int] == self.children@[i as int]@);
            }
            match self.children[i].render_within(depth) {
                Ok(s) => {
                    if i > 0 {
                        push_char(&mut out, '\n');
                    }
                    out.append(s.as_str());
                    proof {
                        let next = parts.push(s@);
                        assert(next.drop_last() =~= parts);
                        if i == 0 {
                            assert(out@ =~= join_lines(next));
                        } else {
                            assert(out@ =~= join_lines(next));
                        }
                    }
                    i = i + 1;
                },
                Err(e) => {
                    proof {
                        lemma_each_none(cs, i + 1, depth as nat);
                    }
                    return Err(e);
                },
            }
        }
        proof {
            assert(cs.take(n as int) =~= cs);
        }
        Ok(out)
    }

    /// Resolves the element to markup.
    pub fn render_to_string(&self) -> (r: Result<String, RenderError>)
        ensures
            match resolve(self@, MAX_RENDER_DEPTH as nat) {
                Some(s) => r is Ok && r->Ok_0@ == s,
                None => r is Err && r->Err_0 == RenderError::DepthExceeded,
            },
    {
        self.render_within(MAX_RENDER_DEPTH)
    }

    /// Resolves each child and joins the results with newlines.
    pub fn render_children_to_string(&self) -> (r: Result<String, RenderError>)
        ensures
            match resolve_children(self@, MAX_RENDER_DEPTH as nat) {
                Some(s) => r is Ok && r->Ok_0@ == s,
                None => r is Err && r->Err_0 == RenderError::DepthExceeded,
            },
    {
        self.render_children_within(MAX_RENDER_DEPTH)
    }
}

} // verus!
