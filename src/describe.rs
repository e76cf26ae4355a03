//! A nested textual dump of an element tree, for diagnostics.
use vstd::prelude::*;

use crate::element::{children_view, Element, Props};
use crate::model::{ElementView, PropsView};

verus! {

/// What `Debug` prints for a string: the text quoted, with escapes.
pub uninterp spec fn debug_str(s: Seq<char>) -> Seq<char>;

/// Relies on `<str as Debug>::fmt`: the quoted, escaped form of the text,
/// which depends on the text alone.
#[verifier::external_body]
fn debug_quoted(s: &str) -> (r: String)
    ensures
        r@ == debug_str(s@),
{
    format!("{:?}", s)
}

pub open spec fn bool_text(b: bool) -> Seq<char> {
    if b {
        "true"@
    } else {
        "false"@
    }
}

/// The debug form of a payload, as `Debug` on the payload type prints it.
pub open spec fn props_debug(p: PropsView) -> Seq<char> {
    match p {
        PropsView::Text { text } => "TextProps { text: "@ + debug_str(text) + " }"@,
        PropsView::Div { class } => "DivProps { class: "@ + debug_str(class) + " }"@,
        PropsView::P { class } => "PProps { class: "@ + debug_str(class) + " }"@,
        PropsView::Person { name } => "PersonProps { name: "@ + debug_str(name) + " }"@,
        PropsView::Name { show, name } => "NameProps { show: "@ + bool_text(show) + ", name: "@
            + debug_str(name) + " }"@,
        PropsView::If { cond } => "IfProps { cond: "@ + bool_text(cond) + " }"@,
    }
}

/// One line with the tag and payload, then each child's dump indented on
/// its first line and followed by a newline, then an empty line.
pub open spec fn describe_tree(e: ElementView) -> Seq<char>
    decreases e,
{
    "- "@ + e.tag + ",  "@ + props_debug(e.props) + "\n"@ + describe_children(e.children) + "\n"@
}

pub open spec fn describe_children(cs: Seq<ElementView>) -> Seq<char>
    decreases cs,
{
    if cs.len() == 0 {
        seq![]
    } else {
        describe_children(cs.drop_last()) + "  "@ + describe_tree(cs.last()) + "\n"@
    }
}

fn bool_string(b: bool) -> (r: &'static str)
    ensures
        r@ == bool_text(b),
{
    if b {
        "true"
    } else {
        "false"
    }
}

/// The debug form of a payload.
pub fn props_debug_string(p: &Props) -> (r: String)
    ensures
        r@ == props_debug(p@),
{
    let mut out = String::new();
    match p {
        Props::Text(q) => {
            out.append("TextProps { text: ");
            out.append(debug_quoted(q.text.as_str()).as_str());
        },
        Props::Div(q) => {
            out.append("DivProps { class: ");
            out.append(debug_quoted(q.class.as_str()).as_str());
        },
        Props::P(q) => {
            out.append("PProps { class: ");
            out.append(debug_quoted(q.class.as_str()).as_str());
        },
        Props::Person(q) => {
            out.append("PersonProps { name: ");
            out.append(debug_quoted(q.name.as_str()).as_str());
        },
        Props::Name(q) => {
            out.append("NameProps { show: ");
            out.append(bool_string(q.show));
            out.append(", name: ");
            out.append(debug_quoted(q.name.as_str()).as_str());
        },
        Props::If(q) => {
            out.append("IfProps { cond: ");
            out.append(bool_string(q.cond));
        },
    }
    out.append(" }");
    out
}

impl Element {
    /// A nested textual dump of the tree rooted here.
    pub fn describe(&self) -> (r: String)
        ensures
            r@ == describe_tree(self@),
        decreases self@,
    {
        let ghost cs = self@.children;
        let mut out = String::new();
        out.append("- ");
        out.append(self.get_tag().as_str());
        out.append(",  ");
        out.append(props_debug_string(self.get_props()).as_str());
        out.append("\n");
        let ghost head = out@;
        let children = self.get_children();
        let n = children.len();
        let mut i: usize = 0;
        assert(cs.take(0) =~= Seq::<ElementView>::empty());
        while i < n
            invariant
                n == children@.len(),
                children_view(children@) == cs,
                cs == self@.children,
                i <= n,
                out@ == head + describe_children(cs.take(i as int)),
            decreases n - i,
        {
            assert(cs[i as int] == children@[i as int]@);
            assert(decreases_to!(self@ => cs[i as int]));
            let c = children[i].describe();
            out.append("  ");
            out.append(c.as_str());
            out.append("\n");
            assert(cs.take(i + 1).drop_last() =~= cs.take(i as int));
            i = i + 1;
        }
        assert(cs.take(n as int) =~= cs);
        out.append("\n");
        out
    }
}

} // verus!
