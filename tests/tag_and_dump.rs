use element_tree::describe::props_debug_string;
use element_tree::element::{create_element, DivProps, IfProps, NameProps, Props, TextProps};
use element_tree::tag::{derive_tag, TagError};

#[test]
fn suffixed_name_loses_suffix() {
    assert_eq!(derive_tag("FooProps"), Ok("foo".to_string()));
}

#[test]
fn plain_name_is_lowercased() {
    assert_eq!(derive_tag("Bar"), Ok("bar".to_string()));
}

#[test]
fn field_list_is_cut_off() {
    assert_eq!(derive_tag("TextProps { text: \"hi\" }"), Ok("text".to_string()));
    assert_eq!(derive_tag("Bar { x: 1 }"), Ok("bar".to_string()));
    assert_eq!(derive_tag("MyWidgetProps{a: 1}"), Ok("mywidget".to_string()));
}

#[test]
fn degenerate_names_are_refused() {
    assert_eq!(derive_tag("Props"), Err(TagError::EmptyTag));
    assert_eq!(derive_tag(""), Err(TagError::EmptyTag));
    assert_eq!(derive_tag("Props { a: 1 }"), Err(TagError::EmptyTag));
    assert_eq!(derive_tag("{ a: 1 }"), Err(TagError::EmptyTag));
}

#[test]
fn only_a_trailing_suffix_is_removed() {
    assert_eq!(derive_tag("PropsHolder"), Ok("propsholder".to_string()));
    assert_eq!(derive_tag("PropsProps"), Ok("props".to_string()));
}

#[test]
fn payload_debug_forms() {
    let p = Props::Name(NameProps { show: true, name: "Fran".to_string() });
    assert_eq!(props_debug_string(&p), "NameProps { show: true, name: \"Fran\" }");
    let q = Props::If(IfProps { cond: false });
    assert_eq!(props_debug_string(&q), "IfProps { cond: false }");
    let t = Props::Text(TextProps { text: "a\"b".to_string() });
    assert_eq!(props_debug_string(&t), "TextProps { text: \"a\\\"b\" }");
    assert_eq!(props_debug_string(&t), format!("{:?}", TextProps { text: "a\"b".to_string() }));
}

#[test]
fn dump_of_leaf() {
    let t = create_element(TextProps { text: "x".to_string() }, vec![]);
    assert_eq!(t.describe(), "- text,  TextProps { text: \"x\" }\n\n");
}

#[test]
fn dump_of_nested_tree() {
    let d = create_element(
        DivProps { class: "c".to_string() },
        vec![create_element(TextProps { text: "x".to_string() }, vec![])],
    );
    assert_eq!(
        d.describe(),
        "- div,  DivProps { class: \"c\" }\n  - text,  TextProps { text: \"x\" }\n\n\n\n"
    );
}
