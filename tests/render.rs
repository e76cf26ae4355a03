use element_tree::element::{
    create_element, DivProps, IfProps, NameProps, PProps, PersonProps, RenderError, TextProps,
    MAX_RENDER_DEPTH,
};

#[test]
fn it_works() {
    println!("+++++++++++++");
    let d1 = create_element(
        DivProps { class: "form-control".to_string() },
        vec![
            create_element(TextProps { text: "Im a content".to_string() }, vec![]),
            create_element(PProps { class: "paragraph".to_string() }, vec![]),
        ],
    );
    println!("{}", d1.describe());
    println!("render\n{}", d1.render_to_string().unwrap());
    println!("=============\n");

    println!("+++++++++++++");
    let c = create_element(NameProps { show: true, name: "Fran".to_string() }, vec![]);
    println!("{}", c.describe());
    println!("render\n{}", c.render_to_string().unwrap());
    println!("=============\n");

    println!("+++++++++++++");
    let c = create_element(PersonProps { name: "Fran".to_string() }, vec![]);
    println!("{}", c.describe());
    println!("render\n{}", c.render_to_string().unwrap());
    println!("=============\n");

    println!("+++++++++++++");
    let c = create_element(
        IfProps { cond: false },
        vec![create_element(TextProps { text: "Im a content".to_string() }, vec![])],
    );

    println!("{}", c.describe());
    println!("render\n{}", c.render_to_string().unwrap());
    println!("=============\n");

    println!("+++++++++++++");
    let c = create_element(
        IfProps { cond: true },
        vec![create_element(TextProps { text: "Im a content".to_string() }, vec![])],
    );

    println!("{}", c.describe());
    println!("render\n{}", c.render_to_string().unwrap());
    println!("=============\n");
}

#[test]
fn tags_come_from_payload_types() {
    let text = create_element(TextProps { text: "x".to_string() }, vec![]);
    let div = create_element(DivProps { class: String::new() }, vec![]);
    let p = create_element(PProps { class: String::new() }, vec![]);
    let person = create_element(PersonProps { name: String::new() }, vec![]);
    let name = create_element(NameProps { show: false, name: String::new() }, vec![]);
    let cond = create_element(IfProps { cond: true }, vec![]);
    assert_eq!(text.get_tag(), "text");
    assert_eq!(div.get_tag(), "div");
    assert_eq!(p.get_tag(), "p");
    assert_eq!(person.get_tag(), "person");
    assert_eq!(name.get_tag(), "name");
    assert_eq!(cond.get_tag(), "if");
}

#[test]
fn primitive_without_children_renders_empty_markup() {
    let div = create_element(DivProps { class: "form-control".to_string() }, vec![]);
    assert_eq!(div.render_to_string(), Ok("<div></div>".to_string()));
    let p = create_element(PProps { class: String::new() }, vec![]);
    assert_eq!(p.render_to_string(), Ok("<p></p>".to_string()));
}

#[test]
fn children_are_joined_with_newlines() {
    let d1 = create_element(
        DivProps { class: "form-control".to_string() },
        vec![
            create_element(TextProps { text: "Im a content".to_string() }, vec![]),
            create_element(PProps { class: "paragraph".to_string() }, vec![]),
        ],
    );
    assert_eq!(d1.render_children_to_string(), Ok("Im a content\n<p></p>".to_string()));
    assert_eq!(d1.render_to_string(), Ok("<div>Im a content\n<p></p></div>".to_string()));
    assert_eq!(d1.get_children().len(), 2);
}

#[test]
fn no_children_join_to_empty_text() {
    let div = create_element(DivProps { class: String::new() }, vec![]);
    assert_eq!(div.render_children_to_string(), Ok(String::new()));
}

#[test]
fn hidden_name_renders_paragraph() {
    let c = create_element(NameProps { show: false, name: "Fran".to_string() }, vec![]);
    assert_eq!(c.render_to_string(), Ok("<p>NOT_SHOWING</p>".to_string()));
}

#[test]
fn shown_name_renders_div_with_two_texts() {
    let c = create_element(NameProps { show: true, name: "Fran".to_string() }, vec![]);
    assert_eq!(c.render_to_string(), Ok("<div>SHOWING\nFran</div>".to_string()));
}

#[test]
fn person_resolves_through_name() {
    let person = create_element(PersonProps { name: "Fran".to_string() }, vec![]);
    let name = create_element(NameProps { show: true, name: "Fran".to_string() }, vec![]);
    assert_eq!(person.render_to_string(), Ok("<div>SHOWING\nFran</div>".to_string()));
    assert_eq!(person.render_to_string(), name.render_to_string());
    let produced = person.render().unwrap();
    assert_eq!(produced.get_tag(), "name");
    assert!(!person.should_render());
}

#[test]
fn false_condition_renders_nothing() {
    let c = create_element(
        IfProps { cond: false },
        vec![create_element(TextProps { text: "Im a content".to_string() }, vec![])],
    );
    assert!(c.render().is_none());
    assert_eq!(c.render_to_string(), Ok(String::new()));
}

#[test]
fn true_condition_wraps_children_in_div() {
    let child = create_element(TextProps { text: "Im a content".to_string() }, vec![]);
    let c = create_element(IfProps { cond: true }, vec![child.clone()]);
    assert_eq!(c.render_to_string(), Ok("<div>Im a content</div>".to_string()));
    let produced = c.render().unwrap();
    assert_eq!(produced.get_tag(), "div");
    assert_eq!(produced.get_children().len(), 1);
    assert!(std::rc::Rc::ptr_eq(&produced.get_children()[0], &child));
}

#[test]
fn text_ignores_markup_path() {
    let t = create_element(
        TextProps { text: "raw".to_string() },
        vec![create_element(DivProps { class: String::new() }, vec![])],
    );
    assert!(t.should_render());
    assert_eq!(t.render_to_string(), Ok("raw".to_string()));
}

#[test]
fn depth_bound_limits_resolution() {
    let person = create_element(PersonProps { name: "Fran".to_string() }, vec![]);
    assert_eq!(person.render_within(3), Err(RenderError::DepthExceeded));
    assert_eq!(person.render_within(4), Ok("<div>SHOWING\nFran</div>".to_string()));
    assert_eq!(person.render_within(0), Err(RenderError::DepthExceeded));
}

#[test]
fn overly_deep_tree_is_refused() {
    let mut e = create_element(TextProps { text: "leaf".to_string() }, vec![]);
    for _ in 0..MAX_RENDER_DEPTH {
        e = create_element(DivProps { class: String::new() }, vec![e]);
    }
    assert_eq!(e.render_to_string(), Err(RenderError::DepthExceeded));
    let mut shallow = create_element(TextProps { text: "leaf".to_string() }, vec![]);
    for _ in 0..(MAX_RENDER_DEPTH - 1) {
        shallow = create_element(DivProps { class: String::new() }, vec![shallow]);
    }
    let out = shallow.render_to_string().unwrap();
    assert!(out.starts_with("<div><div>"));
    assert!(out.contains("leaf"));
}
