use rust_html::compile::compile;
use rust_html::expr::ExprKind;
use rust_html::input::validate_input;
use rust_html::template::{Render, Template, Unescaped};

fn build(source: &str, values: Vec<Template>) -> Template {
    let compiled = compile(source).unwrap();
    assert_eq!(compiled.slot_count(), values.len());
    compiled.resolve(values)
}

fn test_eq(template: Template, expected: &str) {
    let template_string: String = template.into();
    assert!(
        template_string == expected,
        "Template test failed, expected:\n {}\nbut found:\n {}\n",
        expected,
        template_string
    )
}

#[test]
fn test_empty() {
    let source = validate_input(&vec![]).unwrap();
    test_eq(build(&source, vec![]), "");
}

#[test]
fn test_empty_inner() {
    let compiled = compile("{}").unwrap();
    assert_eq!(compiled.parts[0].1.code, "\"\"");
    assert_eq!(compiled.parts[0].1.kind, ExprKind::Literal);
    test_eq(compiled.resolve(vec!["".render()]), "");
}

#[test]
fn test_template_only() {
    test_eq(
        build("<div>hello, world</div>", vec![]),
        "<div>hello, world</div>",
    );
}

#[test]
fn test_constant_only() {
    test_eq(build("{10}", vec![10i32.render()]), "10");
}

#[test]
fn test_multiple_constants_only() {
    test_eq(build("{10}{20}", vec![10i32.render(), 20i32.render()]), "1020");
}

#[test]
fn test_multiple_constants_with_space() {
    test_eq(build("{10} {20}", vec![10i32.render(), 20i32.render()]), "10 20");
}

#[test]
fn test_int_variable() {
    let value: i32 = 10;
    test_eq(build("{value}", vec![value.render()]), "10");
}

#[test]
fn test_int_reference_variable() {
    let value1: i32 = 10;
    test_eq(build("{value1}", vec![value1.render()]), "10");
    let value2: &i32 = &20;
    test_eq(build("{value2}", vec![Render::render(&value2)]), "20");
}

#[test]
fn test_str_variable() {
    let value = "hello";
    test_eq(build("{value}", vec![value.render()]), "hello");
}

#[test]
fn test_string_variable() {
    let value = "hello".to_string();
    test_eq(build("{value}", vec![value.render()]), "hello");
}

#[test]
fn test_float_variable() {
    let value = 5.3;
    let text = format!("{}", value);
    test_eq(build("{value}", vec![text.render()]), "5.3");
}

#[test]
fn test_closure_variable() {
    let closure = |subject: &str| {
        let hello = "hello";
        format!("{}, {}", hello, subject)
    };
    let compiled = compile(r#"{closure("world")}"#).unwrap();
    assert_eq!(compiled.parts[0].1.kind, ExprKind::Expression);
    test_eq(compiled.resolve(vec![closure("world").render()]), "hello, world");
}

#[test]
fn test_constant_in_template() {
    test_eq(build("<div>{10}</div>", vec![10i32.render()]), "<div>10</div>");
}

#[test]
fn test_block_in_rust_evaluator() {
    let compiled = compile(r#"{ { "string_in_rust_block" } }"#).unwrap();
    assert_eq!(compiled.parts[0].1.code, r#" { "string_in_rust_block" } "#);
    assert_eq!(compiled.parts[0].1.kind, ExprKind::Expression);
    test_eq(
        compiled.resolve(vec!["string_in_rust_block".render()]),
        "string_in_rust_block",
    );
}

#[test]
fn test_html_class() {
    let my_class = "button";
    test_eq(
        build(r#"<div class="{my_class}"></div>"#, vec![my_class.render()]),
        "<div class=\"button\"></div>",
    );
}

#[test]
fn test_profile_card() {
    let name_cls = "green";
    let user_name = "evgiz";
    test_eq(
        build(
            r#"
                <div class="container">
                    <div class="name {name_cls}">
                        {user_name}
                    </div>
                    <div class="title">
                        Rust Programmer
                    </div>
                </div>
            "#,
            vec![name_cls.render(), user_name.render()],
        ),
        r#"
                <div class="container">
                    <div class="name green">
                        evgiz
                    </div>
                    <div class="title">
                        Rust Programmer
                    </div>
                </div>
            "#,
    );
}

#[test]
fn test_composed() {
    let name = "evgiz";
    let card = build(r#"<div class="card">{name}</div>"#, vec![name.render()]);
    test_eq(
        build(
            r#"
            <div class="page">
                {card}
            </div>
        "#,
            vec![card.render()],
        ),
        r#"
            <div class="page">
                <div class="card">evgiz</div>
            </div>
        "#,
    );
}

#[test]
fn test_composed_closure() {
    let name = "evgiz";
    let card = |content: &str| build(r#"<div class="card">{content}</div>"#, vec![content.render()]);
    test_eq(
        build(
            r#"
            <div class="page">
                {card(name)}
            </div>
        "#,
            vec![card(name).render()],
        ),
        r#"
            <div class="page">
                <div class="card">evgiz</div>
            </div>
        "#,
    );
}

#[test]
fn test_escaping_brackets_both() {
    test_eq(build("{{}}", vec![]), "{}");
}

#[test]
fn test_escaping_brackets_left() {
    test_eq(build("{{", vec![]), "{");
}

#[test]
fn test_escaping_brackets_right() {
    test_eq(build("}}", vec![]), "}");
}

#[test]
fn test_multiple_escaping_brackets() {
    test_eq(build("{{}}hello{{}}", vec![]), "{}hello{}");
    test_eq(build("{{}}{{}}", vec![]), "{}{}");
}

#[test]
fn test_manual_injection_target() {
    test_eq(build("{0}", vec![0i32.render()]), "0");
}

#[test]
fn test_manual_injection_target_escape() {
    test_eq(build("{{0}}{1}", vec![1i32.render()]), "{0}1");
}

#[test]
fn test_conditional() {
    let compiled = compile("{ if true {1} else {2} }").unwrap();
    assert_eq!(compiled.parts[0].1.code, " if true {1} else {2} ");
    assert_eq!(compiled.parts[0].1.kind, ExprKind::Expression);
    test_eq(compiled.resolve(vec![(if true { 1i32 } else { 2 }).render()]), "1");
}

#[test]
fn test_conditional_str() {
    let value = if true { "hello" } else { "world" };
    test_eq(
        build(r#"{ if true { "hello" } else {"world"}}"#, vec![value.render()]),
        "hello",
    );
}

#[test]
fn test_conditional_template_or_str() {
    let template = || build("hello", vec![]);
    let string = "world".to_string();
    let value: Template = if true {
        template()
    } else {
        Template::from(string.as_str())
    };
    test_eq(
        build(
            r#"{ if true { template() } else { string.into() } }"#,
            vec![value.render()],
        ),
        "hello",
    );
}

#[test]
fn test_escape_html() {
    let sketchy_user_input = "<script>alert('hi')</script>";
    test_eq(
        build("<div>{sketchy_user_input}</div>", vec![sketchy_user_input.render()]),
        "<div>&lt;script&gt;alert(&#x27;hi&#x27;)&lt;&#x2F;script&gt;</div>",
    );
}

#[test]
fn test_escape_html_class() {
    let sketchy_user_input = "class\"sketchy";
    test_eq(
        build(
            r#"<div class="{sketchy_user_input}"></div>"#,
            vec![sketchy_user_input.render()],
        ),
        r#"<div class="class&quot;sketchy"></div>"#,
    );
}

#[test]
fn test_unescaped() {
    let sketchy_user_input = "<script>alert('hi')</script>";
    let unescaped = Unescaped(sketchy_user_input.to_string());
    test_eq(
        build(r#"<div>{unescaped}</div>"#, vec![unescaped.render()]),
        r#"<div><script>alert('hi')</script></div>"#,
    );
}

struct Component {
    text: String,
}

impl Render for Component {
    fn render(&self) -> Template {
        build(r#"<span>{self.text}</span>"#, vec![self.text.render()])
    }
}

#[test]
fn test_render_trait() {
    let component = Component {
        text: "hello, world".into(),
    };
    test_eq(
        build("<div>{component}</div>", vec![component.render()]),
        "<div><span>hello, world</span></div>",
    );
}

#[test]
fn test_json_text() {
    let calculate = || 10.0;
    let value = format!("{}", calculate());
    test_eq(
        build(
            r#"
        {{
            "name": "evgiz",
            "code_speed": {calculate()}
        }}
        "#,
            vec![value.render()],
        ),
        r#"
        {
            "name": "evgiz",
            "code_speed": 10
        }
        "#,
    );
}

fn component_dummy(children: impl Render + Clone) -> Template {
    build("<div>{children}</div>", vec![children.render()])
}

#[test]
fn test_impl_render_input() {
    let page = build(
        r#"{component_dummy("hello, world")}"#,
        vec![component_dummy("hello, world").render()],
    );
    test_eq(page, "<div>hello, world</div>");
}

#[test]
fn test_nested_impl_render_input() {
    let text = "hello, world";
    let inner = build(r#"<span>{text}</span>"#, vec![text.render()]);
    let page = build(r#"{component_dummy(inner)}"#, vec![component_dummy(inner).render()]);
    test_eq(page, "<div><span>hello, world</span></div>");
}

struct ComponentTest {
    content: Template,
}

impl Render for ComponentTest {
    fn render(&self) -> Template {
        build("<div>{self.content}</div>", vec![self.content.render()])
    }
}

#[test]
fn test_struct_component() {
    let component = ComponentTest {
        content: build("hello, world", vec![]),
    };
    let page = build("<div>{component}</div>", vec![component.render()]);
    test_eq(page, "<div><div>hello, world</div></div>");
}

#[test]
fn test_html_root() {
    build(
        r#"
            <!DOCTYPE html>
            <html>
                <head></head>
                <body></body>
            </html>
        "#,
        vec![],
    );
}

#[test]
fn test_html_table() {
    test_eq(build("<tr></tr>", vec![]), "<tr></tr>");
    test_eq(build("<td>{10}</td>", vec![10i32.render()]), "<td>10</td>");
    test_eq(build("<th>{10}</th>", vec![10i32.render()]), "<th>10</th>");
}
