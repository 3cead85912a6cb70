//! The usage examples from the API documentation, as runnable tests.

use html_filter::prelude::{Filter, Html};

#[test]
fn auto_doctest_1() {
    let html: &str = r#"
    <!DOCTYPE html>
    <html lang="en">
        <head>
            <title>Html sample</title>
        </head>
        <body>
            <p>This is an html sample.</p>
        </body>
    </html>
    "#;
    let tree: Html = Html::parse(html).expect("Invalid HTML");
    assert!(tree.to_string() == html);
}

#[test]
fn auto_doctest_2() {
    let _html: Html = Html::parse(
        r#"<nav>
        <!-- Navigation menu -->
        <ul>
            <li href="first">First link</li>
            <li href="second">Second link</li>
            <li href="third">Third link</li>
        </ul>
    </nav>"#,
    )
    .unwrap();
}

#[test]
fn auto_doctest_3() {
    let html = Html::parse("<a enabled href='https://crates.io'>").unwrap();
    if let Html::Tag { tag, .. } = html {
        assert!(tag.as_name() == "a");
        assert!(tag.find_attr_value("enabled").is_none());
        assert!(tag
            .find_attr_value("href")
            .is_some_and(|value| value == "https://crates.io"));
        let value: String = tag.into_attr_value("href").unwrap();
        assert!(&value == "https://crates.io");
    } else {
        unreachable!();
    }
}

#[test]
fn auto_doctest_4() {
    let html = Html::parse("<div />").unwrap();
    if let Html::Tag { tag, .. } = html {
        assert!(tag.as_name() == "div");
    } else {
        unreachable!();
    }
}

#[test]
fn auto_doctest_5() {
    let html = Html::parse(r#"<a id="std doc" enabled xlink:href="https://std.rs"/>"#).unwrap();
    if let Html::Tag { tag, .. } = html {
        assert!(tag.find_attr_value("enabled").is_none());
        assert!(tag.find_attr_value("xlink:href").map(|value| value.as_str()) == Some("https://std.rs"));
    } else {
        unreachable!()
    }
}

#[test]
fn auto_doctest_6() {
    let html = Html::parse(r#"<a enabled/>"#).unwrap();
    if let Html::Tag { tag, .. } = html {
        assert!(tag.into_attr_value("enabled").is_none());
    } else {
        unreachable!()
    }
    let html = Html::parse(r#"<a id="std doc" href="https://std.rs"/>"#).unwrap();
    if let Html::Tag { tag, .. } = html {
        assert!(tag
            .into_attr_value("href")
            .is_some_and(|value| &value == "https://std.rs"));
    } else {
        unreachable!()
    }
}

#[test]
fn auto_doctest_7() {
    let _ = Filter::new().comment(false).doctype(false);
    let _ = Filter::new().tag_name("a");
    let _ = Filter::new().attribute_name("onclick");
    let _ = Filter::new().attribute_value("id", "first-title");
    let _ = Filter::new().tag_name("li").depth(1);
}

#[test]
fn auto_doctest_8() {
    let _filter = Filter::new().depth(1).tag_name("a");
}

#[test]
fn auto_doctest_9() {
    let _ = Filter::new().attribute_value("href", "second").depth(0);
}

#[test]
fn auto_doctest_10() {
    let _ = Filter::new().attribute_value("href", "second").depth(1);
}

#[test]
fn auto_doctest_11() {
    let _ = Filter::new().attribute_value("href", "second").depth(2);
}

#[test]
fn auto_doctest_12() {
    let _filter: Filter = Filter::new();
}
