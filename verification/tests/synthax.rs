//! Attribute lookups on a parsed tag.

use html_filter::prelude::Html;

#[test]
fn find_attr_value() {
    let html = Html::parse(r#"<a id="std doc" enabled xlink:href="https://std.rs"/>"#).unwrap();

    if let Html::Tag { tag, .. } = html {
        assert!(tag.find_attr_value("enabled").is_none());
        assert!(tag.find_attr_value("xlink:href").map(|value| value.as_str()) == Some("https://std.rs"));
        assert!(tag.as_name() == "a");
    } else {
        unreachable!()
    }
}
