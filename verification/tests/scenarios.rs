//! End-to-end selections over small documents.

use html_filter::prelude::{Filter, Html};

#[test]
fn keeps_matched_tag_with_content() {
    let tree = Html::parse(r#"<div id="a">x</div>"#).unwrap();
    let filter = Filter::new().attribute_value("id", "a").depth(0);
    let out = tree.filter(&filter);
    assert_eq!(out.to_string(), r#"<div id="a">x</div>"#);
}

#[test]
fn depth_keeps_the_parent_whole() {
    let tree = Html::parse("<ul><li>1</li><li>2</li></ul>").unwrap();
    let filter = Filter::new().tag_name("li").depth(1);
    let out = tree.filter(&filter);
    assert_eq!(out.to_string(), "<ul><li>1</li><li>2</li></ul>");
}

#[test]
fn disabled_comments_are_removed() {
    let tree = Html::parse("<!-- c --><p>t</p>").unwrap();
    let filter = Filter::new().comment(false);
    let out = tree.filter(&filter);
    assert_eq!(out.to_string(), "<p>t</p>");
}

#[test]
fn single_match_is_not_wrapped() {
    let tree = Html::parse("<a/><b/>").unwrap();
    let filter = Filter::new().tag_name("a");
    let out = tree.filter(&filter);
    assert!(matches!(out, Html::Tag { .. }));
    assert_eq!(out.to_string(), "<a />");
}

#[test]
fn wrong_closing_tag_names_the_open_one() {
    let err = Html::parse("<div></span>").unwrap_err();
    assert_eq!(
        err,
        "Invalid closing tag: Found closing tag for 'span' but 'div' is still open."
    );
}

#[test]
fn find_without_match_is_empty() {
    let tree = Html::parse("<p>t</p>").unwrap();
    let filter = Filter::new().tag_name("azerty");
    let out = tree.find(&filter);
    assert!(out.is_empty());
}

#[test]
fn find_returns_the_first_match() {
    let tree = Html::parse("<ul><li>1</li><li>2</li></ul>").unwrap();
    let filter = Filter::new().tag_name("li");
    let out = tree.find(&filter);
    assert_eq!(out.to_string(), "<li>1</li>");
}

#[test]
fn nested_match_keeps_the_shallowest() {
    let tree = Html::parse(r#"<div id="outer"><div id="inner">x</div></div>"#).unwrap();
    let filter = Filter::new().tag_name("div");
    let out = tree.filter(&filter);
    assert_eq!(out.to_string(), r#"<div id="outer"><div id="inner">x</div></div>"#);
}

#[test]
fn blacklisted_tag_is_elided_inside_a_match() {
    let tree = Html::parse("<ul><li>keep</li><bad>drop</bad></ul>").unwrap();
    let filter = Filter::new().tag_name("ul").except_tag_name("bad");
    let out = tree.filter(&filter);
    assert_eq!(out.to_string(), "<ul><li>keep</li></ul>");
}

#[test]
fn attribute_rules_combine() {
    let doc = r#"<input radio type="radio" id="r1" /><input radio type="radio" id="r2" /><input type="text" id="t" />"#;
    let tree = Html::parse(doc).unwrap();
    let both = Filter::new()
        .attribute_value("type", "radio")
        .attribute_value("id", "r2");
    assert_eq!(
        tree.to_filtered(&both).to_string(),
        r#"<input radio type="radio" id="r2" />"#
    );
    let except = Filter::new()
        .attribute_value("type", "radio")
        .except_attribute_value("id", "r2");
    assert_eq!(
        tree.to_filtered(&except).to_string(),
        r#"<input radio type="radio" id="r1" />"#
    );
}

#[test]
fn attribute_name_matches_only_valueless() {
    let tree = Html::parse(r#"<button enabled /><input enabled="no" />"#).unwrap();
    let filter = Filter::new().attribute_name("enabled");
    let out = tree.filter(&filter);
    assert_eq!(out.to_string(), "<button enabled />");
}

#[test]
fn only_doctypes_survive() {
    let tree = Html::parse("<!DOCTYPE html><p>t</p>").unwrap();
    let filter = Filter::new().no_tags().none_except_doctype();
    let out = tree.filter(&filter);
    assert_eq!(out.to_string(), "<!DOCTYPE html>");
}

#[test]
fn prefixed_attribute_selects() {
    let tree = Html::parse(r##"<nav><a xlink:href="#">About</a><a href="x">Other</a></nav>"##)
        .unwrap();
    let filter = Filter::new().attribute_value("xlink:href", "#");
    let out = tree.filter(&filter);
    assert_eq!(out.to_string(), r##"<a xlink:href="#">About</a>"##);
}

#[test]
fn depth_two_keeps_the_grandparent() {
    let doc = "<main><nav><ul><li>x</li></ul></nav></main>";
    let tree = Html::parse(doc).unwrap();
    let out0 = tree.to_filtered(&Filter::new().tag_name("li").depth(0));
    assert_eq!(out0.to_string(), "<li>x</li>");
    let out1 = tree.to_filtered(&Filter::new().tag_name("li").depth(1));
    assert_eq!(out1.to_string(), "<ul><li>x</li></ul>");
    let out2 = tree.to_filtered(&Filter::new().tag_name("li").depth(2));
    assert_eq!(out2.to_string(), "<nav><ul><li>x</li></ul></nav>");
}
