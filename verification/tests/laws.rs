//! Instances of the library's laws on concrete values.

use html_filter::prelude::{Filter, Html};

/// Round trips: parsing then re-serializing gives the input back, for inputs
/// already in the canonical form (self-closing tags written `<name />`,
/// single spaces between attributes).
#[test]
fn round_trip_canonical_inputs() {
    let inputs = [
        "<a />",
        r#"<div id="x">t</div>"#,
        "<!DOCTYPE html>",
        "<!--c-->",
        "<p><b>x</b>y</p>",
        "<!>",
        r#"<a id='single'>q</a>"#,
        "plain text",
        r#"<ul><li href="first">First</li><li href="second">Second</li></ul>"#,
    ];
    for input in inputs {
        let tree = Html::parse(input).unwrap();
        assert_eq!(tree.to_string(), input);
    }
}

/// Idempotence: filtering twice equals filtering once.
#[test]
fn filter_is_idempotent_here() {
    let doc = r#"<!-- note --><main><ul><li a="1">x</li><li>y</li></ul><p>t</p></main>"#;
    let filters = [
        Filter::new(),
        Filter::new().tag_name("li"),
        Filter::new().tag_name("li").depth(1),
        Filter::new().attribute_value("a", "1"),
        Filter::new().comment(false),
        Filter::new().no_tags().none_except_doctype(),
    ];
    for filter in filters {
        let once = Html::parse(doc).unwrap().filter(&filter);
        let twice = once.to_filtered(&filter);
        assert_eq!(once.to_string(), twice.to_string());
    }
}

/// Borrowed/owned equivalence: the non-consuming filter equals the consuming
/// filter on an equivalent tree.
#[test]
fn borrowed_equals_owned() {
    let doc = r#"<nav><ul><li href="a">x</li><li href="b">y</li></ul></nav>"#;
    let filters = [
        Filter::new(),
        Filter::new().tag_name("li"),
        Filter::new().attribute_value("href", "b").depth(1),
    ];
    for filter in filters {
        let tree = Html::parse(doc).unwrap();
        let borrowed = tree.to_filtered(&filter);
        let owned = tree.filter(&filter);
        assert_eq!(borrowed.to_string(), owned.to_string());
    }
    let tree = Html::parse(doc).unwrap();
    let filter = Filter::new().tag_name("li");
    assert_eq!(
        tree.to_found(&filter).to_string(),
        tree.find(&filter).to_string()
    );
}

/// Depth monotonicity on a nested document: everything kept at a smaller
/// depth appears again in the result for a larger depth.
#[test]
fn larger_depth_keeps_more() {
    let doc = "<main><nav><ul><li>x</li></ul></nav></main>";
    let tree = Html::parse(doc).unwrap();
    let mut previous = String::new();
    for depth in 0..4 {
        let out = tree
            .to_filtered(&Filter::new().tag_name("li").depth(depth))
            .to_string();
        assert!(
            out.contains(previous.as_str()),
            "depth {depth} dropped a node kept before: {previous} not in {out}"
        );
        previous = out;
    }
}

/// Minimal-depth selection: with nested matches, the kept region is anchored
/// at the shallowest match, not the deepest.
#[test]
fn shallowest_match_anchors() {
    let doc = r#"<section><div id="outer"><span><div id="inner">x</div></span></div></section>"#;
    let tree = Html::parse(doc).unwrap();
    let out = tree.to_filtered(&Filter::new().tag_name("div").depth(1));
    assert_eq!(
        out.to_string(),
        r#"<section><div id="outer"><span><div id="inner">x</div></span></div></section>"#
    );
}
