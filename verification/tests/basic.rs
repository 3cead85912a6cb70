//! Small smoke tests of the public surface.

use html_filter::prelude::{BlackWhiteList, ElementState, Filter, Html, HtmlBuilder};

#[test]
fn empty() {
    let html = Html::new();
    let filter = Filter::new();
    matches!(html.filter(&filter), Html::Empty);
}

#[test]
fn empty_input_parses_to_empty() {
    let tree = Html::parse("").unwrap();
    assert!(tree.is_empty());
    assert_eq!(tree.to_string(), "");
}

#[test]
fn unclosed_tag_keeps_content() {
    let tree = Html::parse("<div>x").unwrap();
    assert_eq!(tree.to_string(), "<div>x");
}

#[test]
fn raw_text_is_not_reparsed() {
    let tree = Html::parse("<style>a<b</style>").unwrap();
    assert_eq!(tree.to_string(), "<style>a<b</style>");
    let tree = Html::parse("<script>1 < 2</script>").unwrap();
    assert_eq!(tree.to_string(), "<script>1 < 2</script>");
}

#[test]
fn comment_keeps_inner_dashes() {
    let tree = Html::parse("<!--a--b-->").unwrap();
    assert_eq!(tree.to_string(), "<!--a--b-->");
}

#[test]
fn element_state_combines() {
    assert!(matches!(
        ElementState::WhiteListed.and(&ElementState::NotSpecified),
        ElementState::WhiteListed
    ));
    assert!(matches!(
        ElementState::WhiteListed.and(&ElementState::BlackListed),
        ElementState::BlackListed
    ));
    assert!(matches!(
        ElementState::NotSpecified.and(&ElementState::NotSpecified),
        ElementState::NotSpecified
    ));
    assert!(ElementState::NotSpecified.is_allowed_or(true));
    assert!(!ElementState::NotSpecified.is_allowed_or(false));
    assert!(ElementState::WhiteListed.is_allowed_or(false));
    assert!(!ElementState::BlackListed.is_allowed_or(true));
}

#[test]
fn black_white_list_latest_rule_wins() {
    let mut list = BlackWhiteList::new();
    assert!(list.is_empty());
    assert!(list.push(String::from("button"), false).is_ok());
    assert!(list.is_empty());
    // replacing a rule with the opposite polarity is reported
    assert!(list.push(String::from("button"), true).is_err());
    assert!(!list.is_empty());
    assert!(matches!(
        list.check(&String::from("button")),
        ElementState::WhiteListed
    ));
}

#[test]
fn builder_assembles_a_tree() {
    let mut tree = HtmlBuilder::new();
    tree = tree.push_char('a');
    tree = tree.push_comment();
    let (t, closed) = tree.close_comment();
    assert!(closed);
    tree = t;
    let html = tree.into_html();
    assert_eq!(html.to_string(), "a<!---->");
}

#[test]
fn close_tag_reports_the_open_tag() {
    let tree = HtmlBuilder::new().push_char('x');
    let err = match tree.close_tag("div") {
        Err(e) => e,
        Ok(_) => panic!("expected an error"),
    };
    assert_eq!(
        err,
        "Invalid closing tag: Found closing tag for 'div' but all tags are already closed."
    );
}
