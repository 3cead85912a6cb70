//! One input for every parse error.

use html_filter::prelude::Html;

fn expect_err(html: &str, expected: &str) {
    match Html::parse(html) {
        Err(err) => assert!(
            err == expected,
            "Error mismatch! Expected\n{expected}\nbut found\n{err}\n."
        ),
        Ok(_) => panic!("No errors found, but expected:\n{expected}\n."),
    }
}

#[test]
fn bang_closing() {
    expect_err("</!doc h>", "Invalid character '!' in closing tag.");
}

#[test]
fn invalid_dash() {
    expect_err("<!-audio>", "Invalid character '-' in doctype.");
}

#[test]
fn doctype_val() {
    expect_err("<!dx h=''>", "Doctype attribute must not have a value.");
}

#[test]
fn close_doctype() {
    expect_err("<!doc />", "Invalid character '/' in doctype.");
}

#[test]
fn invalid_bang() {
    expect_err("<button!>", "Invalid character '!' in tag name.");
}

#[test]
fn prefix_name() {
    expect_err("<image:br>", "Invalid character ':' in tag name.");
}

#[test]
fn double_colon_attribute() {
    expect_err("<a x:y:z='v'>", "Found 2 colons ':' in attribute name.");
}

#[test]
fn invalid_equal() {
    expect_err(
        "<p id=a>",
        "Invalid character 'a': expected ''' or '\"' after '=' sign.",
    );
}

#[test]
fn unclosed_tag() {
    expect_err("<textarea", "EOF: Missing closing '>'.");
}

#[test]
fn unopened_tag() {
    expect_err(
        "<br></em>",
        "Invalid closing tag: Found closing tag for 'em' but 'br' is still open.",
    );
}

#[test]
fn unopened_comment() {
    expect_err(" --> ", "Tried to close unopened comment.");
}

#[test]
fn attr_close() {
    expect_err("</a id='c'>", "Closing tags don't support attributes.");
}

#[test]
fn second_close() {
    expect_err("<!---->-->", "Tried to close unopened comment.");
}

#[test]
fn doctype_2attr() {
    expect_err("<!dx a b>", "Doctype expected at most one attribute.");
}
