use geopard::gemini::{PageElement, Parser as PageParser};
use geopard::parser::{Event, Parser, Tag};

fn events_for(lines: &[&str]) -> Vec<String> {
    // Render events compactly so expectations stay readable.
    let mut parser = Parser::new();
    let mut res = Vec::new();
    for line in lines {
        parser.parse_line(line, &mut res);
    }
    res.iter()
        .map(|e| match e {
            Event::Start(Tag::Paragraph) => "start:paragraph".to_string(),
            Event::Start(Tag::Heading(l)) => format!("start:heading:{}", l),
            Event::Start(Tag::BlockQuote) => "start:quote".to_string(),
            Event::Start(Tag::CodeBlock) => "start:code".to_string(),
            Event::Start(Tag::UnorderedList) => "start:list".to_string(),
            Event::Start(Tag::Item) => "start:item".to_string(),
            Event::Start(Tag::Link(h, l)) => match l {
                Some(l) => format!("start:link:{}:{}", h, l),
                None => format!("start:link:{}", h),
            },
            Event::End => "end".to_string(),
            Event::Text(t) => format!("text:{}", t),
            Event::BlankLine => "blank".to_string(),
        })
        .collect()
}

#[test]
fn paragraph_line_is_trimmed_at_the_end() {
    assert_eq!(
        events_for(&["hello world  "]),
        vec!["start:paragraph", "text:hello world", "end"]
    );
}

#[test]
fn blank_line_yields_one_event() {
    assert_eq!(events_for(&["   \t "]), vec!["blank"]);
}

#[test]
fn heading_counts_every_pound_sign() {
    assert_eq!(
        events_for(&["## Two levels"]),
        vec!["start:heading:2", "text:Two levels", "end"]
    );
}

#[test]
fn code_fence_toggles_raw_text() {
    assert_eq!(
        events_for(&["```", "let x = 1;  ", "```"]),
        vec!["start:code", "text:let x = 1;  ", "end"]
    );
}

#[test]
fn quote_line_strips_the_markers() {
    assert_eq!(
        events_for(&[">> quoted"]),
        vec!["start:quote", "text: quoted"]
    );
}

#[test]
fn list_item_is_trimmed() {
    assert_eq!(
        events_for(&["* item one  "]),
        vec!["start:list", "start:item", "text:item one", "end"]
    );
}

#[test]
fn link_with_label() {
    assert_eq!(
        events_for(&["=> gemini://example.org/ An example"]),
        vec!["start:link:gemini://example.org/:An example", "end"]
    );
}

#[test]
fn link_without_label() {
    assert_eq!(
        events_for(&["=>gemini://example.org/"]),
        vec!["start:link:gemini://example.org/", "end"]
    );
}

#[test]
fn arrow_alone_is_a_paragraph() {
    assert_eq!(events_for(&["=>"]), vec!["start:paragraph", "text:=>", "end"]);
}

fn element_for(parser: &mut PageParser, line: &str) -> String {
    match parser.parse_line(line) {
        PageElement::Heading(s) => format!("heading:{}", s),
        PageElement::Quote(s) => format!("quote:{}", s),
        PageElement::Preformatted(s) => format!("pre:{}", s),
        PageElement::Text(s) => format!("text:{}", s),
        PageElement::Link(h, Some(l)) => format!("link:{}:{}", h, l),
        PageElement::Link(h, None) => format!("link:{}", h),
        PageElement::Empty => "empty".to_string(),
    }
}

#[test]
fn page_parser_keeps_lines_whole() {
    let mut p = PageParser::new();
    assert_eq!(element_for(&mut p, "# Title "), "heading:# Title ");
    assert_eq!(element_for(&mut p, "> a quote"), "quote:> a quote");
    assert_eq!(element_for(&mut p, "plain"), "text:plain");
}

#[test]
fn page_parser_fence_toggles() {
    let mut p = PageParser::new();
    assert_eq!(element_for(&mut p, "```"), "empty");
    assert_eq!(element_for(&mut p, "# not a heading"), "pre:# not a heading");
    assert_eq!(element_for(&mut p, "```"), "empty");
    assert_eq!(element_for(&mut p, "# again"), "heading:# again");
}

#[test]
fn page_parser_links() {
    let mut p = PageParser::new();
    assert_eq!(
        element_for(&mut p, "=> gemini://example.org/ A label"),
        "link:gemini://example.org/:A label"
    );
    assert_eq!(
        element_for(&mut p, "=>gemini://example.org/"),
        "link:gemini://example.org/"
    );
    // An arrow with no target still matches, with an empty target.
    assert_eq!(element_for(&mut p, "=> "), "link:");
}
