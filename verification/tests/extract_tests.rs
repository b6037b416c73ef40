use crawler::error::Error;
use crawler::spider::{
    align_items, build_single_item, combined_query, selector_body, with_css_prefix,
    ExtractionRule, ExtractionType, GenericSpider,
};

fn rule(selector: &str) -> ExtractionRule {
    ExtractionRule { selector: selector.to_string(), extract: ExtractionType::Text }
}

fn strings(xs: &[&str]) -> Vec<String> {
    xs.iter().map(|s| s.to_string()).collect()
}

#[test]
fn alignment_takes_the_longest_sequence() {
    // two field rules yielding sequences of length 3 and 2: exactly 3
    // items, the third lacking the second field's key
    let names = strings(&["title", "url"]);
    let results = vec![strings(&["a", "b", "c"]), strings(&["d", "e"])];
    let items = align_items(&names, &results);

    assert_eq!(items.len(), 3);
    assert_eq!(
        items[0].fields,
        vec![("title".to_string(), "a".to_string()), ("url".to_string(), "d".to_string())]
    );
    assert_eq!(
        items[1].fields,
        vec![("title".to_string(), "b".to_string()), ("url".to_string(), "e".to_string())]
    );
    assert_eq!(items[2].fields, vec![("title".to_string(), "c".to_string())]);
}

#[test]
fn alignment_with_no_results_yields_no_items() {
    let names = strings(&["title"]);
    let results = vec![Vec::<String>::new()];
    let items = align_items(&names, &results);
    assert_eq!(items.len(), 0);
}

#[test]
fn single_item_with_no_matching_rule_is_an_extraction_error() {
    let names = strings(&["title", "url"]);
    let values = strings(&["", ""]);
    match build_single_item(&names, &values) {
        Err(Error::Extraction(msg)) => assert_eq!(msg, "No data found for item"),
        other => panic!("expected an extraction error, got {:?}", other),
    }
}

#[test]
fn single_item_keeps_only_matched_fields() {
    let names = strings(&["title", "url"]);
    let values = strings(&["hello", ""]);
    let item = build_single_item(&names, &values).unwrap();
    assert_eq!(item.fields, vec![("title".to_string(), "hello".to_string())]);
}

#[test]
fn css_prefix_is_added_only_when_missing() {
    assert_eq!(with_css_prefix(&".t".to_string()), "css:.t");
    assert_eq!(with_css_prefix(&"xpath://a".to_string()), "xpath://a");
    assert_eq!(with_css_prefix(&"css:.t".to_string()), "css:.t");
}

#[test]
fn selector_body_strips_the_language_tag() {
    assert_eq!(selector_body(&"css:.t".to_string()), ".t");
    assert_eq!(selector_body(&".t".to_string()), ".t");
    assert_eq!(selector_body(&"xpath://a".to_string()), "//a");
}

#[test]
fn combined_query_scopes_the_rule_under_the_root() {
    assert_eq!(
        combined_query(&".item".to_string(), &"css:.t".to_string()),
        "css:.item .t"
    );
    assert_eq!(combined_query(&".item".to_string(), &".t".to_string()), "css:.item .t");
}

#[test]
fn end_to_end_two_items_from_two_containers() {
    // start_urls=["http://x/a"], root_selector=".item", one Text rule on
    // ".t": a document with two .item nodes each holding one .t node
    // yields exactly 2 items, each with one "title" field and no others
    let spider = GenericSpider::new(
        "demo".to_string(),
        strings(&["http://x/a"]),
        Some(".item".to_string()),
        vec![("title".to_string(), rule(".t"))],
    );
    let html = "<html><body>\
        <div class=\"item\"><span class=\"t\">One</span></div>\
        <div class=\"item\"><span class=\"t\">Two</span></div>\
        </body></html>";
    let items = spider.extract_from_html(html.to_string());
    assert_eq!(items.len(), 2);
    assert_eq!(items[0].fields, vec![("title".to_string(), "One".to_string())]);
    assert_eq!(items[1].fields, vec![("title".to_string(), "Two".to_string())]);
}

#[test]
fn end_to_end_single_item_mode() {
    let spider = GenericSpider::new(
        "demo".to_string(),
        strings(&["http://x/a"]),
        None,
        vec![
            ("title".to_string(), rule(".t")),
            ("missing".to_string(), rule(".nope")),
        ],
    );
    let html = "<html><body><span class=\"t\">Hello</span></body></html>";
    let items = spider.extract_from_html(html.to_string());
    assert_eq!(items.len(), 1);
    assert_eq!(items[0].fields, vec![("title".to_string(), "Hello".to_string())]);
}

#[test]
fn end_to_end_single_item_mode_without_matches_yields_nothing() {
    let spider = GenericSpider::new(
        "demo".to_string(),
        strings(&["http://x/a"]),
        None,
        vec![("title".to_string(), rule(".t"))],
    );
    let html = "<html><body><span class=\"u\">Hello</span></body></html>";
    let items = spider.extract_from_html(html.to_string());
    assert_eq!(items.len(), 0);
}

#[test]
fn spider_exposes_its_definition() {
    let spider = GenericSpider::new(
        "demo".to_string(),
        strings(&["http://x/a", "http://x/b"]),
        None,
        vec![],
    );
    assert_eq!(spider.name(), "demo");
    assert_eq!(spider.start_urls(), &strings(&["http://x/a", "http://x/b"]));
}

#[test]
fn error_messages_carry_their_text() {
    assert_eq!(Error::Config("c".to_string()).message(), "c");
    assert_eq!(Error::Fetch("f".to_string()).message(), "f");
    assert_eq!(Error::Extraction("e".to_string()).message(), "e");
    assert_eq!(Error::Sink("s".to_string()).message(), "s");
    assert_eq!(Error::Internal("i".to_string()).message(), "i");
}
