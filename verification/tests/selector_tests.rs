use crawler::dom::HtmlDoc;
use crawler::selector::CssSelector;

fn node(doc: &mut HtmlDoc, tag: &str, attrs: &[(&str, &str)], parent: Option<usize>) -> usize {
    let attrs: Vec<(String, String)> = attrs
        .iter()
        .map(|(k, v)| (k.to_string(), v.to_string()))
        .collect();
    doc.add_node(tag.to_string(), attrs, parent)
}

#[test]
fn class_matches_whole_tokens_only() {
    let sel = CssSelector::Class("bar".to_string());

    let mut doc = HtmlDoc::new();
    let a = node(&mut doc, "div", &[("class", "foo bar")], None);
    let b = node(&mut doc, "div", &[("class", "bar foo")], None);
    let c = node(&mut doc, "div", &[("class", "ba")], None);
    let d = node(&mut doc, "div", &[("class", "barfoot")], None);

    assert!(sel.matches(&doc, a));
    assert!(sel.matches(&doc, b));
    assert!(!sel.matches(&doc, c));
    assert!(!sel.matches(&doc, d));
}

#[test]
fn class_requires_class_attribute() {
    let sel = CssSelector::Class("bar".to_string());
    let mut doc = HtmlDoc::new();
    let a = node(&mut doc, "div", &[("id", "bar")], None);
    assert!(!sel.matches(&doc, a));
}

#[test]
fn tag_id_and_attribute_matching() {
    let mut doc = HtmlDoc::new();
    let a = node(&mut doc, "a", &[("id", "main"), ("href", "http://x")], None);

    assert!(CssSelector::Tag("a".to_string()).matches(&doc, a));
    assert!(!CssSelector::Tag("div".to_string()).matches(&doc, a));
    assert!(CssSelector::Id("main".to_string()).matches(&doc, a));
    assert!(!CssSelector::Id("other".to_string()).matches(&doc, a));
    assert!(CssSelector::Attribute { key: "href".to_string(), value: None }.matches(&doc, a));
    assert!(CssSelector::Attribute {
        key: "href".to_string(),
        value: Some("http://x".to_string())
    }
    .matches(&doc, a));
    assert!(!CssSelector::Attribute {
        key: "href".to_string(),
        value: Some("http://y".to_string())
    }
    .matches(&doc, a));
    assert!(!CssSelector::Attribute { key: "rel".to_string(), value: None }.matches(&doc, a));
}

#[test]
fn empty_and_is_vacuously_true() {
    let mut doc = HtmlDoc::new();
    let a = node(&mut doc, "div", &[], None);
    assert!(CssSelector::And(vec![]).matches(&doc, a));
}

#[test]
fn empty_or_is_vacuously_false() {
    let mut doc = HtmlDoc::new();
    let a = node(&mut doc, "div", &[], None);
    assert!(!CssSelector::Or(vec![]).matches(&doc, a));
}

#[test]
fn and_or_combinations() {
    let mut doc = HtmlDoc::new();
    let a = node(&mut doc, "div", &[("class", "quote big")], None);
    let both = CssSelector::And(vec![
        CssSelector::Tag("div".to_string()),
        CssSelector::Class("quote".to_string()),
    ]);
    let neither = CssSelector::And(vec![
        CssSelector::Tag("span".to_string()),
        CssSelector::Class("quote".to_string()),
    ]);
    let either = CssSelector::Or(vec![
        CssSelector::Tag("span".to_string()),
        CssSelector::Class("quote".to_string()),
    ]);
    assert!(both.matches(&doc, a));
    assert!(!neither.matches(&doc, a));
    assert!(either.matches(&doc, a));
}

#[test]
fn descendant_never_uses_the_node_itself() {
    let mut doc = HtmlDoc::new();
    let root = node(&mut doc, "div", &[("class", "anc")], None);
    let leaf = node(&mut doc, "span", &[("class", "x")], Some(root));

    // the node matches both halves, but it is not its own ancestor
    let self_only = CssSelector::Descendant {
        ancestor: Box::new(CssSelector::Class("x".to_string())),
        descendant: Box::new(CssSelector::Class("x".to_string())),
    };
    assert!(!self_only.matches(&doc, leaf));

    let real = CssSelector::Descendant {
        ancestor: Box::new(CssSelector::Class("anc".to_string())),
        descendant: Box::new(CssSelector::Class("x".to_string())),
    };
    assert!(real.matches(&doc, leaf));
}

#[test]
fn descendant_walks_beyond_one_level() {
    let mut doc = HtmlDoc::new();
    let gp = node(&mut doc, "div", &[("class", "gp")], None);
    let p = node(&mut doc, "div", &[("class", "p")], Some(gp));
    let c = node(&mut doc, "span", &[("class", "c")], Some(p));

    let sel = CssSelector::Descendant {
        ancestor: Box::new(CssSelector::Class("gp".to_string())),
        descendant: Box::new(CssSelector::Class("c".to_string())),
    };
    assert!(sel.matches(&doc, c));
}

#[test]
fn child_requires_exactly_one_level() {
    let mut doc = HtmlDoc::new();
    let gp = node(&mut doc, "div", &[("class", "gp")], None);
    let p = node(&mut doc, "div", &[("class", "p")], Some(gp));
    let c = node(&mut doc, "span", &[("class", "c")], Some(p));

    let grandparent_only = CssSelector::Child {
        parent: Box::new(CssSelector::Class("gp".to_string())),
        child: Box::new(CssSelector::Class("c".to_string())),
    };
    assert!(!grandparent_only.matches(&doc, c));

    let direct = CssSelector::Child {
        parent: Box::new(CssSelector::Class("p".to_string())),
        child: Box::new(CssSelector::Class("c".to_string())),
    };
    assert!(direct.matches(&doc, c));

    let no_parent = CssSelector::Child {
        parent: Box::new(CssSelector::Class("p".to_string())),
        child: Box::new(CssSelector::Class("gp".to_string())),
    };
    assert!(!no_parent.matches(&doc, gp));
}

#[test]
fn to_css_string_renders_every_form() {
    assert_eq!(CssSelector::Tag("div".to_string()).to_css_string(), "div");
    assert_eq!(CssSelector::Class("x".to_string()).to_css_string(), ".x");
    assert_eq!(CssSelector::Id("m".to_string()).to_css_string(), "#m");
    assert_eq!(
        CssSelector::Attribute { key: "k".to_string(), value: Some("v".to_string()) }
            .to_css_string(),
        "[k='v']"
    );
    assert_eq!(
        CssSelector::Attribute { key: "k".to_string(), value: None }.to_css_string(),
        "[k]"
    );
    assert_eq!(
        CssSelector::And(vec![
            CssSelector::Tag("div".to_string()),
            CssSelector::Class("x".to_string()),
        ])
        .to_css_string(),
        "div.x"
    );
    assert_eq!(
        CssSelector::Or(vec![
            CssSelector::Tag("div".to_string()),
            CssSelector::Class("x".to_string()),
        ])
        .to_css_string(),
        "div, .x"
    );
    assert_eq!(
        CssSelector::Descendant {
            ancestor: Box::new(CssSelector::Class("a".to_string())),
            descendant: Box::new(CssSelector::Class("b".to_string())),
        }
        .to_css_string(),
        ".a .b"
    );
    assert_eq!(
        CssSelector::Child {
            parent: Box::new(CssSelector::Class("a".to_string())),
            child: Box::new(CssSelector::Class("b".to_string())),
        }
        .to_css_string(),
        ".a > .b"
    );
    assert_eq!(CssSelector::And(vec![]).to_css_string(), "");
    assert_eq!(CssSelector::Or(vec![]).to_css_string(), "");
}
