use crawler::config::{
    default_concurrency, default_delay, default_table_name, merge_configs, validate_config,
    ConfigLoader, OutputConfig, ResolveStep, SpiderConfig,
};
use crawler::error::Error;
use crawler::spider::{ExtractionRule, ExtractionType};

fn rule(selector: &str) -> ExtractionRule {
    ExtractionRule { selector: selector.to_string(), extract: ExtractionType::Text }
}

fn base_config(name: &str) -> SpiderConfig {
    SpiderConfig {
        name: name.to_string(),
        start_urls: vec![],
        root_selector: None,
        extraction_rules: vec![],
        concurrency: 2,
        delay_ms: 500,
        output: None,
        extends: None,
    }
}

fn parent_config() -> SpiderConfig {
    SpiderConfig {
        name: "base".to_string(),
        start_urls: vec!["http://x/a".to_string()],
        root_selector: Some(".item".to_string()),
        extraction_rules: vec![
            ("title".to_string(), rule(".t")),
            ("url".to_string(), rule(".u")),
        ],
        concurrency: 4,
        delay_ms: 100,
        output: Some(OutputConfig::Console),
        extends: None,
    }
}

#[test]
fn defaults_match_the_schema() {
    assert_eq!(default_concurrency(), 2);
    assert_eq!(default_delay(), 500);
    assert_eq!(default_table_name(), "scraped_data");
}

#[test]
fn overriding_only_the_name_keeps_everything_else() {
    let mut child = base_config("child");
    child.extends = Some("base.yml".to_string());
    let m = merge_configs(parent_config(), child);

    assert_eq!(m.name, "child");
    assert_eq!(m.start_urls, vec!["http://x/a".to_string()]);
    assert_eq!(m.root_selector, Some(".item".to_string()));
    assert_eq!(m.concurrency, 4);
    assert_eq!(m.delay_ms, 100);
    assert!(matches!(m.output, Some(OutputConfig::Console)));
    assert_eq!(m.extends, None);
    assert_eq!(m.extraction_rules.len(), 2);
    assert_eq!(m.extraction_rules[0].0, "title");
    assert_eq!(m.extraction_rules[0].1.selector, ".t");
    assert_eq!(m.extraction_rules[1].0, "url");
    assert_eq!(m.extraction_rules[1].1.selector, ".u");
}

#[test]
fn rule_merge_is_a_per_key_union_with_child_precedence() {
    let mut child = base_config("");
    child.extraction_rules = vec![
        ("url".to_string(), rule(".better-u")),
        ("price".to_string(), rule(".p")),
    ];
    let m = merge_configs(parent_config(), child);

    assert_eq!(m.extraction_rules.len(), 3);
    assert_eq!(m.extraction_rules[0].0, "title");
    assert_eq!(m.extraction_rules[0].1.selector, ".t");
    assert_eq!(m.extraction_rules[1].0, "url");
    assert_eq!(m.extraction_rules[1].1.selector, ".better-u");
    assert_eq!(m.extraction_rules[2].0, "price");
    assert_eq!(m.extraction_rules[2].1.selector, ".p");
}

#[test]
fn non_default_scalars_override() {
    let mut child = base_config("");
    child.concurrency = 8;
    child.delay_ms = 50;
    child.start_urls = vec!["http://y/b".to_string()];
    let m = merge_configs(parent_config(), child);
    assert_eq!(m.name, "base");
    assert_eq!(m.concurrency, 8);
    assert_eq!(m.delay_ms, 50);
    assert_eq!(m.start_urls, vec!["http://y/b".to_string()]);
}

#[test]
fn resolver_resolves_a_two_document_chain() {
    let mut loader = ConfigLoader::new();
    let mut child = base_config("child");
    child.extends = Some("base.yml".to_string());

    let step = loader.offer("/etc/spiders/child.yml".to_string(), child).unwrap();
    let parent_rel = match step {
        ResolveStep::NeedParent(p) => p,
        other => panic!("expected a parent request, got {:?}", other),
    };
    assert_eq!(parent_rel, "base.yml");

    let step = loader.offer("/etc/spiders/base.yml".to_string(), parent_config()).unwrap();
    match step {
        ResolveStep::Resolved(m) => {
            assert_eq!(m.name, "child");
            assert_eq!(m.start_urls, vec!["http://x/a".to_string()]);
            assert_eq!(m.concurrency, 4);
            assert_eq!(m.extraction_rules.len(), 2);
        },
        other => panic!("expected a resolved configuration, got {:?}", other),
    }
}

#[test]
fn three_document_cycle_fails_with_a_config_error() {
    let mut loader = ConfigLoader::new();
    let mut a = base_config("a");
    a.extends = Some("b.yml".to_string());
    let mut b = base_config("b");
    b.extends = Some("c.yml".to_string());
    let mut c = base_config("c");
    c.extends = Some("a.yml".to_string());

    assert!(matches!(
        loader.offer("/s/a.yml".to_string(), a.clone()),
        Ok(ResolveStep::NeedParent(_))
    ));
    assert!(matches!(
        loader.offer("/s/b.yml".to_string(), b),
        Ok(ResolveStep::NeedParent(_))
    ));
    assert!(matches!(
        loader.offer("/s/c.yml".to_string(), c),
        Ok(ResolveStep::NeedParent(_))
    ));
    // the chain closes on itself: the repeated document is refused
    // without any further document being requested
    match loader.offer("/s/a.yml".to_string(), a) {
        Err(Error::Config(msg)) => {
            assert_eq!(msg, "Circular inheritance detected in configuration chain")
        },
        other => panic!("expected a config error, got {:?}", other),
    }
}

#[test]
fn resolver_validates_the_merged_result() {
    let mut loader = ConfigLoader::new();
    let invalid = base_config("named-but-unseeded");
    assert!(matches!(
        loader.offer("/s/solo.yml".to_string(), invalid),
        Err(Error::Config(_))
    ));
}

fn config_error_message(r: Result<(), Error>) -> String {
    match r {
        Err(Error::Config(msg)) => msg,
        other => panic!("expected a config error, got {:?}", other),
    }
}

#[test]
fn validation_spells_out_each_requirement() {
    assert_eq!(
        config_error_message(validate_config(&base_config(""))),
        "name must not be empty"
    );

    let unseeded = base_config("x");
    assert_eq!(
        config_error_message(validate_config(&unseeded)),
        "start_urls must not be empty"
    );

    let mut zero_conc = parent_config();
    zero_conc.concurrency = 0;
    assert_eq!(
        config_error_message(validate_config(&zero_conc)),
        "concurrency must be at least 1"
    );

    let mut empty_selector = parent_config();
    empty_selector.extraction_rules.push(("bad".to_string(), rule("")));
    assert_eq!(
        config_error_message(validate_config(&empty_selector)),
        "rule selector must not be empty"
    );

    assert!(validate_config(&parent_config()).is_ok());
}
