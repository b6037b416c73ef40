use vstd::prelude::*;
use vstd::string::*;

use crate::error::Error;
use crate::spider::ExtractionRule;

verus! {

pub fn default_concurrency() -> (c: usize)
    ensures
        c == 2,
{
    2
}

pub fn default_delay() -> (d: u64)
    ensures
        d == 500,
{
    500
}

pub fn default_table_name() -> (t: String)
    ensures
        t@ == "scraped_data"@,
{
    String::from_str("scraped_data")
}

/// Where extracted items go.
#[derive(Debug, Clone)]
pub enum OutputConfig {
    Console,
    Json { path: String },
    Csv { path: String },
    Sqlite { path: String, table: String },
}

/// One crawl definition as declared by a configuration document.
/// `extends` names an optional parent document to inherit from.
#[derive(Debug, Clone)]
pub struct SpiderConfig {
    pub name: String,
    pub start_urls: Vec<String>,
    pub root_selector: Option<String>,
    pub extraction_rules: Vec<(String, ExtractionRule)>,
    pub concurrency: usize,
    pub delay_ms: u64,
    pub output: Option<OutputConfig>,
    pub extends: Option<String>,
}

/// First rule bound to `key`, scanning in order.
pub open spec fn find_rule(rules: Seq<(String, ExtractionRule)>, key: Seq<char>) -> Option<
    ExtractionRule,
>
    decreases rules.len(),
{
    if rules.len() == 0 {
        None
    } else if rules[0].0@ == key {
        Some(rules[0].1)
    } else {
        find_rule(rules.drop_first(), key)
    }
}

/// No two entries share a field name.
pub open spec fn unique_keys(rules: Seq<(String, ExtractionRule)>) -> bool {
    forall|a: int, b: int| 0 <= a < b < rules.len() ==> rules[a].0@ != rules[b].0@
}

/// What validation demands of a fully merged configuration: a name, at
/// least one start URL, a concurrency of at least one, and no empty
/// rule selector.
pub open spec fn valid_config(c: SpiderConfig) -> bool {
    &&& c.name@.len() > 0
    &&& c.start_urls@.len() > 0
    &&& c.concurrency >= 1
    &&& forall|j: int|
        0 <= j < c.extraction_rules@.len() ==> #[trigger] c.extraction_rules@[j].1.selector@.len()
            > 0
}

/// How a child document overrides its parent: non-default scalar
/// fields win, rule mappings union by key with the child taking
/// precedence, and the merged document inherits from nothing further.
pub open spec fn merged_spec(parent: SpiderConfig, child: SpiderConfig, m: SpiderConfig) -> bool {
    &&& m.name == (if child.name@.len() > 0 {
        child.name
    } else {
        parent.name
    })
    &&& m.start_urls == (if child.start_urls@.len() > 0 {
        child.start_urls
    } else {
        parent.start_urls
    })
    &&& m.root_selector == (if child.root_selector is Some {
        child.root_selector
    } else {
        parent.root_selector
    })
    &&& m.concurrency == (if child.concurrency != 2 {
        child.concurrency
    } else {
        parent.concurrency
    })
    &&& m.delay_ms == (if child.delay_ms != 500 {
        child.delay_ms
    } else {
        parent.delay_ms
    })
    &&& m.output == (if child.output is Some {
        child.output
    } else {
        parent.output
    })
    &&& m.extends is None
    &&& unique_keys(m.extraction_rules@)
    &&& forall|q: Seq<char>|
        #![trigger find_rule(m.extraction_rules@, q)]
        find_rule(m.extraction_rules@, q) == (match find_rule(child.extraction_rules@, q) {
            Some(r) => Some(r),
            None => find_rule(parent.extraction_rules@, q),
        })
}

proof fn lemma_find_rule_update(
    t: Seq<(String, ExtractionRule)>,
    i: int,
    p: (String, ExtractionRule),
    q: Seq<char>,
)
    requires
        0 <= i < t.len(),
        forall|j: int| 0 <= j < i ==> t[j].0@ != p.0@,
        t[i].0@ == p.0@,
    ensures
        find_rule(t.update(i, p), q) == (if q == p.0@ {
            Some(p.1)
        } else {
            find_rule(t, q)
        }),
    decreases i,
{
    if i == 0 {
        assert(t.update(0, p)[0] == p);
        if q != p.0@ {
            assert(t.update(0, p).drop_first() =~= t.drop_first());
        }
    } else {
        assert(t.update(i, p)[0] == t[0]);
        assert(t[0].0@ != p.0@);
        if q == t[0].0@ {
        } else {
            assert(t.update(i, p).drop_first() =~= t.drop_first().update(i - 1, p));
            assert forall|j: int| 0 <= j < i - 1 implies t.drop_first()[j].0@ != p.0@ by {
                assert(t.drop_first()[j] == t[j + 1]);
            }
            assert(t.drop_first()[i - 1] == t[i]);
            lemma_find_rule_update(t.drop_first(), i - 1, p, q);
        }
    }
}

proof fn lemma_find_rule_push(
    t: Seq<(String, ExtractionRule)>,
    p: (String, ExtractionRule),
    q: Seq<char>,
)
    ensures
        find_rule(t.push(p), q) == (match find_rule(t, q) {
            Some(r) => Some(r),
            None => if p.0@ == q {
                Some(p.1)
            } else {
                None
            },
        }),
    decreases t.len(),
{
    if t.len() == 0 {
        assert(t =~= Seq::<(String, ExtractionRule)>::empty());
        assert(t.push(p)[0] == p);
        assert(t.push(p).drop_first() =~= t);
    } else {
        assert(t.push(p)[0] == t[0]);
        assert(t.push(p).drop_first() =~= t.drop_first().push(p));
        lemma_find_rule_push(t.drop_first(), p, q);
    }
}

/// Inserts or replaces the rule bound to `key`, keeping keys unique.
fn upsert_rule(rules: &mut Vec<(String, ExtractionRule)>, key: String, rule: ExtractionRule)
    requires
        unique_keys(old(rules)@),
    ensures
        unique_keys(final(rules)@),
        forall|q: Seq<char>|
            #![trigger find_rule(final(rules)@, q)]
            find_rule(final(rules)@, q) == (if q == key@ {
                Some(rule)
            } else {
                find_rule(old(rules)@, q)
            }),
{
    let n = rules.len();
    let mut i: usize = 0;
    while i < n
        invariant
            i <= n,
            n == rules@.len(),
            rules@ == old(rules)@,
            unique_keys(rules@),
            forall|j: int| 0 <= j < i ==> rules@[j].0@ != key@,
        decreases n - i,
    {
        if rules[i].0.eq(&key) {
            let ghost before = rules@;
            rules.set(i, (key, rule));
            proof {
                assert(rules@ =~= before.update(i as int, (key, rule)));
                assert forall|q: Seq<char>|
                    #![trigger find_rule(rules@, q)]
                    find_rule(rules@, q) == (if q == key@ {
                        Some(rule)
                    } else {
                        find_rule(before, q)
                    }) by {
                    lemma_find_rule_update(before, i as int, (key, rule), q);
                }
                assert forall|a: int, b: int|
                    0 <= a < b < rules@.len() implies rules@[a].0@ != rules@[b].0@ by {
                    if a != i && b != i {
                        assert(rules@[a] == before[a] && rules@[b] == before[b]);
                    } else if a == i {
                        assert(before[i as int].0@ == key@ && rules@[b] == before[b]);
                    } else {
                        assert(before[i as int].0@ == key@ && rules@[a] == before[a]);
                    }
                }
            }
            return;
        }
        i = i + 1;
    }
    let ghost before = rules@;
    rules.push((key, rule));
    proof {
        assert forall|q: Seq<char>|
            #![trigger find_rule(rules@, q)]
            find_rule(rules@, q) == (if q == key@ {
                Some(rule)
            } else {
                find_rule(before, q)
            }) by {
            lemma_find_rule_push(before, (key, rule), q);
            if q == key@ && find_rule(before, q) is Some {
                lemma_find_rule_key_present(before, q);
            }
        }
        assert forall|a: int, b: int|
            0 <= a < b < rules@.len() implies rules@[a].0@ != rules@[b].0@ by {
            if b == before.len() {
                assert(rules@[a] == before[a]);
            } else {
                assert(rules@[a] == before[a] && rules@[b] == before[b]);
            }
        }
    }
}

/// A successful lookup names the key of some entry.
proof fn lemma_find_rule_key_present(t: Seq<(String, ExtractionRule)>, q: Seq<char>)
    requires
        find_rule(t, q) is Some,
    ensures
        exists|j: int| 0 <= j < t.len() && #[trigger] t[j].0@ == q,
    decreases t.len(),
{
    if t.len() == 0 {
    } else if t[0].0@ == q {
        assert(t[0].0@ == q);
    } else {
        lemma_find_rule_key_present(t.drop_first(), q);
        let j = choose|j: int| 0 <= j < t.drop_first().len() && #[trigger] t.drop_first()[j].0@ == q;
        assert(t[j + 1].0@ == q);
    }
}

/// Stateful resolver of layered configuration inheritance: the caller
/// reads and parses documents, the resolver decides what to read next,
/// detects cycles, merges the chain, and validates the result.
pub struct ConfigLoader {
    visited: Vec<String>,
    chain: Vec<SpiderConfig>,
}

/// What the resolver asks for next.
#[derive(Debug)]
pub enum ResolveStep {
    /// Read and parse this parent document (a path relative to the
    /// current document) and offer it next.
    NeedParent(String),
    /// The chain is complete: the merged, validated configuration.
    Resolved(SpiderConfig),
}

/// The merged outcomes a configuration chain can resolve to; the first
/// element is the most derived document.
pub open spec fn resolves_to(chain: Seq<SpiderConfig>, m: SpiderConfig) -> bool
    decreases chain.len(),
{
    if chain.len() == 0 {
        false
    } else if chain.len() == 1 {
        m == chain[0]
    } else {
        exists|mid: SpiderConfig|
            resolves_to(chain.drop_first(), mid) && #[trigger] merged_spec(mid, chain[0], m)
    }
}

impl ConfigLoader {
    pub closed spec fn spec_visited(&self) -> Seq<String> {
        self.visited@
    }

    pub closed spec fn spec_chain(&self) -> Seq<SpiderConfig> {
        self.chain@
    }

    pub open spec fn wf(&self) -> bool {
        forall|j: int|
            0 <= j < self.spec_chain().len() ==> unique_keys(
                #[trigger] self.spec_chain()[j].extraction_rules@,
            )
    }

    /// Has this canonical path been offered before?
    pub open spec fn spec_seen(&self, path: Seq<char>) -> bool {
        exists|j: int| 0 <= j < self.spec_visited().len() && #[trigger] self.spec_visited()[j]@
            == path
    }

    pub fn new() -> (r: ConfigLoader)
        ensures
            r.spec_visited() == Seq::<String>::empty(),
            r.spec_chain() == Seq::<SpiderConfig>::empty(),
            r.wf(),
    {
        ConfigLoader { visited: Vec::new(), chain: Vec::new() }
    }

    /// Hands the resolver the document found at `canonical_path`.
    /// A repeated path is a cycle and fails before anything else is
    /// read; a document with a parent reference asks for that parent;
    /// otherwise the chain is merged bottom-up and validated.
    pub fn offer(&mut self, canonical_path: String, config: SpiderConfig) -> (r: Result<
        ResolveStep,
        Error,
    >)
        requires
            old(self).wf(),
            unique_keys(config.extraction_rules@),
        ensures
            final(self).wf(),
            match r {
                Ok(step) => !old(self).spec_seen(canonical_path@) && match step {
                    ResolveStep::NeedParent(p) => config.extends == Some(p)
                        && final(self).spec_chain() == old(self).spec_chain().push(config)
                        && final(self).spec_visited() == old(self).spec_visited().push(canonical_path),
                    ResolveStep::Resolved(m) => config.extends is None && resolves_to(
                        old(self).spec_chain().push(config),
                        m,
                    ) && valid_config(m),
                },
                Err(e) => e is Config && ((old(self).spec_seen(canonical_path@)
                    && e.spec_message()
                    == "Circular inheritance detected in configuration chain"@) || (!old(
                    self,
                ).spec_seen(canonical_path@) && config.extends is None && exists|m: SpiderConfig|
                    #[trigger] resolves_to(old(self).spec_chain().push(config), m)
                        && !valid_config(m))),
            },
    {
        let n = self.visited.len();
        let mut i: usize = 0;
        while i < n
            invariant
                *self == *old(self),
                old(self).wf(),
                i <= n,
                n == self.visited@.len(),
                forall|j: int| 0 <= j < i ==> self.visited@[j]@ != canonical_path@,
            decreases n - i,
        {
            if self.visited[i].eq(&canonical_path) {
                proof {
                    assert(self.spec_visited()[i as int]@ == canonical_path@);
                    assert(self.spec_seen(canonical_path@));
                }
                return Err(Error::Config(String::from_str(
                    "Circular inheritance detected in configuration chain",
                )));
            }
            i = i + 1;
        }
        self.visited.push(canonical_path);
        match &config.extends {
            Some(parent_path) => {
                let p = parent_path.clone();
                self.chain.push(config);
                Ok(ResolveStep::NeedParent(p))
            },
            None => {
                self.chain.push(config);
                let ghost full_chain = self.chain@;
                let mut merged = match self.chain.pop() {
                    Some(c) => c,
                    None => {
                        return Err(Error::Config(String::from_str(
                            "Configuration chain is empty",
                        )));
                    },
                };
                proof {
                    assert(full_chain.skip(full_chain.len() - 1)[0] == full_chain.last());
                    assert(resolves_to(full_chain.skip(full_chain.len() - 1), merged));
                }
                while self.chain.len() > 0
                    invariant
                        self.chain@.len() <= full_chain.len(),
                        self.chain@ == full_chain.take(self.chain@.len() as int),
                        resolves_to(full_chain.skip(self.chain@.len() as int), merged),
                        unique_keys(merged.extraction_rules@),
                        forall|j: int|
                            0 <= j < full_chain.len() ==> unique_keys(
                                #[trigger] full_chain[j].extraction_rules@,
                            ),
                    decreases self.chain@.len(),
                {
                    let next = match self.chain.pop() {
                        Some(c) => c,
                        None => {
                            return Err(Error::Config(String::from_str(
                                "Configuration chain is empty",
                            )));
                        },
                    };
                    let ghost idx = self.chain@.len() as int;
                    proof {
                        assert(next == full_chain[idx]);
                    }
                    merged = merge_configs(merged, next);
                    proof {
                        assert(full_chain.skip(idx)[0] == full_chain[idx]);
                        assert(full_chain.skip(idx).drop_first() =~= full_chain.skip(idx + 1));
                    }
                }
                proof {
                    assert(full_chain.skip(0) =~= full_chain);
                }
                match validate_config(&merged) {
                    Ok(_) => Ok(ResolveStep::Resolved(merged)),
                    Err(e) => Err(e),
                }
            },
        }
    }
}

/// Merges a resolved parent with one child document: the child's
/// non-default fields override, rule mappings union per key with the
/// child winning collisions, and the result inherits from nothing.
pub fn merge_configs(parent: SpiderConfig, child: SpiderConfig) -> (m: SpiderConfig)
    requires
        unique_keys(parent.extraction_rules@),
        unique_keys(child.extraction_rules@),
    ensures
        merged_spec(parent, child, m),
{
    let ghost child0 = child;
    let mut merged = parent;
    let SpiderConfig {
        name: c_name,
        start_urls: c_urls,
        root_selector: c_root,
        extraction_rules: c_rules,
        concurrency: c_conc,
        delay_ms: c_delay,
        output: c_output,
        extends: _c_extends,
    } = child;
    if !c_name.as_str().is_empty() {
        merged.name = c_name;
    }
    if c_urls.len() > 0 {
        merged.start_urls = c_urls;
    }
    if c_root.is_some() {
        merged.root_selector = c_root;
    }
    if c_conc != 2 {
        merged.concurrency = c_conc;
    }
    if c_delay != 500 {
        merged.delay_ms = c_delay;
    }
    if c_output.is_some() {
        merged.output = c_output;
    }
    merged.extends = None;
    let mut rest = c_rules;
    proof {
        assert(child0.extraction_rules@.skip(0) =~= child0.extraction_rules@);
        assert(child0.extraction_rules@.take(0) =~= Seq::<(String, ExtractionRule)>::empty());
    }
    while rest.len() > 0
        invariant
            rest@.len() <= child0.extraction_rules@.len(),
            unique_keys(parent.extraction_rules@),
            unique_keys(child0.extraction_rules@),
            merged.name == (if child0.name@.len() > 0 {
                child0.name
            } else {
                parent.name
            }),
            merged.start_urls == (if child0.start_urls@.len() > 0 {
                child0.start_urls
            } else {
                parent.start_urls
            }),
            merged.root_selector == (if child0.root_selector is Some {
                child0.root_selector
            } else {
                parent.root_selector
            }),
            merged.concurrency == (if child0.concurrency != 2 {
                child0.concurrency
            } else {
                parent.concurrency
            }),
            merged.delay_ms == (if child0.delay_ms != 500 {
                child0.delay_ms
            } else {
                parent.delay_ms
            }),
            merged.output == (if child0.output is Some {
                child0.output
            } else {
                parent.output
            }),
            merged.extends is None,
            unique_keys(merged.extraction_rules@),
            rest@ == child0.extraction_rules@.skip(
                child0.extraction_rules@.len() - rest@.len(),
            ),
            forall|q: Seq<char>|
                #![trigger find_rule(merged.extraction_rules@, q)]
                find_rule(merged.extraction_rules@, q) == (match find_rule(
                    child0.extraction_rules@.take(child0.extraction_rules@.len() - rest@.len()),
                    q,
                ) {
                    Some(r) => Some(r),
                    None => find_rule(parent.extraction_rules@, q),
                }),
        decreases rest@.len(),
    {
        let ghost done = child0.extraction_rules@.len() - rest@.len();
        let pair = rest.remove(0);
        proof {
            assert(pair == child0.extraction_rules@[done]);
            assert(rest@ =~= child0.extraction_rules@.skip(done + 1));
        }
        let ghost before = merged.extraction_rules@;
        upsert_rule(&mut merged.extraction_rules, pair.0, pair.1);
        proof {
            let prefix = child0.extraction_rules@.take(done);
            let prefix1 = child0.extraction_rules@.take(done + 1);
            assert(prefix1 =~= prefix.push(child0.extraction_rules@[done]));
            assert forall|q: Seq<char>|
                #![trigger find_rule(merged.extraction_rules@, q)]
                find_rule(merged.extraction_rules@, q) == (match find_rule(prefix1, q) {
                    Some(r) => Some(r),
                    None => find_rule(parent.extraction_rules@, q),
                }) by {
                lemma_find_rule_push(prefix, child0.extraction_rules@[done], q);
                if q == child0.extraction_rules@[done].0@ && find_rule(prefix, q) is Some {
                    lemma_find_rule_key_present(prefix, q);
                    let j = choose|j: int|
                        0 <= j < prefix.len() && #[trigger] prefix[j].0@ == q;
                    assert(prefix[j] == child0.extraction_rules@[j]);
                    assert(child0.extraction_rules@[j].0@ == q);
                    assert(child0.extraction_rules@[j].0@
                        != child0.extraction_rules@[done].0@);
                }
            }
        }
    }
    proof {
        assert(child0.extraction_rules@.take(child0.extraction_rules@.len() as int)
            =~= child0.extraction_rules@);
    }
    merged
}

/// Validation of the fully merged document: a non-empty name, at least
/// one start URL, a concurrency of at least one, and no empty rule
/// selector.
pub fn validate_config(config: &SpiderConfig) -> (r: Result<(), Error>)
    ensures
        r is Ok <==> valid_config(*config),
        r matches Err(e) ==> e is Config && e.spec_message() == (if config.name@.len() == 0 {
            "name must not be empty"@
        } else if config.start_urls@.len() == 0 {
            "start_urls must not be empty"@
        } else if config.concurrency == 0 {
            "concurrency must be at least 1"@
        } else {
            "rule selector must not be empty"@
        }),
{
    if config.name.as_str().is_empty() {
        return Err(Error::Config(String::from_str("name must not be empty")));
    }
    if config.start_urls.len() == 0 {
        return Err(Error::Config(String::from_str("start_urls must not be empty")));
    }
    if config.concurrency == 0 {
        return Err(Error::Config(String::from_str("concurrency must be at least 1")));
    }
    let n = config.extraction_rules.len();
    let mut i: usize = 0;
    while i < n
        invariant
            i <= n,
            n == config.extraction_rules@.len(),
            config.name@.len() > 0,
            config.start_urls@.len() > 0,
            config.concurrency >= 1,
            forall|j: int|
                0 <= j < i ==> #[trigger] config.extraction_rules@[j].1.selector@.len() > 0,
        decreases n - i,
    {
        if config.extraction_rules[i].1.selector.as_str().is_empty() {
            return Err(Error::Config(String::from_str("rule selector must not be empty")));
        }
        i = i + 1;
    }
    Ok(())
}

/// Overriding only the name in a child leaves every inherited field of
/// the parent intact: start URLs, concurrency, delay, output, and the
/// whole rule mapping.
pub proof fn lemma_merge_name_only_overrides_name(
    parent: SpiderConfig,
    child: SpiderConfig,
    m: SpiderConfig,
)
    requires
        merged_spec(parent, child, m),
        child.name@.len() > 0,
        child.start_urls@.len() == 0,
        child.root_selector is None,
        child.concurrency == 2,
        child.delay_ms == 500,
        child.output is None,
        child.extraction_rules@.len() == 0,
    ensures
        m.name == child.name,
        m.start_urls == parent.start_urls,
        m.root_selector == parent.root_selector,
        m.concurrency == parent.concurrency,
        m.delay_ms == parent.delay_ms,
        m.output == parent.output,
        forall|q: Seq<char>|
            #![trigger find_rule(m.extraction_rules@, q)]
            find_rule(m.extraction_rules@, q) == find_rule(parent.extraction_rules@, q),
{
}

} // verus!
