use vstd::prelude::*;

verus! {

/// One element of a parsed document: tag name, attributes in document
/// order, and the index of the parent element, if any.
#[derive(Debug, Clone)]
pub struct HtmlNode {
    pub tag: String,
    pub attrs: Vec<(String, String)>,
    pub parent: Option<usize>,
}

/// First value bound to `key` in an attribute list.
pub open spec fn attr_in(attrs: Seq<(String, String)>, key: Seq<char>) -> Option<Seq<char>>
    decreases attrs.len(),
{
    if attrs.len() == 0 {
        None
    } else if attrs[0].0@ == key {
        Some(attrs[0].1@)
    } else {
        attr_in(attrs.drop_first(), key)
    }
}

impl HtmlNode {
    pub open spec fn spec_attr(&self, key: Seq<char>) -> Option<Seq<char>> {
        attr_in(self.attrs@, key)
    }

    /// Value of the attribute named `key`, if present.
    pub fn attr(&self, key: &str) -> (r: Option<&String>)
        ensures
            match r {
                Some(v) => self.spec_attr(key@) == Some(v@),
                None => self.spec_attr(key@) is None,
            },
    {
        let n = self.attrs.len();
        let mut i: usize = 0;
        proof {
            assert(self.attrs@.skip(0) =~= self.attrs@);
        }
        while i < n
            invariant
                i <= n,
                n == self.attrs@.len(),
                attr_in(self.attrs@, key@) == attr_in(self.attrs@.skip(i as int), key@),
            decreases n - i,
        {
            let owned_key = key.to_owned();
            if self.attrs[i].0 == owned_key {
                proof {
                    assert(self.attrs@.skip(i as int)[0] == self.attrs@[i as int]);
                }
                return Some(&self.attrs[i].1);
            }
            proof {
                assert(self.attrs@.skip(i as int)[0] == self.attrs@[i as int]);
                assert(self.attrs@.skip(i as int).drop_first() =~= self.attrs@.skip(i + 1));
            }
            i = i + 1;
        }
        None
    }
}

/// A parsed document: elements in document order, each pointing to a
/// parent that comes strictly earlier. The strict ordering makes every
/// parent chain finite.
#[derive(Debug, Clone)]
pub struct HtmlDoc {
    pub nodes: Vec<HtmlNode>,
}

impl HtmlDoc {
    /// Parent pointers only ever point to earlier nodes.
    pub open spec fn parent_ok(&self, i: int) -> bool {
        match self.nodes@[i].parent {
            Some(p) => p < i,
            None => true,
        }
    }

    pub open spec fn wf(&self) -> bool {
        forall|i: int| 0 <= i < self.nodes@.len() ==> #[trigger] self.parent_ok(i)
    }

    pub fn new() -> (d: HtmlDoc)
        ensures
            d.nodes@.len() == 0,
            d.wf(),
    {
        HtmlDoc { nodes: Vec::new() }
    }

    pub fn len(&self) -> (n: usize)
        ensures
            n == self.nodes@.len(),
    {
        self.nodes.len()
    }

    /// Appends an element; its parent, when given, must already be in
    /// the document, which keeps the document well-formed.
    pub fn add_node(&mut self, tag: String, attrs: Vec<(String, String)>, parent: Option<usize>)
        -> (idx: usize)
        requires
            old(self).wf(),
            match parent {
                Some(p) => p < old(self).nodes@.len(),
                None => true,
            },
        ensures
            final(self).wf(),
            idx == old(self).nodes@.len(),
            final(self).nodes@ == old(self).nodes@.push((HtmlNode { tag, attrs, parent })),
    {
        let idx = self.nodes.len();
        self.nodes.push(HtmlNode { tag, attrs, parent });
        proof {
            assert forall|i: int| 0 <= i < self.nodes@.len() implies #[trigger] self.parent_ok(i) by {
                if i < idx {
                    assert(old(self).parent_ok(i));
                    assert(self.nodes@[i] == old(self).nodes@[i]);
                }
            }
        }
        idx
    }
}

} // verus!
