use crate::parser::{parse, parse_template, ParseError, ParseErrorView};
use crate::syntax_tree::{NodeView, SyntaxTree};
use crate::text::{bytes_eq, copy_bytes};
use vstd::prelude::*;

verus! {

/// A template that was parsed: its text and its syntax tree.
#[derive(Debug)]
pub struct CachedTemplate {
    pub source: Vec<u8>,
    pub tree: SyntaxTree,
}

/// The syntax trees of the templates that were asked for, each parsed once and
/// found again by its text.
#[derive(Debug)]
pub struct TemplateCache {
    pub entries: Vec<CachedTemplate>,
}

impl TemplateCache {
    /// Whether every entry holds the tree of its own text, and no text is held twice.
    pub open spec fn wf(&self) -> bool {
        &&& forall|i: int|
            0 <= i < self.entries@.len() ==> parse_template(
                (#[trigger] self.entries@[i]).source@,
            ) == Ok::<Seq<NodeView>, ParseErrorView>(self.entries@[i].tree@)
        &&& forall|i: int, j: int|
            0 <= i < j < self.entries@.len() ==> (#[trigger] self.entries@[i]).source@ != (
            #[trigger] self.entries@[j]).source@
    }

    /// Whether the cache holds the tree of the text.
    pub open spec fn holds(&self, source: Seq<u8>) -> bool {
        exists|i: int| 0 <= i < self.entries@.len() && (#[trigger] self.entries@[i]).source@ == source
    }

    /// A cache that holds nothing.
    pub fn new() -> (r: TemplateCache)
        ensures
            r.wf(),
            r.entries@.len() == 0,
    {
        TemplateCache { entries: Vec::new() }
    }

    /// The index of the entry for the text, where there is one.
    pub fn position(&self, source: &[u8]) -> (r: Option<usize>)
        ensures
            match r {
                Some(i) => i < self.entries@.len() && self.entries@[i as int].source@ == source@,
                None => !self.holds(source@),
            },
    {
        let mut i: usize = 0;
        while i < self.entries.len()
            invariant
                i <= self.entries.len(),
                forall|j: int| 0 <= j < i ==> (#[trigger] self.entries@[j]).source@ != source@,
            decreases self.entries.len() - i,
        {
            if bytes_eq(self.entries[i].source.as_slice(), source) {
                return Some(i);
            }
            i += 1;
        }
        None
    }

    /// The index of the entry for the text. A text that the cache holds is not
    /// parsed again and leaves the cache as it is; one that it does not hold is
    /// parsed, and added where it is a template.
    pub fn get_or_parse(&mut self, source: &[u8]) -> (r: Result<usize, ParseError>)
        requires
            old(self).wf(),
        ensures
            final(self).wf(),
            match r {
                Ok(i) => {
                    &&& i < final(self).entries@.len()
                    &&& final(self).entries@[i as int].source@ == source@
                    &&& parse_template(source@) == Ok::<Seq<NodeView>, ParseErrorView>(
                        final(self).entries@[i as int].tree@,
                    )
                    &&& old(self).holds(source@) ==> final(self).entries@ == old(self).entries@
                    &&& !old(self).holds(source@) ==> i == old(self).entries@.len()
                        && final(self).entries@ == old(self).entries@.push(
                        final(self).entries@[i as int],
                    )
                },
                Err(e) => parse_template(source@) == Err::<Seq<NodeView>, ParseErrorView>(e@)
                    && final(self).entries@ == old(self).entries@,
            },
    {
        match self.position(source) {
            Some(i) => Ok(i),
            None => match parse(source) {
                Err(e) => Err(e),
                Ok(tree) => {
                    let index = self.entries.len();
                    let entry = CachedTemplate { source: copy_bytes(source), tree };
                    self.entries.push(entry);
                    Ok(index)
                },
            },
        }
    }

    /// The syntax tree of an entry.
    pub fn tree(&self, index: usize) -> (r: &SyntaxTree)
        requires
            index < self.entries@.len(),
        ensures
            *r == self.entries@[index as int].tree,
    {
        &self.entries[index].tree
    }
}

} // verus!
