//! The source texts of a compilation.

use vstd::prelude::*;

use crate::span::SourceId;

verus! {

/// One registered source text.
#[derive(Debug)]
pub struct SourceFile {
    pub name: String,
    pub text: String,
}

/// All source texts of a compilation, by [`SourceId`].
#[derive(Debug)]
pub struct SourceMap {
    pub files: Vec<SourceFile>,
}

impl SourceMap {
    pub fn new() -> (r: SourceMap)
        ensures
            r.files@ == Seq::<SourceFile>::empty(),
    {
        SourceMap { files: Vec::new() }
    }

    /// Registers a text.
    pub fn add(&mut self, name: &str, text: String) -> (r: SourceId)
        requires
            old(self).files@.len() < u32::MAX,
        ensures
            r.0 == old(self).files@.len(),
            final(self).files@.len() == old(self).files@.len() + 1,
            final(self).files@.take(old(self).files@.len() as int) == old(self).files@,
            final(self).files@.last().name@ == name@,
            final(self).files@.last().text == text,
    {
        let id: u32 = self.files.len() as u32;
        self.files.push(SourceFile { name: name.to_owned(), text });
        assert(self.files@.take(old(self).files@.len() as int) =~= old(self).files@);
        SourceId(id)
    }

    /// The text with the given id.
    pub fn get(&self, id: SourceId) -> (r: &SourceFile)
        requires
            id.0 < self.files@.len(),
        ensures
            *r == self.files@[id.0 as int],
    {
        &self.files[id.0 as usize]
    }
}

} // verus!
