//! The public visibility of blogs and the tally of re-rendering them.

use vstd::prelude::*;
use crate::error::ApiError;
use crate::text::{decimal, i64_decimal, string_from_chars, trim_spec, trim_str};
use crate::handlers::validation::not_found_message;

verus! {

broadcast use vstd::string::group_string_axioms;

/// A blog shown to readers: published blogs are, others answer
/// `Blog with id <id> not found` as if absent.
pub fn published_or_not_found(is_published: bool, id: i64) -> (r: Result<(), ApiError>)
    ensures
        match r {
            Ok(()) => is_published,
            Err(e) => !is_published && (e matches ApiError::NotFound(m) && m@ == not_found_message(
                "Blog"@,
                id,
            )),
        },
{
    if is_published {
        Ok(())
    } else {
        Err(crate::handlers::validation::not_found("Blog", id))
    }
}

/// The same rule for a blog looked up by slug.
pub fn published_or_slug_not_found(is_published: bool, slug: &str) -> (r: Result<(), ApiError>)
    ensures
        match r {
            Ok(()) => is_published,
            Err(e) => !is_published && (e matches ApiError::NotFound(m) && m@ == "Blog with slug '"@
                + slug@ + "' not found"@),
        },
{
    if is_published {
        Ok(())
    } else {
        Err(ApiError::NotFound(String::from_str("Blog with slug '").concat(slug).concat("' not found")))
    }
}

/// How re-rendering every blog went.
pub struct BatchConvertResult {
    pub total: i64,
    pub converted: i64,
    pub skipped: i64,
    pub errors: Vec<String>,
}

/// Whether a blog's content gives anything to render.
pub fn has_content(content: &str) -> (b: bool)
    ensures
        b == (trim_spec(content@).len() > 0),
{
    !trim_str(content).as_str().is_empty()
}

impl BatchConvertResult {
    /// A run over `total` blogs before any is converted.
    pub fn start(total: usize) -> (r: Self)
        requires
            total <= i64::MAX,
        ensures
            r.total == total && r.converted == 0 && r.skipped == 0 && r.errors@.len() == 0,
    {
        BatchConvertResult { total: total as i64, converted: 0, skipped: 0, errors: Vec::new() }
    }

    /// Counts a blog without content.
    pub fn record_skip(&mut self)
        requires
            old(self).skipped < i64::MAX,
        ensures
            final(self).skipped == old(self).skipped + 1,
            final(self).converted == old(self).converted,
            final(self).total == old(self).total,
            final(self).errors@ == old(self).errors@,
    {
        self.skipped = self.skipped + 1;
    }

    /// Counts a converted blog, or reports why saving it failed.
    pub fn record_save(&mut self, id: i64, outcome: Result<(), String>)
        requires
            old(self).converted < i64::MAX,
        ensures
            final(self).skipped == old(self).skipped,
            final(self).total == old(self).total,
            match outcome {
                Ok(()) => final(self).converted == old(self).converted + 1 && final(self).errors@
                    == old(self).errors@,
                Err(e) => {
                    &&& final(self).converted == old(self).converted
                    &&& final(self).errors@.len() == old(self).errors@.len() + 1
                    &&& final(self).errors@.take(old(self).errors@.len() as int) == old(
                        self,
                    ).errors@
                    &&& final(self).errors@.last()@ == "Blog "@ + decimal(id as int) + ": "@ + e@
                },
            },
    {
        match outcome {
            Ok(()) => {
                self.converted = self.converted + 1;
            },
            Err(e) => {
                let d = string_from_chars(i64_decimal(id).as_slice());
                let m = String::from_str("Blog ").concat(d.as_str()).concat(": ").concat(e.as_str());
                let ghost before = self.errors@;
                self.errors.push(m);
                proof {
                    assert(self.errors@.take(before.len() as int) =~= before);
                }
            },
        }
    }
}

} // verus!
