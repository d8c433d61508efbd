//! What the service answers for one image, and the mark shown for it.

use vstd::prelude::*;
use vstd::string::StringExecFns;

verus! {

/// The service's verdict on one submitted image.
#[derive(Debug, Clone, Copy, PartialEq, Eq, Structural)]
pub struct TestResponse {
    pub success: bool,
}

/// A submitted item together with the verdict the service gave for it.
#[derive(Debug)]
pub struct TestResult<T> {
    pub test: T,
    pub response: TestResponse,
}

/// Shows a result as a single mark: passed or failed, nothing else.
pub struct SingleCharacterFormat<T> {
    inner: T,
}

/// The mark that stands for a verdict, a check mark where the test passed
/// and a ballot cross where it failed.
pub open spec fn glyph_of(success: bool) -> char {
    if success {
        '✓'
    } else {
        '✗'
    }
}

impl<T> TestResult<T> {
    /// This result, to be shown as its single mark.
    pub fn format_single(&self) -> (shown: SingleCharacterFormat<&Self>)
        ensures
            shown.subject() == self,
    {
        SingleCharacterFormat { inner: self }
    }
}

impl<T> SingleCharacterFormat<T> {
    /// The value that is shown.
    pub closed spec fn subject(self) -> T {
        self.inner
    }
}

impl<'a, T> SingleCharacterFormat<&'a TestResult<T>> {
    /// The mark itself.
    pub fn glyph(&self) -> (mark: char)
        ensures
            mark == glyph_of(self.subject().response.success),
    {
        mark_for(self.inner.response.success)
    }

    /// The mark as the one-character text that is printed.
    pub fn text(&self) -> (shown: String)
        ensures
            shown@ == seq![glyph_of(self.subject().response.success)],
    {
        mark_text(self.inner.response.success)
    }
}

/// The mark for a verdict.
pub fn mark_for(success: bool) -> (mark: char)
    ensures
        mark == glyph_of(success),
{
    if success {
        '✓'
    } else {
        '✗'
    }
}

/// The mark for a verdict, as text.
pub fn mark_text(success: bool) -> (shown: String)
    ensures
        shown@ == seq![glyph_of(success)],
{
    proof {
        reveal_strlit("✓");
        reveal_strlit("✗");
    }
    let shown = if success {
        String::from_str("✓")
    } else {
        String::from_str("✗")
    };
    assert(shown@ =~= seq![glyph_of(success)]);
    shown
}

} // verus!
