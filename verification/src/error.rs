//! The failures of an expansion pass.  Every failure is fatal for the
//! enclosing expansion: no partial output is ever produced.

use vstd::prelude::*;

verus! {

use vstd::string::StringExecFns;

/// Why an expansion refused its input.
#[derive(Clone, Copy, PartialEq, Eq, Structural, Debug)]
pub enum ExpandError {
    /// The definition annotation was applied to something other than a
    /// function or trait-method item.
    UnsupportedItem,
    /// A suspension marker wrapped something other than a call, such as a
    /// literal.
    NotACall,
    /// A suspension marker wrapped a call whose callee is not a plain path.
    CalleeNotAPath,
}

impl ExpandError {
    /// The diagnostic text of this failure.
    pub open spec fn spec_message(self) -> Seq<char> {
        match self {
            ExpandError::UnsupportedItem => "The macro `#[_async]` can only be applied to a function definition."@,
            ExpandError::NotACall => "The macro `_await!` can only be applied to a function or method call."@,
            ExpandError::CalleeNotAPath => "The macro `_await!` can only be applied to a method or explicit function call."@,
        }
    }

    /// The diagnostic message to report for this failure.
    pub fn message(&self) -> (r: String)
        ensures
            r@ == self.spec_message(),
    {
        match self {
            ExpandError::UnsupportedItem => String::from_str(
                "The macro `#[_async]` can only be applied to a function definition.",
            ),
            ExpandError::NotACall => String::from_str(
                "The macro `_await!` can only be applied to a function or method call.",
            ),
            ExpandError::CalleeNotAPath => String::from_str(
                "The macro `_await!` can only be applied to a method or explicit function call.",
            ),
        }
    }
}

} // verus!
