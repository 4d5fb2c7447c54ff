use vstd::prelude::*;

verus! {

/// The four documentation categories, each with its own directory.
#[derive(Debug, Clone, Copy, PartialEq, Eq, Structural)]
pub enum DocCategory {
    Tutorial,
    HowTo,
    Explanation,
    Reference,
}

impl DocCategory {
    /// The category's name.
    pub open spec fn spec_str(&self) -> Seq<char> {
        match self {
            DocCategory::Tutorial => "tutorial"@,
            DocCategory::HowTo => "how-to"@,
            DocCategory::Explanation => "explanation"@,
            DocCategory::Reference => "reference"@,
        }
    }

    /// The directory documents of the category go to.
    pub open spec fn spec_directory(&self) -> Seq<char> {
        match self {
            DocCategory::Tutorial => "docs/tutorials"@,
            DocCategory::HowTo => "docs/how_to"@,
            DocCategory::Explanation => "docs/explanation"@,
            DocCategory::Reference => "docs/reference"@,
        }
    }

    /// The category's name.
    pub fn as_str(&self) -> (r: &'static str)
        ensures
            r@ == self.spec_str(),
    {
        match self {
            DocCategory::Tutorial => "tutorial",
            DocCategory::HowTo => "how-to",
            DocCategory::Explanation => "explanation",
            DocCategory::Reference => "reference",
        }
    }

    /// The directory documents of the category go to.
    pub fn directory(&self) -> (r: &'static str)
        ensures
            r@ == self.spec_directory(),
    {
        match self {
            DocCategory::Tutorial => "docs/tutorials",
            DocCategory::HowTo => "docs/how_to",
            DocCategory::Explanation => "docs/explanation",
            DocCategory::Reference => "docs/reference",
        }
    }
}

} // verus!
