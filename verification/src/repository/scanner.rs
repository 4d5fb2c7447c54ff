use vstd::prelude::*;
use vstd::string::StringExecFns;

verus! {

/// Walks a repository tree, skipping the configured patterns. Deciding which
/// override globs to hand the walker is this library's logic; the walk itself
/// happens outside it.
#[derive(Debug)]
pub struct RepositoryScanner {
    pub root: String,
    pub ignore_patterns: Vec<String>,
}

impl RepositoryScanner {
    /// A scanner rooted at the given path with the given ignore patterns.
    pub fn new(root: String, ignore_patterns: Vec<String>) -> (r: RepositoryScanner)
        ensures
            r.root@ == root@,
            r.ignore_patterns == ignore_patterns,
    {
        RepositoryScanner { root, ignore_patterns }
    }

    /// The override globs handed to the walker: each ignore pattern prefixed
    /// with an exclamation mark, which marks it as an exclusion.
    pub fn override_globs(&self) -> (r: Vec<String>)
        ensures
            r@.len() == self.ignore_patterns@.len(),
            forall|i: int|
                0 <= i < r@.len() ==> #[trigger] r@[i]@ == "!"@ + self.ignore_patterns@[i]@,
    {
        let mut out: Vec<String> = Vec::new();
        let mut i: usize = 0;
        while i < self.ignore_patterns.len()
            invariant
                i <= self.ignore_patterns@.len(),
                out@.len() == i,
                forall|k: int|
                    0 <= k < i ==> #[trigger] out@[k]@ == "!"@ + self.ignore_patterns@[k]@,
            decreases self.ignore_patterns@.len() - i,
        {
            let mut g = "!".to_owned();
            g.append(self.ignore_patterns[i].as_str());
            out.push(g);
            i = i + 1;
        }
        out
    }
}

} // verus!
