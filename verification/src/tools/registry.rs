use crate::providers::types::Tool;
use crate::text::str_eq;
use crate::tools::ToolExecutor;
use vstd::prelude::*;

verus! {

/// The position of the first tool with the given name, if any.
pub open spec fn spec_find(tools: Seq<Tool>, name: Seq<char>) -> Option<int>
    decreases tools.len(),
{
    if tools.len() == 0 {
        None
    } else if tools[0].name@ == name {
        Some(0int)
    } else {
        match spec_find(tools.drop_first(), name) {
            Some(i) => Some(i + 1),
            None => None,
        }
    }
}

/// Finding a name after skipping a prefix that does not hold it.
pub proof fn lemma_spec_find_skip(tools: Seq<Tool>, name: Seq<char>, i: int)
    requires
        0 <= i <= tools.len(),
        forall|k: int| 0 <= k < i ==> tools[k].name@ != name,
    ensures
        spec_find(tools, name) == match spec_find(tools.subrange(i, tools.len() as int), name) {
            Some(j) => Some(i + j),
            None => None::<int>,
        },
    decreases i,
{
    if i == 0 {
        assert(tools.subrange(0, tools.len() as int) =~= tools);
    } else {
        assert(tools.len() > 0);
        lemma_spec_find_skip(tools.drop_first(), name, i - 1);
        assert(tools.drop_first().subrange(i - 1, tools.drop_first().len() as int) =~= tools
            .subrange(i, tools.len() as int));
    }
}

/// What `spec_find` answers is always a tool of that name, and `None` means no
/// tool has the name.
pub proof fn lemma_spec_find_correct(tools: Seq<Tool>, name: Seq<char>)
    ensures
        match spec_find(tools, name) {
            Some(i) => 0 <= i < tools.len() && tools[i].name@ == name,
            None => forall|k: int| 0 <= k < tools.len() ==> tools[k].name@ != name,
        },
    decreases tools.len(),
{
    if tools.len() > 0 && tools[0].name@ != name {
        let rest = tools.drop_first();
        lemma_spec_find_correct(rest, name);
        assert(forall|k: int| 0 <= k < rest.len() ==> #[trigger] rest[k] == tools[k + 1]);
        match spec_find(rest, name) {
            Some(i) => {
                assert(tools[i + 1].name@ == name);
            },
            None => {
                assert(forall|k: int|
                    1 <= k < tools.len() ==> #[trigger] tools[k].name@ == rest[k - 1].name@);
            },
        }
    }
}

/// A name-to-(definition, executor) mapping. Registered once at startup and
/// read-mostly afterward; registering a name again replaces the prior entry
/// entirely. The two vectors run in parallel: the executor of `tools[i]` is
/// `executors[i]`.
pub struct ToolRegistry<E> {
    pub tools: Vec<Tool>,
    pub executors: Vec<E>,
}

impl<E: ToolExecutor> ToolRegistry<E> {
    /// The registry's shape invariant: one executor per tool, names unique.
    pub open spec fn wf(&self) -> bool {
        &&& self.tools@.len() == self.executors@.len()
        &&& forall|i: int, j: int|
            0 <= i < j < self.tools@.len() ==> self.tools@[i].name@ != self.tools@[j].name@
    }

    /// An empty registry.
    pub fn new() -> (r: ToolRegistry<E>)
        ensures
            r.wf(),
            r.tools@.len() == 0,
    {
        ToolRegistry { tools: Vec::new(), executors: Vec::new() }
    }

    /// The position of the tool with the given name, if one is registered.
    pub(crate) fn index_of(&self, name: &str) -> (r: Option<usize>)
        ensures
            match r {
                Some(i) => spec_find(self.tools@, name@) == Some(i as int),
                None => spec_find(self.tools@, name@) is None,
            },
    {
        let n = self.tools.len();
        let mut i: usize = 0;
        while i < n
            invariant
                n == self.tools@.len(),
                i <= n,
                forall|k: int| 0 <= k < i ==> self.tools@[k].name@ != name@,
            decreases n - i,
        {
            if str_eq(self.tools[i].name.as_str(), name) {
                proof {
                    lemma_spec_find_skip(self.tools@, name@, i as int);
                    assert(self.tools@.subrange(i as int, n as int)[0] == self.tools@[i as int]);
                }
                return Some(i);
            }
            i = i + 1;
        }
        proof {
            lemma_spec_find_skip(self.tools@, name@, n as int);
            assert(self.tools@.subrange(n as int, n as int) =~= Seq::<Tool>::empty());
        }
        None
    }

    /// Stores the definition and the executor under the definition's name,
    /// overwriting any prior registration of that name.
    pub fn register(&mut self, tool: Tool, executor: E)
        requires
            old(self).wf(),
        ensures
            final(self).wf(),
            match spec_find(old(self).tools@, tool.name@) {
                Some(i) => final(self).tools@ == old(self).tools@.update(i, tool)
                    && final(self).executors@ == old(self).executors@.update(i, executor),
                None => final(self).tools@ == old(self).tools@.push(tool)
                    && final(self).executors@ == old(self).executors@.push(executor),
            },
    {
        let found = self.index_of(tool.name.as_str());
        proof {
            lemma_spec_find_correct(self.tools@, tool.name@);
        }
        match found {
            Some(i) => {
                self.tools[i] = tool;
                self.executors[i] = executor;
            },
            None => {
                self.tools.push(tool);
                self.executors.push(executor);
            },
        }
    }

    /// The registered definition of the given name, if any.
    pub fn get_tool(&self, name: &str) -> (r: Option<&Tool>)
        ensures
            match spec_find(self.tools@, name@) {
                Some(i) => r matches Some(t) && *t == self.tools@[i],
                None => r is None,
            },
    {
        proof {
            lemma_spec_find_correct(self.tools@, name@);
        }
        match self.index_of(name) {
            Some(i) => Some(&self.tools[i]),
            None => None,
        }
    }

    /// The registered executor of the given name, if any.
    pub fn get_executor(&self, name: &str) -> (r: Option<&E>)
        requires
            self.wf(),
        ensures
            match spec_find(self.tools@, name@) {
                Some(i) => r matches Some(e) && *e == self.executors@[i],
                None => r is None,
            },
    {
        proof {
            lemma_spec_find_correct(self.tools@, name@);
        }
        match self.index_of(name) {
            Some(i) => Some(&self.executors[i]),
            None => None,
        }
    }

    /// All current definitions, in registration order: what is advertised to
    /// the provider.
    pub fn list_tools(&self) -> (r: Vec<Tool>)
        ensures
            r@.len() == self.tools@.len(),
            forall|i: int| 0 <= i < r@.len() ==> #[trigger] r@[i]@ == self.tools@[i]@,
    {
        let mut out: Vec<Tool> = Vec::new();
        let mut i: usize = 0;
        while i < self.tools.len()
            invariant
                i <= self.tools@.len(),
                out@.len() == i,
                forall|k: int| 0 <= k < i ==> #[trigger] out@[k]@ == self.tools@[k]@,
            decreases self.tools@.len() - i,
        {
            out.push(self.tools[i].clone());
            i = i + 1;
        }
        out
    }
}

impl<E: ToolExecutor> Default for ToolRegistry<E> {
    /// The empty registry.
    fn default() -> (r: ToolRegistry<E>)
        ensures
            r.wf(),
            r.tools@.len() == 0,
    {
        ToolRegistry::new()
    }
}

} // verus!
