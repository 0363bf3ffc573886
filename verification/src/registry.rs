//! The tool registry: the fixed, insertion-ordered set of tool names
//! constructed at startup, with lookup by exact name.
//!
//! Each built-in tool is a unit marker whose `name` is its registered
//! key; the asynchronous work behind a tool lives with the adapter,
//! which consults the verified plan functions before touching anything.

use vstd::prelude::*;

verus! {

pub struct ListTool;

pub struct SearchTool;

pub struct ReadTool;

pub struct WriteTool;

pub struct MoveTool;

pub struct DeleteTool;

pub struct StatusTool;

pub struct DiffTool;

pub struct AddAllTool;

pub struct CommitTool;

pub struct IncludeFileTool;

pub struct IncludeUrlTool;

pub struct AddRuleTool;

impl ListTool {
    pub fn name(&self) -> (r: &'static str)
        ensures
            r@ == "discovery.list"@,
    {
        "discovery.list"
    }
}

impl SearchTool {
    pub fn name(&self) -> (r: &'static str)
        ensures
            r@ == "discovery.search"@,
    {
        "discovery.search"
    }
}

impl ReadTool {
    pub fn name(&self) -> (r: &'static str)
        ensures
            r@ == "discovery.read"@,
    {
        "discovery.read"
    }
}

impl WriteTool {
    pub fn name(&self) -> (r: &'static str)
        ensures
            r@ == "files.write"@,
    {
        "files.write"
    }
}

impl MoveTool {
    pub fn name(&self) -> (r: &'static str)
        ensures
            r@ == "files.move"@,
    {
        "files.move"
    }
}

impl DeleteTool {
    pub fn name(&self) -> (r: &'static str)
        ensures
            r@ == "files.delete"@,
    {
        "files.delete"
    }
}

impl StatusTool {
    pub fn name(&self) -> (r: &'static str)
        ensures
            r@ == "git.status"@,
    {
        "git.status"
    }
}

impl DiffTool {
    pub fn name(&self) -> (r: &'static str)
        ensures
            r@ == "git.diff"@,
    {
        "git.diff"
    }
}

impl AddAllTool {
    pub fn name(&self) -> (r: &'static str)
        ensures
            r@ == "git.add_all"@,
    {
        "git.add_all"
    }
}

impl CommitTool {
    pub fn name(&self) -> (r: &'static str)
        ensures
            r@ == "git.commit"@,
    {
        "git.commit"
    }
}

impl IncludeFileTool {
    pub fn name(&self) -> (r: &'static str)
        ensures
            r@ == "include_file"@,
    {
        "include_file"
    }
}

impl IncludeUrlTool {
    pub fn name(&self) -> (r: &'static str)
        ensures
            r@ == "include_url"@,
    {
        "include_url"
    }
}

impl AddRuleTool {
    pub fn name(&self) -> (r: &'static str)
        ensures
            r@ == "add_rule"@,
    {
        "add_rule"
    }
}

/// The registry: tool names in registration order.
pub struct ToolRegistry {
    pub names: Vec<String>,
}

/// The name sequence the default registry holds, in registration
/// order.
pub open spec fn spec_default_tool_names() -> Seq<Seq<char>> {
    seq![
        "include_file"@,
        "include_url"@,
        "add_rule"@,
        "discovery.list"@,
        "discovery.search"@,
        "discovery.read"@,
        "files.write"@,
        "files.move"@,
        "files.delete"@,
        "git.status"@,
        "git.diff"@,
        "git.add_all"@,
        "git.commit"@,
    ]
}

impl ToolRegistry {
    pub open spec fn names_v(self) -> Seq<Seq<char>> {
        self.names.deep_view()
    }

    /// Whether a tool with this name is registered.
    pub open spec fn spec_known(self, name: Seq<char>) -> bool {
        exists|i: int| 0 <= i < self.names_v().len() && #[trigger] self.names_v()[i] == name
    }

    /// An empty registry.
    pub fn new() -> (r: Self)
        ensures
            r.names_v() == Seq::<Seq<char>>::empty(),
    {
        let r = ToolRegistry { names: Vec::new() };
        proof {
            assert(r.names_v() =~= Seq::<Seq<char>>::empty());
        }
        r
    }

    /// Registers one more tool name at the end.
    pub fn register(&mut self, name: String)
        ensures
            final(self).names_v() == old(self).names_v().push(name@),
    {
        let ghost oldv = self.names_v();
        self.names.push(name);
        proof {
            assert(self.names_v() =~= oldv.push(self.names@[self.names@.len() - 1]@));
        }
    }

    /// The registry holding every built-in tool, in its fixed order.
    pub fn with_default_tools() -> (r: Self)
        ensures
            r.names_v() == spec_default_tool_names(),
    {
        let mut r = ToolRegistry::new();
        r.register((IncludeFileTool).name().to_owned());
        r.register((IncludeUrlTool).name().to_owned());
        r.register((AddRuleTool).name().to_owned());
        r.register((ListTool).name().to_owned());
        r.register((SearchTool).name().to_owned());
        r.register((ReadTool).name().to_owned());
        r.register((WriteTool).name().to_owned());
        r.register((MoveTool).name().to_owned());
        r.register((DeleteTool).name().to_owned());
        r.register((StatusTool).name().to_owned());
        r.register((DiffTool).name().to_owned());
        r.register((AddAllTool).name().to_owned());
        r.register((CommitTool).name().to_owned());
        proof {
            assert(r.names_v() =~= spec_default_tool_names());
        }
        r
    }

    /// Looks a tool up by exact name, returning its position.
    pub fn get(&self, name: &str) -> (r: Option<usize>)
        ensures
            r is Some <==> self.spec_known(name@),
            r is Some ==> r.unwrap() < self.names_v().len() && self.names_v()[r.unwrap() as int]
                == name@,
    {
        let key: String = name.to_owned();
        let n = self.names.len();
        let mut i: usize = 0;
        while i < n
            invariant
                n == self.names@.len(),
                0 <= i <= n,
                key@ == name@,
                forall|j: int| 0 <= j < i ==> self.names_v()[j] != name@,
            decreases n - i,
        {
            if self.names[i] == key {
                proof {
                    assert(self.spec_known(name@)) by {
                        assert(self.names_v()[i as int] == name@);
                    }
                }
                return Some(i);
            }
            i = i + 1;
        }
        None
    }
}

/// What a dispatch establishes before a tool runs: the session must
/// exist, then the tool must be known.
pub fn dispatch_check(session_found: bool, tool_known: bool) -> (r: Result<
    (),
    crate::errors::ErrorKind,
>)
    ensures
        !session_found ==> r == Result::<(), crate::errors::ErrorKind>::Err(
            crate::errors::ErrorKind::SessionNotFound,
        ),
        session_found && !tool_known ==> r == Result::<(), crate::errors::ErrorKind>::Err(
            crate::errors::ErrorKind::UnknownTool,
        ),
        session_found && tool_known ==> r is Ok,
{
    if !session_found {
        Err(crate::errors::ErrorKind::SessionNotFound)
    } else if !tool_known {
        Err(crate::errors::ErrorKind::UnknownTool)
    } else {
        Ok(())
    }
}

} // verus!
