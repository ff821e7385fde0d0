//! The registry of tools: what the model may ask for, by name.

use crate::error::RegistryError;
use crate::schema::{schema_view, Parameter, ParameterView};
use vstd::prelude::*;

verus! {

/// What a tool tells about itself. It is made once, when the tool is
/// registered, and advertised to the model as it is.
#[derive(Debug, PartialEq, Eq)]
pub struct ToolDescriptor {
    pub name: String,
    pub description: String,
    pub parameter_schema: Vec<Parameter>,
}

pub struct ToolDescriptorView {
    pub name: Seq<char>,
    pub description: Seq<char>,
    pub parameter_schema: Seq<ParameterView>,
}

impl View for ToolDescriptor {
    type V = ToolDescriptorView;

    open spec fn view(&self) -> ToolDescriptorView {
        ToolDescriptorView {
            name: self.name@,
            description: self.description@,
            parameter_schema: schema_view(self.parameter_schema@),
        }
    }
}

pub open spec fn descriptors_view(tools: Seq<ToolDescriptor>) -> Seq<ToolDescriptorView> {
    tools.map_values(|t: ToolDescriptor| t@)
}

/// Some tool of the sequence has the name.
pub open spec fn has_tool(tools: Seq<ToolDescriptorView>, name: Seq<char>) -> bool {
    exists|i: int| 0 <= i < tools.len() && (#[trigger] tools[i]).name == name
}

/// No two tools of the sequence have the same name.
pub open spec fn distinct_names(tools: Seq<ToolDescriptorView>) -> bool {
    forall|i: int, j: int|
        0 <= i < j < tools.len() ==> (#[trigger] tools[i]).name != (#[trigger] tools[j]).name
}

/// The first tool of the name at or behind position `from`.
pub open spec fn find_tool(tools: Seq<ToolDescriptorView>, name: Seq<char>, from: int) -> Option<
    ToolDescriptorView,
>
    decreases tools.len() - from,
{
    if from < 0 || from >= tools.len() {
        None
    } else if tools[from].name == name {
        Some(tools[from])
    } else {
        find_tool(tools, name, from + 1)
    }
}

/// The tool that a name stands for, if any.
pub open spec fn tool_named(tools: Seq<ToolDescriptorView>, name: Seq<char>) -> Option<
    ToolDescriptorView,
> {
    find_tool(tools, name, 0)
}

/// What registering `tool` makes of `tools`: nothing where the name is
/// taken, else the tools with the new one behind them.
pub open spec fn registered(tools: Seq<ToolDescriptorView>, tool: ToolDescriptorView) -> Option<
    Seq<ToolDescriptorView>,
> {
    if has_tool(tools, tool.name) {
        None
    } else {
        Some(tools.push(tool))
    }
}

proof fn lemma_find_tool(tools: Seq<ToolDescriptorView>, name: Seq<char>, from: int)
    requires
        0 <= from <= tools.len(),
    ensures
        find_tool(tools, name, from) is None <==> forall|i: int|
            from <= i < tools.len() ==> (#[trigger] tools[i]).name != name,
        find_tool(tools, name, from) matches Some(t) ==> t.name == name && tools.contains(t),
    decreases tools.len() - from,
{
    if from < tools.len() {
        lemma_find_tool(tools, name, from + 1);
        if tools[from].name != name && find_tool(tools, name, from + 1) is None {
            assert forall|i: int| from <= i < tools.len() implies (#[trigger] tools[i]).name
                != name by {
                if i > from {
                }
            }
        }
    }
}

/// A name stands for a tool exactly when some registered tool has it, and
/// the tool it stands for is a registered tool of that name.
pub proof fn lemma_tool_named(tools: Seq<ToolDescriptorView>, name: Seq<char>)
    ensures
        tool_named(tools, name) is Some <==> has_tool(tools, name),
        tool_named(tools, name) matches Some(t) ==> t.name == name && tools.contains(t),
{
    lemma_find_tool(tools, name, 0);
}

/// Registration keeps the names distinct and the earlier tools in place.
pub proof fn lemma_registered_distinct(tools: Seq<ToolDescriptorView>, tool: ToolDescriptorView)
    requires
        distinct_names(tools),
    ensures
        registered(tools, tool) matches Some(after) ==> distinct_names(after) && after.len()
            == tools.len() + 1 && after.take(tools.len() as int) == tools && after.last() == tool,
{
    if let Some(after) = registered(tools, tool) {
        assert(after.take(tools.len() as int) =~= tools);
        assert forall|i: int, j: int| 0 <= i < j < after.len() implies (#[trigger] after[i]).name
            != (#[trigger] after[j]).name by {
            if j == tools.len() {
                assert(tools[i].name != tool.name);
            } else {
                assert(tools[i].name != tools[j].name);
            }
        }
    }
}

/// Once a tool is registered, a second tool of the same name is refused.
pub proof fn lemma_same_name_refused(
    tools: Seq<ToolDescriptorView>,
    first: ToolDescriptorView,
    second: ToolDescriptorView,
)
    requires
        first.name == second.name,
    ensures
        registered(tools, first) matches Some(after) ==> registered(after, second) is None,
{
    if let Some(after) = registered(tools, first) {
        assert(after[tools.len() as int].name == second.name);
    }
}

/// The tools by name, in the order in which they were registered.
pub struct Registry {
    tools: Vec<ToolDescriptor>,
}

impl View for Registry {
    type V = Seq<ToolDescriptorView>;

    closed spec fn view(&self) -> Seq<ToolDescriptorView> {
        descriptors_view(self.tools@)
    }
}

impl Registry {
    /// The names of the registered tools are distinct.
    pub open spec fn wf(&self) -> bool {
        distinct_names(self@)
    }

    pub fn new() -> (registry: Registry)
        ensures
            registry@ == Seq::<ToolDescriptorView>::empty(),
            registry.wf(),
    {
        let registry = Registry { tools: Vec::new() };
        assert(registry@ =~= Seq::<ToolDescriptorView>::empty());
        registry
    }

    /// Adds a tool. Fails with `DuplicateTool`, and changes nothing, exactly
    /// when a tool of that name is registered already.
    pub fn register(&mut self, tool: ToolDescriptor) -> (r: Result<(), RegistryError>)
        requires
            old(self).wf(),
        ensures
            final(self).wf(),
            match registered(old(self)@, tool@) {
                Some(after) => r is Ok && final(self)@ == after,
                None => r matches Err(e) && e.name() == tool@.name && final(self)@ == old(self)@,
            },
            has_tool(final(self)@, tool@.name),
    {
        proof {
            lemma_tool_named(self@, tool@.name);
            lemma_registered_distinct(self@, tool@);
        }
        if self.lookup(&tool.name).is_some() {
            Err(RegistryError::DuplicateTool(tool.name))
        } else {
            self.tools.push(tool);
            assert(self@ =~= old(self)@.push(tool@));
            assert(self@[old(self)@.len() as int].name == tool@.name);
            Ok(())
        }
    }

    /// The tool of the given name; `None` for a name that is not registered.
    pub fn lookup(&self, name: &String) -> (found: Option<&ToolDescriptor>)
        ensures
            found is Some <==> has_tool(self@, name@),
            found is Some <==> tool_named(self@, name@) is Some,
            found matches Some(tool) ==> tool_named(self@, name@) == Some(tool@),
    {
        proof {
            lemma_tool_named(self@, name@);
        }
        let ghost all = self@;
        let mut i: usize = 0;
        while i < self.tools.len()
            invariant
                i <= self.tools.len(),
                all == descriptors_view(self.tools@),
                find_tool(all, name@, 0) == find_tool(all, name@, i as int),
            decreases self.tools.len() - i,
        {
            assert(all[i as int] == self.tools@[i as int]@);
            if self.tools[i].name == *name {
                return Some(&self.tools[i]);
            }
            i += 1;
        }
        None
    }

    /// The place of the tool of the given name in the order of registration;
    /// `None` for a name that is not registered.
    pub fn position(&self, name: &String) -> (place: Option<usize>)
        ensures
            place is Some <==> has_tool(self@, name@),
            place matches Some(i) ==> i < self@.len() && tool_named(self@, name@) == Some(
                self@[i as int],
            ),
    {
        proof {
            lemma_tool_named(self@, name@);
        }
        let ghost all = self@;
        let mut i: usize = 0;
        while i < self.tools.len()
            invariant
                i <= self.tools.len(),
                all == descriptors_view(self.tools@),
                find_tool(all, name@, 0) == find_tool(all, name@, i as int),
            decreases self.tools.len() - i,
        {
            assert(all[i as int] == self.tools@[i as int]@);
            if self.tools[i].name == *name {
                return Some(i);
            }
            i += 1;
        }
        None
    }

    /// All descriptors, in registration order, as they are advertised to the
    /// model.
    pub fn descriptors(&self) -> (all: &Vec<ToolDescriptor>)
        ensures
            descriptors_view(all@) == self@,
    {
        &self.tools
    }

    pub fn len(&self) -> (n: usize)
        ensures
            n == self@.len(),
    {
        self.tools.len()
    }
}

} // verus!
