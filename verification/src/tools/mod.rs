//! Tools: their definitions, the registry, and the validation of arguments.
use std::sync::Arc;

use vstd::prelude::*;

use crate::json::{JsonValue, JsonView};
use crate::llm::{clone_opt_text, ToolSpec, ToolSpecView};
use crate::text::{
    is_before, opt_view, starts_with, text_before, text_before_irreflexive, text_before_total,
    text_before_transitive, text_eq, views,
};
use crate::time::Duration;
use crate::tools::validation::{
    a_fault_is_told_by_its_place, conforms, fault_means_not_admitted, validate_arguments, violation,
};

pub mod calculator;
pub mod crm;
pub mod validation;

pub use crate::tools::calculator::CalculatorTool;
pub use crate::tools::crm::MockCrmLookupTool;

verus! {

pub type Result<T> = std::result::Result<T, ToolError>;

/// Why a tool could not be registered or called.
#[derive(Debug)]
pub enum ToolError {
    DuplicateTool { name: String },
    NotFound { name: String },
    InvalidArguments { tool: String, message: String },
    Timeout { name: String },
    CallFailed { name: String, message: String },
}

#[verifier::ext_equal]
pub enum ToolErrorView {
    DuplicateTool { name: Seq<char> },
    NotFound { name: Seq<char> },
    InvalidArguments { tool: Seq<char>, message: Seq<char> },
    Timeout { name: Seq<char> },
    CallFailed { name: Seq<char>, message: Seq<char> },
}

impl View for ToolError {
    type V = ToolErrorView;

    open spec fn view(&self) -> ToolErrorView {
        match self {
            ToolError::DuplicateTool { name } => ToolErrorView::DuplicateTool { name: name@ },
            ToolError::NotFound { name } => ToolErrorView::NotFound { name: name@ },
            ToolError::InvalidArguments { tool, message } => ToolErrorView::InvalidArguments {
                tool: tool@,
                message: message@,
            },
            ToolError::Timeout { name } => ToolErrorView::Timeout { name: name@ },
            ToolError::CallFailed { name, message } => ToolErrorView::CallFailed {
                name: name@,
                message: message@,
            },
        }
    }
}

impl ToolErrorView {
    /// What the error says.
    pub open spec fn text(self) -> Seq<char> {
        match self {
            ToolErrorView::DuplicateTool { name } => "tool already registered: "@ + name,
            ToolErrorView::NotFound { name } => "tool not found: "@ + name,
            ToolErrorView::InvalidArguments { tool, message } => "invalid arguments for tool "@
                + tool + ": "@ + message,
            ToolErrorView::Timeout { name } => "tool timed out: "@ + name,
            ToolErrorView::CallFailed { name, message } => "tool "@ + name + " failed: "@ + message,
        }
    }
}

impl ToolError {
    /// What the error says.
    pub fn message(&self) -> (text: String)
        ensures
            text@ == self@.text(),
    {
        match self {
            ToolError::DuplicateTool { name } => {
                "tool already registered: ".to_owned().concat(name.as_str())
            },
            ToolError::NotFound { name } => "tool not found: ".to_owned().concat(name.as_str()),
            ToolError::InvalidArguments { tool, message } => {
                "invalid arguments for tool ".to_owned().concat(tool.as_str()).concat(": ").concat(
                    message.as_str(),
                )
            },
            ToolError::Timeout { name } => "tool timed out: ".to_owned().concat(name.as_str()),
            ToolError::CallFailed { name, message } => {
                "tool ".to_owned().concat(name.as_str()).concat(" failed: ").concat(
                    message.as_str(),
                )
            },
        }
    }
}

/// How a tool behaves, and how long a call of it may take.
#[derive(Debug, PartialEq, Eq)]
pub struct ToolMetadata {
    pub read_only: bool,
    pub idempotent: bool,
    pub timeout: Duration,
    pub mutates_resource: Option<String>,
}

#[verifier::ext_equal]
pub struct ToolMetadataView {
    pub read_only: bool,
    pub idempotent: bool,
    pub timeout: Duration,
    pub mutates_resource: Option<Seq<char>>,
}

impl View for ToolMetadata {
    type V = ToolMetadataView;

    open spec fn view(&self) -> ToolMetadataView {
        ToolMetadataView {
            read_only: self.read_only,
            idempotent: self.idempotent,
            timeout: self.timeout,
            mutates_resource: opt_view(self.mutates_resource),
        }
    }
}

impl Clone for ToolMetadata {
    fn clone(&self) -> (copy: Self)
        ensures
            copy@ == self@,
    {
        ToolMetadata {
            read_only: self.read_only,
            idempotent: self.idempotent,
            timeout: self.timeout,
            mutates_resource: clone_opt_text(&self.mutates_resource),
        }
    }
}

impl ToolMetadataView {
    /// A tool that changes nothing and may be called again.
    pub open spec fn read_only(timeout: Duration) -> ToolMetadataView {
        ToolMetadataView { read_only: true, idempotent: true, timeout, mutates_resource: None }
    }
}

impl ToolMetadata {
    pub fn read_only(timeout: Duration) -> (metadata: ToolMetadata)
        ensures
            metadata@ == ToolMetadataView::read_only(timeout),
    {
        ToolMetadata { read_only: true, idempotent: true, timeout, mutates_resource: None }
    }
}

/// What a tool is called, what it does, and the schema of its arguments.
#[derive(Debug, PartialEq)]
pub struct ToolDefinition {
    pub name: String,
    pub description: String,
    pub parameters: JsonValue,
    pub metadata: ToolMetadata,
}

#[verifier::ext_equal]
pub struct ToolDefinitionView {
    pub name: Seq<char>,
    pub description: Seq<char>,
    pub parameters: JsonView,
    pub metadata: ToolMetadataView,
}

impl View for ToolDefinition {
    type V = ToolDefinitionView;

    open spec fn view(&self) -> ToolDefinitionView {
        ToolDefinitionView {
            name: self.name@,
            description: self.description@,
            parameters: self.parameters@,
            metadata: self.metadata@,
        }
    }
}

impl Clone for ToolDefinition {
    fn clone(&self) -> (copy: Self)
        ensures
            copy@ == self@,
    {
        ToolDefinition {
            name: self.name.clone(),
            description: self.description.clone(),
            parameters: self.parameters.clone(),
            metadata: self.metadata.clone(),
        }
    }
}

impl ToolDefinitionView {
    /// What the model is told of the tool.
    pub open spec fn spec_view(self) -> ToolSpecView {
        ToolSpecView {
            name: self.name,
            description: self.description,
            parameters: self.parameters,
        }
    }
}

impl ToolDefinition {
    /// What the model is told of the tool.
    pub fn spec(&self) -> (spec: ToolSpec)
        ensures
            spec@ == self@.spec_view(),
    {
        ToolSpec {
            name: self.name.clone(),
            description: self.description.clone(),
            parameters: self.parameters.clone(),
        }
    }
}

/// A tool that can be registered. It is asked for its definition whenever that is needed, and may
/// give another one each time.
pub trait Tool: Send + Sync {
    fn definition(&self) -> (definition: ToolDefinition);
}

impl Tool for Arc<dyn Tool> {
    fn definition(&self) -> (definition: ToolDefinition) {
        (**self).definition()
    }
}

/// Whether a tool may give a definition when it is asked for it.
pub open spec fn may_give<K: Tool>(tool: K, definition: ToolDefinitionView) -> bool {
    exists|given: ToolDefinition| #[trigger]
        call_ensures(K::definition, (&tool,), given) && given@ == definition
}

/// A tool under the name that it had when it was registered.
#[derive(Debug)]
struct ToolEntry<K> {
    name: String,
    tool: K,
}

#[verifier::ext_equal]
pub struct ToolEntryView<K> {
    pub name: Seq<char>,
    pub tool: K,
}

impl<K> View for ToolEntry<K> {
    type V = ToolEntryView<K>;

    closed spec fn view(&self) -> ToolEntryView<K> {
        ToolEntryView { name: self.name@, tool: self.tool }
    }
}

/// Whether registering a tool under a name with the tools `before` gives `result` and leaves the
/// tools `after`: a name is taken once, and a name that is taken is refused.
pub open spec fn registered<K>(
    before: Map<Seq<char>, K>,
    name: Seq<char>,
    tool: K,
    result: std::result::Result<(), ToolErrorView>,
    after: Map<Seq<char>, K>,
) -> bool {
    if before.contains_key(name) {
        &&& result == std::result::Result::<(), ToolErrorView>::Err(
            ToolErrorView::DuplicateTool { name },
        )
        &&& after == before
    } else {
        &&& result == std::result::Result::<(), ToolErrorView>::Ok(())
        &&& after == before.insert(name, tool)
    }
}

/// The tools that can be called, by name.
#[derive(Debug)]
pub struct ToolRegistry<K = Arc<dyn Tool>> {
    entries: Vec<ToolEntry<K>>,
}

/// Whether the entries stand in the order of their names, no name twice.
pub open spec fn in_name_order<K>(entries: Seq<ToolEntryView<K>>) -> bool {
    forall|i: int, j: int|
        0 <= i < j < entries.len() ==> text_before(
            (#[trigger] entries[i]).name,
            (#[trigger] entries[j]).name,
        )
}

/// The tools by their names.
pub open spec fn by_name<K>(entries: Seq<ToolEntryView<K>>) -> Map<Seq<char>, K>
    decreases entries.len(),
{
    if entries.len() == 0 {
        Map::empty()
    } else {
        by_name(entries.drop_last()).insert(entries.last().name, entries.last().tool)
    }
}

proof fn by_name_entries<K>(entries: Seq<ToolEntryView<K>>)
    requires
        in_name_order(entries),
    ensures
        forall|i: int|
            0 <= i < entries.len() ==> by_name(entries).contains_pair(
                (#[trigger] entries[i]).name,
                entries[i].tool,
            ),
        forall|name: Seq<char>| #[trigger]
            by_name(entries).contains_key(name) ==> exists|i: int|
                0 <= i < entries.len() && (#[trigger] entries[i]).name == name,
    decreases entries.len(),
{
    if entries.len() > 0 {
        let rest = entries.drop_last();
        by_name_entries(rest);
        let map = by_name(entries);
        assert forall|i: int| 0 <= i < entries.len() implies map.contains_pair(
            (#[trigger] entries[i]).name,
            entries[i].tool,
        ) by {
            if i < rest.len() {
                assert(rest[i] == entries[i]);
                assert(by_name(rest).contains_pair(rest[i].name, rest[i].tool));
                assert(text_before(entries[i].name, entries[entries.len() - 1].name));
                text_before_irreflexive(entries.last().name);
            }
        }
        assert forall|name: Seq<char>| #[trigger] map.contains_key(name) implies exists|i: int|
            0 <= i < entries.len() && (#[trigger] entries[i]).name == name by {
            if name == entries.last().name {
                assert(entries[entries.len() - 1].name == name);
            } else {
                assert(by_name(rest).contains_key(name));
                let i = choose|i: int| 0 <= i < rest.len() && (#[trigger] rest[i]).name == name;
                assert(entries[i].name == name);
            }
        }
    }
}

impl<K> View for ToolRegistry<K> {
    type V = Map<Seq<char>, K>;

    closed spec fn view(&self) -> Map<Seq<char>, K> {
        by_name(views(self.entries@))
    }
}

impl<K: Clone> Clone for ToolRegistry<K> {
    fn clone(&self) -> (copy: Self)
        ensures
            copy@.dom() == self@.dom(),
            forall|name: Seq<char>| #[trigger]
                self@.contains_key(name) ==> cloned(self@[name], copy@[name]),
    {
        let ghost all = views(self.entries@);
        proof {
            use_type_invariant(self);
            by_name_entries(all);
        }
        let mut entries: Vec<ToolEntry<K>> = Vec::new();
        let mut i: usize = 0;
        while i < self.entries.len()
            invariant
                i <= self.entries@.len(),
                entries@.len() == i,
                forall|j: int|
                    0 <= j < i ==> (#[trigger] entries@[j]).name@ == self.entries@[j].name@
                        && cloned(self.entries@[j].tool, entries@[j].tool),
            decreases self.entries@.len() - i,
        {
            let entry = &self.entries[i];
            entries.push(ToolEntry { name: entry.name.clone(), tool: entry.tool.clone() });
            i = i + 1;
        }
        proof {
            let copies = views(entries@);
            assert forall|j: int| 0 <= j < all.len() implies (#[trigger] copies[j]).name
                == all[j].name && cloned(all[j].tool, copies[j].tool) by {
                assert(copies[j] == entries@[j]@ && all[j] == self.entries@[j]@);
            }
            assert(in_name_order(copies)) by {
                assert forall|j: int, k: int| 0 <= j < k < copies.len() implies text_before(
                    (#[trigger] copies[j]).name,
                    (#[trigger] copies[k]).name,
                ) by {
                    assert(text_before(all[j].name, all[k].name));
                }
            }
            by_name_entries(copies);
            assert forall|name: Seq<char>| #[trigger] by_name(all).contains_key(name) implies
                by_name(copies).contains_key(name) && cloned(
                by_name(all)[name],
                by_name(copies)[name],
            ) by {
                let j = choose|j: int| 0 <= j < all.len() && (#[trigger] all[j]).name == name;
                assert(by_name(all).contains_pair(all[j].name, all[j].tool));
                assert(by_name(copies).contains_pair(copies[j].name, copies[j].tool));
            }
            assert forall|name: Seq<char>| #[trigger] by_name(copies).contains_key(name) implies
                by_name(all).contains_key(name) by {
                let j = choose|j: int| 0 <= j < copies.len() && (#[trigger] copies[j]).name == name;
                assert(by_name(all).contains_pair(all[j].name, all[j].tool));
            }
            assert(by_name(copies).dom() =~= by_name(all).dom());
        }
        ToolRegistry { entries }
    }
}

impl<K> Default for ToolRegistry<K> {
    fn default() -> (registry: Self)
        ensures
            registry@ == Map::<Seq<char>, K>::empty(),
    {
        ToolRegistry::new()
    }
}

impl<K> ToolRegistry<K> {
    #[verifier::type_invariant]
    spec fn well_formed(self) -> bool {
        in_name_order(views(self.entries@))
    }

    pub fn new() -> (registry: ToolRegistry<K>)
        ensures
            registry@ == Map::<Seq<char>, K>::empty(),
    {
        ToolRegistry { entries: Vec::new() }
    }

    /// Where the tool `name` stands, or where it belongs.
    fn place(&self, name: &str) -> (place: (usize, bool))
        ensures
            place.0 <= self.entries@.len(),
            place.1 <==> self@.contains_key(name@),
            place.1 ==> place.0 < self.entries@.len() && self.entries@[place.0 as int]@.name
                == name@ && self@[name@] == self.entries@[place.0 as int].tool,
            !place.1 ==> forall|i: int|
                0 <= i < place.0 ==> text_before((#[trigger] views(self.entries@)[i]).name, name@),
            !place.1 ==> forall|i: int|
                place.0 <= i < self.entries@.len() ==> text_before(
                    name@,
                    (#[trigger] views(self.entries@)[i]).name,
                ),
    {
        proof {
            use_type_invariant(self);
            by_name_entries(views(self.entries@));
        }
        let ghost all = views(self.entries@);
        let mut i: usize = 0;
        while i < self.entries.len() && is_before(self.entries[i].name.as_str(), name)
            invariant
                i <= self.entries@.len(),
                all == views(self.entries@),
                forall|j: int| 0 <= j < i ==> text_before((#[trigger] all[j]).name, name@),
            decreases self.entries@.len() - i,
        {
            assert(all[i as int] == self.entries@[i as int]@);
            i = i + 1;
        }
        if i < self.entries.len() {
            assert(all[i as int] == self.entries@[i as int]@);
            if text_eq(self.entries[i].name.as_str(), name) {
                assert(by_name(all).contains_pair(all[i as int].name, all[i as int].tool));
                return (i, true);
            }
            proof {
                text_before_total(all[i as int].name, name@);
            }
        }
        proof {
            assert forall|j: int| i <= j < all.len() implies text_before(
                name@,
                (#[trigger] all[j]).name,
            ) by {
                if i < j {
                    assert(text_before(all[i as int].name, all[j].name));
                    text_before_transitive(name@, all[i as int].name, all[j].name);
                }
            }
            if by_name(all).contains_key(name@) {
                let j = choose|j: int| 0 <= j < all.len() && (#[trigger] all[j]).name == name@;
                text_before_irreflexive(name@);
            }
        }
        (i, false)
    }

    /// The tool `name`.
    pub fn tool(&self, name: &str) -> (tool: Option<&K>)
        ensures
            tool == (if self@.contains_key(name@) {
                Some(&self@[name@])
            } else {
                None
            }),
    {
        let (at, known) = self.place(name);
        if known {
            Some(&self.entries[at].tool)
        } else {
            None
        }
    }
}

/// Whether definitions stand in the order of their names.
pub open spec fn ordered(definitions: Seq<ToolDefinitionView>) -> bool {
    forall|i: int, j: int|
        0 <= i < j < definitions.len() ==> !text_before(
            (#[trigger] definitions[j]).name,
            (#[trigger] definitions[i]).name,
        )
}

/// Whether the tools under `names`, which are all tools, each once, may give the definitions, and
/// these stand in the order of their names.
pub open spec fn lists<K: Tool>(
    tools: Map<Seq<char>, K>,
    names: Seq<Seq<char>>,
    definitions: Seq<ToolDefinitionView>,
) -> bool {
    &&& names.no_duplicates()
    &&& forall|name: Seq<char>| #[trigger] names.contains(name) <==> tools.contains_key(name)
    &&& names.len() == definitions.len()
    &&& forall|i: int|
        0 <= i < names.len() ==> may_give(tools[names[i]], #[trigger] definitions[i])
    &&& ordered(definitions)
}

/// Whether tools that are asked for their definitions may list them so.
pub open spec fn may_list<K: Tool>(
    tools: Map<Seq<char>, K>,
    definitions: Seq<ToolDefinitionView>,
) -> bool {
    exists|names: Seq<Seq<char>>| #[trigger] lists(tools, names, definitions)
}

/// Whether the tools that a registry holds may tell the model so of themselves.
pub open spec fn may_tell<K: Tool>(tools: Map<Seq<char>, K>, specs: Seq<ToolSpecView>) -> bool {
    exists|definitions: Seq<ToolDefinitionView>| #[trigger]
        may_list(tools, definitions) && specs == told(definitions)
}

/// Whether a registry that is asked for the definition of the tool `name` may give this one: none
/// where there is no such tool, and otherwise what the tool gives.
pub open spec fn may_define<K: Tool>(
    tools: Map<Seq<char>, K>,
    name: Seq<char>,
    definition: Option<ToolDefinitionView>,
) -> bool {
    match definition {
        Some(definition) => tools.contains_key(name) && may_give(tools[name], definition),
        None => !tools.contains_key(name),
    }
}

/// Puts a definition among others that are in the order of their names; gives its place.
fn insert_definition(definitions: &mut Vec<ToolDefinition>, new: ToolDefinition) -> (at: usize)
    requires
        ordered(views(old(definitions)@)),
    ensures
        at <= old(definitions)@.len(),
        views(final(definitions)@) == views(old(definitions)@).insert(at as int, new@),
        ordered(views(final(definitions)@)),
{
    let ghost before = views(definitions@);
    let mut at: usize = 0;
    while at < definitions.len() && !is_before(new.name.as_str(), definitions[at].name.as_str())
        invariant
            at <= definitions@.len(),
            definitions@ == old(definitions)@,
            before == views(definitions@),
            forall|i: int| 0 <= i < at ==> !text_before(new@.name, (#[trigger] before[i]).name),
        decreases definitions@.len() - at,
    {
        assert(before[at as int] == definitions@[at as int]@);
        at = at + 1;
    }
    if at < definitions.len() {
        assert(before[at as int] == definitions@[at as int]@);
    }
    let ghost after = before.insert(at as int, new@);
    proof {
        assert(views(definitions@.insert(at as int, new)) =~= after);
        assert forall|i: int, j: int| 0 <= i < j < after.len() implies !text_before(
            (#[trigger] after[j]).name,
            (#[trigger] after[i]).name,
        ) by {
            if i < at {
                assert(after[i] == before[i]);
            } else if i > at {
                assert(after[i] == before[i - 1]);
            }
            if j < at {
                assert(after[j] == before[j]);
            } else if j > at {
                assert(after[j] == before[j - 1]);
            }
            if i == at && text_before(after[j].name, new@.name) {
                text_before_transitive(after[j].name, new@.name, before[at as int].name);
                text_before_irreflexive(before[at as int].name);
                assert(!text_before(before[j - 1].name, before[at as int].name));
            }
        }
    }
    definitions.insert(at, new);
    at
}

impl<K: Tool> ToolRegistry<K> {
    /// Registers a tool under the name of the definition that it gives; a name is taken once.
    pub fn register(&mut self, tool: K) -> (result: Result<()>)
        ensures
            exists|definition: ToolDefinition| #[trigger]
                call_ensures(K::definition, (&tool,), definition) && registered(
                    old(self)@,
                    definition@.name,
                    tool,
                    (match result {
                        Ok(()) => Ok(()),
                        Err(error) => Err(error@),
                    }),
                    final(self)@,
                ),
    {
        let definition = tool.definition();
        self.register_as(definition.name, tool)
    }

    /// Registers a tool under a name; a name is taken once.
    fn register_as(&mut self, name: String, tool: K) -> (result: Result<()>)
        ensures
            registered(
                old(self)@,
                name@,
                tool,
                (match result {
                    Ok(()) => Ok(()),
                    Err(error) => Err(error@),
                }),
                final(self)@,
            ),
    {
        proof {
            use_type_invariant(&*self);
        }
        let (at, taken) = self.place(name.as_str());
        if taken {
            return Err(ToolError::DuplicateTool { name });
        }
        let entry = ToolEntry { name, tool };
        let ghost before = views(self.entries@);
        let ghost after = before.insert(at as int, entry@);
        proof {
            assert(views(self.entries@.insert(at as int, entry)) =~= after);
            assert forall|i: int, j: int| 0 <= i < j < after.len() implies text_before(
                (#[trigger] after[i]).name,
                (#[trigger] after[j]).name,
            ) by {
                if i < at {
                    assert(after[i] == before[i]);
                } else if i > at {
                    assert(after[i] == before[i - 1]);
                }
                if j < at {
                    assert(after[j] == before[j]);
                } else if j > at {
                    assert(after[j] == before[j - 1]);
                }
            }
            assert forall|i: int| 0 <= i < before.len() implies (#[trigger] before[i]).name
                != entry@.name by {
                text_before_irreflexive(entry@.name);
            }
            by_name_of_insert(before, at as int, entry@);
        }
        let mut entries: Vec<ToolEntry<K>> = Vec::new();
        std::mem::swap(&mut self.entries, &mut entries);
        entries.insert(at, entry);
        self.entries = entries;
        Ok(())
    }

    /// The definitions that the tools give, in the order of their names.
    pub fn definitions(&self) -> (definitions: Vec<ToolDefinition>)
        ensures
            may_list(self@, views(definitions@)),
    {
        let ghost all = views(self.entries@);
        proof {
            use_type_invariant(self);
            by_name_entries(all);
        }
        let mut definitions: Vec<ToolDefinition> = Vec::new();
        let ghost mut names: Seq<Seq<char>> = Seq::empty();
        let mut i: usize = 0;
        while i < self.entries.len()
            invariant
                i <= self.entries@.len(),
                all == views(self.entries@),
                in_name_order(all),
                self@ == by_name(all),
                forall|j: int|
                    0 <= j < all.len() ==> by_name(all).contains_pair(
                        (#[trigger] all[j]).name,
                        all[j].tool,
                    ),
                names.len() == definitions@.len(),
                names.no_duplicates(),
                forall|name: Seq<char>| #[trigger]
                    names.contains(name) <==> exists|j: int|
                        0 <= j < i && (#[trigger] all[j]).name == name,
                forall|j: int|
                    0 <= j < names.len() ==> may_give(
                        self@[names[j]],
                        #[trigger] views(definitions@)[j],
                    ),
                ordered(views(definitions@)),
            decreases self.entries@.len() - i,
        {
            let ghost before = views(definitions@);
            let ghost before_names = names;
            let ghost name = all[i as int].name;
            let definition = self.entries[i].tool.definition();
            let ghost given = definition;
            let ghost view = definition@;
            let at = insert_definition(&mut definitions, definition);
            proof {
                assert(all[i as int] == self.entries@[i as int]@);
                assert(self@[name] == self.entries@[i as int].tool);
                assert(may_give(self@[name], view)) by {
                    assert(call_ensures(K::definition, (&self.entries@[i as int].tool,), given));
                }
                names = before_names.insert(at as int, name);
                let after = views(definitions@);
                assert(after.len() == before.len() + 1);
                assert(!before_names.contains(name)) by {
                    if before_names.contains(name) {
                        let j = choose|j: int| 0 <= j < i && (#[trigger] all[j]).name == name;
                        assert(text_before(all[j].name, all[i as int].name));
                        text_before_irreflexive(name);
                    }
                }
                insert_keeps_distinct(before_names, at as int, name);
                assert forall|other: Seq<char>| #[trigger] names.contains(other) <==> exists|j: int|
                    0 <= j < i + 1 && (#[trigger] all[j]).name == other by {
                    if before_names.contains(other) {
                        let j = choose|j: int| 0 <= j < i && (#[trigger] all[j]).name == other;
                        assert(0 <= j < i + 1 && all[j].name == other);
                    }
                    if exists|j: int| 0 <= j < i + 1 && (#[trigger] all[j]).name == other {
                        let j = choose|j: int| 0 <= j < i + 1 && (#[trigger] all[j]).name == other;
                        if j < i {
                            assert(before_names.contains(other));
                        }
                    }
                    assert(all[i as int].name == name);
                }
                assert forall|j: int| 0 <= j < names.len() implies may_give(
                    self@[names[j]],
                    #[trigger] after[j],
                ) by {
                    if j < at {
                        assert(after[j] == before[j] && names[j] == before_names[j]);
                    } else if j > at {
                        assert(after[j] == before[j - 1] && names[j] == before_names[j - 1]);
                    }
                }
            }
            i = i + 1;
        }
        proof {
            assert forall|name: Seq<char>| #[trigger] names.contains(name)
                <==> self@.contains_key(name) by {
                if names.contains(name) {
                    let j = choose|j: int| 0 <= j < i && (#[trigger] all[j]).name == name;
                    assert(by_name(all).contains_pair(all[j].name, all[j].tool));
                }
                if self@.contains_key(name) {
                    by_name_entries(all);
                }
            }
            assert(lists(self@, names, views(definitions@)));
        }
        definitions
    }

    /// The definition that the tool `name` gives.
    pub fn definition(&self, name: &str) -> (definition: Option<ToolDefinition>)
        ensures
            may_define(self@, name@, opt_view(definition)),
    {
        match self.tool(name) {
            Some(tool) => {
                let definition = tool.definition();
                assert(call_ensures(K::definition, (&self@[name@],), definition));
                Some(definition)
            },
            None => None,
        }
    }

    /// What the model is told of the tools, in the order of their names.
    pub fn specs(&self) -> (specs: Vec<ToolSpec>)
        ensures
            may_tell(self@, views(specs@)),
    {
        let definitions = self.definitions();
        let ghost all = views(definitions@);
        let mut specs: Vec<ToolSpec> = Vec::new();
        let mut i: usize = 0;
        while i < definitions.len()
            invariant
                i <= definitions@.len(),
                all == views(definitions@),
                views(specs@) == told(all).take(i as int),
            decreases definitions@.len() - i,
        {
            let ghost before = specs@;
            specs.push(definitions[i].spec());
            i = i + 1;
            assert(views(specs@) =~= views(before).push(specs@.last()@));
            assert(views(specs@) =~= told(all).take(i as int));
        }
        assert(views(specs@) =~= told(all));
        specs
    }

    /// The definition that the tool to call gives, where there is one of the name and the
    /// definition admits `args`.
    pub fn begin_call(&self, name: &str, args: &JsonValue) -> (result: Result<ToolDefinition>)
        ensures
            exists|definition: Option<ToolDefinitionView>| #[trigger]
                may_define(self@, name@, definition) && admission(result) == admitted(
                    name@,
                    definition,
                    args@,
                ),
    {
        let definition = self.definition(name);
        let ghost given = opt_view(definition);
        let result = admit_call(name, definition, args);
        assert(may_define(self@, name@, given) && admission(result) == admitted(
            name@,
            given,
            args@,
        ));
        result
    }
}

proof fn insert_keeps_distinct(names: Seq<Seq<char>>, at: int, name: Seq<char>)
    requires
        0 <= at <= names.len(),
        names.no_duplicates(),
        !names.contains(name),
    ensures
        names.insert(at, name).no_duplicates(),
        forall|other: Seq<char>| #[trigger]
            names.insert(at, name).contains(other) <==> names.contains(other) || other == name,
{
    let after = names.insert(at, name);
    assert forall|i: int, j: int| 0 <= i < after.len() && 0 <= j < after.len() && i != j implies
        after[i] != after[j] by {
        let x = if i < at {
            i
        } else {
            i - 1
        };
        let y = if j < at {
            j
        } else {
            j - 1
        };
        if i != at {
            assert(after[i] == names[x]);
            assert(names.contains(names[x]));
        }
        if j != at {
            assert(after[j] == names[y]);
            assert(names.contains(names[y]));
        }
    }
    assert forall|other: Seq<char>| #[trigger] after.contains(other) <==> names.contains(other)
        || other == name by {
        if after.contains(other) {
            let i = choose|i: int| 0 <= i < after.len() && after[i] == other;
            if i < at {
                assert(names[i] == other);
            } else if i > at {
                assert(names[i - 1] == other);
            }
        }
        if names.contains(other) {
            let i = choose|i: int| 0 <= i < names.len() && names[i] == other;
            if i < at {
                assert(after[i] == other);
            } else {
                assert(after[i + 1] == other);
            }
        }
        assert(after[at] == name);
    }
}

/// What a call may begin with: the definition of its tool, where there is one of the name and it
/// admits the arguments.
pub open spec fn admitted(
    name: Seq<char>,
    definition: Option<ToolDefinitionView>,
    args: JsonView,
) -> std::result::Result<ToolDefinitionView, ToolErrorView> {
    match definition {
        None => Err(ToolErrorView::NotFound { name }),
        Some(definition) => match violation(definition.parameters, args, "$"@) {
            Some(message) => Err(
                ToolErrorView::InvalidArguments { tool: definition.name, message },
            ),
            None => Ok(definition),
        },
    }
}

/// The view of what a call begins with.
pub open spec fn admission(result: Result<ToolDefinition>) -> std::result::Result<
    ToolDefinitionView,
    ToolErrorView,
> {
    match result {
        Ok(definition) => Ok(definition@),
        Err(error) => Err(error@),
    }
}

/// Begins a call of the tool `name`, whose definition is given where there is such a tool.
pub fn admit_call(name: &str, definition: Option<ToolDefinition>, args: &JsonValue) -> (result:
    Result<ToolDefinition>)
    ensures
        admission(result) == admitted(name@, opt_view(definition), args@),
{
    match definition {
        None => Err(ToolError::NotFound { name: name.to_owned() }),
        Some(definition) => {
            match validate_arguments(definition.name.as_str(), &definition.parameters, args) {
                Ok(()) => Ok(definition),
                Err(error) => Err(error),
            }
        },
    }
}

/// The outcome of a call: what the tool gave, or an error where its time ran out.
pub fn finish_call(definition: &ToolDefinition, outcome: Option<Result<JsonValue>>) -> (result:
    Result<JsonValue>)
    ensures
        match outcome {
            Some(given) => result == given,
            None => result is Err && result->Err_0@ == (ToolErrorView::Timeout {
                name: definition@.name,
            }),
        },
{
    match outcome {
        Some(given) => given,
        None => Err(ToolError::Timeout { name: definition.name.clone() }),
    }
}

/// What the model is told of each tool.
pub open spec fn told(definitions: Seq<ToolDefinitionView>) -> Seq<ToolSpecView> {
    definitions.map_values(|definition: ToolDefinitionView| definition.spec_view())
}

/// Each definition under its own name.
spec fn as_entries(definitions: Seq<ToolDefinitionView>) -> Seq<ToolEntryView<ToolDefinitionView>> {
    definitions.map_values(
        |definition: ToolDefinitionView| ToolEntryView { name: definition.name, tool: definition },
    )
}

/// Tools that give one definition only, under the name that they are registered with, are always
/// listed in the same way.
pub proof fn listing_is_determined<K: Tool>(
    tools: Map<Seq<char>, K>,
    fixed: Map<Seq<char>, ToolDefinitionView>,
    a: Seq<ToolDefinitionView>,
    b: Seq<ToolDefinitionView>,
)
    requires
        forall|name: Seq<char>, definition: ToolDefinitionView|
            tools.contains_key(name) && #[trigger] may_give(tools[name], definition) ==> definition
                == fixed[name] && definition.name == name,
        may_list(tools, a),
        may_list(tools, b),
    ensures
        a == b,
{
    let x = choose|names: Seq<Seq<char>>| #[trigger] lists(tools, names, a);
    let y = choose|names: Seq<Seq<char>>| #[trigger] lists(tools, names, b);
    listed_by_name(tools, fixed, x, a);
    listed_by_name(tools, fixed, y, b);
    assert(by_name(as_entries(a)) =~= by_name(as_entries(b)));
    order_is_unique(as_entries(a), as_entries(b));
    assert(a.len() == as_entries(a).len() && b.len() == as_entries(b).len());
    assert forall|i: int| 0 <= i < a.len() implies a[i] == b[i] by {
        assert(as_entries(a)[i].tool == a[i]);
        assert(as_entries(b)[i].tool == b[i]);
    }
    assert(a =~= b);
}

proof fn listed_by_name<K: Tool>(
    tools: Map<Seq<char>, K>,
    fixed: Map<Seq<char>, ToolDefinitionView>,
    names: Seq<Seq<char>>,
    definitions: Seq<ToolDefinitionView>,
)
    requires
        forall|name: Seq<char>, definition: ToolDefinitionView|
            tools.contains_key(name) && #[trigger] may_give(tools[name], definition) ==> definition
                == fixed[name] && definition.name == name,
        lists(tools, names, definitions),
    ensures
        in_name_order(as_entries(definitions)),
        forall|name: Seq<char>| #[trigger]
            by_name(as_entries(definitions)).contains_key(name) <==> tools.contains_key(name),
        forall|name: Seq<char>|
            tools.contains_key(name) ==> #[trigger] by_name(as_entries(definitions))[name]
                == fixed[name],
{
    let entries = as_entries(definitions);
    assert forall|i: int| 0 <= i < definitions.len() implies (#[trigger] definitions[i])
        == fixed[names[i]] && definitions[i].name == names[i] by {
        assert(names.contains(names[i]));
        assert(may_give(tools[names[i]], definitions[i]));
    }
    assert forall|i: int, j: int| 0 <= i < j < entries.len() implies text_before(
        (#[trigger] entries[i]).name,
        (#[trigger] entries[j]).name,
    ) by {
        assert(entries[i].name == definitions[i].name && entries[j].name == definitions[j].name);
        assert(!text_before(definitions[j].name, definitions[i].name));
        assert(names[i] != names[j]);
        text_before_total(definitions[i].name, definitions[j].name);
    }
    by_name_entries(entries);
    let map = by_name(entries);
    assert forall|name: Seq<char>| tools.contains_key(name) implies map.contains_key(name)
        && #[trigger] map[name] == fixed[name] by {
        assert(names.contains(name));
        let i = choose|i: int| 0 <= i < names.len() && names[i] == name;
        assert(entries[i].name == definitions[i].name);
        assert(map.contains_pair(entries[i].name, entries[i].tool));
    }
    assert forall|name: Seq<char>| #[trigger] map.contains_key(name) <==> tools.contains_key(
        name,
    ) by {
        if map.contains_key(name) {
            let i = choose|i: int| 0 <= i < entries.len() && (#[trigger] entries[i]).name == name;
            assert(entries[i].name == definitions[i].name);
            assert(names.contains(names[i]));
        }
        if tools.contains_key(name) {
            assert(map[name] == fixed[name]);
        }
    }
}

/// Entries in the order of their names are determined by which they are.
proof fn order_is_unique<K>(a: Seq<ToolEntryView<K>>, b: Seq<ToolEntryView<K>>)
    requires
        in_name_order(a),
        in_name_order(b),
        by_name(a) == by_name(b),
    ensures
        a == b,
    decreases a.len(),
{
    by_name_entries(a);
    by_name_entries(b);
    if a.len() == 0 {
        if b.len() > 0 {
            assert(by_name(b).contains_pair(b[0].name, b[0].tool));
            assert(!by_name(a).contains_key(b[0].name));
        }
        assert(a =~= b);
    } else {
        assert(by_name(a).contains_pair(a.last().name, a.last().tool)) by {
            assert(by_name(a).contains_pair(a[a.len() - 1].name, a[a.len() - 1].tool));
        }
        assert(by_name(b).contains_key(a.last().name));
        let j = choose|j: int| 0 <= j < b.len() && (#[trigger] b[j]).name == a.last().name;
        assert(by_name(b).contains_pair(b[b.len() - 1].name, b[b.len() - 1].tool));
        assert(by_name(a).contains_key(b.last().name));
        let i = choose|i: int| 0 <= i < a.len() && (#[trigger] a[i]).name == b.last().name;
        if j < b.len() - 1 {
            assert(text_before(b[j].name, b[b.len() - 1].name));
            if i < a.len() - 1 {
                assert(text_before(a[i].name, a[a.len() - 1].name));
                text_before_transitive(a.last().name, b.last().name, a.last().name);
            }
            text_before_irreflexive(a.last().name);
        }
        assert(b.last().name == a.last().name);
        assert(by_name(b).contains_pair(b[j].name, b[j].tool));
        assert(a.last() == b.last());
        let name = a.last().name;
        assert(by_name(a.drop_last()) =~= by_name(a).remove(name)) by {
            without_last(a);
        }
        assert(by_name(b.drop_last()) =~= by_name(b).remove(name)) by {
            without_last(b);
        }
        assert(in_name_order(a.drop_last()));
        assert(in_name_order(b.drop_last()));
        order_is_unique(a.drop_last(), b.drop_last());
        assert(a =~= a.drop_last().push(a.last()));
        assert(b =~= b.drop_last().push(b.last()));
    }
}

proof fn without_last<K>(a: Seq<ToolEntryView<K>>)
    requires
        in_name_order(a),
        a.len() > 0,
    ensures
        by_name(a.drop_last()) =~= by_name(a).remove(a.last().name),
{
    let rest = a.drop_last();
    assert(in_name_order(rest));
    by_name_entries(rest);
    if by_name(rest).contains_key(a.last().name) {
        let i = choose|i: int| 0 <= i < rest.len() && (#[trigger] rest[i]).name == a.last().name;
        assert(text_before(a[i].name, a[a.len() - 1].name));
        text_before_irreflexive(a.last().name);
    }
}

proof fn by_name_of_insert<K>(entries: Seq<ToolEntryView<K>>, at: int, new: ToolEntryView<K>)
    requires
        0 <= at <= entries.len(),
        forall|i: int| 0 <= i < entries.len() ==> (#[trigger] entries[i]).name != new.name,
    ensures
        by_name(entries.insert(at, new)) == by_name(entries).insert(new.name, new.tool),
    decreases entries.len(),
{
    let after = entries.insert(at, new);
    if at == entries.len() {
        assert(after.drop_last() =~= entries);
    } else {
        let rest = entries.drop_last();
        by_name_of_insert(rest, at, new);
        assert(after.drop_last() =~= rest.insert(at, new));
        assert(after.last() == entries.last());
        assert(by_name(after) =~= by_name(entries).insert(new.name, new.tool));
    }
}

/// A call is admitted exactly where there is a tool of its name whose schema admits the arguments,
/// and then with the definition of that tool. Otherwise the error tells that there is no such tool,
/// or what is wrong with the arguments, at their place in them.
pub proof fn calls_are_admitted_by_their_schema(
    name: Seq<char>,
    definition: Option<ToolDefinitionView>,
    args: JsonView,
)
    ensures
        ({
            let result = admitted(name, definition, args);
            &&& result is Ok <==> definition is Some && conforms(definition->0.parameters, args)
            &&& result is Ok ==> result->Ok_0 == definition->0
            &&& definition is None ==> result is Err && result->Err_0 == (ToolErrorView::NotFound {
                name,
            })
            &&& definition is Some && result is Err ==> {
                &&& result->Err_0 is InvalidArguments
                &&& result->Err_0->InvalidArguments_tool == definition->0.name
                &&& starts_with(result->Err_0->InvalidArguments_message, "$"@)
            }
        }),
{
    if let Some(definition) = definition {
        fault_means_not_admitted(definition.parameters, args, "$"@);
        a_fault_is_told_by_its_place(definition.parameters, args, "$"@);
        if let Some(message) = violation(definition.parameters, args, "$"@) {
            let rest = violation(definition.parameters, args, Seq::empty()).unwrap();
            assert(("$"@ + rest).take("$"@.len() as int) =~= "$"@);
        }
    }
}

/// A tool is registered exactly where its name is free, and is then the tool of that name; the tools
/// of other names stay, and a name that was taken keeps its tool.
pub proof fn registering_keeps_other_tools<K>(
    before: Map<Seq<char>, K>,
    name: Seq<char>,
    tool: K,
    result: std::result::Result<(), ToolErrorView>,
    after: Map<Seq<char>, K>,
    other: Seq<char>,
)
    requires
        registered(before, name, tool, result, after),
    ensures
        result is Ok <==> !before.contains_key(name),
        result is Err ==> result->Err_0 == (ToolErrorView::DuplicateTool { name }),
        after.contains_key(name),
        after[name] == if before.contains_key(name) {
            before[name]
        } else {
            tool
        },
        other != name ==> (after.contains_key(other) <==> before.contains_key(other)),
        other != name && before.contains_key(other) ==> after[other] == before[other],
{
}

/// The model is told of each tool that is listed, in order, by its name, what it does and its
/// parameters.
pub proof fn the_model_is_told_of_each_tool(definitions: Seq<ToolDefinitionView>, i: int)
    requires
        0 <= i < definitions.len(),
    ensures
        told(definitions).len() == definitions.len(),
        told(definitions)[i].name == definitions[i].name,
        told(definitions)[i].description == definitions[i].description,
        told(definitions)[i].parameters == definitions[i].parameters,
{
}

/// A call comes to what the tool gave, unless its time ran out, which is told with the tool's name.
pub proof fn a_call_comes_to_what_the_tool_gave(
    definition: ToolDefinition,
    outcome: Option<Result<JsonValue>>,
    result: Result<JsonValue>,
)
    requires
        call_ensures(finish_call, (&definition, outcome), result),
    ensures
        outcome matches Some(given) ==> result == given,
        outcome is None ==> result is Err && result->Err_0@ is Timeout
            && result->Err_0@->Timeout_name == definition@.name,
{
}

/// What the model is told of tools is told of each of them, once, and of nothing else: by a
/// definition that the tool may give, in the order of the names that they give.
pub proof fn each_tool_is_told_of_once<K: Tool>(
    tools: Map<Seq<char>, K>,
    specs: Seq<ToolSpecView>,
    name: Seq<char>,
)
    requires
        may_tell(tools, specs),
    ensures
        tools.contains_key(name) ==> exists|i: int, definition: ToolDefinitionView|
            0 <= i < specs.len() && #[trigger] may_give(tools[name], definition)
                && #[trigger] specs[i] == (ToolSpecView {
                name: definition.name,
                description: definition.description,
                parameters: definition.parameters,
            }),
        tools.dom().len() == specs.len(),
        forall|i: int, j: int|
            0 <= i < j < specs.len() ==> !text_before(
                (#[trigger] specs[j]).name,
                (#[trigger] specs[i]).name,
            ),
{
    let definitions = choose|definitions: Seq<ToolDefinitionView>| #[trigger]
        may_list(tools, definitions) && specs == told(definitions);
    let names = choose|names: Seq<Seq<char>>| #[trigger] lists(tools, names, definitions);
    assert forall|i: int, j: int| 0 <= i < j < specs.len() implies !text_before(
        (#[trigger] specs[j]).name,
        (#[trigger] specs[i]).name,
    ) by {
        assert(specs[i].name == definitions[i].name && specs[j].name == definitions[j].name);
    }
    if tools.contains_key(name) {
        assert(names.contains(name));
        let i = choose|i: int| 0 <= i < names.len() && names[i] == name;
        assert(may_give(tools[names[i]], definitions[i]));
        assert(specs[i] == definitions[i].spec_view());
    }
    names.unique_seq_to_set();
    assert(names.to_set() =~= tools.dom());
}

} // verus!
