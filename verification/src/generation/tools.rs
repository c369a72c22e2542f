use crate::generation::chat::message::{Message, MessageView, Role};
use std::collections::HashMap;
use vstd::prelude::*;

verus! {

/// Arguments of one tool call: parameter name to string value.
pub type ToolCallArguments = HashMap<String, String>;

/// A capability that the model may ask to have run.
pub trait Tool: Send + Sync {
    /// What the model is told about this tool.
    fn tool_function(&self) -> ToolFunction;

    /// Runs the tool. A failure is a value: its text goes back to the model.
    fn execute(&self, arguments: ToolCallArguments) -> Result<String, String>;
}

/// How a tool presents itself to the backend.
#[derive(Debug, Clone, Copy, PartialEq, Eq, Structural)]
pub enum ToolType {
    Function,
}

/// One declared parameter of a tool.
#[derive(Debug)]
pub struct ToolProperty {
    pub p_type: String,
    pub description: String,
}

/// Mathematical value of a [`ToolProperty`].
pub struct ToolPropertyView {
    pub p_type: Seq<char>,
    pub description: Seq<char>,
}

impl View for ToolProperty {
    type V = ToolPropertyView;

    open spec fn view(&self) -> ToolPropertyView {
        ToolPropertyView { p_type: self.p_type@, description: self.description@ }
    }
}

impl Clone for ToolProperty {
    fn clone(&self) -> (r: Self)
        ensures
            r@ == self@,
    {
        ToolProperty { p_type: self.p_type.clone(), description: self.description.clone() }
    }
}

/// The values of a sequence of strings, in order.
pub open spec fn name_views(names: Seq<String>) -> Seq<Seq<char>> {
    names.map_values(|s: String| s@)
}

/// The values of a sequence of properties, in order.
pub open spec fn property_views(properties: Seq<ToolProperty>) -> Seq<ToolPropertyView> {
    properties.map_values(|p: ToolProperty| p@)
}

/// Whether no name occurs twice in `names`.
pub open spec fn distinct(names: Seq<Seq<char>>) -> bool {
    forall|i: int, j: int| 0 <= i < j < names.len() ==> names[i] != names[j]
}

/// The map that sends each of `names` to the property at the same position.
pub open spec fn paired(names: Seq<Seq<char>>, properties: Seq<ToolPropertyView>) -> Map<
    Seq<char>,
    ToolPropertyView,
> {
    Map::new(
        |k: Seq<char>| names.contains(k),
        |k: Seq<char>| properties[names.index_of(k)],
    )
}

/// The declared parameters of a tool, by name. Names are kept in the order in
/// which they were first inserted; no name occurs twice.
#[derive(Debug)]
pub struct ToolPropertiesMap {
    names: Vec<String>,
    properties: Vec<ToolProperty>,
}

impl View for ToolPropertiesMap {
    type V = Map<Seq<char>, ToolPropertyView>;

    closed spec fn view(&self) -> Map<Seq<char>, ToolPropertyView> {
        paired(name_views(self.names@), property_views(self.properties@))
    }
}

impl ToolPropertiesMap {
    #[verifier::type_invariant]
    spec fn well_formed(&self) -> bool {
        &&& self.names@.len() == self.properties@.len()
        &&& distinct(name_views(self.names@))
    }

    /// The parameter names, in the order of their first insertion.
    pub closed spec fn keys(&self) -> Seq<Seq<char>> {
        name_views(self.names@)
    }

    /// The keys are exactly the names that the map holds.
    pub proof fn law_keys_are_the_domain(&self)
        ensures
            forall|k: Seq<char>| self.keys().contains(k) <==> self@.contains_key(k),
    {
    }

    /// A map without entries.
    pub fn new() -> (r: Self)
        ensures
            r@ == Map::<Seq<char>, ToolPropertyView>::empty(),
            r.keys() == Seq::<Seq<char>>::empty(),
    {
        let r = ToolPropertiesMap { names: Vec::new(), properties: Vec::new() };
        assert(r@ =~= Map::<Seq<char>, ToolPropertyView>::empty());
        assert(r.keys() =~= Seq::<Seq<char>>::empty());
        r
    }

    /// How many parameters are declared.
    pub fn len(&self) -> (n: usize)
        ensures
            n == self.keys().len(),
            distinct(self.keys()),
    {
        proof {
            use_type_invariant(self);
        }
        self.names.len()
    }

    /// The position of `name` among the keys, if it is one of them.
    fn position(&self, name: &String) -> (r: Option<usize>)
        ensures
            match r {
                Some(i) => i < self.keys().len() && self.keys()[i as int] == name@,
                None => !self.keys().contains(name@),
            },
    {
        let n: usize = self.names.len();
        let mut i: usize = 0;
        while i < n
            invariant
                i <= n,
                n == self.names@.len(),
                forall|j: int| 0 <= j < i ==> name_views(self.names@)[j] != name@,
            decreases n - i,
        {
            if self.names[i] == *name {
                return Some(i);
            }
            i = i + 1;
        }
        None
    }

    /// Declares `name` with `property`; an earlier declaration of the same
    /// name is replaced and keeps its place among the keys.
    pub fn insert(&mut self, name: String, property: ToolProperty)
        ensures
            final(self)@ == old(self)@.insert(name@, property@),
            final(self).keys() == if old(self).keys().contains(name@) {
                old(self).keys()
            } else {
                old(self).keys().push(name@)
            },
    {
        proof {
            use_type_invariant(&*self);
        }
        let ghost old_names = name_views(self.names@);
        let ghost old_props = property_views(self.properties@);
        let found = self.position(&name);
        let mut taken = ToolPropertiesMap::new();
        core::mem::swap(self, &mut taken);
        let ToolPropertiesMap { mut names, mut properties } = taken;
        match found {
            Some(i) => {
                properties.set(i, property);
                proof {
                    let props = property_views(properties@);
                    assert(props =~= old_props.update(i as int, property@));
                    assert(old_names.index_of(name@) == i);
                    assert forall|k: Seq<char>| old_names.contains(k) implies #[trigger] paired(
                        old_names,
                        props,
                    )[k] == paired(old_names, old_props).insert(name@, property@)[k] by {
                        let j = old_names.index_of(k);
                        assert(old_names[j] == k);
                    }
                    assert(paired(old_names, props) =~= paired(old_names, old_props).insert(
                        name@,
                        property@,
                    ));
                }
            },
            None => {
                names.push(name);
                properties.push(property);
                proof {
                    let new_names = name_views(names@);
                    let props = property_views(properties@);
                    assert(new_names =~= old_names.push(name@));
                    assert(props =~= old_props.push(property@));
                    assert(new_names[old_names.len() as int] == name@);
                    assert forall|k: Seq<char>| new_names.contains(k) implies #[trigger] paired(
                        new_names,
                        props,
                    )[k] == paired(old_names, old_props).insert(name@, property@)[k] by {
                        let j = new_names.index_of(k);
                        assert(new_names[j] == k);
                        if k != name@ {
                            assert(j < old_names.len());
                            assert(old_names[j] == k);
                            assert(old_names.index_of(k) == j);
                        } else {
                            assert(j == old_names.len());
                        }
                    }
                    assert forall|k: Seq<char>|
                        new_names.contains(k) <==> (old_names.contains(k) || k == name@) by {
                        if old_names.contains(k) {
                            let j = old_names.index_of(k);
                            assert(new_names[j] == k);
                        }
                    }
                    assert(paired(new_names, props) =~= paired(old_names, old_props).insert(
                        name@,
                        property@,
                    ));
                }
            },
        }
        *self = ToolPropertiesMap { names, properties };
    }

    /// The property declared under `name`, if there is one.
    pub fn get(&self, name: &str) -> (r: Option<&ToolProperty>)
        ensures
            match r {
                Some(p) => self@.contains_key(name@) && self@[name@] == p@,
                None => !self@.contains_key(name@),
            },
    {
        proof {
            use_type_invariant(self);
        }
        let wanted: String = name.to_owned();
        match self.position(&wanted) {
            Some(i) => {
                assert(name_views(self.names@).index_of(name@) == i);
                Some(&self.properties[i])
            },
            None => None,
        }
    }

    /// The `i`-th parameter in insertion order: its name and its property.
    pub fn entry(&self, i: usize) -> (r: (&String, &ToolProperty))
        requires
            i < self.keys().len(),
        ensures
            r.0@ == self.keys()[i as int],
            self@.contains_key(r.0@),
            self@[r.0@] == r.1@,
    {
        proof {
            use_type_invariant(self);
            assert(name_views(self.names@)[i as int] == self.names@[i as int]@);
            assert(name_views(self.names@).index_of(self.names@[i as int]@) == i);
        }
        (&self.names[i], &self.properties[i])
    }
}

impl Clone for ToolPropertiesMap {
    fn clone(&self) -> (r: Self)
        ensures
            r@ == self@,
            r.keys() == self.keys(),
    {
        proof {
            use_type_invariant(self);
        }
        let names = self.names.clone();
        let properties = self.properties.clone();
        assert(name_views(names@) =~= name_views(self.names@));
        assert(property_views(properties@) =~= property_views(self.properties@));
        ToolPropertiesMap { names, properties }
    }
}

/// The parameter schema of a tool.
#[derive(Debug)]
pub struct ToolFunctionParameters {
    pub p_type: String,
    pub properties: ToolPropertiesMap,
    pub required: Vec<String>,
}

/// Mathematical value of a [`ToolFunctionParameters`].
pub struct ToolFunctionParametersView {
    pub p_type: Seq<char>,
    pub properties: Map<Seq<char>, ToolPropertyView>,
    pub required: Seq<Seq<char>>,
}

impl View for ToolFunctionParameters {
    type V = ToolFunctionParametersView;

    open spec fn view(&self) -> ToolFunctionParametersView {
        ToolFunctionParametersView {
            p_type: self.p_type@,
            properties: self.properties@,
            required: name_views(self.required@),
        }
    }
}

impl Clone for ToolFunctionParameters {
    fn clone(&self) -> (r: Self)
        ensures
            r@ == self@,
    {
        let required = self.required.clone();
        assert(name_views(required@) =~= name_views(self.required@));
        ToolFunctionParameters {
            p_type: self.p_type.clone(),
            properties: self.properties.clone(),
            required,
        }
    }
}

/// What a tool declares of itself: its name, what it is for, and its parameters.
#[derive(Debug)]
pub struct ToolFunction {
    pub name: String,
    pub description: String,
    pub parameters: ToolFunctionParameters,
}

/// Mathematical value of a [`ToolFunction`].
pub struct ToolFunctionView {
    pub name: Seq<char>,
    pub description: Seq<char>,
    pub parameters: ToolFunctionParametersView,
}

impl View for ToolFunction {
    type V = ToolFunctionView;

    open spec fn view(&self) -> ToolFunctionView {
        ToolFunctionView {
            name: self.name@,
            description: self.description@,
            parameters: self.parameters@,
        }
    }
}

impl Clone for ToolFunction {
    fn clone(&self) -> (r: Self)
        ensures
            r@ == self@,
    {
        ToolFunction {
            name: self.name.clone(),
            description: self.description.clone(),
            parameters: self.parameters.clone(),
        }
    }
}

impl ToolFunctionView {
    /// The descriptor of a tool that takes no parameters yet.
    pub open spec fn bare(name: Seq<char>, description: Seq<char>) -> ToolFunctionView {
        ToolFunctionView {
            name,
            description,
            parameters: ToolFunctionParametersView {
                p_type: "object"@,
                properties: Map::empty(),
                required: Seq::empty(),
            },
        }
    }

    /// This descriptor with one more string parameter declared.
    pub open spec fn with_parameter(
        self,
        name: Seq<char>,
        description: Seq<char>,
        required: bool,
    ) -> ToolFunctionView {
        ToolFunctionView {
            name: self.name,
            description: self.description,
            parameters: ToolFunctionParametersView {
                p_type: self.parameters.p_type,
                properties: self.parameters.properties.insert(
                    name,
                    ToolPropertyView { p_type: "string"@, description },
                ),
                required: if required {
                    self.parameters.required.push(name)
                } else {
                    self.parameters.required
                },
            },
        }
    }
}

impl ToolFunction {
    /// Starts the descriptor of a tool; parameters are added with
    /// [`ToolFunction::parameter`].
    pub fn new(name: &str, description: &str) -> (r: Self)
        ensures
            r@ == ToolFunctionView::bare(name@, description@),
    {
        let required: Vec<String> = Vec::new();
        assert(name_views(required@) =~= Seq::<Seq<char>>::empty());
        ToolFunction {
            name: name.to_owned(),
            description: description.to_owned(),
            parameters: ToolFunctionParameters {
                p_type: "object".to_owned(),
                properties: ToolPropertiesMap::new(),
                required,
            },
        }
    }

    /// Declares a string parameter; a required one is also listed as such.
    pub fn parameter(self, name: &str, description: &str, required: bool) -> (r: Self)
        ensures
            r@ == self@.with_parameter(name@, description@, required),
    {
        let mut this = self;
        let name = name.to_owned();
        this.parameters.properties.insert(
            name.clone(),
            ToolProperty { p_type: "string".to_owned(), description: description.to_owned() },
        );
        if required {
            this.parameters.required.push(name);
            assert(name_views(this.parameters.required@) =~= name_views(
                self.parameters.required@,
            ).push(name@));
        }
        this
    }
}

/// A tool as it is announced to the backend.
#[derive(Debug)]
pub struct ToolInfo {
    pub tool_type: ToolType,
    pub function: ToolFunction,
}

/// Mathematical value of a [`ToolInfo`].
pub struct ToolInfoView {
    pub tool_type: ToolType,
    pub function: ToolFunctionView,
}

impl View for ToolInfo {
    type V = ToolInfoView;

    open spec fn view(&self) -> ToolInfoView {
        ToolInfoView { tool_type: self.tool_type, function: self.function@ }
    }
}

impl Clone for ToolInfo {
    fn clone(&self) -> (r: Self)
        ensures
            r@ == self@,
    {
        ToolInfo { tool_type: self.tool_type, function: self.function.clone() }
    }
}

/// The values of a sequence of tool announcements, in order.
pub open spec fn tool_info_views(tools: Seq<ToolInfo>) -> Seq<ToolInfoView> {
    tools.map_values(|t: ToolInfo| t@)
}

/// The function part of a tool call, as the backend sent it.
#[derive(Debug)]
pub struct ToolCallFunction {
    pub index: i32,
    pub name: String,
    pub arguments: ToolCallArguments,
}

/// A request by the model to run one named tool.
#[derive(Debug)]
pub struct ToolCall {
    pub function: ToolCallFunction,
}

/// Mathematical value of a [`ToolCall`].
pub struct ToolCallView {
    pub index: i32,
    pub name: Seq<char>,
    pub arguments: Map<String, String>,
}

impl View for ToolCallFunction {
    type V = ToolCallView;

    open spec fn view(&self) -> ToolCallView {
        ToolCallView { index: self.index, name: self.name@, arguments: self.arguments@ }
    }
}

impl View for ToolCall {
    type V = ToolCallView;

    open spec fn view(&self) -> ToolCallView {
        self.function@
    }
}

impl Clone for ToolCallFunction {
    fn clone(&self) -> (r: Self)
        ensures
            r@ == self@,
    {
        ToolCallFunction {
            index: self.index,
            name: self.name.clone(),
            arguments: self.arguments.clone(),
        }
    }
}

impl Clone for ToolCall {
    fn clone(&self) -> (r: Self)
        ensures
            r@ == self@,
    {
        ToolCall { function: self.function.clone() }
    }
}

/// The values of a sequence of tool calls, in order.
pub open spec fn tool_call_views(calls: Seq<ToolCall>) -> Seq<ToolCallView> {
    calls.map_values(|c: ToolCall| c@)
}

/// One planned run of a tool: which call asks for it, which registered tool
/// serves it, and the arguments to hand over.
#[derive(Debug)]
pub struct Invocation {
    /// Position of the call in the message's tool calls.
    pub call: usize,
    /// Position of the tool in the registry.
    pub tool: usize,
    /// The call's arguments.
    pub arguments: ToolCallArguments,
}

/// Mathematical value of an [`Invocation`].
pub struct InvocationView {
    pub call: int,
    pub tool: int,
    pub arguments: Map<String, String>,
}

impl View for Invocation {
    type V = InvocationView;

    open spec fn view(&self) -> InvocationView {
        InvocationView { call: self.call as int, tool: self.tool as int, arguments: self.arguments@ }
    }
}

impl Clone for Invocation {
    fn clone(&self) -> (r: Self)
        ensures
            r@ == self@,
    {
        Invocation { call: self.call, tool: self.tool, arguments: self.arguments.clone() }
    }
}

/// The values of a sequence of invocations, in order.
pub open spec fn invocation_views(plan: Seq<Invocation>) -> Seq<InvocationView> {
    plan.map_values(|i: Invocation| i@)
}

/// The positions, in registration order, of the tools declared under `name`.
pub open spec fn matching_tools(name: Seq<char>, tools: Seq<ToolInfoView>) -> Seq<int>
    decreases tools.len(),
{
    if tools.len() == 0 {
        Seq::empty()
    } else if tools.last().function.name == name {
        matching_tools(name, tools.drop_last()).push(tools.len() - 1)
    } else {
        matching_tools(name, tools.drop_last())
    }
}

/// The invocations that the call at position `call` gives rise to: one for
/// each tool declared under the call's name, in registration order.
pub open spec fn invocations_of(call: int, asked: ToolCallView, tools: Seq<ToolInfoView>) -> Seq<
    InvocationView,
> {
    matching_tools(asked.name, tools).map_values(
        |tool: int| InvocationView { call, tool, arguments: asked.arguments },
    )
}

/// Every invocation that `calls` give rise to: the calls in the order in
/// which they appear, and for each call its tools in registration order.
pub open spec fn planned(calls: Seq<ToolCallView>, tools: Seq<ToolInfoView>) -> Seq<
    InvocationView,
>
    decreases calls.len(),
{
    if calls.len() == 0 {
        Seq::empty()
    } else {
        planned(calls.drop_last(), tools) + invocations_of(calls.len() - 1, calls.last(), tools)
    }
}

/// The positions that [`matching_tools`] lists are exactly those of the tools
/// declared under `name`, each once and in ascending order.
pub proof fn law_matching_tools(name: Seq<char>, tools: Seq<ToolInfoView>)
    ensures
        forall|k: int|
            0 <= k < matching_tools(name, tools).len() ==> {
                let t = #[trigger] matching_tools(name, tools)[k];
                0 <= t < tools.len() && tools[t].function.name == name
            },
        forall|t: int|
            0 <= t < tools.len() && tools[t].function.name == name ==> matching_tools(
                name,
                tools,
            ).contains(t),
        forall|j: int, k: int|
            0 <= j < k < matching_tools(name, tools).len() ==> #[trigger] matching_tools(
                name,
                tools,
            )[j] < #[trigger] matching_tools(name, tools)[k],
        matching_tools(name, tools).len() <= tools.len(),
    decreases tools.len(),
{
    if tools.len() > 0 {
        let shorter = tools.drop_last();
        law_matching_tools(name, shorter);
        let before = matching_tools(name, shorter);
        let now = matching_tools(name, tools);
        assert forall|t: int|
            0 <= t < tools.len() && tools[t].function.name == name implies now.contains(t) by {
            if t < shorter.len() {
                assert(shorter[t] == tools[t]);
                assert(before.contains(t));
                let k = choose|k: int| 0 <= k < before.len() && before[k] == t;
                assert(now[k] == t);
            } else {
                assert(now[now.len() - 1] == t);
            }
        }
    }
}

/// No tool under the name: nothing matches.
pub proof fn law_unknown_name_matches_nothing(name: Seq<char>, tools: Seq<ToolInfoView>)
    requires
        forall|t: int| 0 <= t < tools.len() ==> (#[trigger] tools[t]).function.name != name,
    ensures
        matching_tools(name, tools) == Seq::<int>::empty(),
    decreases tools.len(),
{
    if tools.len() > 0 {
        let shorter = tools.drop_last();
        assert forall|t: int| 0 <= t < shorter.len() implies (#[trigger] shorter[t]).function.name
            != name by {
            assert(shorter[t] == tools[t]);
        }
        law_unknown_name_matches_nothing(name, shorter);
    }
}

/// Every planned invocation pairs a call with a tool declared under the
/// call's name and carries that call's arguments.
pub proof fn law_plan_is_sound(calls: Seq<ToolCallView>, tools: Seq<ToolInfoView>)
    ensures
        forall|k: int|
            0 <= k < planned(calls, tools).len() ==> {
                let step = #[trigger] planned(calls, tools)[k];
                &&& 0 <= step.call < calls.len()
                &&& 0 <= step.tool < tools.len()
                &&& tools[step.tool].function.name == calls[step.call].name
                &&& step.arguments == calls[step.call].arguments
            },
    decreases calls.len(),
{
    if calls.len() > 0 {
        let earlier = calls.drop_last();
        law_plan_is_sound(earlier, tools);
        law_matching_tools(calls.last().name, tools);
        let before = planned(earlier, tools);
        assert forall|k: int| 0 <= k < planned(calls, tools).len() implies {
            let step = #[trigger] planned(calls, tools)[k];
            &&& 0 <= step.call < calls.len()
            &&& 0 <= step.tool < tools.len()
            &&& tools[step.tool].function.name == calls[step.call].name
            &&& step.arguments == calls[step.call].arguments
        } by {
            if k < before.len() {
                let step = before[k];
                assert(earlier[step.call] == calls[step.call]);
            } else {
                let t = matching_tools(calls.last().name, tools)[k - before.len()];
                assert(0 <= t < tools.len());
            }
        }
    }
}

/// Every pair of a call and a tool declared under the call's name is planned.
pub proof fn law_plan_is_complete(
    calls: Seq<ToolCallView>,
    tools: Seq<ToolInfoView>,
    call: int,
    tool: int,
)
    requires
        0 <= call < calls.len(),
        0 <= tool < tools.len(),
        tools[tool].function.name == calls[call].name,
    ensures
        planned(calls, tools).contains(
            InvocationView { call, tool, arguments: calls[call].arguments },
        ),
    decreases calls.len(),
{
    let wanted = InvocationView { call, tool, arguments: calls[call].arguments };
    let earlier = calls.drop_last();
    let before = planned(earlier, tools);
    if call < calls.len() - 1 {
        assert(earlier[call] == calls[call]);
        law_plan_is_complete(earlier, tools, call, tool);
        assert(before.contains(wanted));
        let k = choose|k: int| 0 <= k < before.len() && before[k] == wanted;
        assert(planned(calls, tools)[k] == wanted);
    } else {
        law_matching_tools(calls.last().name, tools);
        let matches = matching_tools(calls.last().name, tools);
        assert(matches.contains(tool));
        let j = choose|j: int| 0 <= j < matches.len() && matches[j] == tool;
        assert(invocations_of(call, calls.last(), tools)[j] == wanted);
        assert(planned(calls, tools)[before.len() + j] == wanted);
    }
}

/// The plan keeps the order of the calls and, within one call, the order in
/// which the tools were registered.
pub proof fn law_plan_is_ordered(calls: Seq<ToolCallView>, tools: Seq<ToolInfoView>)
    ensures
        forall|j: int, k: int|
            0 <= j < k < planned(calls, tools).len() ==> {
                let a = #[trigger] planned(calls, tools)[j];
                let b = #[trigger] planned(calls, tools)[k];
                a.call < b.call || (a.call == b.call && a.tool < b.tool)
            },
    decreases calls.len(),
{
    if calls.len() > 0 {
        let earlier = calls.drop_last();
        law_plan_is_ordered(earlier, tools);
        law_plan_is_sound(earlier, tools);
        law_matching_tools(calls.last().name, tools);
        let before = planned(earlier, tools);
        let matches = matching_tools(calls.last().name, tools);
        assert forall|j: int, k: int| 0 <= j < k < planned(calls, tools).len() implies {
            let a = #[trigger] planned(calls, tools)[j];
            let b = #[trigger] planned(calls, tools)[k];
            a.call < b.call || (a.call == b.call && a.tool < b.tool)
        } by {
            if k < before.len() {
                assert(planned(calls, tools)[j] == before[j]);
                assert(planned(calls, tools)[k] == before[k]);
            } else if j < before.len() {
                assert(planned(calls, tools)[j] == before[j]);
                assert(before[j].call < earlier.len());
            } else {
                assert(matches[j - before.len()] < matches[k - before.len()]);
            }
        }
    }
}

/// A message without tool calls plans no invocation, whatever is registered.
pub proof fn law_no_calls_no_plan(tools: Seq<ToolInfoView>)
    ensures
        planned(Seq::<ToolCallView>::empty(), tools) == Seq::<InvocationView>::empty(),
{
}

/// Calls that name no registered tool plan no invocation.
pub proof fn law_unmatched_calls_plan_nothing(calls: Seq<ToolCallView>, tools: Seq<ToolInfoView>)
    requires
        forall|c: int, t: int|
            0 <= c < calls.len() && 0 <= t < tools.len() ==> (#[trigger] tools[t]).function.name
                != (#[trigger] calls[c]).name,
    ensures
        planned(calls, tools) == Seq::<InvocationView>::empty(),
    decreases calls.len(),
{
    if calls.len() > 0 {
        let earlier = calls.drop_last();
        assert forall|c: int, t: int| 0 <= c < earlier.len() && 0 <= t < tools.len() implies (
        #[trigger] tools[t]).function.name != (#[trigger] earlier[c]).name by {
            assert(earlier[c] == calls[c]);
        }
        law_unmatched_calls_plan_nothing(earlier, tools);
        law_unknown_name_matches_nothing(calls.last().name, tools);
        assert(planned(calls, tools) =~= Seq::<InvocationView>::empty());
    }
}

/// One call that names the one registered tool plans exactly one invocation,
/// with the call's arguments.
pub proof fn law_single_match_plans_once(asked: ToolCallView, tool: ToolInfoView)
    requires
        tool.function.name == asked.name,
    ensures
        planned(seq![asked], seq![tool]) == seq![
            InvocationView { call: 0, tool: 0, arguments: asked.arguments },
        ],
{
    let tools = seq![tool];
    assert(tools.drop_last() =~= Seq::<ToolInfoView>::empty());
    assert(matching_tools(asked.name, tools.drop_last()) == Seq::<int>::empty());
    assert(matching_tools(asked.name, tools) =~= seq![0int]);
    let calls = seq![asked];
    assert(calls.drop_last() =~= Seq::<ToolCallView>::empty());
    assert(planned(calls.drop_last(), tools) == Seq::<InvocationView>::empty());
    assert(planned(calls, tools) =~= seq![
        InvocationView { call: 0, tool: 0, arguments: asked.arguments },
    ]);
}

/// The tools of one request, in registration order. Several tools may be
/// declared under one name; a call of that name reaches all of them.
#[derive(Debug)]
pub struct ToolRegistry {
    infos: Vec<ToolInfo>,
}

impl View for ToolRegistry {
    type V = Seq<ToolInfoView>;

    closed spec fn view(&self) -> Seq<ToolInfoView> {
        tool_info_views(self.infos@)
    }
}

impl Clone for ToolRegistry {
    fn clone(&self) -> (r: Self)
        ensures
            r@ == self@,
    {
        let infos = self.infos.clone();
        assert(tool_info_views(infos@) =~= tool_info_views(self.infos@));
        ToolRegistry { infos }
    }
}

impl ToolRegistry {
    /// A registry without tools.
    pub fn new() -> (r: Self)
        ensures
            r@ == Seq::<ToolInfoView>::empty(),
    {
        let r = ToolRegistry { infos: Vec::new() };
        assert(r@ =~= Seq::<ToolInfoView>::empty());
        r
    }

    /// A registry of the tools announced by `infos`, in that order.
    pub fn from_infos(infos: Vec<ToolInfo>) -> (r: Self)
        ensures
            r@ == tool_info_views(infos@),
    {
        ToolRegistry { infos }
    }

    /// Registers a tool under the name in `function`, after those already
    /// there. A name that is already taken is registered once more.
    pub fn register(&mut self, function: ToolFunction)
        ensures
            final(self)@ == old(self)@.push(
                ToolInfoView { tool_type: ToolType::Function, function: function@ },
            ),
    {
        self.infos.push(ToolInfo { tool_type: ToolType::Function, function });
        assert(tool_info_views(self.infos@) =~= tool_info_views(old(self).infos@).push(
            ToolInfoView { tool_type: ToolType::Function, function: function@ },
        ));
    }

    /// How many tools are registered.
    pub fn len(&self) -> (n: usize)
        ensures
            n == self@.len(),
    {
        self.infos.len()
    }

    /// The announcements of the registered tools, in registration order.
    pub fn infos(&self) -> (r: &Vec<ToolInfo>)
        ensures
            tool_info_views(r@) == self@,
    {
        &self.infos
    }

    /// The positions of all tools declared under `name`, in registration order.
    pub fn lookup(&self, name: &str) -> (r: Vec<usize>)
        ensures
            r@.map_values(|t: usize| t as int) == matching_tools(name@, self@),
            r@.len() == matching_tools(name@, self@).len(),
    {
        let wanted: String = name.to_owned();
        let n: usize = self.infos.len();
        let mut found: Vec<usize> = Vec::new();
        let mut i: usize = 0;
        assert(self@.take(0) =~= Seq::<ToolInfoView>::empty());
        while i < n
            invariant
                i <= n,
                n == self.infos@.len(),
                wanted@ == name@,
                found@.map_values(|t: usize| t as int) == matching_tools(
                    name@,
                    self@.take(i as int),
                ),
            decreases n - i,
        {
            proof {
                let next = self@.take(i + 1);
                assert(next.drop_last() =~= self@.take(i as int));
                assert(next.last() == self.infos@[i as int]@);
            }
            let ghost before = found@.map_values(|t: usize| t as int);
            if self.infos[i].function.name == wanted {
                found.push(i);
                assert(found@.map_values(|t: usize| t as int) =~= before.push(i as int));
            }
            i = i + 1;
        }
        assert(self@.take(n as int) =~= self@);
        found
    }

    /// Plans the invocations that `calls` give rise to: the calls in order,
    /// and for each call every tool declared under its name, in registration
    /// order, with a copy of the call's arguments.
    pub fn plan(&self, calls: &Vec<ToolCall>) -> (r: Vec<Invocation>)
        ensures
            invocation_views(r@) == planned(tool_call_views(calls@), self@),
            r@.len() == planned(tool_call_views(calls@), self@).len(),
    {
        let n: usize = calls.len();
        let mut plan: Vec<Invocation> = Vec::new();
        let mut c: usize = 0;
        assert(tool_call_views(calls@).take(0) =~= Seq::<ToolCallView>::empty());
        assert(invocation_views(plan@) =~= Seq::<InvocationView>::empty());
        while c < n
            invariant
                c <= n,
                n == calls@.len(),
                invocation_views(plan@) == planned(tool_call_views(calls@).take(c as int), self@),
            decreases n - c,
        {
            let matches = self.lookup(calls[c].function.name.as_str());
            let ghost asked = calls@[c as int]@;
            let ghost before = invocation_views(plan@);
            let m: usize = matches.len();
            let mut k: usize = 0;
            while k < m
                invariant
                    k <= m,
                    m == matches@.len(),
                    c < calls@.len(),
                    asked == calls@[c as int]@,
                    matches@.map_values(|t: usize| t as int) == matching_tools(asked.name, self@),
                    invocation_views(plan@) == before + invocations_of(
                        c as int,
                        asked,
                        self@,
                    ).take(k as int),
                decreases m - k,
            {
                let ghost so_far = invocation_views(plan@);
                plan.push(
                    Invocation {
                        call: c,
                        tool: matches[k],
                        arguments: calls[c].function.arguments.clone(),
                    },
                );
                proof {
                    let all = invocations_of(c as int, asked, self@);
                    assert(matches@.map_values(|t: usize| t as int)[k as int] == matches@[k as int]);
                    assert(invocation_views(plan@) =~= so_far.push(all[k as int]));
                    assert(all.take(k + 1) =~= all.take(k as int).push(all[k as int]));
                }
                k = k + 1;
            }
            proof {
                let all = invocations_of(c as int, asked, self@);
                assert(all.take(m as int) =~= all);
                let next = tool_call_views(calls@).take(c + 1);
                assert(next.drop_last() =~= tool_call_views(calls@).take(c as int));
                assert(next.last() == asked);
            }
            c = c + 1;
        }
        assert(tool_call_views(calls@).take(n as int) =~= tool_call_views(calls@));
        plan
    }
}

/// What is announced to the backend for `tool`: a function, described as
/// the tool describes itself.
pub fn describe<T: Tool>(tool: &T) -> (r: ToolInfo)
    ensures
        r.tool_type == ToolType::Function,
        call_ensures(T::tool_function, (tool,), r.function),
{
    ToolInfo { tool_type: ToolType::Function, function: tool.tool_function() }
}

/// The message that reports the outcome of a tool run back to the model: the
/// tool's result or, where it failed, the text of the failure.
pub fn outcome_message(outcome: Result<String, String>) -> (r: Message)
    ensures
        r@ == MessageView::fresh(Role::Tool, outcome_text(outcome)),
{
    match outcome {
        Ok(res) => Message::tool(res.as_str()),
        Err(err) => Message::tool(err.as_str()),
    }
}

/// The text that a tool run contributes to the conversation.
pub open spec fn outcome_text(outcome: Result<String, String>) -> Seq<char> {
    match outcome {
        Ok(res) => res@,
        Err(err) => err@,
    }
}

/// Runs `tool` on `arguments` and reports the outcome as a tool message. What
/// the tool returns is its own affair; whatever it is, a result or a failure,
/// it comes back as the message that [`outcome_message`] makes of it.
pub fn invoke<T: Tool>(tool: &T, arguments: ToolCallArguments) -> (r: Message)
    ensures
        exists|outcome: Result<String, String>|
            call_ensures(T::execute, (tool, arguments), outcome) && r@ == MessageView::fresh(
                Role::Tool,
                #[trigger] outcome_text(outcome),
            ),
{
    let outcome = tool.execute(arguments);
    let ghost witness = outcome;
    let r = outcome_message(outcome);
    assert(call_ensures(T::execute, (tool, arguments), witness) && r@ == MessageView::fresh(
        Role::Tool,
        outcome_text(witness),
    ));
    r
}

} // verus!
