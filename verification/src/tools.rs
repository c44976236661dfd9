//! Tool calls: the call that the model asks for, the registry of callable
//! tools, the dispatch of one call, and the joining of many results.
use vstd::prelude::*;
use crate::errors::{ChatError, ToolCallError, ToolFault};
use crate::json::{
    last_index, lemma_last_index, lemma_last_index_is, parsed, pretty_text, read_as_json, Json,
    JsonValue,
};
use crate::text::{join_text, decimal, decimal_text, same_text};

verus! {

/// A call that the model asks for: the name of a function, and its
/// arguments as the text of a JSON object.
#[derive(Debug, Clone, PartialEq, Eq)]
pub struct ToolCall {
    pub name: String,
    pub raw_arguments: String,
}

/// The model of a [`ToolCall`].
pub struct ToolCallView {
    pub name: Seq<char>,
    pub raw_arguments: Seq<char>,
}

impl View for ToolCall {
    type V = ToolCallView;

    open spec fn view(&self) -> ToolCallView {
        ToolCallView { name: self.name@, raw_arguments: self.raw_arguments@ }
    }
}

/// What one tool call came to. `ok` says whether the function was found and
/// returned a value; `payload` is that value as indented JSON, or the text
/// that says what went wrong.
#[derive(Debug, Clone, PartialEq, Eq)]
pub struct ToolResult {
    pub ok: bool,
    pub payload: String,
}

/// The model of a [`ToolResult`].
pub struct ToolResultView {
    pub ok: bool,
    pub payload: Seq<char>,
}

impl View for ToolResult {
    type V = ToolResultView;

    open spec fn view(&self) -> ToolResultView {
        ToolResultView { ok: self.ok, payload: self.payload@ }
    }
}

/// The string under `key` in `function`, where there is one.
pub open spec fn text_field(function: JsonValue, key: Seq<char>) -> Option<Seq<char>> {
    match function.member(key) {
        None => None,
        Some(value) => value.as_str(),
    }
}

/// The call that a function-call object stands for. Both `name` and
/// `arguments` must be strings; the first one that is not is reported as a
/// missing field.
pub open spec fn call_of(function: JsonValue) -> Result<ToolCallView, ToolFault> {
    match text_field(function, "name"@) {
        None => Err(ToolFault::MissingField("name"@)),
        Some(name) => match text_field(function, "arguments"@) {
            None => Err(ToolFault::MissingField("arguments"@)),
            Some(raw_arguments) => Ok(ToolCallView { name, raw_arguments }),
        },
    }
}

/// The result that is reported for a call to a function that is not
/// registered.
pub open spec fn not_found_text(name: Seq<char>) -> Seq<char> {
    "Cannot find function named '"@ + name + "'"@
}

/// The result that is reported for a call whose function failed with
/// `reason`.
pub open spec fn failure_text(name: Seq<char>, reason: Seq<char>) -> Seq<char> {
    "Calling function '"@ + name + "' failed: "@ + reason
}

/// The reason given for arguments that are JSON but no object.
pub open spec fn not_an_object() -> Seq<char> {
    "the arguments are not a JSON object"@
}

impl ToolCall {
    /// Reads the call out of a function-call object.
    pub fn from_function(function: &Json) -> (r: Result<ToolCall, ToolCallError>)
        ensures
            match r {
                Ok(call) => call_of(function@) == Ok::<ToolCallView, ToolFault>(call@),
                Err(error) => call_of(function@) == Err::<ToolCallView, ToolFault>(error@),
            },
    {
        let name = match function.member("name") {
            None => None,
            Some(value) => value.as_str(),
        };
        let name = match name {
            None => { return Err(ToolCallError::MissingField("name".to_owned())); },
            Some(name) => name,
        };
        let raw = match function.member("arguments") {
            None => None,
            Some(value) => value.as_str(),
        };
        match raw {
            None => Err(ToolCallError::MissingField("arguments".to_owned())),
            Some(raw) => Ok(ToolCall { name: name.to_owned(), raw_arguments: raw.to_owned() }),
        }
    }

    /// Reads the arguments of this call. They must be the text of a JSON
    /// object, else the call fails with `DeserializeArguments`: with the
    /// reader's message where the text is no JSON, and with a fixed one
    /// where it is JSON of another kind.
    pub fn arguments(&self) -> (r: Result<Json, ToolCallError>)
        ensures
            match read_as_json(self.raw_arguments@) {
                Ok(document) => if document is Object {
                    r is Ok && r->Ok_0@ == document
                } else {
                    r is Err && r->Err_0@ == ToolFault::DeserializeArguments(not_an_object())
                },
                Err(message) => r is Err && r->Err_0@ == ToolFault::DeserializeArguments(message),
            },
    {
        let read = Json::parse(self.raw_arguments.as_str());
        check_arguments(read)
    }
}

/// Judges what reading the arguments gave: an object is accepted; any other
/// document, and a failure to read with its message, is a
/// `DeserializeArguments`.
pub fn check_arguments(read: Result<Json, String>) -> (r: Result<Json, ToolCallError>)
    ensures
        match read {
            Ok(document) => if document@ is Object {
                r == Ok::<Json, ToolCallError>(document)
            } else {
                r is Err && r->Err_0@ == ToolFault::DeserializeArguments(not_an_object())
            },
            Err(message) => r is Err && r->Err_0@ == ToolFault::DeserializeArguments(message@),
        },
{
    match read {
        Err(message) => Err(ToolCallError::DeserializeArguments(message)),
        Ok(document) => {
            let is_object = match &document {
                Json::Object(_) => true,
                _ => false,
            };
            if is_object {
                Ok(document)
            } else {
                Err(
                    ToolCallError::DeserializeArguments(
                        "the arguments are not a JSON object".to_owned(),
                    ),
                )
            }
        },
    }
}

/// Whether `result` is what is reported for a call to `name` whose
/// function returned `outcome`. A value that was returned gives a result
/// that is ok, with the indented JSON of the value as its payload; only
/// where the value has no such rendering is the call an error, a
/// `SerializeResult`. A failure gives a result that is not ok, with the
/// text that names the function and the failure.
pub open spec fn reported(
    name: Seq<char>,
    outcome: Result<Json, String>,
    result: Result<ToolResult, ToolCallError>,
) -> bool {
    match outcome {
        Ok(value) => match pretty_text(value@) {
            Some(text) => result is Ok && result->Ok_0@ == (ToolResultView { ok: true, payload: text }),
            None => result is Err && result->Err_0@ == ToolFault::SerializeResult,
        },
        Err(reason) => result is Ok && result->Ok_0@ == (ToolResultView {
            ok: false,
            payload: failure_text(name, reason@),
        }),
    }
}

/// Judges what printing the value that a function returned gave: the text
/// is the payload of a result that is ok, and a value that could not be
/// printed is a `SerializeResult`.
pub fn printed_output(printed: Option<String>) -> (r: Result<ToolResult, ToolCallError>)
    ensures
        match printed {
            Some(payload) => r == Ok::<ToolResult, ToolCallError>(ToolResult { ok: true, payload }),
            None => r is Err && r->Err_0@ == ToolFault::SerializeResult,
        },
{
    match printed {
        Some(payload) => Ok(ToolResult { ok: true, payload }),
        None => Err(ToolCallError::SerializeResult),
    }
}

/// What is reported for a call to `name` whose function returned `outcome`:
/// the indented JSON of a result, or a text that names the function and the
/// failure. Only a result that cannot be printed is an error.
pub fn tool_output(name: &str, outcome: Result<Json, String>) -> (r: Result<ToolResult, ToolCallError>)
    ensures
        reported(name@, outcome, r),
{
    match outcome {
        Ok(result) => printed_output(result.pretty()),
        Err(reason) => {
            let mut payload = join_text("Calling function '", name);
            payload.append("' failed: ");
            payload.append(reason.as_str());
            Ok(ToolResult { ok: false, payload })
        },
    }
}

/// The tools that can be called, by name. Where a name was registered more
/// than once, the last registration counts.
pub struct ToolRegistry<F> {
    pub tools: Vec<(String, F)>,
}

impl<F: Fn(Json) -> Result<Json, String>> ToolRegistry<F> {
    /// Every registered tool may be called with any arguments.
    pub open spec fn wf(&self) -> bool {
        forall|i: int, arguments: Json|
            0 <= i < self.tools@.len() ==> #[trigger] call_requires(self.tools@[i].1, (arguments,))
    }

    /// The tool registered under `name`, where there is one.
    pub open spec fn registered(&self, name: Seq<char>) -> Option<F> {
        if last_index(self.tools@, name) >= 0 {
            Some(self.tools@[last_index(self.tools@, name)].1)
        } else {
            None
        }
    }

    /// What dispatching `call` may give. Arguments that are no JSON object
    /// fail the call, with the reader's message where they are no JSON at
    /// all; a name that is not registered gives the text that says so;
    /// otherwise the tool was called with the arguments and `result` is what
    /// `tool_output` makes of its outcome.
    pub open spec fn dispatched(
        &self,
        call: ToolCallView,
        result: Result<ToolResult, ToolCallError>,
    ) -> bool {
        let document = parsed(call.raw_arguments);
        if document is None {
            result is Err && result->Err_0@ == ToolFault::DeserializeArguments(
                read_as_json(call.raw_arguments)->Err_0,
            )
        } else if !(document->Some_0 is Object) {
            result is Err && result->Err_0@ == ToolFault::DeserializeArguments(not_an_object())
        } else if self.registered(call.name) is None {
            result is Ok && result->Ok_0@ == (ToolResultView {
                ok: false,
                payload: not_found_text(call.name),
            })
        } else {
            exists|arguments: Json, outcome: Result<Json, String>|
                #![trigger call_ensures(self.registered(call.name)->Some_0, (arguments,), outcome)]
                arguments@ == document->Some_0 && call_ensures(
                    self.registered(call.name)->Some_0,
                    (arguments,),
                    outcome,
                ) && reported(call.name, outcome, result)
        }
    }

    /// A call to a function that is not registered, with arguments that are
    /// a JSON object, is no error of the call: its result says that the
    /// function was not found, and is not ok.
    pub proof fn lemma_unregistered_is_no_error(
        &self,
        call: ToolCallView,
        result: Result<ToolResult, ToolCallError>,
    )
        requires
            self.dispatched(call, result),
            self.registered(call.name) is None,
            parsed(call.raw_arguments) matches Some(document) && document is Object,
        ensures
            result is Ok,
            result->Ok_0@ == (ToolResultView { ok: false, payload: not_found_text(call.name) }),
    {
    }

    /// A call to a registered function that returns a value, whatever it is
    /// given, ends with a result that is ok and holds the indented JSON of
    /// that value, where the value has such a rendering.
    pub proof fn lemma_returned_value_is_printed(
        &self,
        call: ToolCallView,
        result: Result<ToolResult, ToolCallError>,
        value: JsonValue,
        text: Seq<char>,
    )
        requires
            self.dispatched(call, result),
            self.registered(call.name) is Some,
            parsed(call.raw_arguments) matches Some(document) && document is Object,
            forall|arguments: Json, outcome: Result<Json, String>|
                call_ensures(self.registered(call.name)->Some_0, (arguments,), outcome)
                    ==> outcome is Ok && outcome->Ok_0@ == value,
            pretty_text(value) == Some(text),
        ensures
            result is Ok,
            result->Ok_0@ == (ToolResultView { ok: true, payload: text }),
    {
    }

    /// Where one of several calls names a function that is not registered
    /// and each call beside it ends with a result that is ok, there is one
    /// result for each call: the one at that call's position is not ok and
    /// says which function was not found, and each other one is the result
    /// of its own call.
    pub proof fn lemma_partial_failure_is_contained(
        &self,
        calls: Seq<ToolCallView>,
        results: Seq<Result<ToolResult, ToolCallError>>,
        position: int,
    )
        requires
            calls.len() == results.len(),
            0 <= position < calls.len(),
            forall|i: int| 0 <= i < calls.len() ==> self.dispatched(calls[i], #[trigger] results[i]),
            self.registered(calls[position].name) is None,
            parsed(calls[position].raw_arguments) matches Some(document) && document is Object,
            forall|i: int|
                0 <= i < calls.len() && i != position ==> (#[trigger] results[i]) is Ok
                    && results[i]->Ok_0.ok,
        ensures
            ({
                let outcomes = Seq::new(results.len(), |i: int| finished(results[i]));
                &&& joined(outcomes).len() == calls.len()
                &&& joined(outcomes)[position] == (ToolResultView {
                    ok: false,
                    payload: not_found_text(calls[position].name),
                })
                &&& forall|i: int|
                    0 <= i < calls.len() && i != position ==> joined(outcomes)[i]
                        == results[i]->Ok_0@ && joined(outcomes)[i].ok
            }),
    {
        self.lemma_unregistered_is_no_error(calls[position], results[position]);
    }

    /// A registry without tools.
    pub fn new() -> (registry: ToolRegistry<F>)
        ensures
            registry.wf(),
            registry.tools@.len() == 0,
            forall|name: Seq<char>| registry.registered(name) is None,
    {
        ToolRegistry { tools: Vec::new() }
    }

    /// Registers `tool` under `name`, in place of what was registered under
    /// that name before.
    pub fn register(&mut self, name: &str, tool: F)
        requires
            old(self).wf(),
            forall|arguments: Json| call_requires(tool, (arguments,)),
        ensures
            final(self).wf(),
            final(self).registered(name@) == Some(tool),
            forall|other: Seq<char>| other != name@ ==> final(self).registered(other) == old(self).registered(
                other,
            ),
    {
        let ghost before = self.tools@;
        let owned = name.to_owned();
        self.tools.push((owned, tool));
        proof {
            assert(self.tools@.drop_last() =~= before);
            assert forall|i: int, arguments: Json|
                0 <= i < self.tools@.len() implies #[trigger] call_requires(
                self.tools@[i].1,
                (arguments,),
            ) by {
                if i < before.len() {
                    assert(self.tools@[i] == before[i]);
                    assert(call_requires(before[i].1, (arguments,)));
                }
            }
            assert forall|other: Seq<char>| other != name@ implies self.registered(other) == old(
                self,
            ).registered(other) by {
                let i = last_index(before, other);
                lemma_last_index(before, other);
                if i >= 0 {
                    assert(self.tools@[i] == before[i]);
                }
            }
        }
    }

    /// The tool registered under `name`, where there is one.
    pub fn lookup(&self, name: &str) -> (r: Option<&F>)
        ensures
            match r {
                Some(tool) => self.registered(name@) == Some(*tool),
                None => self.registered(name@) is None,
            },
    {
        let mut i: usize = self.tools.len();
        while i > 0
            invariant
                i <= self.tools@.len(),
                forall|j: int| i <= j < self.tools@.len() ==> (#[trigger] self.tools@[j]).0@ != name@,
            decreases i,
        {
            i -= 1;
            if same_text(self.tools[i].0.as_str(), name) {
                proof {
                    lemma_last_index_is(self.tools@, name@, i as int);
                }
                return Some(&self.tools[i].1);
            }
        }
        proof {
            lemma_last_index_is(self.tools@, name@, -1);
        }
        None
    }

    /// Carries out one call: reads the arguments, looks the function up and
    /// calls it. A function that is not registered, and one that fails, give
    /// a text that says so, not an error.
    pub fn dispatch(&self, call: &ToolCall) -> (r: Result<ToolResult, ToolCallError>)
        requires
            self.wf(),
        ensures
            self.dispatched(call@, r),
    {
        let arguments = match call.arguments() {
            Err(error) => { return Err(error); },
            Ok(arguments) => arguments,
        };
        match self.lookup(call.name.as_str()) {
            None => {
                let mut payload = join_text("Cannot find function named '", call.name.as_str());
                payload.append("'");
                Ok(ToolResult { ok: false, payload })
            },
            Some(tool) => {
                proof {
                    lemma_last_index(self.tools@, call.name@);
                }
                let ghost given = arguments;
                let outcome = tool(arguments);
                let ghost returned = outcome;
                let r = tool_output(call.name.as_str(), outcome);
                proof {
                    let held = self.registered(call@.name)->Some_0;
                    assert(call_ensures(held, (given,), returned));
                }
                r
            },
        }
    }

    /// Carries out one call from what its resolution gave. A resolution
    /// that failed fails the call with `ParseFunctionCall`; a function-call
    /// object that lacks a field fails it before anything is looked up.
    pub fn process_tool_call(&self, resolution: Result<Json, ChatError>) -> (r: Result<
        ToolResult,
        ToolCallError,
    >)
        requires
            self.wf(),
        ensures
            match resolution {
                Err(_) => r is Err && r->Err_0@ == ToolFault::ParseFunctionCall,
                Ok(function) => match call_of(function@) {
                    Err(fault) => r is Err && r->Err_0@ == fault,
                    Ok(call) => self.dispatched(call, r),
                },
            },
    {
        match resolution {
            Err(_) => Err(ToolCallError::ParseFunctionCall),
            Ok(function) => match ToolCall::from_function(&function) {
                Err(error) => Err(error),
                Ok(call) => self.dispatch(&call),
            },
        }
    }
}

/// How one dispatched call ended.
#[derive(Debug, PartialEq, Eq)]
pub enum TaskOutcome {
    /// The call ran to its end, with a result or with its own error.
    Finished(Result<ToolResult, ToolCallError>),
    /// The task that ran the call did not finish; the text says why.
    Aborted(String),
}

/// The model of a [`TaskOutcome`].
pub enum TaskOutcomeView {
    Finished(Result<ToolResultView, ToolFault>),
    Aborted(Seq<char>),
}

impl View for TaskOutcome {
    type V = TaskOutcomeView;

    open spec fn view(&self) -> TaskOutcomeView {
        match self {
            TaskOutcome::Finished(Ok(result)) => TaskOutcomeView::Finished(Ok(result@)),
            TaskOutcome::Finished(Err(error)) => TaskOutcomeView::Finished(Err(error@)),
            TaskOutcome::Aborted(why) => TaskOutcomeView::Aborted(why@),
        }
    }
}

/// How a call that ran to its end with `result` ended.
pub open spec fn finished(result: Result<ToolResult, ToolCallError>) -> TaskOutcomeView {
    match result {
        Ok(done) => TaskOutcomeView::Finished(Ok(done@)),
        Err(error) => TaskOutcomeView::Finished(Err(error@)),
    }
}

/// The text that reports the error of a call that failed.
pub open spec fn call_failure_text(fault: ToolFault) -> Seq<char> {
    "{\"error\": \"Tool call failed with error: "@ + fault.message_text() + "\"}"@
}

/// The text that reports that the task of the call at `position` did not
/// finish.
pub open spec fn task_failure_text(position: nat, why: Seq<char>) -> Seq<char> {
    "{\"error\": \"Task execution failed: Task join error for call #"@ + decimal(position) + ": "@
        + why + "\"}"@
}

/// What stands in the results for the call at `position`: the result of
/// the call, or, for a call that failed or whose task did not finish, a
/// result that is not ok and reports the error as a JSON object.
pub open spec fn result_of(outcome: TaskOutcomeView, position: nat) -> ToolResultView {
    match outcome {
        TaskOutcomeView::Finished(Ok(result)) => result,
        TaskOutcomeView::Finished(Err(fault)) => ToolResultView {
            ok: false,
            payload: call_failure_text(fault),
        },
        TaskOutcomeView::Aborted(why) => ToolResultView {
            ok: false,
            payload: task_failure_text(position, why),
        },
    }
}

/// The results for `outcomes`: one for each, in the same order.
pub open spec fn joined(outcomes: Seq<TaskOutcomeView>) -> Seq<ToolResultView> {
    Seq::new(outcomes.len(), |i: int| result_of(outcomes[i], i as nat))
}

/// The models of `outcomes`, in order.
pub open spec fn outcome_views(outcomes: Seq<TaskOutcome>) -> Seq<TaskOutcomeView> {
    Seq::new(outcomes.len(), |i: int| outcomes[i]@)
}

/// The models of `results`, in order.
pub open spec fn result_views(results: Seq<ToolResult>) -> Seq<ToolResultView> {
    Seq::new(results.len(), |i: int| results[i]@)
}

/// The views of `texts`, in order.
pub open spec fn text_views(texts: Seq<String>) -> Seq<Seq<char>> {
    Seq::new(texts.len(), |i: int| texts[i]@)
}

/// There is one result for each call, at the call's position, and it
/// depends on how that call ended and on nothing else: whatever happens to
/// one call leaves the results of the others as they are.
pub proof fn lemma_failure_is_contained(
    outcomes: Seq<TaskOutcomeView>,
    position: int,
    other: TaskOutcomeView,
)
    requires
        0 <= position < outcomes.len(),
    ensures
        joined(outcomes).len() == outcomes.len(),
        joined(outcomes.update(position, other)).len() == outcomes.len(),
        joined(outcomes.update(position, other))[position] == result_of(other, position as nat),
        forall|i: int|
            0 <= i < outcomes.len() && i != position ==> joined(outcomes.update(position, other))[i]
                == joined(outcomes)[i],
{
}

/// Where one of several calls names a function that is not registered and
/// the others succeed, there is still one result for each call: the one at
/// that call's position is not ok and says which function was not found,
/// and each other one is ok and holds the payload of its call.
pub proof fn lemma_unregistered_call_is_reported(
    payloads: Seq<Seq<char>>,
    position: int,
    name: Seq<char>,
)
    requires
        0 <= position < payloads.len(),
    ensures
        ({
            let outcomes = Seq::new(
                payloads.len(),
                |i: int|
                    if i == position {
                        TaskOutcomeView::Finished(
                            Ok(ToolResultView { ok: false, payload: not_found_text(name) }),
                        )
                    } else {
                        TaskOutcomeView::Finished(Ok(ToolResultView { ok: true, payload: payloads[i] }))
                    },
            );
            &&& joined(outcomes).len() == payloads.len()
            &&& joined(outcomes)[position] == (ToolResultView {
                ok: false,
                payload: not_found_text(name),
            })
            &&& forall|i: int|
                0 <= i < payloads.len() && i != position ==> joined(outcomes)[i] == (ToolResultView {
                    ok: true,
                    payload: payloads[i],
                })
        }),
{
}

/// Makes the result that stands for the call at `position`.
pub fn outcome_result(outcome: &TaskOutcome, position: usize) -> (result: ToolResult)
    ensures
        result@ == result_of(outcome@, position as nat),
{
    match outcome {
        TaskOutcome::Finished(Ok(result)) => ToolResult {
            ok: result.ok,
            payload: result.payload.clone(),
        },
        TaskOutcome::Finished(Err(error)) => {
            let message = error.message();
            let mut payload = join_text(
                "{\"error\": \"Tool call failed with error: ",
                message.as_str(),
            );
            payload.append("\"}");
            ToolResult { ok: false, payload }
        },
        TaskOutcome::Aborted(why) => {
            let number = decimal_text(position as u64);
            let mut payload = join_text(
                "{\"error\": \"Task execution failed: Task join error for call #",
                number.as_str(),
            );
            payload.append(": ");
            payload.append(why.as_str());
            payload.append("\"}");
            ToolResult { ok: false, payload }
        },
    }
}

/// Joins the outcomes of the dispatched calls into the results: one for
/// each call, in the order in which the calls were launched. A call that
/// failed contributes a result that is not ok at its position.
pub fn join_results(outcomes: &Vec<TaskOutcome>) -> (results: Vec<ToolResult>)
    ensures
        result_views(results@) == joined(outcome_views(outcomes@)),
        results@.len() == outcomes@.len(),
{
    let mut results: Vec<ToolResult> = Vec::new();
    let mut i: usize = 0;
    while i < outcomes.len()
        invariant
            i <= outcomes@.len(),
            results@.len() == i,
            forall|j: int| 0 <= j < i ==> (#[trigger] results@[j])@ == result_of(outcomes@[j]@, j as nat),
        decreases outcomes@.len() - i,
    {
        results.push(outcome_result(&outcomes[i], i));
        i += 1;
    }
    proof {
        assert(result_views(results@) =~= joined(outcome_views(outcomes@)));
    }
    results
}

} // verus!
