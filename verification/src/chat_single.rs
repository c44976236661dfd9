//! A single chat: exchanges with the service, one step before the request
//! is sent and one after the response has come, and on top of them the
//! structured answer and the tool-call pipeline.
use vstd::prelude::*;
use crate::chat_base::{request_json, wire_messages, BaseChat};
use crate::config::{Config, ModelCapability};
use crate::errors::{ChatError, ToolCallError, ToolFault};
use crate::json::{Json, JsonValue};
use crate::message::{MessageView, Role, RoleView};
use crate::response::{content_of, get_content, token_count};
use crate::stream::{chunk_views, collect_stream, fed_all, initial, outcome};
use crate::text::join_text;

verus! {

/// A chat session that can also call tools.
pub struct SingleChat {
    pub base: BaseChat,
    pub need_stream: bool,
    pub tools_schema: Vec<Json>,
}

/// The document that holds `tools` under the key `tools`.
pub open spec fn tools_json(tools: Seq<JsonValue>) -> JsonValue {
    JsonValue::Object(Map::empty().insert("tools"@, JsonValue::Array(tools)))
}

/// The models of `documents`, in order.
pub open spec fn json_views(documents: Seq<Json>) -> Seq<JsonValue> {
    Seq::new(documents.len(), |i: int| documents[i]@)
}

/// The error of a tool answer whose first exchange failed with `error`.
pub open spec fn extract_fault(error: ChatError) -> ToolFault {
    ToolFault::ExtractFunctionCall("Failed to get answer for tool call: "@ + error.message_text())
}

impl SingleChat {
    /// The session is sound.
    pub open spec fn wf(&self) -> bool {
        self.base.wf()
    }

    /// The request for the active branch, as the user's side sees it.
    pub open spec fn request(&self) -> JsonValue {
        request_json(
            self.base.model@,
            wire_messages(self.base.character_prompt@, self.base.history(), RoleView::User),
            self.base.need_stream,
        )
    }

    /// Whether `after` is this chat once it has taken `response` as the
    /// answer of an exchange, with the outcome `r`. Without usage data the
    /// exchange is aborted: `r` is `MissingUsageData` and nothing differs.
    /// Else the tokens were added to the usage; the text of the response was
    /// added to the active branch as the assistant's message and is what `r`
    /// holds, or the response has no text, `r` is `ParseResponseError` and
    /// the messages stand.
    pub open spec fn answered(
        &self,
        after: SingleChat,
        response: JsonValue,
        r: Result<String, ChatError>,
    ) -> bool {
        &&& self.base.settings_kept(after.base)
        &&& after.need_stream == self.need_stream
        &&& after.tools_schema == self.tools_schema
        &&& match token_count(response) {
            None => r is Err && r->Err_0 == ChatError::MissingUsageData && after == *self,
            Some(n) => after.base.usage == self.base.usage + n && match content_of(response) {
                None => r is Err && r->Err_0 == ChatError::ParseResponseError && after.base.messages
                    == self.base.messages,
                Some(text) => r is Ok && r->Ok_0@ == text && self.base.extended_by(
                    after.base,
                    MessageView { role: RoleView::Assistant, content: text },
                ),
            },
        }
    }

    /// A fresh chat that talks to the endpoint called `api_name`.
    pub fn new_with_api_name(
        config: &Config,
        api_name: &str,
        character_prompt: &str,
        need_stream: bool,
    ) -> (chat: SingleChat)
        requires
            config.named(api_name@) is Some,
        ensures
            chat.wf(),
            chat.base.model == config.named(api_name@).unwrap().model,
            chat.base.base_url == config.named(api_name@).unwrap().base_url,
            chat.base.api_key == config.named(api_name@).unwrap().api_key,
            chat.base.character_prompt@ == character_prompt@,
            chat.base.need_stream == need_stream,
            chat.need_stream == need_stream,
            chat.base.usage == 0,
            chat.base.history() == Seq::<MessageView>::empty(),
            chat.base.messages.count() == 0,
            chat.base.messages.active_path() == Seq::<usize>::empty(),
            chat.base.messages.fanout(Seq::empty()) == 0,
            chat.tools_schema@.len() == 0,
    {
        let base = BaseChat::new_with_api_name(config, api_name, character_prompt, need_stream);
        SingleChat { base, need_stream, tools_schema: Vec::new() }
    }

    /// A fresh chat that talks to the first endpoint whose model has
    /// `model_capability`.
    pub fn new_with_model_capability(
        config: &Config,
        model_capability: ModelCapability,
        character_prompt: &str,
        need_stream: bool,
    ) -> (chat: SingleChat)
        requires
            config.capable(model_capability) is Some,
        ensures
            chat.wf(),
            chat.base.model == config.capable(model_capability).unwrap().model,
            chat.base.base_url == config.capable(model_capability).unwrap().base_url,
            chat.base.api_key == config.capable(model_capability).unwrap().api_key,
            chat.base.character_prompt@ == character_prompt@,
            chat.base.need_stream == need_stream,
            chat.need_stream == need_stream,
            chat.base.usage == 0,
            chat.base.history() == Seq::<MessageView>::empty(),
            chat.base.messages.count() == 0,
            chat.base.messages.active_path() == Seq::<usize>::empty(),
            chat.base.messages.fanout(Seq::empty()) == 0,
            chat.tools_schema@.len() == 0,
    {
        let base = BaseChat::new_with_model_capability(
            config,
            &model_capability,
            character_prompt,
            need_stream,
        );
        SingleChat { base, need_stream, tools_schema: Vec::new() }
    }

    /// First step of an exchange: the user's message is added to the active
    /// branch, and the request for that branch is returned.
    pub fn begin_answer(&mut self, user_input: &str) -> (request: Json)
        requires
            old(self).wf(),
        ensures
            final(self).wf(),
            old(self).base.extended_by(
                final(self).base,
                MessageView { role: RoleView::User, content: user_input@ },
            ),
            final(self).base.usage == old(self).base.usage,
            final(self).need_stream == old(self).need_stream,
            final(self).tools_schema == old(self).tools_schema,
            request@ == final(self).request(),
    {
        self.base.add_message(Role::User, user_input);
        self.base.build_active_request_body(&Role::User)
    }

    /// First step of an exchange that continues the history along
    /// `end_path`: that path becomes the active branch, the user's message
    /// is added to it, and the request for it is returned. Fails with
    /// `InvalidPath`, and changes nothing, where a selector of the path is
    /// out of range.
    pub fn begin_answer_with_end_path(&mut self, end_path: &[usize], user_input: &str) -> (r: Result<
        Json,
        ChatError,
    >)
        requires
            old(self).wf(),
        ensures
            final(self).wf(),
            old(self).base.settings_kept(final(self).base),
            final(self).base.usage == old(self).base.usage,
            final(self).need_stream == old(self).need_stream,
            final(self).tools_schema == old(self).tools_schema,
            match old(self).base.messages.resolved(end_path@) {
                None => r is Err && r->Err_0 == ChatError::InvalidPath && *final(self) == *old(self),
                Some(history) => {
                    &&& r is Ok
                    &&& r->Ok_0@ == final(self).request()
                    &&& old(self).base.messages.continued(
                        final(self).base.messages,
                        end_path@,
                        MessageView { role: RoleView::User, content: user_input@ },
                    )
                },
            },
    {
        match self.base.messages.select(end_path) {
            Err(error) => Err(error),
            Ok(_) => Ok(self.begin_answer(user_input)),
        }
    }

    /// First step of an exchange that asks again for an answer to the
    /// history along `end_path`: that path becomes the active branch and the
    /// request for it is returned; no message is added. The answer will
    /// stand beside the continuations that the path's leaf already has.
    /// Fails with `InvalidPath`, and changes nothing, where a selector of the
    /// path is out of range.
    pub fn begin_answer_again(&mut self, end_path: &[usize]) -> (r: Result<Json, ChatError>)
        requires
            old(self).wf(),
        ensures
            final(self).wf(),
            old(self).base.settings_kept(final(self).base),
            final(self).base.usage == old(self).base.usage,
            final(self).need_stream == old(self).need_stream,
            final(self).tools_schema == old(self).tools_schema,
            match old(self).base.messages.resolved(end_path@) {
                None => r is Err && r->Err_0 == ChatError::InvalidPath && *final(self) == *old(self),
                Some(history) => {
                    &&& r is Ok
                    &&& r->Ok_0@ == final(self).request()
                    &&& old(self).base.messages.turned_to(final(self).base.messages, end_path@)
                },
            },
    {
        match self.base.messages.select(end_path) {
            Err(error) => Err(error),
            Ok(_) => Ok(self.base.build_active_request_body(&Role::User)),
        }
    }

    /// Last step of an exchange that was not streamed. The tokens that the
    /// response reports are added to the usage, and its text is added to the
    /// active branch as the assistant's message and returned. A response
    /// without usage data fails with `MissingUsageData` and changes nothing;
    /// one without text fails with `ParseResponseError` and adds no message.
    pub fn complete_answer(&mut self, response: &Json) -> (r: Result<String, ChatError>)
        requires
            old(self).wf(),
            old(self).base.fits(response@),
        ensures
            final(self).wf(),
            old(self).answered(*final(self), response@, r),
    {
        match self.base.record_usage(response) {
            Err(error) => Err(error),
            Ok(_) => match get_content(response) {
                None => Err(ChatError::ParseResponseError),
                Some(text) => {
                    self.base.add_message(Role::Assistant, text);
                    Ok(text.to_owned())
                },
            },
        }
    }

    /// Completes the exchange as `complete_answer` does, where the usage
    /// counter can take the tokens of the response. Where it cannot, nothing
    /// changes and `None` is returned.
    pub fn try_complete_answer(&mut self, response: &Json) -> (r: Option<Result<String, ChatError>>)
        requires
            old(self).wf(),
        ensures
            final(self).wf(),
            match r {
                Some(outcome) => old(self).base.fits(response@) && old(self).answered(
                    *final(self),
                    response@,
                    outcome,
                ),
                None => !old(self).base.fits(response@) && *final(self) == *old(self),
            },
    {
        if self.base.can_record(response) {
            Some(self.complete_answer(response))
        } else {
            None
        }
    }

    /// Last step of an exchange that was streamed. The fragments of the
    /// chunks are put together in arrival order; the text is added to the
    /// active branch as the assistant's message and returned. A stream that
    /// brought no text fails with `ParseResponseError` and changes nothing.
    pub fn complete_streamed_answer(&mut self, chunks: &Vec<String>) -> (r: Result<String, ChatError>)
        requires
            old(self).wf(),
        ensures
            final(self).wf(),
            old(self).base.settings_kept(final(self).base),
            final(self).base.usage == old(self).base.usage,
            final(self).need_stream == old(self).need_stream,
            final(self).tools_schema == old(self).tools_schema,
            match outcome(fed_all(initial(), chunk_views(chunks@))) {
                Err(error) => r is Err && r->Err_0 == error && *final(self) == *old(self),
                Ok(text) => r is Ok && r->Ok_0@ == text && old(self).base.extended_by(
                    final(self).base,
                    MessageView { role: RoleView::Assistant, content: text },
                ),
            },
    {
        match collect_stream(chunks) {
            Err(error) => Err(error),
            Ok(text) => {
                self.base.add_message(Role::Assistant, text.as_str());
                Ok(text)
            },
        }
    }

    /// First step of an exchange whose answer is to be restated as JSON: the
    /// description of the expected output is added as a system message, then
    /// the user's message, and the request is returned. Where no description
    /// could be put together, the exchange fails with
    /// `AssembleOutputDescriptionError` and nothing changes.
    pub fn begin_json_answer(&mut self, output_description: Option<&str>, user_input: &str) -> (r: Result<
        Json,
        ChatError,
    >)
        requires
            old(self).wf(),
        ensures
            final(self).wf(),
            old(self).base.settings_kept(final(self).base),
            final(self).base.usage == old(self).base.usage,
            final(self).need_stream == old(self).need_stream,
            final(self).tools_schema == old(self).tools_schema,
            match output_description {
                None => r is Err && r->Err_0 == ChatError::AssembleOutputDescriptionError && *final(self)
                    == *old(self),
                Some(description) => {
                    &&& r is Ok
                    &&& r->Ok_0@ == final(self).request()
                    &&& final(self).base.history() == old(self).base.history().push(
                        MessageView { role: RoleView::System, content: description@ },
                    ).push(MessageView { role: RoleView::User, content: user_input@ })
                    &&& final(self).base.messages.count() == old(self).base.messages.count() + 2
                    &&& forall|path: Seq<usize>|
                        #![trigger final(self).base.messages.resolved(path)]
                        old(self).base.messages.resolved(path) is Some ==> final(self).base.messages.resolved(
                            path,
                        ) == old(self).base.messages.resolved(path)
                },
            },
    {
        match output_description {
            None => Err(ChatError::AssembleOutputDescriptionError),
            Some(description) => {
                self.base.add_message(Role::System, description);
                Ok(self.begin_answer(user_input))
            },
        }
    }

    /// Makes `tools_schema` the tools of this chat and adds `tools_prompt`,
    /// the text that describes them to the model, as a system message.
    pub fn set_tools(&mut self, tools_schema: Vec<Json>, tools_prompt: &str)
        requires
            old(self).wf(),
        ensures
            final(self).wf(),
            final(self).tools_schema == tools_schema,
            old(self).base.extended_by(
                final(self).base,
                MessageView { role: RoleView::System, content: tools_prompt@ },
            ),
            final(self).base.usage == old(self).base.usage,
            final(self).need_stream == old(self).need_stream,
    {
        self.tools_schema = tools_schema;
        self.base.add_message(Role::System, tools_prompt);
    }

    /// The tools of this chat as the document that a resolving session is
    /// given: an object with the tools under `tools`.
    pub fn tools_document(&self) -> (document: Json)
        ensures
            document@ == tools_json(json_views(self.tools_schema@)),
    {
        let mut tools: Vec<Json> = Vec::new();
        let mut i: usize = 0;
        while i < self.tools_schema.len()
            invariant
                i <= self.tools_schema@.len(),
                tools@.len() == i,
                forall|j: int| 0 <= j < i ==> (#[trigger] tools@[j])@ == self.tools_schema@[j]@,
            decreases self.tools_schema@.len() - i,
        {
            tools.push(self.tools_schema[i].clone());
            i += 1;
        }
        let list = Json::Array(tools);
        proof {
            assert(list@->Array_0 =~= json_views(self.tools_schema@));
        }
        let mut document = Json::object();
        document.insert("tools", list);
        document
    }
}

/// The error of a tool answer whose first exchange failed.
pub fn extract_failure(error: &ChatError) -> (failure: ToolCallError)
    ensures
        failure@ == extract_fault(*error),
{
    let message = error.message();
    ToolCallError::ExtractFunctionCall(
        join_text("Failed to get answer for tool call: ", message.as_str()),
    )
}

} // verus!
