//! A chat session: where the model is reached, the character prompt, the
//! conversation so far, and the tokens used.
use vstd::prelude::*;
use crate::config::{ApiInfo, Config, ModelCapability};
use crate::errors::ChatError;
use crate::json::{Json, JsonValue};
use crate::message::{
    api_views, render, rendered, rendered_all, ApiMessage, ApiMessageView, MessageView, Role,
    RoleView,
};
use crate::response::{get_token_count, token_count};
use crate::store::ConversationStore;

verus! {

/// A chat session.
pub struct BaseChat {
    pub model: String,
    pub base_url: String,
    pub api_key: String,
    pub character_prompt: String,
    pub messages: ConversationStore,
    pub usage: u64,
    pub need_stream: bool,
}

/// The system message that carries the character prompt.
pub open spec fn prompt_message(prompt: Seq<char>) -> ApiMessageView {
    ApiMessageView { role: "system"@, content: prompt }
}

/// What the service is sent for a history: the prompt as a system message,
/// then each message as `speaker` sees it.
pub open spec fn wire_messages(prompt: Seq<char>, history: Seq<MessageView>, speaker: RoleView) -> Seq<
    ApiMessageView,
> {
    seq![prompt_message(prompt)] + rendered_all(history, speaker)
}

/// Whatever the history and whoever speaks, what is sent starts with the
/// one system message that carries the character prompt; every message of
/// the history follows it, in order, as the speaker sees it. The prompt is
/// no message of the history.
pub proof fn lemma_prompt_comes_first(prompt: Seq<char>, history: Seq<MessageView>, speaker: RoleView)
    ensures
        wire_messages(prompt, history, speaker).len() == history.len() + 1,
        wire_messages(prompt, history, speaker)[0] == prompt_message(prompt),
        forall|i: int|
            0 <= i < history.len() ==> wire_messages(prompt, history, speaker)[i + 1] == rendered(
                history[i],
                speaker,
            ),
{
}

/// A wire message as a JSON object.
pub open spec fn api_message_json(message: ApiMessageView) -> JsonValue {
    JsonValue::Object(
        Map::empty().insert("role"@, JsonValue::Str(message.role)).insert(
            "content"@,
            JsonValue::Str(message.content),
        ),
    )
}

/// The body of a chat-completion request.
pub open spec fn request_json(model: Seq<char>, messages: Seq<ApiMessageView>, stream: bool) -> JsonValue {
    JsonValue::Object(
        Map::empty().insert("model"@, JsonValue::Str(model)).insert(
            "messages"@,
            JsonValue::Array(Seq::new(messages.len(), |i: int| api_message_json(messages[i]))),
        ).insert("stream"@, JsonValue::Bool(stream)),
    )
}

/// The sum of `counts`.
pub open spec fn total(counts: Seq<int>) -> int
    decreases counts.len(),
{
    if counts.len() == 0 {
        0
    } else {
        total(counts.drop_last()) + counts.last()
    }
}

/// The token counts that `responses` report, in order.
pub open spec fn token_counts(responses: Seq<JsonValue>) -> Seq<int> {
    Seq::new(responses.len(), |i: int| token_count(responses[i])->Some_0)
}

/// Where a session starts with no usage and each of `responses` is
/// recorded in turn, every one of them reporting its tokens, the usage is
/// at the end the sum of the token counts, and it never goes down on the
/// way. `usages` holds the usage before the first response and after each.
pub proof fn lemma_usage_is_sum(usages: Seq<int>, responses: Seq<JsonValue>)
    requires
        usages.len() == responses.len() + 1,
        usages[0] == 0,
        forall|i: int|
            0 <= i < responses.len() ==> token_count(#[trigger] responses[i]) is Some && usages[i + 1]
                == usages[i] + token_count(responses[i])->Some_0,
    ensures
        usages.last() == total(token_counts(responses)),
        forall|i: int, j: int| 0 <= i <= j < usages.len() ==> usages[i] <= usages[j],
    decreases responses.len(),
{
    if responses.len() > 0 {
        let shorter = usages.drop_last();
        let earlier = responses.drop_last();
        assert forall|i: int| 0 <= i < earlier.len() implies token_count(#[trigger] earlier[i]) is Some
            && shorter[i + 1] == shorter[i] + token_count(earlier[i])->Some_0 by {
            assert(earlier[i] == responses[i]);
        }
        lemma_usage_is_sum(shorter, earlier);
        let last = responses.len() - 1;
        assert(token_counts(responses).drop_last() =~= token_counts(earlier));
        assert(token_count(responses[last]) is Some && usages[last + 1] == usages[last] + token_count(
            responses[last],
        )->Some_0);
        assert forall|i: int, j: int| 0 <= i <= j < usages.len() implies usages[i] <= usages[j] by {
            if j < usages.len() - 1 {
                assert(shorter[i] <= shorter[j]);
            } else if i < j {
                assert(shorter[i] <= shorter[last]);
            }
        }
    }
}

impl BaseChat {
    /// The store is sound.
    pub open spec fn wf(&self) -> bool {
        self.messages.wf()
    }

    /// The messages of the active branch.
    pub open spec fn history(&self) -> Seq<MessageView> {
        self.messages.active_messages()
    }

    /// Whether `after` talks to the same model at the same endpoint with the
    /// same key, has the same character prompt and streams or not as this
    /// session does.
    pub open spec fn settings_kept(&self, after: BaseChat) -> bool {
        &&& after.model == self.model
        &&& after.base_url == self.base_url
        &&& after.api_key == self.api_key
        &&& after.character_prompt == self.character_prompt
        &&& after.need_stream == self.need_stream
    }

    /// Whether `after` is this session with `message` added at the end of
    /// the active branch: the settings stand, every path that was valid
    /// leads where it led, and the active branch is the old one with the
    /// message as its new leaf.
    pub open spec fn extended_by(&self, after: BaseChat, message: MessageView) -> bool {
        &&& self.settings_kept(after)
        &&& self.messages.continued(after.messages, self.messages.active_path(), message)
        &&& after.history() == self.history().push(message)
    }

    /// Whether the tokens that `response` reports can be added to the
    /// counter.
    pub open spec fn fits(&self, response: JsonValue) -> bool {
        token_count(response) matches Some(n) ==> self.usage + n <= u64::MAX
    }

    /// Whether `after` is this session once it has recorded the usage of
    /// `response` with the outcome `r`: the tokens that the response reports
    /// were added to the counter and `r` holds their number, or the response
    /// reports none, `r` is `MissingUsageData` and the counter stands.
    /// Nothing else of the session differs.
    pub open spec fn recorded(
        &self,
        after: BaseChat,
        response: JsonValue,
        r: Result<u64, ChatError>,
    ) -> bool {
        &&& after.messages == self.messages
        &&& self.settings_kept(after)
        &&& match token_count(response) {
            Some(n) => r == Ok::<u64, ChatError>(n as u64) && after.usage == self.usage + n,
            None => r == Err::<u64, ChatError>(ChatError::MissingUsageData) && after.usage == self.usage,
        }
    }

    /// A fresh session that talks to `info`.
    pub fn new(info: &ApiInfo, character_prompt: &str, need_stream: bool) -> (chat: BaseChat)
        ensures
            chat.wf(),
            chat.model == info.model,
            chat.base_url == info.base_url,
            chat.api_key == info.api_key,
            chat.character_prompt@ == character_prompt@,
            chat.need_stream == need_stream,
            chat.usage == 0,
            chat.messages.count() == 0,
            chat.messages.active_path() == Seq::<usize>::empty(),
            chat.messages.fanout(Seq::empty()) == 0,
            chat.history() == Seq::<MessageView>::empty(),
    {
        BaseChat {
            model: info.model.clone(),
            base_url: info.base_url.clone(),
            api_key: info.api_key.clone(),
            character_prompt: character_prompt.to_owned(),
            messages: ConversationStore::new(),
            usage: 0,
            need_stream,
        }
    }

    /// A fresh session that talks to the endpoint called `api_name`.
    pub fn new_with_api_name(
        config: &Config,
        api_name: &str,
        character_prompt: &str,
        need_stream: bool,
    ) -> (chat: BaseChat)
        requires
            config.named(api_name@) is Some,
        ensures
            chat.wf(),
            chat.model == config.named(api_name@).unwrap().model,
            chat.base_url == config.named(api_name@).unwrap().base_url,
            chat.api_key == config.named(api_name@).unwrap().api_key,
            chat.character_prompt@ == character_prompt@,
            chat.need_stream == need_stream,
            chat.usage == 0,
            chat.messages.count() == 0,
            chat.messages.active_path() == Seq::<usize>::empty(),
            chat.messages.fanout(Seq::empty()) == 0,
            chat.history() == Seq::<MessageView>::empty(),
    {
        let info = config.get_api_info_with_name(api_name).unwrap();
        BaseChat::new(info, character_prompt, need_stream)
    }

    /// A fresh session that talks to the first endpoint whose model has
    /// `model_capability`.
    pub fn new_with_model_capability(
        config: &Config,
        model_capability: &ModelCapability,
        character_prompt: &str,
        need_stream: bool,
    ) -> (chat: BaseChat)
        requires
            config.capable(*model_capability) is Some,
        ensures
            chat.wf(),
            chat.model == config.capable(*model_capability).unwrap().model,
            chat.base_url == config.capable(*model_capability).unwrap().base_url,
            chat.api_key == config.capable(*model_capability).unwrap().api_key,
            chat.character_prompt@ == character_prompt@,
            chat.need_stream == need_stream,
            chat.usage == 0,
            chat.messages.count() == 0,
            chat.messages.active_path() == Seq::<usize>::empty(),
            chat.messages.fanout(Seq::empty()) == 0,
            chat.history() == Seq::<MessageView>::empty(),
    {
        let info = config.get_api_info_with_capability(*model_capability).unwrap();
        BaseChat::new(info, character_prompt, need_stream)
    }

    /// Adds a message at the end of the active branch and returns its
    /// position in the branch. Nothing else of the session changes, and no
    /// stored message does.
    pub fn add_message(&mut self, role: Role, content: &str) -> (position: usize)
        requires
            old(self).wf(),
        ensures
            final(self).wf(),
            position == old(self).history().len(),
            position == old(self).messages.active_path().len(),
            final(self).history()[position as int] == (MessageView { role: role@, content: content@ }),
            old(self).extended_by(*final(self), MessageView { role: role@, content: content@ }),
            final(self).usage == old(self).usage,
    {
        self.messages.append(role, content)
    }

    /// The messages to send for the history along `end_path`: one system
    /// message with the character prompt, then each message of the path as
    /// `current_speaker` sees it. Fails with `InvalidPath` where a selector
    /// of the path is out of range.
    pub fn build_messages(&self, end_path: &[usize], current_speaker: &Role) -> (r: Result<
        Vec<ApiMessage>,
        ChatError,
    >)
        requires
            self.wf(),
        ensures
            match r {
                Ok(messages) => self.messages.resolved(end_path@) is Some && api_views(messages@)
                    == wire_messages(
                    self.character_prompt@,
                    self.messages.resolved(end_path@).unwrap(),
                    current_speaker@,
                ),
                Err(error) => self.messages.resolved(end_path@) is None && error == ChatError::InvalidPath,
            },
    {
        match self.messages.resolve(end_path) {
            Err(error) => Err(error),
            Ok(history) => {
                let mut messages: Vec<ApiMessage> = Vec::new();
                messages.push(
                    ApiMessage { role: "system".to_owned(), content: self.character_prompt.clone() },
                );
                let mut tail = render(&history, current_speaker);
                let ghost head = messages@;
                let ghost rest = tail@;
                messages.append(&mut tail);
                proof {
                    assert(messages@ == head + rest);
                    assert(api_views(messages@) =~= wire_messages(
                        self.character_prompt@,
                        self.messages.resolved(end_path@).unwrap(),
                        current_speaker@,
                    ));
                }
                Ok(messages)
            },
        }
    }

    /// The body of the request for the history along `end_path`: the model,
    /// the messages that `build_messages` gives, and whether to stream.
    pub fn build_request_body(&self, end_path: &[usize], current_speaker: &Role) -> (r: Result<
        Json,
        ChatError,
    >)
        requires
            self.wf(),
        ensures
            match r {
                Ok(body) => self.messages.resolved(end_path@) is Some && body@ == request_json(
                    self.model@,
                    wire_messages(
                        self.character_prompt@,
                        self.messages.resolved(end_path@).unwrap(),
                        current_speaker@,
                    ),
                    self.need_stream,
                ),
                Err(error) => self.messages.resolved(end_path@) is None && error == ChatError::InvalidPath,
            },
    {
        match self.build_messages(end_path, current_speaker) {
            Err(error) => Err(error),
            Ok(messages) => {
                let mut items: Vec<Json> = Vec::new();
                let mut i: usize = 0;
                while i < messages.len()
                    invariant
                        i <= messages@.len(),
                        items@.len() == i,
                        forall|j: int|
                            0 <= j < i ==> (#[trigger] items@[j])@ == api_message_json(messages@[j]@),
                    decreases messages@.len() - i,
                {
                    let mut item = Json::object();
                    item.insert("role", Json::from_text(messages[i].role.as_str()));
                    item.insert("content", Json::from_text(messages[i].content.as_str()));
                    items.push(item);
                    i += 1;
                }
                let list = Json::Array(items);
                proof {
                    let wire = api_views(messages@);
                    let expected = Seq::new(wire.len(), |i: int| api_message_json(wire[i]));
                    assert(list@->Array_0 =~= expected);
                }
                let mut body = Json::object();
                body.insert("model", Json::from_text(self.model.as_str()));
                body.insert("messages", list);
                body.insert("stream", Json::Bool(self.need_stream));
                Ok(body)
            },
        }
    }

    /// The body of the request for the active branch.
    pub fn build_active_request_body(&self, current_speaker: &Role) -> (body: Json)
        requires
            self.wf(),
        ensures
            body@ == request_json(
                self.model@,
                wire_messages(self.character_prompt@, self.history(), current_speaker@),
                self.need_stream,
            ),
    {
        proof {
            self.messages.lemma_active_valid();
        }
        let path = self.messages.current_path();
        match self.build_request_body(path.as_slice(), current_speaker) {
            Ok(body) => body,
            Err(_) => Json::Null,
        }
    }

    /// Whether the tokens that `response` reports can be added to the
    /// counter.
    pub fn can_record(&self, response: &Json) -> (r: bool)
        ensures
            r == self.fits(response@),
    {
        match get_token_count(response) {
            None => true,
            Some(n) => n <= u64::MAX - self.usage,
        }
    }

    /// Adds the tokens that `response` reports to the counter and returns
    /// their number. A response without usable usage data fails with
    /// `MissingUsageData` and leaves the session as it was.
    pub fn record_usage(&mut self, response: &Json) -> (r: Result<u64, ChatError>)
        requires
            old(self).fits(response@),
        ensures
            old(self).recorded(*final(self), response@, r),
    {
        match get_token_count(response) {
            None => Err(ChatError::MissingUsageData),
            Some(n) => {
                self.usage = self.usage + n;
                Ok(n)
            },
        }
    }

    /// Records the usage of `response` as `record_usage` does, where the
    /// counter can take it. Where it cannot, nothing changes and `None` is
    /// returned.
    pub fn try_record_usage(&mut self, response: &Json) -> (r: Option<Result<u64, ChatError>>)
        ensures
            match r {
                Some(outcome) => old(self).fits(response@) && old(self).recorded(
                    *final(self),
                    response@,
                    outcome,
                ),
                None => !old(self).fits(response@) && *final(self) == *old(self),
            },
    {
        if self.can_record(response) {
            Some(self.record_usage(response))
        } else {
            None
        }
    }
}

} // verus!
