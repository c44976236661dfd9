//! Roles, messages, and how a message looks to the one who is speaking.
use vstd::prelude::*;
use vstd::std_specs::cmp::PartialEqSpecImpl;
use vstd::std_specs::convert::FromSpecImpl;
use crate::text::{join_text, same_text};

verus! {

/// Who wrote a message. `Character` is a named participant other than the
/// generic user and assistant.
#[derive(Debug)]
pub enum Role {
    System,
    User,
    Assistant,
    Character(String),
}

/// The model of a [`Role`].
pub enum RoleView {
    System,
    User,
    Assistant,
    Character(Seq<char>),
}

impl View for Role {
    type V = RoleView;

    open spec fn view(&self) -> RoleView {
        match self {
            Role::System => RoleView::System,
            Role::User => RoleView::User,
            Role::Assistant => RoleView::Assistant,
            Role::Character(name) => RoleView::Character(name@),
        }
    }
}

/// The role that a name stands for: the three fixed names, and a character
/// of that name for any other.
pub open spec fn role_named(name: Seq<char>) -> RoleView {
    if name == "system"@ {
        RoleView::System
    } else if name == "user"@ {
        RoleView::User
    } else if name == "assistant"@ {
        RoleView::Assistant
    } else {
        RoleView::Character(name)
    }
}

impl Clone for Role {
    fn clone(&self) -> (copy: Role)
        ensures
            copy == *self,
    {
        match self {
            Role::System => Role::System,
            Role::User => Role::User,
            Role::Assistant => Role::Assistant,
            Role::Character(name) => Role::Character(name.clone()),
        }
    }
}

impl PartialEq for Role {
    fn eq(&self, other: &Role) -> (same: bool) {
        match (self, other) {
            (Role::System, Role::System) => true,
            (Role::User, Role::User) => true,
            (Role::Assistant, Role::Assistant) => true,
            (Role::Character(a), Role::Character(b)) => same_text(a.as_str(), b.as_str()),
            _ => false,
        }
    }
}

impl PartialEqSpecImpl for Role {
    open spec fn obeys_eq_spec() -> bool {
        true
    }

    open spec fn eq_spec(&self, other: &Role) -> bool {
        self@ == other@
    }
}

impl Eq for Role {

}

impl<'a> From<&'a str> for Role {
    /// The role that `name` stands for.
    fn from(name: &'a str) -> (role: Role)
        ensures
            role@ == role_named(name@),
    {
        if same_text(name, "system") {
            Role::System
        } else if same_text(name, "user") {
            Role::User
        } else if same_text(name, "assistant") {
            Role::Assistant
        } else {
            Role::Character(name.to_owned())
        }
    }
}

/// What `from` returns is stated on `from` itself, over the model of the
/// role: a role is told from another by its model alone.
impl<'a> FromSpecImpl<&'a str> for Role {
    open spec fn obeys_from_spec() -> bool {
        false
    }

    open spec fn from_spec(name: &'a str) -> Role {
        choose|role: Role| role@ == role_named(name@)
    }
}

/// One message of a conversation.
#[derive(Debug)]
pub struct Message {
    pub role: Role,
    pub content: String,
}

/// The model of a [`Message`].
pub struct MessageView {
    pub role: RoleView,
    pub content: Seq<char>,
}

impl View for Message {
    type V = MessageView;

    open spec fn view(&self) -> MessageView {
        MessageView { role: self.role@, content: self.content@ }
    }
}

impl Clone for Message {
    fn clone(&self) -> (copy: Message)
        ensures
            copy == *self,
    {
        Message { role: self.role.clone(), content: self.content.clone() }
    }
}

/// A message as the service takes it: a role name and the content.
#[derive(Debug, Clone, PartialEq, Eq)]
pub struct ApiMessage {
    pub role: String,
    pub content: String,
}

/// The model of an [`ApiMessage`].
pub struct ApiMessageView {
    pub role: Seq<char>,
    pub content: Seq<char>,
}

impl View for ApiMessage {
    type V = ApiMessageView;

    open spec fn view(&self) -> ApiMessageView {
        ApiMessageView { role: self.role@, content: self.content@ }
    }
}

/// How `message` is shown when `speaker` is the one the model speaks for.
/// The speaker's own messages are the assistant's; what the assistant or a
/// character other than the speaker said becomes a user message that names
/// who said it. System and user messages stay as they are.
pub open spec fn rendered(message: MessageView, speaker: RoleView) -> ApiMessageView {
    match message.role {
        RoleView::System => ApiMessageView { role: "system"@, content: message.content },
        RoleView::User => ApiMessageView { role: "user"@, content: message.content },
        RoleView::Assistant => if speaker == RoleView::Assistant {
            ApiMessageView { role: "assistant"@, content: message.content }
        } else {
            ApiMessageView { role: "user"@, content: "Assistant said: "@ + message.content }
        },
        RoleView::Character(name) => if speaker == message.role {
            ApiMessageView { role: "assistant"@, content: message.content }
        } else {
            ApiMessageView { role: "user"@, content: name + " said: "@ + message.content }
        },
    }
}

/// The rendering of each message of `messages`, in order.
pub open spec fn rendered_all(messages: Seq<MessageView>, speaker: RoleView) -> Seq<ApiMessageView> {
    Seq::new(messages.len(), |i: int| rendered(messages[i], speaker))
}

/// The models of `messages`, in order.
pub open spec fn message_views(messages: Seq<Message>) -> Seq<MessageView> {
    Seq::new(messages.len(), |i: int| messages[i]@)
}

/// The models of `messages`, in order.
pub open spec fn api_views(messages: Seq<ApiMessage>) -> Seq<ApiMessageView> {
    Seq::new(messages.len(), |i: int| messages[i]@)
}

/// A character's message is the assistant's, unchanged, when that character
/// is speaking, and otherwise a user message that starts with the
/// character's name and ` said: `.
pub proof fn lemma_character_rendering(message: MessageView, speaker: RoleView)
    requires
        message.role is Character,
    ensures
        speaker == message.role ==> rendered(message, speaker) == (ApiMessageView {
            role: "assistant"@,
            content: message.content,
        }),
        speaker != message.role ==> rendered(message, speaker) == (ApiMessageView {
            role: "user"@,
            content: message.role->Character_0 + " said: "@ + message.content,
        }),
{
}

/// The assistant's message is the assistant's, unchanged, when the assistant
/// is speaking, and otherwise a user message that starts with
/// `Assistant said: `.
pub proof fn lemma_assistant_rendering(message: MessageView, speaker: RoleView)
    requires
        message.role is Assistant,
    ensures
        speaker == message.role ==> rendered(message, speaker) == (ApiMessageView {
            role: "assistant"@,
            content: message.content,
        }),
        speaker != message.role ==> rendered(message, speaker) == (ApiMessageView {
            role: "user"@,
            content: "Assistant said: "@ + message.content,
        }),
{
}

/// System and user messages are rendered under their own role with their
/// content unchanged, whoever is speaking.
pub proof fn lemma_plain_rendering(message: MessageView, speaker: RoleView)
    requires
        message.role is System || message.role is User,
    ensures
        rendered(message, speaker).content == message.content,
        message.role is System ==> rendered(message, speaker).role == "system"@,
        message.role is User ==> rendered(message, speaker).role == "user"@,
{
}

/// Every rendered message carries one of the three role names of the wire
/// format, and its content ends with the content of the message.
pub proof fn lemma_rendered_role(message: MessageView, speaker: RoleView)
    ensures
        rendered(message, speaker).role == "system"@ || rendered(message, speaker).role == "user"@
            || rendered(message, speaker).role == "assistant"@,
        rendered(message, speaker).content.len() >= message.content.len(),
        rendered(message, speaker).content.subrange(
            rendered(message, speaker).content.len() - message.content.len(),
            rendered(message, speaker).content.len() as int,
        ) == message.content,
{
    let out = rendered(message, speaker).content;
    assert(out.subrange(out.len() - message.content.len(), out.len() as int) =~= message.content);
}

impl Message {
    /// A message by `role` that says `content`.
    pub fn new(role: Role, content: &str) -> (message: Message)
        ensures
            message@ == (MessageView { role: role@, content: content@ }),
    {
        Message { role, content: content.to_owned() }
    }

    /// Renders this message for the service, as seen while
    /// `current_speaker` is the one the model speaks for.
    pub fn to_api_format(&self, current_speaker: &Role) -> (api: ApiMessage)
        ensures
            api@ == rendered(self@, current_speaker@),
    {
        match &self.role {
            Role::System => ApiMessage { role: "system".to_owned(), content: self.content.clone() },
            Role::User => ApiMessage { role: "user".to_owned(), content: self.content.clone() },
            Role::Assistant => {
                if self.role == *current_speaker {
                    ApiMessage { role: "assistant".to_owned(), content: self.content.clone() }
                } else {
                    ApiMessage {
                        role: "user".to_owned(),
                        content: join_text("Assistant said: ", self.content.as_str()),
                    }
                }
            },
            Role::Character(name) => {
                if self.role == *current_speaker {
                    ApiMessage { role: "assistant".to_owned(), content: self.content.clone() }
                } else {
                    let mut content = join_text(name.as_str(), " said: ");
                    content.append(self.content.as_str());
                    ApiMessage { role: "user".to_owned(), content }
                }
            },
        }
    }
}

/// Renders `messages` in order for `current_speaker`.
pub fn render(messages: &Vec<Message>, current_speaker: &Role) -> (api: Vec<ApiMessage>)
    ensures
        api_views(api@) == rendered_all(message_views(messages@), current_speaker@),
{
    let mut api: Vec<ApiMessage> = Vec::new();
    let mut i: usize = 0;
    while i < messages.len()
        invariant
            i <= messages@.len(),
            api@.len() == i,
            forall|j: int| 0 <= j < i ==> (#[trigger] api@[j])@ == rendered(messages@[j]@, current_speaker@),
        decreases messages@.len() - i,
    {
        api.push(messages[i].to_api_format(current_speaker));
        i += 1;
    }
    assert(api_views(api@) =~= rendered_all(message_views(messages@), current_speaker@));
    api
}

} // verus!
