use llm_chat::chat_base::BaseChat;
use llm_chat::config::ApiInfo;
use llm_chat::message::{render, ApiMessage, Message, Role};

fn api(role: &str, content: &str) -> ApiMessage {
    ApiMessage { role: role.to_string(), content: content.to_string() }
}

fn info() -> ApiInfo {
    ApiInfo {
        model: "model-x".to_string(),
        base_url: "http://localhost/v1/chat".to_string(),
        api_key: "key".to_string(),
    }
}

#[test]
fn prompt_then_user_message_for_assistant() {
    let mut chat = BaseChat::new(&info(), "You are Alice", false);
    chat.add_message(Role::User, "hi");
    let path = chat.messages.current_path().clone();
    let messages = chat.build_messages(&path, &Role::Assistant).unwrap();
    assert_eq!(messages, vec![api("system", "You are Alice"), api("user", "hi")]);
}

#[test]
fn other_character_is_recast_as_user() {
    let message = Message::new(Role::Character("Bob".to_string()), "hello");
    let rendered = message.to_api_format(&Role::Character("Alice".to_string()));
    assert_eq!(rendered, api("user", "Bob said: hello"));
}

#[test]
fn speaking_character_is_the_assistant() {
    let message = Message::new(Role::Character("Bob".to_string()), "hello");
    let rendered = message.to_api_format(&Role::Character("Bob".to_string()));
    assert_eq!(rendered, api("assistant", "hello"));
}

#[test]
fn character_seen_by_generic_roles() {
    let message = Message::new(Role::Character("Bob".to_string()), "hello");
    assert_eq!(message.to_api_format(&Role::Assistant), api("user", "Bob said: hello"));
    assert_eq!(message.to_api_format(&Role::User), api("user", "Bob said: hello"));
    assert_eq!(message.to_api_format(&Role::System), api("user", "Bob said: hello"));
}

#[test]
fn assistant_matches_and_does_not_match() {
    let message = Message::new(Role::Assistant, "I agree");
    assert_eq!(message.to_api_format(&Role::Assistant), api("assistant", "I agree"));
    assert_eq!(message.to_api_format(&Role::User), api("user", "Assistant said: I agree"));
    assert_eq!(
        message.to_api_format(&Role::Character("Alice".to_string())),
        api("user", "Assistant said: I agree")
    );
}

#[test]
fn system_and_user_do_not_depend_on_the_speaker() {
    let speakers = vec![
        Role::System,
        Role::User,
        Role::Assistant,
        Role::Character("Alice".to_string()),
    ];
    for speaker in speakers.iter() {
        let system = Message::new(Role::System, "rules");
        assert_eq!(system.to_api_format(speaker), api("system", "rules"));
        let user = Message::new(Role::User, "question");
        assert_eq!(user.to_api_format(speaker), api("user", "question"));
    }
}

#[test]
fn render_keeps_order_and_length() {
    let history = vec![
        Message::new(Role::User, "one"),
        Message::new(Role::Character("Bob".to_string()), "two"),
        Message::new(Role::Assistant, "three"),
        Message::new(Role::Character("Alice".to_string()), "four"),
    ];
    let rendered = render(&history, &Role::Character("Alice".to_string()));
    assert_eq!(
        rendered,
        vec![
            api("user", "one"),
            api("user", "Bob said: two"),
            api("user", "Assistant said: three"),
            api("assistant", "four"),
        ]
    );
}

#[test]
fn empty_content_and_empty_name() {
    let message = Message::new(Role::Character(String::new()), "");
    assert_eq!(message.to_api_format(&Role::User), api("user", " said: "));
}

#[test]
fn role_from_name() {
    assert_eq!(Role::from("system"), Role::System);
    assert_eq!(Role::from("user"), Role::User);
    assert_eq!(Role::from("assistant"), Role::Assistant);
    assert_eq!(Role::from("Bob"), Role::Character("Bob".to_string()));
    assert_eq!(Role::from("System"), Role::Character("System".to_string()));
    assert_eq!(Role::from(""), Role::Character(String::new()));
}

#[test]
fn role_equality() {
    assert!(Role::Character("Bob".to_string()) == Role::Character("Bob".to_string()));
    assert!(Role::Character("Bob".to_string()) != Role::Character("bob".to_string()));
    assert!(Role::Assistant != Role::Character("assistant".to_string()));
    assert!(Role::User != Role::System);
    let copy = Role::Character("Bob".to_string()).clone();
    assert_eq!(copy, Role::Character("Bob".to_string()));
}

#[test]
fn one_system_message_first_for_every_path() {
    let mut chat = BaseChat::new(&info(), "You are Alice", false);
    let empty: Vec<usize> = Vec::new();
    let only_prompt = chat.build_messages(&empty, &Role::User).unwrap();
    assert_eq!(only_prompt, vec![api("system", "You are Alice")]);
    chat.add_message(Role::System, "stored system note");
    chat.add_message(Role::User, "hi");
    chat.add_message(Role::Assistant, "hello");
    let path = chat.messages.current_path().clone();
    for length in 0..=path.len() {
        let messages = chat.build_messages(&path[..length], &Role::Assistant).unwrap();
        assert_eq!(messages.len(), length + 1);
        assert_eq!(messages[0], api("system", "You are Alice"));
    }
    let all = chat.build_messages(&path, &Role::Assistant).unwrap();
    assert_eq!(all[1], api("system", "stored system note"));
    assert_eq!(all[3], api("assistant", "hello"));
}
