use miniserve::{
    chat_body, chat_history, chat_json, chat_reply, ChatReply, Chatbot, Logger, Messages, Request,
};

fn strings(v: &[&str]) -> Vec<String> {
    v.iter().map(|s| s.to_string()).collect()
}

#[test]
fn chat_appends_the_picked_candidate() {
    let history = Messages { messages: strings(&["hi"]) };
    let reply = chat_reply(history, Some(strings(&["A", "B"])), 0);
    assert_eq!(chat_json(&reply), "{\"messages\":[\"hi\",\"A\"]}");
}

#[test]
fn pick_counts_round_the_candidates() {
    let history = Messages { messages: strings(&["hi"]) };
    match chat_reply(history, Some(strings(&["A", "B"])), 3) {
        ChatReply::Messages(m) => assert_eq!(m.messages, strings(&["hi", "B"])),
        ChatReply::Cancelled => panic!("cancelled"),
    }
}

#[test]
fn cancelled_call_gives_cancelled() {
    let history = Messages { messages: strings(&["hi"]) };
    let reply = chat_reply(history, None, 5);
    assert_eq!(chat_json(&reply), "{\"type\":\"Cancelled\"}");
}

#[test]
fn json_escapes_messages() {
    let history = Messages { messages: strings(&["say \"hi\"\n"]) };
    let reply = chat_reply(history, Some(strings(&["ok"])), 9);
    assert_eq!(chat_json(&reply), "{\"messages\":[\"say \\\"hi\\\"\\n\",\"ok\"]}");
}

#[test]
fn chat_needs_a_post() {
    assert_eq!(chat_body(Request::Get).err().map(|s| s.as_u16()), Some(405));
    assert_eq!(chat_body(Request::Post("x".to_string())).ok(), Some("x".to_string()));
}

#[test]
fn unreadable_history_is_an_internal_error() {
    assert_eq!(chat_history(None).err().map(|s| s.as_u16()), Some(500));
    let ok = chat_history(Some(Messages { messages: strings(&["a"]) })).ok().unwrap();
    assert_eq!(ok.messages, strings(&["a"]));
}

#[test]
fn chatbot_offers_four_candidates_and_rotates_emojis() {
    let mut bot = Chatbot::new(strings(&["🙂", "🤔"]));
    let docs = strings(&["doc one", "doc two", "doc three"]);
    let first = bot.query_chat(&strings(&["hello", "how are you"]), &docs);
    assert_eq!(
        first,
        strings(&[
            "\"how are you\"? And how does that make you feel? 🙂",
            "\"how are you\"! Interesting! Go on... 🙂",
            "Have you considered: doc one",
            "I might recommend: doc three",
        ])
    );
    let second = bot.query_chat(&strings(&["again"]), &docs);
    assert_eq!(second[0], "\"again\"? And how does that make you feel? 🤔");
    let third = bot.query_chat(&strings(&["x"]), &docs);
    assert_eq!(third[1], "\"x\"! Interesting! Go on... 🙂");
}

#[test]
fn retrieval_documents_are_fixed() {
    let bot = Chatbot::new(strings(&["🙂"]));
    assert_eq!(
        bot.retrieval_documents(&strings(&["hi"])),
        strings(&["data/doc1.txt", "data/doc2.txt"])
    );
}

#[test]
fn logger_saves_every_third_message() {
    let mut log = Logger::new();
    assert!(log.needs_saving());
    assert_eq!(log.contents(), "");
    log.append("one");
    assert!(!log.needs_saving());
    assert_eq!(log.contents(), "one");
    log.append("two");
    assert!(!log.needs_saving());
    log.append("three");
    assert!(log.needs_saving());
    assert_eq!(log.contents(), "one\ntwo\nthree");
}

#[test]
fn default_logger_is_empty() {
    let log = Logger::default();
    assert!(log.needs_saving());
    assert_eq!(log.contents(), "");
}
