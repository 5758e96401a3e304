use miniserve::{chat_json, chat_reply, Actor, ChatReply, Messages, MAILBOX_CAPACITY};

#[test]
fn calls_are_answered_in_submission_order() {
    let mut actor: Actor<&str, char> = Actor::new();
    assert_eq!(actor.submit("c1", 'a').ok(), Some(0));
    assert_eq!(actor.submit("c2", 'b').ok(), Some(1));
    assert_eq!(actor.submit("c3", 'c').ok(), Some(2));
    let mut answers = Vec::new();
    while let Some((ticket, input)) = actor.start() {
        assert!(actor.start().is_none(), "two calls in progress");
        let done = actor.complete(ticket, input.to_uppercase()).unwrap();
        answers.push((done.ticket, done.reply, done.output));
    }
    assert_eq!(
        answers,
        vec![
            (0, 'a', Some("C1".to_string())),
            (1, 'b', Some("C2".to_string())),
            (2, 'c', Some("C3".to_string())),
        ]
    );
}

#[test]
fn cancel_answers_none_and_spares_the_next_call() {
    let mut actor: Actor<u32, &str> = Actor::new();
    actor.submit(10, "first").unwrap();
    let (t1, _) = actor.start().unwrap();
    let cancelled = actor.cancel::<u32>().unwrap();
    assert_eq!((cancelled.ticket, cancelled.reply, cancelled.output), (t1, "first", None));
    actor.submit(20, "second").unwrap();
    let (t2, input) = actor.start().unwrap();
    assert_eq!(input, 20);
    assert!(actor.complete(t1, 999u32).is_none(), "late output reached a new caller");
    let done = actor.complete(t2, input + 1).unwrap();
    assert_eq!((done.ticket, done.reply, done.output), (t2, "second", Some(21)));
}

#[test]
fn cancel_leaves_queued_calls_alone() {
    let mut actor: Actor<u32, u32> = Actor::new();
    actor.submit(1, 100).unwrap();
    actor.submit(2, 200).unwrap();
    actor.start().unwrap();
    assert!(actor.cancel::<u32>().unwrap().output.is_none());
    let (t, input) = actor.start().unwrap();
    assert_eq!((t, input), (1, 2));
    assert_eq!(actor.complete(t, 7u32).unwrap().reply, 200);
}

#[test]
fn cancel_when_idle_does_nothing() {
    let mut actor: Actor<u32, u32> = Actor::new();
    assert!(actor.cancel::<u32>().is_none());
    actor.submit(1, 1).unwrap();
    let (t, _) = actor.start().unwrap();
    assert_eq!(actor.complete(t, 5u32).unwrap().output, Some(5));
}

#[test]
fn heartbeats_count_the_wait() {
    let mut actor: Actor<u32, u32> = Actor::new();
    assert_eq!(actor.tick(), None);
    actor.submit(1, 1).unwrap();
    let (t, _) = actor.start().unwrap();
    assert!(actor.is_busy());
    assert_eq!(actor.tick(), Some(1));
    assert_eq!(actor.tick(), Some(2));
    assert_eq!(actor.tick(), Some(3));
    assert!(actor.complete(t, 0u32).is_some());
    assert!(!actor.is_busy());
    assert_eq!(actor.tick(), None);
}

#[test]
fn full_mailbox_refuses_calls() {
    let mut actor: Actor<usize, usize> = Actor::new();
    for i in 0..MAILBOX_CAPACITY {
        assert_eq!(actor.submit(i, i).ok(), Some(i as u64));
    }
    assert_eq!(actor.submit(7, 8).err(), Some((7, 8)));
    let (t, _) = actor.start().unwrap();
    assert_eq!(t, 0);
    assert_eq!(actor.submit(7, 8).ok(), Some(MAILBOX_CAPACITY as u64));
}

#[test]
fn cancel_during_chat_answers_cancelled() {
    let mut actor: Actor<Vec<String>, u8> = Actor::new();
    actor.submit(vec!["hi".to_string()], 1).unwrap();
    let (_, _history) = actor.start().unwrap();
    let answer = actor.cancel::<Vec<String>>().unwrap();
    let history = Messages { messages: vec!["hi".to_string()] };
    let reply = chat_reply(history, answer.output, 0);
    assert!(matches!(reply, ChatReply::Cancelled));
    assert_eq!(chat_json(&reply), "{\"type\":\"Cancelled\"}");
}
