use findout::conversation::{Conversation, ConversationTurn, ImagePayload};

fn turns(list: &[ConversationTurn]) -> Vec<(String, String)> {
    list.iter().map(|t| (t.query.clone(), t.answer.clone())).collect()
}

#[test]
fn followups_serialize_successful_turns_in_order() {
    let mut conversation = Conversation::default();
    let first = conversation
        .prepare("  how do I update Linux?  ", false, None)
        .unwrap();
    // An empty history is left out of the request body.
    assert!(first.previous_turns.is_empty());
    conversation.complete(&first, "Use your package manager.");
    let second = conversation.prepare("and Windows?", false, None).unwrap();
    conversation.complete(&second, "Use Windows Update.");
    let third = conversation.prepare("where is that?", false, None).unwrap();
    assert_eq!(
        turns(&third.previous_turns),
        vec![
            (
                "how do I update Linux?".to_owned(),
                "Use your package manager.".to_owned()
            ),
            ("and Windows?".to_owned(), "Use Windows Update.".to_owned()),
        ]
    );
    assert_eq!(third.query, "where is that?");
}

#[test]
fn history_is_bounded_and_unicode_safe() {
    let mut conversation = Conversation::default();
    for i in 0..6 {
        let request = conversation
            .prepare(&format!("{i}{}", "🦀".repeat(2500)), false, None)
            .unwrap();
        conversation.complete(&request, &"ä🦀".repeat(2000));
    }
    let request = conversation.prepare("next", false, None).unwrap();
    assert_eq!(request.previous_turns.len(), 4);
    assert!(request.previous_turns[0].query.starts_with('2'));
    assert!(request.previous_turns[3].query.starts_with('5'));
    for turn in &request.previous_turns {
        assert_eq!(turn.query.chars().count(), 2000);
        assert_eq!(turn.answer.chars().count(), 2000);
    }
}

#[test]
fn search_retry_reuses_context_and_image_and_replaces_answer() {
    let mut conversation = Conversation::default();
    let first = conversation.prepare("first", false, None).unwrap();
    conversation.complete(&first, "first answer");
    let second = conversation
        .prepare(
            "identify this",
            false,
            Some(ImagePayload {
                mime_type: "image/png".into(),
                data: "original image".into(),
            }),
        )
        .unwrap();
    conversation.complete(&second, "initial answer");
    let retry = conversation.prepare("", true, None).unwrap();
    assert_eq!(retry.query, second.query);
    assert_eq!(turns(&retry.previous_turns), turns(&second.previous_turns));
    assert_eq!(retry.image.as_ref().unwrap().data, "original image");
    assert!(retry.force_search);
    conversation.complete(&retry, "verified answer");
    let next = conversation.prepare("follow up", false, None).unwrap();
    assert_eq!(next.previous_turns.len(), 2);
    assert_eq!(next.previous_turns[1].answer, "verified answer");
    assert!(next.image.is_none());
}

#[test]
fn failed_requests_are_not_history_and_clear_starts_fresh() {
    let mut conversation = Conversation::default();
    let first = conversation.prepare("first", false, None).unwrap();
    conversation.complete(&first, "answer");
    let _failed = conversation.prepare("fails", false, None).unwrap();
    assert!(conversation.prepare("  ", false, None).is_err());
    let next = conversation.prepare("next", false, None).unwrap();
    assert_eq!(next.previous_turns.len(), 1);
    assert_eq!(next.previous_turns[0].query, "first");
    conversation.clear();
    assert!(conversation.prepare("", true, None).is_err());
    assert!(conversation
        .prepare("fresh", false, None)
        .unwrap()
        .previous_turns
        .is_empty());
}

#[test]
fn a_search_retry_needs_an_earlier_question() {
    let mut conversation = Conversation::new();
    assert_eq!(
        conversation.prepare("ignored", true, None).err().unwrap(),
        "Enter a question"
    );
    assert_eq!(
        conversation.prepare("   ", false, None).err().unwrap(),
        "Enter a question"
    );
}

#[test]
fn a_refused_question_keeps_the_last_request() {
    let mut conversation = Conversation::new();
    let first = conversation.prepare("first", false, None).unwrap();
    assert!(conversation.prepare("", false, None).is_err());
    let retry = conversation.prepare("", true, None).unwrap();
    assert_eq!(retry.query, first.query);
    assert!(retry.force_search);
    assert!(retry.system_context.is_none());
}
