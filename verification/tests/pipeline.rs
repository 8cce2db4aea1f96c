use utterance_capture::detector::Phase;
use utterance_capture::dialogue::advance;
use utterance_capture::dialogue::is_over;
use utterance_capture::dialogue::Conversation;
use utterance_capture::dialogue::Outcome;
use utterance_capture::dialogue::Role;
use utterance_capture::dialogue::Stage;
use utterance_capture::endpoint::Tunables;
use utterance_capture::pipeline::wake_detected;
use utterance_capture::pipeline::Pipeline;
use utterance_capture::speech::is_ascii_punctuation;
use utterance_capture::speech::is_speakable;
use utterance_capture::speech::speakable_text;

#[test]
fn wake_is_a_non_negative_index() {
    assert!(!wake_detected(-1));
    assert!(!wake_detected(i32::MIN));
    assert!(wake_detected(0));
    assert!(wake_detected(3));
}

#[test]
fn pipeline_needs_a_noise_floor() {
    assert!(Pipeline::new(16000, 512, 0).is_none());
    assert!(Pipeline::new(16000, 0, 10).is_none());
    let pipeline = Pipeline::new(16000, 512, 10).unwrap();
    assert_eq!(pipeline.ring.max_len(), 31);
    assert_eq!(pipeline.noise.max_len(), 10);
    assert_eq!(pipeline.detector.phase(), Phase::Idle);
    assert_eq!(pipeline.detector.sample_rate(), 16000);
}

#[test]
fn idle_frames_feed_noise_floor_and_ring() {
    let mut pipeline = Pipeline::new(8, 2, 3).unwrap();
    let mut fed: i16 = 0;
    while fed < 6 {
        assert!(!pipeline.hear(&vec![fed, fed], -1, Tunables::default()));
        fed += 1;
    }
    assert_eq!(pipeline.detector.phase(), Phase::Idle);
    assert_eq!(pipeline.noise.len(), 3);
    assert_eq!(pipeline.noise.level().numerator(), 24);
    assert_eq!(pipeline.noise.level().denominator(), 6);
    assert_eq!(
        pipeline.ring.snapshot(),
        vec![vec![2, 2], vec![3, 3], vec![4, 4], vec![5, 5]]
    );
}

#[test]
fn wake_word_starts_a_capture_with_the_lead_in() {
    let mut pipeline = Pipeline::new(4, 2, 10).unwrap();
    assert!(!pipeline.hear(&vec![10, 10], -1, Tunables::default()));
    assert!(!pipeline.hear(&vec![10, -10], -1, Tunables::default()));
    assert!(pipeline.hear(&vec![-10, 10], 0, Tunables::default()));
    assert_eq!(pipeline.detector.phase(), Phase::Capturing);
    assert_eq!(pipeline.detector.frame_count(), 2);
    assert_eq!(pipeline.detector.silence_counter(), 0);
    assert!(pipeline.record(vec![12, 12]).is_none());
    assert_eq!(pipeline.detector.silence_counter(), 0);
    assert!(pipeline.record(vec![11, 11]).is_none());
    assert!(pipeline.record(vec![0, 0]).is_none());
    assert_eq!(pipeline.detector.silence_counter(), 4);
    let utterance = pipeline.record(vec![3, 3]).unwrap();
    assert_eq!(
        utterance.into_frames(),
        vec![
            vec![10, -10],
            vec![-10, 10],
            vec![12, 12],
            vec![11, 11],
            vec![0, 0],
            vec![3, 3],
        ]
    );
    assert_eq!(pipeline.detector.phase(), Phase::Idle);
    assert_eq!(pipeline.noise.len(), 3);
    assert_eq!(pipeline.ring.snapshot(), vec![vec![10, -10], vec![-10, 10]]);
}

#[test]
fn conversation_opens_with_the_system_message() {
    let conversation = Conversation::new(String::from("be brief"));
    assert_eq!(conversation.len(), 1);
    assert_eq!(conversation.message(0).role, Role::System);
    assert_eq!(conversation.message(0).content, "be brief");
}

#[test]
fn interaction_runs_its_steps_in_order() {
    let mut conversation = Conversation::new(String::from("be brief"));
    let mut stage = Stage::Transcribing;
    assert!(!is_over(stage));
    stage = advance(stage, Outcome::Text(String::from("what time is it")), &mut conversation);
    assert_eq!(stage, Stage::Responding);
    assert_eq!(conversation.len(), 2);
    assert_eq!(conversation.message(1).role, Role::User);
    assert_eq!(conversation.message(1).content, "what time is it");
    stage = advance(stage, Outcome::Text(String::from("noon")), &mut conversation);
    assert_eq!(stage, Stage::Synthesizing);
    assert_eq!(conversation.len(), 3);
    assert_eq!(conversation.message(2).role, Role::Assistant);
    assert_eq!(conversation.message(2).content, "noon");
    stage = advance(stage, Outcome::Completed, &mut conversation);
    assert_eq!(stage, Stage::Playing);
    stage = advance(stage, Outcome::Completed, &mut conversation);
    assert_eq!(stage, Stage::Done);
    assert!(is_over(stage));
    assert_eq!(conversation.len(), 3);
    assert_eq!(conversation.message(0).content, "be brief");
}

#[test]
fn failure_aborts_the_interaction() {
    let mut conversation = Conversation::new(String::from("s"));
    assert_eq!(advance(Stage::Transcribing, Outcome::Failed, &mut conversation), Stage::Aborted);
    assert_eq!(advance(Stage::Responding, Outcome::Failed, &mut conversation), Stage::Aborted);
    assert_eq!(advance(Stage::Synthesizing, Outcome::Failed, &mut conversation), Stage::Aborted);
    assert_eq!(advance(Stage::Playing, Outcome::Failed, &mut conversation), Stage::Aborted);
    assert!(is_over(Stage::Aborted));
    assert_eq!(conversation.len(), 1);
}

#[test]
fn unexpected_outcome_aborts_the_interaction() {
    let mut conversation = Conversation::new(String::from("s"));
    assert_eq!(advance(Stage::Transcribing, Outcome::Completed, &mut conversation), Stage::Aborted);
    assert_eq!(
        advance(Stage::Playing, Outcome::Text(String::from("x")), &mut conversation),
        Stage::Aborted
    );
    assert_eq!(advance(Stage::Done, Outcome::Completed, &mut conversation), Stage::Aborted);
    assert_eq!(advance(Stage::Aborted, Outcome::Completed, &mut conversation), Stage::Aborted);
    assert_eq!(conversation.len(), 1);
}

#[test]
fn speakable_text_keeps_letters_space_and_ascii_punctuation() {
    assert_eq!(speakable_text("Hello, world!"), "Hello, world!");
    assert_eq!(speakable_text("a\tb\nc d"), "a\tb\nc d");
    assert_eq!(speakable_text(""), "");
    assert_eq!(speakable_text("caf\u{e9} 42 \u{4e2d}\u{6587}"), "caf\u{e9} 42 \u{4e2d}\u{6587}");
}

#[test]
fn speakable_text_drops_the_rest() {
    assert_eq!(speakable_text("ok \u{1F600} then"), "ok  then");
    assert_eq!(speakable_text("wait\u{2014}what\u{2019}s that"), "waitwhats that");
    assert_eq!(speakable_text("\u{1F600}\u{1F601}"), "");
    assert_eq!(speakable_text("a\u{0}b\u{7f}c"), "abc");
}

#[test]
fn ascii_punctuation_ranges() {
    for c in ['!', '/', ':', '@', '[', '`', '{', '~', '"', '\\'] {
        assert!(is_speakable(c));
    }
    assert!(!is_speakable('\u{1f}'));
    assert!(!is_speakable('\u{7f}'));
    assert!(!is_speakable('\u{2014}'));
    assert!(is_speakable(' '));
    assert!(is_speakable('0'));
    assert!(is_speakable('z'));
}

#[test]
fn ascii_punctuation_is_four_ranges() {
    let mut code: u32 = 0;
    while code < 0x100 {
        let c = char::from_u32(code).unwrap();
        let expected = (0x21..=0x2F).contains(&code)
            || (0x3A..=0x40).contains(&code)
            || (0x5B..=0x60).contains(&code)
            || (0x7B..=0x7E).contains(&code);
        assert_eq!(is_ascii_punctuation(c), expected);
        assert_eq!(is_ascii_punctuation(c), c.is_ascii_punctuation());
        code += 1;
    }
    assert!(!is_ascii_punctuation('\u{2014}'));
    assert!(!is_ascii_punctuation('\u{10FFFF}'));
}

#[test]
fn no_reply_before_the_assistant_spoke() {
    let mut conversation = Conversation::new(String::from("be brief"));
    assert!(conversation.last_reply().is_none());
    conversation.push(Role::User, String::from("hello"));
    assert!(conversation.last_reply().is_none());
}

#[test]
fn last_reply_is_the_latest_assistant_message() {
    let mut conversation = Conversation::new(String::from("be brief"));
    conversation.push(Role::User, String::from("hello"));
    conversation.push(Role::Assistant, String::from("hi"));
    assert_eq!(conversation.last_reply().unwrap().content, "hi");
    conversation.push(Role::User, String::from("what time is it"));
    assert_eq!(conversation.last_reply().unwrap().content, "hi");
    assert_eq!(conversation.last_reply().unwrap().role, Role::Assistant);
    conversation.push(Role::Assistant, String::from("noon"));
    assert_eq!(conversation.last_reply().unwrap().content, "noon");
    conversation.push(Role::System, String::from("later"));
    assert_eq!(conversation.last_reply().unwrap().content, "noon");
}

#[test]
fn recorded_reply_is_the_one_to_speak() {
    let mut conversation = Conversation::new(String::from("be brief"));
    let mut stage = advance(
        Stage::Transcribing,
        Outcome::Text(String::from("hello")),
        &mut conversation,
    );
    assert!(conversation.last_reply().is_none());
    stage = advance(stage, Outcome::Text(String::from("hi \u{1F600}")), &mut conversation);
    assert_eq!(stage, Stage::Synthesizing);
    let reply = conversation.last_reply().unwrap();
    assert_eq!(speakable_text(&reply.content), "hi ");
}
