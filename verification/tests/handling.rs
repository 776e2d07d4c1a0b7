use codeblock_lint::check::CheckResult;
use codeblock_lint::extract::extract_blocks;
use codeblock_lint::reply::build_reply;
use codeblock_lint::session::{blocks_for, Action, Outcome, Session, Stage};

fn session_for(text: &str) -> Session {
    Session::begin("alice".to_string(), extract_blocks(text))
}

#[test]
fn message_with_one_block_is_checked_and_answered() {
    let session = session_for("```py\nx=1\n```");
    assert_eq!(session.next_action(), Action::Check("x=1\n".to_string()));
    let output = b"block:1:2: E225 missing whitespace around operator".to_vec();
    let session = session.record(Outcome::Output(output));
    assert_eq!(session.failure(), None);
    match session.next_action() {
        Action::Reply(text) => {
            assert!(text.contains("1 Python code block."));
            assert!(text.contains("**Codeblock 1:**\n```\nblock:1:2: E225 missing whitespace around operator\n```"));
        }
        other => panic!("no reply: {:?}", other),
    }
}

#[test]
fn two_clean_blocks_give_two_sections() {
    let session = session_for("```py\na\n```\n```python\nb\n```");
    assert_eq!(session.next_action(), Action::Check("a\n".to_string()));
    let session = session.record(Outcome::Output(Vec::new()));
    assert_eq!(session.next_action(), Action::Check("b\n".to_string()));
    let session = session.record(Outcome::Output(Vec::new()));
    let expected = build_reply("alice", &vec![CheckResult::Clean, CheckResult::Clean]);
    assert_eq!(session.next_action(), Action::Reply(expected.clone()));
    assert!(expected.contains("**Codeblock 1: No style issues here!**\n**Codeblock 2: No style issues here!**\n"));
    assert!(!expected.contains("```"));
}

#[test]
fn message_without_python_block_gets_no_reply() {
    let session = session_for("```js\nlet x;\n```");
    assert_eq!(session.next_action(), Action::Stop);
}

#[test]
fn checker_that_does_not_start_ends_the_handling() {
    let session = session_for("```py\na\n```\n```py\nb\n```");
    let session = session.record(Outcome::Failed(Stage::Spawn));
    assert_eq!(session.next_action(), Action::Stop);
    assert_eq!(session.failure(), Some(Stage::Spawn));
    assert_eq!(session.failure().unwrap().describe(), "running command");
}

#[test]
fn failure_at_a_later_block_discards_earlier_results() {
    let session = session_for("```py\na\n```\n```py\nb\n```");
    let session = session.record(Outcome::Output(b"E1".to_vec()));
    assert_eq!(session.next_action(), Action::Check("b\n".to_string()));
    let session = session.record(Outcome::Failed(Stage::WriteInput));
    assert_eq!(session.next_action(), Action::Stop);
    assert_eq!(session.failure(), Some(Stage::WriteInput));
}

#[test]
fn nothing_is_taken_in_after_a_failure() {
    let session = session_for("```py\na\n```");
    let session = session.record(Outcome::Failed(Stage::CollectOutput));
    let session = session.record(Outcome::Output(Vec::new()));
    assert_eq!(session.next_action(), Action::Stop);
    assert_eq!(session.failure(), Some(Stage::CollectOutput));
    let session = session.record(Outcome::Failed(Stage::Spawn));
    assert_eq!(session.failure(), Some(Stage::CollectOutput));
}

#[test]
fn nothing_is_taken_in_when_all_is_checked() {
    let session = session_for("```py\na\n```");
    let session = session.record(Outcome::Output(Vec::new()));
    let reply = session.next_action();
    let session = session.record(Outcome::Output(b"late".to_vec()));
    assert_eq!(session.next_action(), reply);
    let session = session.record(Outcome::Failed(Stage::Spawn));
    assert_eq!(session.next_action(), reply);
    assert_eq!(session.failure(), None);
}

#[test]
fn results_stay_with_their_blocks() {
    let session = session_for("```py\na\n```\n```py\nb\n```\n```py\nc\n```");
    let session = session.record(Outcome::Output(b"first".to_vec()));
    let session = session.record(Outcome::Output(Vec::new()));
    let session = session.record(Outcome::Output(b"third".to_vec()));
    let expected = build_reply(
        "alice",
        &vec![
            CheckResult::Issues("first".to_string()),
            CheckResult::Clean,
            CheckResult::Issues("third".to_string()),
        ],
    );
    assert_eq!(session.next_action(), Action::Reply(expected));
}

#[test]
fn invalid_output_is_replaced_in_the_reply() {
    let session = session_for("```py\na\n```");
    let session = session.record(Outcome::Output(vec![0x66, 0xff]));
    let expected = build_reply("alice", &vec![CheckResult::Issues("f\u{fffd}".to_string())]);
    assert_eq!(session.next_action(), Action::Reply(expected));
}

#[test]
fn own_message_gets_no_reply() {
    let session = Session::begin("bot".to_string(), blocks_for(Some(1), 1, "```py\na\n```"));
    assert_eq!(session.next_action(), Action::Stop);
}

#[test]
fn asking_again_changes_nothing() {
    let session = session_for("```py\na\n```");
    assert_eq!(session.next_action(), session.next_action());
    assert_eq!(session.next_action(), Action::Check("a\n".to_string()));
}

#[test]
fn every_stage_has_its_words() {
    assert_eq!(Stage::Spawn.describe(), "running command");
    assert_eq!(Stage::OpenInput.describe(), "opening stdin of command");
    assert_eq!(Stage::WriteInput.describe(), "writing to stdin of command");
    assert_eq!(Stage::CollectOutput.describe(), "reading output of command");
    assert_eq!(Stage::SendReply.describe(), "sending message");
}
