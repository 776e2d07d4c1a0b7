use codeblock_lint::check::CheckResult;
use codeblock_lint::reply::{build_greeting, build_reply, build_section};

const DIAGNOSTIC: &str = "block:1:2: E225 missing whitespace around operator";

#[test]
fn reply_for_one_block_with_issues() {
    let results = vec![CheckResult::Issues(DIAGNOSTIC.to_string())];
    let reply = build_reply("alice", &results);
    assert_eq!(
        reply,
        "Hi, **alice**! You posted a message with 1 Python code block. \
         Let's check your code for PEP8 style issues!\n\
         **Codeblock 1:**\n\
         ```\nblock:1:2: E225 missing whitespace around operator\n```"
    );
    assert!(reply.contains("1 Python code block."));
    assert!(reply.contains("Codeblock 1:"));
}

#[test]
fn reply_for_two_clean_blocks() {
    let results = vec![CheckResult::Clean, CheckResult::Clean];
    let reply = build_reply("bob", &results);
    assert_eq!(
        reply,
        "Hi, **bob**! You posted a message with 2 Python code blocks. \
         Let's check your code for PEP8 style issues!\n\
         **Codeblock 1: No style issues here!**\n\
         **Codeblock 2: No style issues here!**\n"
    );
    assert!(!reply.contains("```"));
}

#[test]
fn sections_follow_the_order_of_the_results() {
    let results = vec![
        CheckResult::Issues("one".to_string()),
        CheckResult::Clean,
        CheckResult::Issues("three".to_string()),
    ];
    let reply = build_reply("carol", &results);
    assert_eq!(
        reply,
        "Hi, **carol**! You posted a message with 3 Python code blocks. \
         Let's check your code for PEP8 style issues!\n\
         **Codeblock 1:**\n```\none\n```\
         **Codeblock 2: No style issues here!**\n\
         **Codeblock 3:**\n```\nthree\n```"
    );
}

#[test]
fn greeting_counts_in_singular_and_plural() {
    assert_eq!(
        build_greeting("dan", 1),
        "Hi, **dan**! You posted a message with 1 Python code block. Let's check your code for PEP8 style issues!\n"
    );
    assert_eq!(
        build_greeting("dan", 0),
        "Hi, **dan**! You posted a message with 0 Python code blocks. Let's check your code for PEP8 style issues!\n"
    );
    assert_eq!(
        build_greeting("dan", 12),
        "Hi, **dan**! You posted a message with 12 Python code blocks. Let's check your code for PEP8 style issues!\n"
    );
    assert_eq!(
        build_greeting("dan", 1000),
        "Hi, **dan**! You posted a message with 1000 Python code blocks. Let's check your code for PEP8 style issues!\n"
    );
}

#[test]
fn sections_are_numbered_from_one() {
    assert_eq!(build_section(0, &CheckResult::Clean), "**Codeblock 1: No style issues here!**\n");
    assert_eq!(build_section(8, &CheckResult::Clean), "**Codeblock 9: No style issues here!**\n");
    assert_eq!(build_section(9, &CheckResult::Clean), "**Codeblock 10: No style issues here!**\n");
    assert_eq!(build_section(108, &CheckResult::Issues("x".to_string())), "**Codeblock 109:**\n```\nx\n```");
}

#[test]
fn markup_in_the_name_cannot_end_the_bold_text() {
    assert_eq!(
        build_greeting("a**b", 1),
        "Hi, **a b**! You posted a message with 1 Python code block. Let's check your code for PEP8 style issues!\n"
    );
}

#[test]
fn mentions_in_the_name_are_defused() {
    assert_eq!(
        build_greeting("@everyone", 1),
        "Hi, **@\u{200b}everyone**! You posted a message with 1 Python code block. Let's check your code for PEP8 style issues!\n"
    );
}

#[test]
fn fences_in_the_output_cannot_end_the_block() {
    assert_eq!(
        build_section(0, &CheckResult::Issues("a```b".to_string())),
        "**Codeblock 1:**\n```\na b\n```"
    );
}

#[test]
fn output_keeps_its_line_feeds() {
    assert_eq!(
        build_section(1, &CheckResult::Issues("block:1:1: E1\nblock:2:1: E2\n".to_string())),
        "**Codeblock 2:**\n```\nblock:1:1: E1\nblock:2:1: E2\n\n```"
    );
}

#[test]
fn reply_without_results_is_the_greeting() {
    assert_eq!(build_reply("eve", &Vec::new()), build_greeting("eve", 0));
}
