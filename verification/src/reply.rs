//! The reply to a message: a greeting that says how many Python code blocks
//! were found, then one section for each block with what the checker found.
//!
//! All text is put into the reply through serenity's `MessageBuilder`, which
//! takes the force out of what could be read as markup.

use crate::check::{findings, CheckResult, Finding};
use crate::text::{decimal_of, push_decimal};
use serenity::utils::MessageBuilder;
use vstd::prelude::*;
use vstd::string::StringExecFns;

verus! {

/// What `MessageBuilder::push_safe` appends for `content`.
pub uninterp spec fn safe_markup(content: Seq<char>) -> Seq<char>;

/// What `MessageBuilder::push_line_safe` appends for `content`.
pub uninterp spec fn line_safe_markup(content: Seq<char>) -> Seq<char>;

/// What `MessageBuilder::push_bold_safe` appends for `content`.
pub uninterp spec fn bold_safe_markup(content: Seq<char>) -> Seq<char>;

/// What `MessageBuilder::push_bold_line_safe` appends for `content`.
pub uninterp spec fn bold_line_safe_markup(content: Seq<char>) -> Seq<char>;

/// What `MessageBuilder::push_codeblock_safe` appends for `content` where no
/// language is given.
pub uninterp spec fn codeblock_safe_markup(content: Seq<char>) -> Seq<char>;

/// `MessageBuilder::push_safe` of serenity on an empty builder, and the text
/// built. The method appends to the builder a text that depends on `content`
/// alone: `content` with invitation links, direction marks and mentions of
/// everybody changed, and with `*`, `` ` `` and `_` escaped.
#[verifier::external_body]
fn safe(content: &str) -> (markup: String)
    ensures
        markup@ == safe_markup(content@),
{
    MessageBuilder::new().push_safe(content).build()
}

/// `MessageBuilder::push_line_safe` of serenity on an empty builder, and the
/// text built. The method appends a text that depends on `content` alone:
/// what `push_safe` appends, and a line feed.
#[verifier::external_body]
fn line_safe(content: &str) -> (markup: String)
    ensures
        markup@ == line_safe_markup(content@),
{
    MessageBuilder::new().push_line_safe(content).build()
}

/// `MessageBuilder::push_bold_safe` of serenity on an empty builder, and the
/// text built. The method appends a text that depends on `content` alone:
/// `content`, changed so that it cannot end the bold text early, between two
/// pairs of asterisks.
#[verifier::external_body]
fn bold_safe(content: &str) -> (markup: String)
    ensures
        markup@ == bold_safe_markup(content@),
{
    MessageBuilder::new().push_bold_safe(content).build()
}

/// `MessageBuilder::push_bold_line_safe` of serenity on an empty builder, and
/// the text built. The method appends a text that depends on `content` alone:
/// what `push_bold_safe` appends, and a line feed.
#[verifier::external_body]
fn bold_line_safe(content: &str) -> (markup: String)
    ensures
        markup@ == bold_line_safe_markup(content@),
{
    MessageBuilder::new().push_bold_line_safe(content).build()
}

/// `MessageBuilder::push_codeblock_safe` of serenity, without a language, on
/// an empty builder, and the text built. The method appends a text that
/// depends on `content` alone: `content`, changed so that it cannot end the
/// block early, between two fences.
#[verifier::external_body]
fn codeblock_safe(content: &str) -> (markup: String)
    ensures
        markup@ == codeblock_safe_markup(content@),
{
    MessageBuilder::new().push_codeblock_safe(content, None).build()
}

/// The sentence of the greeting that says how many blocks were found.
pub open spec fn count_sentence(count: nat) -> Seq<char> {
    if count == 1 {
        "! You posted a message with 1 Python code block."@
    } else {
        "! You posted a message with "@ + decimal_of(count) + " Python code blocks."@
    }
}

/// The greeting for the author `name` of a message with `count` blocks.
pub open spec fn greeting(name: Seq<char>, count: nat) -> Seq<char> {
    safe_markup("Hi, "@) + bold_safe_markup(name) + safe_markup(count_sentence(count))
        + line_safe_markup(" Let's check your code for PEP8 style issues!"@)
}

/// The heading of the section of block `ordinal`, counted from zero, where
/// something was found.
pub open spec fn issues_heading(ordinal: nat) -> Seq<char> {
    "Codeblock "@ + decimal_of(ordinal + 1) + ":"@
}

/// The section of block `ordinal`, counted from zero, where nothing was found.
pub open spec fn clean_line(ordinal: nat) -> Seq<char> {
    "Codeblock "@ + decimal_of(ordinal + 1) + ": No style issues here!"@
}

/// The section of block `ordinal`, counted from zero, for which the check
/// found `finding`.
pub open spec fn section(ordinal: nat, finding: Finding) -> Seq<char> {
    match finding {
        Finding::Clean => bold_line_safe_markup(clean_line(ordinal)),
        Finding::Issues(output) => bold_line_safe_markup(issues_heading(ordinal))
            + codeblock_safe_markup(output),
    }
}

/// The sections of the first `count` blocks, in order.
pub open spec fn sections(found: Seq<Finding>, count: nat) -> Seq<char>
    decreases count,
{
    if count == 0 {
        Seq::empty()
    } else {
        sections(found, (count - 1) as nat) + section((count - 1) as nat, found[count - 1])
    }
}

/// The reply to the author `name` of a message whose blocks gave `found`.
pub open spec fn reply_text(name: Seq<char>, found: Seq<Finding>) -> Seq<char> {
    greeting(name, found.len()) + sections(found, found.len())
}

/// The greeting for the author `name` of a message with `count` blocks.
pub fn build_greeting(name: &str, count: usize) -> (text: String)
    ensures
        text@ == greeting(name@, count as nat),
{
    let mut sentence = String::from_str("! You posted a message with ");
    if count == 1 {
        sentence = String::from_str("! You posted a message with 1 Python code block.");
    } else {
        push_decimal(&mut sentence, count);
        sentence.append(" Python code blocks.");
    }
    let mut text = safe("Hi, ");
    text.append(bold_safe(name).as_str());
    text.append(safe(sentence.as_str()).as_str());
    text.append(line_safe(" Let's check your code for PEP8 style issues!").as_str());
    text
}

/// The section of block `ordinal`, counted from zero, for which the check
/// gave `result`.
pub fn build_section(ordinal: usize, result: &CheckResult) -> (text: String)
    requires
        ordinal < usize::MAX,
    ensures
        text@ == section(ordinal as nat, result@),
{
    let mut heading = String::from_str("Codeblock ");
    push_decimal(&mut heading, ordinal + 1);
    match result {
        CheckResult::Clean => {
            heading.append(": No style issues here!");
            bold_line_safe(heading.as_str())
        },
        CheckResult::Issues(output) => {
            heading.append(":");
            let mut text = bold_line_safe(heading.as_str());
            text.append(codeblock_safe(output.as_str()).as_str());
            text
        },
    }
}

/// The reply to the author `name` of a message whose blocks gave `results`,
/// one result for each block, in the order of the blocks.
pub fn build_reply(name: &str, results: &Vec<CheckResult>) -> (text: String)
    ensures
        text@ == reply_text(name@, findings(results@)),
{
    let ghost found = findings(results@);
    let mut text = build_greeting(name, results.len());
    let mut i: usize = 0;
    while i < results.len()
        invariant
            i <= results.len(),
            found == findings(results@),
            text@ == greeting(name@, found.len()) + sections(found, i as nat),
        decreases results.len() - i,
    {
        let part = build_section(i, &results[i]);
        text.append(part.as_str());
        assert(found[i as int] == results[i as int]@);
        i = i + 1;
        assert(text@ =~= greeting(name@, found.len()) + sections(found, i as nat));
    }
    text
}

} // verus!
