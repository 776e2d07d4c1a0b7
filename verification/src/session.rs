//! The handling of one message, step by step.
//!
//! The blocks of a message are checked one after the other, in the order of
//! the message. A `Session` says what is to be done next and takes in what
//! came of it; whoever drives it runs the checker and sends the reply. The
//! first failure ends the handling: nothing is sent then.

use crate::check::{findings, finding_of, lossy_text, CheckResult, Finding};
use crate::extract::{extract_blocks, extracted, fence_tag, is_python_tag};
use crate::reply::{build_reply, reply_text};
use crate::structure::{lemma_nothing_to_extract, opens_block};
use crate::text::{lines_of, texts};
use vstd::prelude::*;
use vstd::string::StringExecFns;

verus! {

/// A step of the handling that can fail.
#[derive(Clone, Copy, Debug, PartialEq, Eq, Structural)]
pub enum Stage {
    /// Starting the checker.
    Spawn,
    /// Getting hold of the standard input of the checker.
    OpenInput,
    /// Writing the code to the checker.
    WriteInput,
    /// Waiting for the checker and reading what it wrote.
    CollectOutput,
    /// Sending the reply.
    SendReply,
}

impl Stage {
    /// The words that name this step in a diagnostic.
    pub open spec fn words(self) -> Seq<char> {
        match self {
            Stage::Spawn => "running command"@,
            Stage::OpenInput => "opening stdin of command"@,
            Stage::WriteInput => "writing to stdin of command"@,
            Stage::CollectOutput => "reading output of command"@,
            Stage::SendReply => "sending message"@,
        }
    }

    /// The words that name this step in a diagnostic.
    pub fn describe(&self) -> (words: String)
        ensures
            words@ == self.words(),
    {
        match self {
            Stage::Spawn => String::from_str("running command"),
            Stage::OpenInput => String::from_str("opening stdin of command"),
            Stage::WriteInput => String::from_str("writing to stdin of command"),
            Stage::CollectOutput => String::from_str("reading output of command"),
            Stage::SendReply => String::from_str("sending message"),
        }
    }
}

/// What came of running the checker on one block.
#[derive(Clone, Debug, PartialEq, Eq)]
pub enum Outcome {
    /// The checker ran and wrote these bytes to its standard output.
    Output(Vec<u8>),
    /// This step failed.
    Failed(Stage),
}

/// What is to be done next for a message.
#[derive(Clone, Debug, PartialEq, Eq)]
pub enum Action {
    /// Run the checker on this code.
    Check(String),
    /// Send this reply. The handling is over.
    Reply(String),
    /// Do nothing. The handling is over.
    Stop,
}

/// What is to be done next for a message, as a mathematical value.
pub enum Move {
    /// Run the checker on this code.
    Check(Seq<char>),
    /// Send this reply.
    Reply(Seq<char>),
    /// Do nothing.
    Stop,
}

impl View for Action {
    type V = Move;

    open spec fn view(&self) -> Move {
        match self {
            Action::Check(code) => Move::Check(code@),
            Action::Reply(text) => Move::Reply(text@),
            Action::Stop => Move::Stop,
        }
    }
}

/// The state of the handling of one message, as a mathematical value.
pub struct Progress {
    /// The name by which the author of the message is addressed.
    pub author: Seq<char>,
    /// The contents of the Python blocks of the message.
    pub blocks: Seq<Seq<char>>,
    /// What the checks made so far found, in the order of the blocks.
    pub found: Seq<Finding>,
    /// The step that failed, if one did.
    pub failed: Option<Stage>,
}

impl Progress {
    /// Whether a check is to be made next.
    pub open spec fn checking(self) -> bool {
        self.failed is None && self.found.len() < self.blocks.len()
    }

    /// What is to be done next: nothing after a failure or where there is no
    /// block; else the check of the first block that has not been checked;
    /// else, with one finding for every block, the reply.
    pub open spec fn next(self) -> Move {
        if self.failed is Some || self.blocks.len() == 0 {
            Move::Stop
        } else if self.found.len() < self.blocks.len() {
            Move::Check(self.blocks[self.found.len() as int])
        } else {
            Move::Reply(reply_text(self.author, self.found))
        }
    }

    /// Whether there is at most one finding for each block.
    pub open spec fn in_step(self) -> bool {
        self.found.len() <= self.blocks.len()
    }

    /// The state after a check that found `finding`.
    pub open spec fn with_finding(self, finding: Finding) -> Progress {
        Progress { found: self.found.push(finding), ..self }
    }

    /// The state after the failure of `stage`.
    pub open spec fn with_failure(self, stage: Stage) -> Progress {
        Progress { failed: Some(stage), ..self }
    }
}

/// A reply is sent only for a message with blocks, when there is one finding
/// for each of them, in their order, and nothing has failed. The reply is
/// then the one that `build_reply` makes of the findings.
pub proof fn lemma_reply_is_complete(progress: Progress)
    requires
        progress.in_step(),
        progress.next() is Reply,
    ensures
        progress.failed is None,
        progress.blocks.len() > 0,
        progress.found.len() == progress.blocks.len(),
        progress.next() == Move::Reply(reply_text(progress.author, progress.found)),
{
}

/// After a failure nothing is checked and nothing is sent, whatever was found
/// before.
pub proof fn lemma_failure_ends_all(progress: Progress, stage: Stage)
    ensures
        !progress.with_failure(stage).checking(),
        progress.with_failure(stage).next() == Move::Stop,
{
}

/// A check that gives output brings the handling one block further: the next
/// check, if one is left, is that of the block after the one just checked.
pub proof fn lemma_checks_in_order(progress: Progress, finding: Finding)
    requires
        progress.checking(),
    ensures
        progress.next() == Move::Check(progress.blocks[progress.found.len() as int]),
        progress.with_finding(finding).in_step(),
        progress.with_finding(finding).found.len() == progress.found.len() + 1,
        progress.with_finding(finding).found[progress.found.len() as int] == finding,
        progress.with_finding(finding).checking() ==> progress.with_finding(finding).next()
            == Move::Check(progress.blocks[progress.found.len() as int + 1]),
{
}

/// The blocks that are to be checked for a message with the text `text` that
/// `author` wrote, where `own` is the bot's own account once it is known:
/// those of the message, but none for a message of the bot's own.
pub open spec fn blocks_to_check(own: Option<u64>, author: u64, text: Seq<char>) -> Seq<Seq<char>> {
    if own == Some(author) {
        Seq::empty()
    } else {
        extracted(text)
    }
}

/// For a message none of whose blocks is a Python block, and for one without
/// a fence, no check is asked for and no reply is made.
pub proof fn lemma_nothing_found_nothing_done(
    own: Option<u64>,
    author: u64,
    name: Seq<char>,
    text: Seq<char>,
)
    requires
        forall|i: int| #[trigger]
            opens_block(lines_of(text), i) ==> !is_python_tag(fence_tag(lines_of(text)[i])),
    ensures
        blocks_to_check(own, author, text).len() == 0,
        (Progress {
            author: name,
            blocks: blocks_to_check(own, author, text),
            found: Seq::empty(),
            failed: None,
        }).next() == Move::Stop,
{
    lemma_nothing_to_extract(text);
}

/// The contents of the blocks that are to be checked for a message.
pub fn blocks_for(own: Option<u64>, author: u64, text: &str) -> (blocks: Vec<String>)
    ensures
        texts(blocks@) == blocks_to_check(own, author, text@),
{
    let ours = match own {
        Some(id) => id == author,
        None => false,
    };
    if ours {
        let blocks: Vec<String> = Vec::new();
        assert(texts(blocks@) =~= Seq::<Seq<char>>::empty());
        blocks
    } else {
        extract_blocks(text)
    }
}

/// The handling of one message.
pub struct Session {
    author: String,
    blocks: Vec<String>,
    results: Vec<CheckResult>,
    failed: Option<Stage>,
}

impl View for Session {
    type V = Progress;

    closed spec fn view(&self) -> Progress {
        Progress {
            author: self.author@,
            blocks: texts(self.blocks@),
            found: findings(self.results@),
            failed: self.failed,
        }
    }
}

impl Session {
    #[verifier::type_invariant]
    spec fn results_in_step(self) -> bool {
        self.results.len() <= self.blocks.len()
    }

    /// The handling of a message with the blocks `blocks`, whose author is
    /// addressed as `author`: nothing is checked yet.
    pub fn begin(author: String, blocks: Vec<String>) -> (session: Session)
        ensures
            session@ == (Progress {
                author: author@,
                blocks: texts(blocks@),
                found: Seq::empty(),
                failed: None,
            }),
    {
        let session = Session { author, blocks, results: Vec::new(), failed: None };
        assert(findings(session.results@) =~= Seq::<Finding>::empty());
        session
    }

    /// What is to be done next.
    pub fn next_action(&self) -> (action: Action)
        ensures
            self@.in_step(),
            action@ == self@.next(),
    {
        proof {
            use_type_invariant(self);
        }
        if self.failed.is_some() || self.blocks.len() == 0 {
            Action::Stop
        } else if self.results.len() < self.blocks.len() {
            Action::Check(self.blocks[self.results.len()].clone())
        } else {
            Action::Reply(build_reply(self.author.as_str(), &self.results))
        }
    }

    /// Takes in what came of the check that `next_action` asked for: the
    /// finding for the output, or the failure. Where no check is to be made,
    /// nothing changes.
    pub fn record(self, outcome: Outcome) -> (after: Session)
        ensures
            !self@.checking() ==> after@ == self@,
            self@.checking() ==> after@ == (match outcome {
                Outcome::Output(bytes) => self@.with_finding(finding_of(lossy_text(bytes@))),
                Outcome::Failed(stage) => self@.with_failure(stage),
            }),
    {
        proof {
            use_type_invariant(&self);
        }
        if self.failed.is_none() && self.results.len() < self.blocks.len() {
            let Session { author, blocks, results, failed } = self;
            match outcome {
                Outcome::Output(bytes) => {
                    let result = CheckResult::of_output(bytes.as_slice());
                    let ghost before = findings(results@);
                    let mut results = results;
                    results.push(result);
                    assert(findings(results@) =~= before.push(result@));
                    Session { author, blocks, results, failed }
                },
                Outcome::Failed(stage) => Session { author, blocks, results, failed: Some(stage) },
            }
        } else {
            self
        }
    }

    /// The step that failed, if one did.
    pub fn failure(&self) -> (failed: Option<Stage>)
        ensures
            failed == self@.failed,
    {
        self.failed
    }
}

} // verus!
