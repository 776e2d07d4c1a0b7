//! The command that checks a code block, and what its output means.

use crate::text::texts;
use vstd::prelude::*;
use vstd::string::StringExecFns;
use vstd::utf8::{decode_utf8, valid_utf8};

verus! {

/// What a check of one code block found, as a mathematical value.
pub enum Finding {
    /// The checker printed nothing.
    Clean,
    /// The checker printed this text.
    Issues(Seq<char>),
}

/// What the output `output` of the checker means: nothing printed, nothing
/// found; anything else is the list of issues as it stands.
pub open spec fn finding_of(output: Seq<char>) -> Finding {
    if output.len() == 0 {
        Finding::Clean
    } else {
        Finding::Issues(output)
    }
}

/// What a check of one code block found.
#[derive(Clone, Debug, PartialEq, Eq)]
pub enum CheckResult {
    /// The checker printed nothing.
    Clean,
    /// The checker printed this text.
    Issues(String),
}

impl View for CheckResult {
    type V = Finding;

    open spec fn view(&self) -> Finding {
        match self {
            CheckResult::Clean => Finding::Clean,
            CheckResult::Issues(text) => Finding::Issues(text@),
        }
    }
}

/// The text that `String::from_utf8_lossy` makes of `bytes`.
pub uninterp spec fn lossy_text(bytes: Seq<u8>) -> Seq<char>;

/// `String::from_utf8_lossy` of the standard library, with the result as an
/// owned string. The text depends on the bytes alone. Bytes that are valid
/// UTF-8 are decoded as they stand; what it does with other bytes (it puts
/// U+FFFD in place of each invalid sequence) is not stated here.
#[verifier::external_body]
fn decode_lossy(bytes: &[u8]) -> (text: String)
    ensures
        text@ == lossy_text(bytes@),
        valid_utf8(bytes@) ==> text@ == decode_utf8(bytes@),
{
    String::from_utf8_lossy(bytes).into_owned()
}

impl CheckResult {
    /// The result for a checker that printed `output`.
    pub fn of_text(output: String) -> (result: CheckResult)
        ensures
            result@ == finding_of(output@),
    {
        if output.as_str().unicode_len() == 0 {
            CheckResult::Clean
        } else {
            CheckResult::Issues(output)
        }
    }

    /// The result for a checker that wrote the bytes `stdout` to its standard
    /// output. A checker that wrote nothing found nothing; one that wrote a
    /// text in UTF-8 that is not empty found issues, which are that text.
    pub fn of_output(stdout: &[u8]) -> (result: CheckResult)
        ensures
            result@ == finding_of(lossy_text(stdout@)),
            stdout@.len() == 0 ==> result@ == Finding::Clean,
            stdout@.len() > 0 && valid_utf8(stdout@) ==> result@ == Finding::Issues(
                decode_utf8(stdout@),
            ),
    {
        CheckResult::of_text(decode_lossy(stdout))
    }

    /// Whether nothing was found.
    pub fn is_clean(&self) -> (clean: bool)
        ensures
            clean == (self@ == Finding::Clean),
    {
        match self {
            CheckResult::Clean => true,
            CheckResult::Issues(_) => false,
        }
    }
}

/// The findings of `results`, in order.
pub open spec fn findings(results: Seq<CheckResult>) -> Seq<Finding> {
    Seq::new(results.len(), |i: int| results[i]@)
}

/// The words of the command that is used where none is configured: `flake8`,
/// told to read the code from its standard input and to call it `block`.
pub open spec fn default_words() -> Seq<Seq<char>> {
    seq!["flake8"@, "--stdin-display-name"@, "block"@, "-"@]
}

/// The command that is used where none is configured.
pub fn default_cmd() -> (words: Vec<String>)
    ensures
        texts(words@) == default_words(),
{
    let mut words: Vec<String> = Vec::new();
    words.push(String::from_str("flake8"));
    words.push(String::from_str("--stdin-display-name"));
    words.push(String::from_str("block"));
    words.push(String::from_str("-"));
    assert(texts(words@) =~= default_words());
    words
}

/// The command that checks a code block: the program to run, then its
/// arguments. It reads the code from its standard input and writes what it
/// finds to its standard output.
pub struct CheckerCommand {
    words: Vec<String>,
}

impl CheckerCommand {
    #[verifier::type_invariant]
    spec fn names_program(self) -> bool {
        self.words.len() >= 1
    }

    /// The program and its arguments.
    pub closed spec fn words(&self) -> Seq<Seq<char>> {
        texts(self.words@)
    }

    /// The command made of `words`, unless they are none: a command names at
    /// least its program.
    pub fn new(words: Vec<String>) -> (command: Option<CheckerCommand>)
        ensures
            command is None <==> words.len() == 0,
            command is Some ==> command->0.words() == texts(words@),
    {
        if words.len() == 0 {
            None
        } else {
            Some(CheckerCommand { words })
        }
    }

    /// The command that is used where none is configured.
    pub fn standard() -> (command: CheckerCommand)
        ensures
            command.words() == default_words(),
    {
        let words = default_cmd();
        assert(texts(words@).len() == 4);
        CheckerCommand { words }
    }

    /// The program to run.
    pub fn program(&self) -> (program: &str)
        ensures
            self.words().len() >= 1,
            program@ == self.words()[0],
    {
        proof {
            use_type_invariant(self);
        }
        self.words[0].as_str()
    }

    /// The arguments to run the program with.
    pub fn arguments(&self) -> (arguments: Vec<String>)
        ensures
            self.words().len() >= 1,
            texts(arguments@) == self.words().skip(1),
    {
        proof {
            use_type_invariant(self);
        }
        let mut arguments: Vec<String> = Vec::new();
        let mut i: usize = 1;
        while i < self.words.len()
            invariant
                1 <= i <= self.words.len(),
                texts(arguments@) == texts(self.words@).subrange(1, i as int),
            decreases self.words.len() - i,
        {
            let word = self.words[i].clone();
            assert(word@ == self.words[i as int]@);
            let ghost before = texts(arguments@);
            arguments.push(word);
            assert(texts(arguments@) =~= before.push(word@));
            i = i + 1;
            assert(texts(arguments@) =~= texts(self.words@).subrange(1, i as int));
        }
        assert(texts(self.words@).subrange(1, i as int) =~= self.words().skip(1));
        arguments
    }
}

} // verus!
