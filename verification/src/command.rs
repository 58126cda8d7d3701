//! From a selected entry to the argument vector that is launched.
//!
//! A desktop entry's command line is split into words as a shell would split
//! it, and the words that begin with `%` are dropped: they stand for files or
//! addresses that the launcher does not have. A custom mode's target command
//! has each `%` replaced by the selected text, and is split after that.

use vstd::prelude::*;
use vstd::string::StrSliceExecFns;
use vstd::string::StringExecFns;
use crate::text::texts;

verus! {

/// Why a selection could not be turned into a command.
#[derive(Clone, Copy, Debug, PartialEq, Eq, Structural)]
pub enum LaunchError {
    /// The view has no entry at the selected place.
    NothingSelected,
    /// The mode of the selection has no target command.
    NoTarget,
    /// The command line ends inside a quotation.
    UnclosedQuote,
    /// The command line holds no word to run.
    EmptyCommand,
}

/// The error of `shell_words::split`, `shell_words::ParseError`. It is
/// carried as it is; nothing is claimed of what it holds.
#[verifier::external_type_specification]
#[verifier::external_body]
pub struct ExParseError(shell_words::ParseError);

/// The words that `shell_words::split` makes of a command line: `None` where
/// it reports an error.
pub uninterp spec fn shell_split(line: Seq<char>) -> Option<Seq<Seq<char>>>;

/// Calls `shell_words::split`, which splits a command line into words by the
/// rules of a POSIX shell, quotes removed, and fails on a quotation that is
/// not closed. The contract names its result: the same line always gives the
/// same words or the same failure.
#[verifier::external_body]
fn split_words(line: &str) -> (r: Result<Vec<String>, shell_words::ParseError>)
    ensures
        match r {
            Ok(words) => shell_split(line@) == Some(texts(words@)),
            Err(_) => shell_split(line@) is None,
        },
{
    shell_words::split(line)
}

/// A word that stands for something to fill in: it begins with `%`.
pub open spec fn is_placeholder(word: Seq<char>) -> bool {
    word.len() > 0 && word[0] == '%'
}

/// The words that are no placeholders, in their order.
pub open spec fn without_placeholders(words: Seq<Seq<char>>) -> Seq<Seq<char>> {
    words.filter(|w: Seq<char>| !is_placeholder(w))
}

/// The template with each `%` replaced by `text`.
pub open spec fn substituted(template: Seq<char>, text: Seq<char>) -> Seq<char>
    decreases template.len(),
{
    if template.len() == 0 {
        Seq::empty()
    } else if template.last() == '%' {
        substituted(template.drop_last(), text) + text
    } else {
        substituted(template.drop_last(), text).push(template.last())
    }
}

/// What is launched for a desktop entry, given what the split made of its
/// command line: the words that are no placeholders.
pub open spec fn desktop_command(split: Option<Seq<Seq<char>>>) -> Result<
    Seq<Seq<char>>,
    LaunchError,
> {
    match split {
        None => Err(LaunchError::UnclosedQuote),
        Some(words) => if without_placeholders(words).len() == 0 {
            Err(LaunchError::EmptyCommand)
        } else {
            Ok(without_placeholders(words))
        },
    }
}

/// What is launched for a custom entry, given what the split made of its
/// filled-in target command: all the words.
pub open spec fn custom_command(split: Option<Seq<Seq<char>>>) -> Result<
    Seq<Seq<char>>,
    LaunchError,
> {
    match split {
        None => Err(LaunchError::UnclosedQuote),
        Some(words) => if words.len() == 0 {
            Err(LaunchError::EmptyCommand)
        } else {
            Ok(words)
        },
    }
}

/// The outcome of a command as characters.
pub open spec fn argv_view(r: Result<Vec<String>, LaunchError>) -> Result<
    Seq<Seq<char>>,
    LaunchError,
> {
    match r {
        Ok(argv) => Ok(texts(argv@)),
        Err(e) => Err(e),
    }
}

/// Whether a word begins with `%`.
pub fn starts_with_percent(word: &str) -> (r: bool)
    ensures
        r == is_placeholder(word@),
{
    if word.is_empty() {
        false
    } else {
        word.get_char(0) == '%'
    }
}

/// Drops the words that begin with `%` and keeps the others in their order.
pub fn strip_placeholders(words: Vec<String>) -> (kept: Vec<String>)
    ensures
        texts(kept@) == without_placeholders(texts(words@)),
{
    let ghost all = texts(words@);
    let ghost keep = |w: Seq<char>| !is_placeholder(w);
    let mut kept: Vec<String> = Vec::new();
    let mut i: usize = 0;
    proof {
        reveal(Seq::filter);
        assert(all.take(0).filter(keep) =~= Seq::<Seq<char>>::empty());
        assert(texts(kept@) =~= Seq::<Seq<char>>::empty());
    }
    while i < words.len()
        invariant
            i <= words.len(),
            all == texts(words@),
            keep == |w: Seq<char>| !is_placeholder(w),
            texts(kept@) == all.take(i as int).filter(keep),
        decreases words.len() - i,
    {
        let ghost before = texts(kept@);
        proof {
            reveal(Seq::filter);
            assert(all.take(i + 1).drop_last() =~= all.take(i as int));
            assert(all.take(i + 1).last() == words[i as int]@);
        }
        if !starts_with_percent(words[i].as_str()) {
            kept.push(words[i].clone());
            assert(texts(kept@) =~= before.push(words[i as int]@));
        }
        i = i + 1;
    }
    assert(all.take(words.len() as int) =~= all);
    kept
}

/// The argument vector of a desktop entry whose command line was split into
/// `words`: the words that are no placeholders. With no word left there is
/// nothing to run.
pub fn desktop_argv_from_words(words: Vec<String>) -> (r: Result<Vec<String>, LaunchError>)
    ensures
        argv_view(r) == desktop_command(Some(texts(words@))),
{
    let kept = strip_placeholders(words);
    if kept.len() == 0 {
        Err(LaunchError::EmptyCommand)
    } else {
        Ok(kept)
    }
}

/// The argument vector of a custom entry whose filled-in target command was
/// split into `words`: all of them. With no word there is nothing to run.
pub fn custom_argv_from_words(words: Vec<String>) -> (r: Result<Vec<String>, LaunchError>)
    ensures
        argv_view(r) == custom_command(Some(texts(words@))),
{
    if words.len() == 0 {
        Err(LaunchError::EmptyCommand)
    } else {
        Ok(words)
    }
}

/// The argument vector for a desktop entry's command line.
pub fn desktop_argv(exec_command: &str) -> (r: Result<Vec<String>, LaunchError>)
    ensures
        argv_view(r) == desktop_command(shell_split(exec_command@)),
{
    match split_words(exec_command) {
        Ok(words) => desktop_argv_from_words(words),
        Err(_) => Err(LaunchError::UnclosedQuote),
    }
}

/// Replaces each `%` of `template` by `text`.
pub fn substitute(template: &str, text: &str) -> (filled: String)
    ensures
        filled@ == substituted(template@, text@),
{
    let n = template.unicode_len();
    let mut filled = String::new();
    let mut i: usize = 0;
    assert(template@.take(0) =~= Seq::<char>::empty());
    while i < n
        invariant
            n == template@.len(),
            i <= n,
            filled@ == substituted(template@.take(i as int), text@),
        decreases n - i,
    {
        proof {
            assert(template@.take(i + 1).drop_last() =~= template@.take(i as int));
            assert(template@.take(i + 1).last() == template@[i as int]);
        }
        let ghost before = filled@;
        if template.get_char(i) == '%' {
            filled.append(text);
        } else {
            let piece = template.substring_char(i, i + 1);
            assert(piece@ =~= seq![template@[i as int]]);
            filled.append(piece);
            assert(filled@ =~= before.push(template@[i as int]));
        }
        i = i + 1;
    }
    assert(template@.take(n as int) =~= template@);
    filled
}

/// The argument vector for a custom entry: the mode's target command with
/// each `%` replaced by the entry's text, split into words.
pub fn custom_argv(target: &str, text: &str) -> (r: Result<Vec<String>, LaunchError>)
    ensures
        argv_view(r) == custom_command(shell_split(substituted(target@, text@))),
{
    let command = substitute(target, text);
    match split_words(command.as_str()) {
        Ok(words) => custom_argv_from_words(words),
        Err(_) => Err(LaunchError::UnclosedQuote),
    }
}

} // verus!
