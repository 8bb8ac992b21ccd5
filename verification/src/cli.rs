//! The command line: which operations the arguments ask for.
//!
//! Each argument names one operation. The whole list is read before anything
//! is done, so that one unknown word stops the run with no operation applied.

use vstd::prelude::*;

verus! {

/// The operations that one run applies, each asked for or not.
#[derive(Debug, Clone, Copy, PartialEq, Eq, Structural)]
pub struct Operations {
    /// Insert or replace the section of IPv4 entries.
    pub update_v4: bool,
    /// Insert or replace the section of IPv6 entries.
    pub update_v6: bool,
    /// Delete the section of IPv4 entries.
    pub remove_v4: bool,
    /// Delete the section of IPv6 entries.
    pub remove_v6: bool,
}

/// What a run is to do.
#[derive(Debug, Clone, Copy, PartialEq, Eq, Structural)]
pub enum Command {
    /// No argument was given: show how the program is called.
    Usage,
    /// Apply these operations.
    Apply(Operations),
}

/// An argument that names no operation.
#[derive(Debug, PartialEq, Eq)]
pub struct InvalidArgument {
    /// The argument as it was given.
    pub token: String,
}

/// The word that asks for the IPv4 section to be inserted or replaced.
pub const UPDATE_V4: &'static str = "update-v4";

/// The word that asks for the IPv6 section to be inserted or replaced.
pub const UPDATE_V6: &'static str = "update-v6";

/// The word that asks for the IPv4 section to be deleted.
pub const REMOVE_V4: &'static str = "remove-v4";

/// The word that asks for the IPv6 section to be deleted.
pub const REMOVE_V6: &'static str = "remove-v6";

/// `token` is one of the four words that name an operation.
pub open spec fn is_operation(token: Seq<char>) -> bool {
    token == UPDATE_V4@ || token == UPDATE_V6@ || token == REMOVE_V4@ || token == REMOVE_V6@
}

/// The operations that `tokens` name: each one that some token asks for,
/// however often and in whatever order.
pub open spec fn requested(tokens: Seq<Seq<char>>) -> Operations {
    Operations {
        update_v4: tokens.contains(UPDATE_V4@),
        update_v6: tokens.contains(UPDATE_V6@),
        remove_v4: tokens.contains(REMOVE_V4@),
        remove_v6: tokens.contains(REMOVE_V6@),
    }
}

/// `i` is the position of the first token that names no operation.
pub open spec fn is_first_invalid(tokens: Seq<Seq<char>>, i: int) -> bool {
    &&& 0 <= i < tokens.len()
    &&& !is_operation(tokens[i])
    &&& forall|j: int| 0 <= j < i ==> is_operation(tokens[j])
}

/// The four operation words differ from one another.
pub proof fn lemma_words_distinct()
    ensures
        UPDATE_V4@ != UPDATE_V6@,
        UPDATE_V4@ != REMOVE_V4@,
        UPDATE_V4@ != REMOVE_V6@,
        UPDATE_V6@ != REMOVE_V4@,
        UPDATE_V6@ != REMOVE_V6@,
        REMOVE_V4@ != REMOVE_V6@,
{
    reveal_strlit("update-v4");
    reveal_strlit("update-v6");
    reveal_strlit("remove-v4");
    reveal_strlit("remove-v6");
    assert(UPDATE_V4@[0] == 'u' && UPDATE_V6@[0] == 'u');
    assert(REMOVE_V4@[0] == 'r' && REMOVE_V6@[0] == 'r');
    assert(UPDATE_V4@[8] == '4' && REMOVE_V4@[8] == '4');
    assert(UPDATE_V6@[8] == '6' && REMOVE_V6@[8] == '6');
}

/// Whether `token` reads exactly as `word`.
fn reads_as(token: &String, word: &str) -> (same: bool)
    ensures
        same == (token@ == word@),
{
    let wanted = word.to_owned();
    *token == wanted
}

/// Reads the arguments that follow the program's name.
///
/// With no argument the answer is `Command::Usage`. Otherwise every argument
/// must be one of the four operation words: the answer is then the set of
/// operations named, and the first argument that is none of them is returned
/// as the error.
pub fn parse_arguments(tokens: &[String]) -> (result: Result<Command, InvalidArgument>)
    ensures
        match result {
            Ok(Command::Usage) => tokens.deep_view().len() == 0,
            Ok(Command::Apply(operations)) => {
                &&& tokens.deep_view().len() > 0
                &&& forall|j: int| 0 <= j < tokens.deep_view().len() ==> is_operation(tokens.deep_view()[j])
                &&& operations == requested(tokens.deep_view())
            },
            Err(e) => exists|i: int|
                is_first_invalid(tokens.deep_view(), i) && e.token@ == tokens.deep_view()[i],
        },
{
    if tokens.len() == 0 {
        return Ok(Command::Usage);
    }
    let mut operations = Operations {
        update_v4: false,
        update_v6: false,
        remove_v4: false,
        remove_v6: false,
    };
    let mut i: usize = 0;
    while i < tokens.len()
        invariant
            i <= tokens.len(),
            forall|j: int| 0 <= j < i ==> is_operation(tokens.deep_view()[j]),
            operations == requested(tokens.deep_view().subrange(0, i as int)),
        decreases tokens.len() - i,
    {
        let ghost seen = tokens.deep_view().subrange(0, i as int);
        let ghost next = tokens.deep_view().subrange(0, i + 1);
        let token = &tokens[i];
        assert(next == seen.push(token@));
        assert(forall|word: Seq<char>| next.contains(word) <==> seen.contains(word) || word == token@) by {
            assert forall|word: Seq<char>| seen.contains(word) || word == token@ implies next.contains(word) by {
                if seen.contains(word) {
                    let k = choose|k: int| 0 <= k < seen.len() && seen[k] == word;
                    assert(next[k] == word);
                } else {
                    assert(next[i as int] == word);
                }
            }
        }
        proof {
            lemma_words_distinct();
        }
        if reads_as(token, UPDATE_V4) {
            operations.update_v4 = true;
        } else if reads_as(token, UPDATE_V6) {
            operations.update_v6 = true;
        } else if reads_as(token, REMOVE_V4) {
            operations.remove_v4 = true;
        } else if reads_as(token, REMOVE_V6) {
            operations.remove_v6 = true;
        } else {
            assert(is_first_invalid(tokens.deep_view(), i as int));
            return Err(InvalidArgument { token: token.clone() });
        }
        i += 1;
    }
    assert(tokens.deep_view().subrange(0, i as int) == tokens.deep_view());
    Ok(Command::Apply(operations))
}

} // verus!
