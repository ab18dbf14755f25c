//! The backend launch command: one configured string, tokenized shell-style
//! into the program to spawn and its argument list. The first word is the
//! program; an empty word list or a quoting error makes the spawn fail,
//! which is unrecoverable for the registry and must be surfaced.

use vstd::prelude::*;

verus! {

/// Why no program could be extracted from the configured command string.
#[derive(Debug, Clone, Copy, PartialEq, Eq, Structural)]
pub enum SpawnError {
    /// Tokenization produced no words at all.
    EmptyCommand,
    /// The command string holds a dangling quote or similar quoting fault.
    BadQuoting,
}

/// A tokenized launch command: the program and its arguments.
pub struct CommandLine {
    /// The program to spawn: the first word of the command string.
    pub program: String,
    /// The remaining words, in order.
    pub args: Vec<String>,
}

/// The words that shell-style tokenization yields for a command string.
pub uninterp spec fn shell_split_of(s: Seq<char>) -> Seq<Seq<char>>;

/// Whether shell-style tokenization of a command string succeeds. It fails
/// exactly on malformed quoting (an unclosed quote), a property of the
/// characters alone.
pub uninterp spec fn shell_split_ok(s: Seq<char>) -> bool;

/// Declares shell_words::ParseError, the error shell_words::split returns on
/// malformed quoting, so it can appear in the wrapper's signature.
#[verifier::external_type_specification]
#[verifier::external_body]
pub struct ExParseError(shell_words::ParseError);

/// Relies on shell_words::split: shell-style word splitting of the command
/// string, a function of the characters alone; it fails only on malformed
/// quoting.
#[verifier::external_body]
fn shell_split(command: &str) -> (r: Result<Vec<String>, shell_words::ParseError>)
    ensures
        r is Ok == shell_split_ok(command@),
        r matches Ok(parts) ==> parts.deep_view() == shell_split_of(command@),
{
    shell_words::split(command)
}

/// Splits tokenized command words into the program and its arguments: the
/// first word is the program, the rest are the arguments in order, and an
/// empty word list is rejected.
pub fn command_from_parts(parts: Vec<String>) -> (r: Result<CommandLine, SpawnError>)
    ensures
        r is Ok <==> parts@.len() > 0,
        r matches Ok(cl) ==> cl.program == parts@[0] && cl.args@ == parts@.skip(1),
        r is Err ==> r == Err::<CommandLine, SpawnError>(SpawnError::EmptyCommand),
{
    let mut parts = parts;
    if parts.len() == 0 {
        return Err(SpawnError::EmptyCommand);
    }
    let ghost orig = parts@;
    let program = parts.remove(0);
    proof {
        assert(orig.remove(0) =~= orig.skip(1));
    }
    Ok(CommandLine { program, args: parts })
}

/// Tokenizes the configured backend command shell-style. Succeeds exactly on
/// a well-quoted command with at least one word; then the program is the
/// first word and the arguments are the remaining words. A command that
/// tokenizes to no words is rejected as empty, and a quoting fault as such.
pub fn tokenize_command(command: &str) -> (r: Result<CommandLine, SpawnError>)
    ensures
        r is Ok <==> shell_split_ok(command@) && shell_split_of(command@).len() > 0,
        r matches Ok(cl) ==> cl.program@ == shell_split_of(command@)[0]
            && cl.args.deep_view() == shell_split_of(command@).skip(1),
        r == Err::<CommandLine, SpawnError>(SpawnError::EmptyCommand) <==> shell_split_ok(
            command@,
        ) && shell_split_of(command@).len() == 0,
        r == Err::<CommandLine, SpawnError>(SpawnError::BadQuoting) <==> !shell_split_ok(
            command@,
        ),
{
    match shell_split(command) {
        Ok(parts) => {
            let ghost words = shell_split_of(command@);
            proof {
                assert(parts@.len() == words.len());
            }
            let r = command_from_parts(parts);
            proof {
                if r is Ok {
                    let cl = r.unwrap();
                    assert(cl.program@ == parts.deep_view()[0]);
                    assert(cl.args.deep_view() =~= words.skip(1)) by {
                        assert forall|i: int| 0 <= i < cl.args@.len() implies cl.args.deep_view()[i]
                            == words.skip(1)[i] by {
                            assert(cl.args@[i] == parts@[i + 1]);
                            assert(parts.deep_view()[i + 1] == parts@[i + 1]@);
                        }
                    }
                }
            }
            r
        }
        Err(_) => Err(SpawnError::BadQuoting),
    }
}

} // verus!
