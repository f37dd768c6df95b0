//! The commands of the service.

use crate::text::same;
use vstd::prelude::*;
use vstd::string::*;

verus! {

/// What the service is asked to do.
#[derive(Debug, Clone, Copy, PartialEq, Eq)]
pub enum Command {
    Authorize,
    ListLights,
    TestPulse,
    Watch,
    Help,
}

/// The command that a word names.
pub open spec fn command_of(word: Seq<char>) -> Option<Command> {
    if word == "authorize"@ {
        Some(Command::Authorize)
    } else if word == "list-lights"@ {
        Some(Command::ListLights)
    } else if word == "test-pulse"@ {
        Some(Command::TestPulse)
    } else if word == "watch"@ {
        Some(Command::Watch)
    } else if word == "help"@ || word == "--help"@ || word == "-h"@ {
        Some(Command::Help)
    } else {
        None
    }
}

/// What is told of a word that names no command.
pub open spec fn unknown_text(word: Seq<char>) -> Seq<char> {
    "unknown command: "@ + word
}

impl Command {
    /// The command that the first argument names. Without one the service
    /// watches.
    pub fn parse(word: Option<&str>) -> (command: Result<Command, String>)
        ensures
            match word {
                Some(word) => match command {
                    Ok(command) => command_of(word@) == Some(command),
                    Err(text) => command_of(word@) is None && text@ == "unknown command: "@ + word@ && text@
                        == unknown_text(word@),
                },
                None => command == (Ok::<Command, String>(Command::Watch)),
            },
    {
        let word = match word {
            Some(word) => word,
            None => return Ok(Command::Watch),
        };
        if same(word, "authorize") {
            Ok(Command::Authorize)
        } else if same(word, "list-lights") {
            Ok(Command::ListLights)
        } else if same(word, "test-pulse") {
            Ok(Command::TestPulse)
        } else if same(word, "watch") {
            Ok(Command::Watch)
        } else if same(word, "help") || same(word, "--help") || same(word, "-h") {
            Ok(Command::Help)
        } else {
            Err("unknown command: ".to_owned().concat(word))
        }
    }
}

/// Each command is named by its own word, which names no other, help is named by
/// three words, and no other word names a command.
pub proof fn a_command_is_named_by_its_word(word: Seq<char>)
    ensures
        command_of(word) == Some(Command::Authorize) <==> word == "authorize"@,
        command_of(word) == Some(Command::ListLights) <==> word == "list-lights"@,
        command_of(word) == Some(Command::TestPulse) <==> word == "test-pulse"@,
        command_of(word) == Some(Command::Watch) <==> word == "watch"@,
        command_of(word) == Some(Command::Help) <==> word == "help"@ || word == "--help"@ || word == "-h"@,
{
    reveal_strlit("authorize");
    reveal_strlit("list-lights");
    reveal_strlit("test-pulse");
    reveal_strlit("watch");
    reveal_strlit("help");
    reveal_strlit("--help");
    reveal_strlit("-h");
    assert("authorize"@.len() == 9 && "list-lights"@.len() == 11 && "test-pulse"@.len() == 10);
    assert("watch"@.len() == 5 && "help"@.len() == 4 && "--help"@.len() == 6 && "-h"@.len() == 2);
}

/// A word that names no command is told whole, behind the words that say so.
pub proof fn an_unknown_word_is_told_whole(word: Seq<char>)
    ensures
        unknown_text(word).len() == 17 + word.len(),
        unknown_text(word).subrange(0, 17) == "unknown command: "@,
        unknown_text(word).subrange(17, 17 + word.len() as int) == word,
{
    reveal_strlit("unknown command: ");
    assert(unknown_text(word).subrange(0, 17) =~= "unknown command: "@);
    assert(unknown_text(word).subrange(17, 17 + word.len() as int) =~= word);
}

} // verus!
