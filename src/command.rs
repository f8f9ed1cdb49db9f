//! The two executable commands and their stable identifiers.

use vstd::prelude::*;
use crate::path::{path_below, relativize};
use crate::text::same_text;

verus! {

/// A command that the editor may ask the server to execute on a file.
#[derive(Clone, Copy, Debug, PartialEq, Eq, Structural)]
pub enum Command {
    /// Add the file's working-tree state to the index.
    StageFile,
    /// Remove the file from the index.
    UnstageFile,
}

/// An identifier that names no command.
#[derive(Clone, Copy, Debug, PartialEq, Eq, Structural)]
pub struct UnknownCommand;

pub const STAGE_FILE_COMMAND: &'static str = "stage_file";

pub const UNSTAGE_FILE_COMMAND: &'static str = "unstage_file";

/// The identifier of `c`.
pub open spec fn identifier(c: Command) -> Seq<char> {
    match c {
        Command::StageFile => STAGE_FILE_COMMAND@,
        Command::UnstageFile => UNSTAGE_FILE_COMMAND@,
    }
}

impl Command {
    /// The command whose identifier is `str`.
    pub fn from_str(str: &str) -> (r: Result<Command, UnknownCommand>)
        ensures
            match parses_to(str@) {
                Some(c) => r == Ok::<Command, UnknownCommand>(c),
                None => r == Err::<Command, UnknownCommand>(UnknownCommand),
            },
            str@ == identifier(Command::StageFile) <==> r == Ok::<Command, UnknownCommand>(
                Command::StageFile,
            ),
            str@ == identifier(Command::UnstageFile) <==> r == Ok::<Command, UnknownCommand>(
                Command::UnstageFile,
            ),
            r is Err <==> (str@ != identifier(Command::StageFile) && str@ != identifier(
                Command::UnstageFile,
            )),
    {
        proof {
            lemma_identifiers_differ();
        }
        if same_text(STAGE_FILE_COMMAND, str) {
            Ok(Command::StageFile)
        } else if same_text(UNSTAGE_FILE_COMMAND, str) {
            Ok(Command::UnstageFile)
        } else {
            Err(UnknownCommand)
        }
    }

    /// The identifier of this command.
    pub fn to_str(&self) -> (r: &'static str)
        ensures
            r@ == identifier(*self),
    {
        match self {
            Command::StageFile => STAGE_FILE_COMMAND,
            Command::UnstageFile => UNSTAGE_FILE_COMMAND,
        }
    }
}

/// The two identifiers are distinct.
pub proof fn lemma_identifiers_differ()
    ensures
        identifier(Command::StageFile) != identifier(Command::UnstageFile),
{
    reveal_strlit("stage_file");
    reveal_strlit("unstage_file");
    assert(identifier(Command::StageFile).len() != identifier(Command::UnstageFile).len());
}

/// Parsing an identifier gives back its command, and every other string is refused.
pub proof fn lemma_parse_inverts_identifier(c: Command, s: Seq<char>)
    ensures
        s == identifier(c) ==> parses_to(s) == Some(c),
        (forall|d: Command| s != identifier(d)) ==> parses_to(s) is None,
{
    lemma_identifiers_differ();
    if (forall|d: Command| s != identifier(d)) {
        assert(s != identifier(Command::StageFile));
        assert(s != identifier(Command::UnstageFile));
    }
}

/// The command that `s` names, if any.
pub open spec fn parses_to(s: Seq<char>) -> Option<Command> {
    if s == identifier(Command::StageFile) {
        Some(Command::StageFile)
    } else if s == identifier(Command::UnstageFile) {
        Some(Command::UnstageFile)
    } else {
        None
    }
}


/// Status bits of a file whose index entry differs from the current commit:
/// new, modified, deleted, renamed or changed in type.
pub const INDEX_CHANGES: u32 = 0x1f;

/// Status bits of a file whose working-tree state differs from the index:
/// new, modified, deleted, changed in type or renamed.
pub const WORKTREE_CHANGES: u32 = 0xf80;

/// The command offered for a file with these status bits: staging where the
/// working tree holds a change, else unstaging where the index does.
pub open spec fn offered(status: u32) -> Option<Command> {
    if status & WORKTREE_CHANGES != 0 {
        Some(Command::StageFile)
    } else if status & INDEX_CHANGES != 0 {
        Some(Command::UnstageFile)
    } else {
        None
    }
}

/// The title under which a command is offered.
pub open spec fn title_of(c: Command) -> Seq<char> {
    match c {
        Command::StageFile => "Stage file"@,
        Command::UnstageFile => "Unstage file"@,
    }
}

/// A command that the editor may show for a file.
#[derive(Debug, PartialEq, Eq)]
pub struct CodeActionOffer {
    pub title: String,
    pub command: Command,
    /// The path handed to the command as its argument.
    pub path: String,
}

/// The commands offered for the file at `path`, given its status bits;
/// `None` says that no status could be read.
pub fn handle_code_action(path: &str, status: Option<u32>) -> (r: Vec<CodeActionOffer>)
    ensures
        status is None ==> r@.len() == 0,
        status matches Some(bits) ==> match offered(bits) {
            None => r@.len() == 0,
            Some(c) => r@.len() == 1 && r@[0].command == c && r@[0].title@ == title_of(c)
                && r@[0].path@ == path@,
        },
{
    let mut res: Vec<CodeActionOffer> = Vec::new();
    if let Some(bits) = status {
        if bits & WORKTREE_CHANGES != 0 {
            res.push(
                CodeActionOffer {
                    title: String::from_str("Stage file"),
                    command: Command::StageFile,
                    path: path.to_owned(),
                },
            );
        } else if bits & INDEX_CHANGES != 0 {
            res.push(
                CodeActionOffer {
                    title: String::from_str("Unstage file"),
                    command: Command::UnstageFile,
                    path: path.to_owned(),
                },
            );
        }
    }
    res
}

/// A change to make to the index, for a path relative to the working directory.
#[derive(Debug, PartialEq, Eq)]
pub enum IndexEdit {
    /// Record the file's working-tree state in the index.
    Add(String),
    /// Take the file out of the index altogether (not a reset to the
    /// committed state).
    Remove(String),
}

#[derive(Clone, Copy, Debug, PartialEq, Eq, Structural)]
pub enum CommandError {
    /// The identifier names no command.
    UnknownCommand,
    /// The command came without a path argument.
    MissingPath,
    /// The file lies outside the working directory found for it.
    OutsideWorkdir,
}

/// The index edit that `c` makes on the relative path `rel`.
pub open spec fn edit_for(c: Command, rel: Seq<char>, e: IndexEdit) -> bool {
    match c {
        Command::StageFile => e matches IndexEdit::Add(p) && p@ == rel,
        Command::UnstageFile => e matches IndexEdit::Remove(p) && p@ == rel,
    }
}

/// What executing the command named `identifier` on `path` does to the
/// index; `workdir` is the working directory of the repository found for
/// `path`, `None` where there is none, and then nothing is done.
pub fn handle_execute_command(identifier: &str, path: Option<&str>, workdir: Option<&str>) -> (r:
    Result<Option<IndexEdit>, CommandError>)
    ensures
        parses_to(identifier@) is None ==> r == Err::<Option<IndexEdit>, CommandError>(
            CommandError::UnknownCommand,
        ),
        parses_to(identifier@) is Some && path is None ==> r == Err::<
            Option<IndexEdit>,
            CommandError,
        >(CommandError::MissingPath),
        parses_to(identifier@) is Some && path is Some && workdir is None ==> r == Ok::<
            Option<IndexEdit>,
            CommandError,
        >(None),
        parses_to(identifier@) is Some && path is Some && workdir is Some ==> match path_below(
            path->Some_0@,
            workdir->Some_0@,
        ) {
            None => r == Err::<Option<IndexEdit>, CommandError>(CommandError::OutsideWorkdir),
            Some(rel) => r matches Ok(Some(e)) && edit_for(parses_to(identifier@)->Some_0, rel, e),
        },
{
    proof {
        lemma_identifiers_differ();
    }
    let command = match Command::from_str(identifier) {
        Ok(c) => c,
        Err(_) => return Err(CommandError::UnknownCommand),
    };
    let path = match path {
        Some(p) => p,
        None => return Err(CommandError::MissingPath),
    };
    let rel = match relativize(path, workdir) {
        Ok(Some(rel)) => rel,
        Ok(None) => return Ok(None),
        Err(_) => return Err(CommandError::OutsideWorkdir),
    };
    match command {
        Command::StageFile => Ok(Some(IndexEdit::Add(rel))),
        Command::UnstageFile => Ok(Some(IndexEdit::Remove(rel))),
    }
}

} // verus!
