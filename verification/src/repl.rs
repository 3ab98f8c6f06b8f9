//! The lines of the shell that are no statements: the meta-commands, which
//! start with a dot.

use crate::processor::{split_whitespace, texts, whitespace_tokens};
use vstd::prelude::*;
use vstd::string::{StrSliceExecFns, StringExecFns};

verus! {

/// What a meta-command asks for.
#[derive(Debug)]
pub enum MetaCommand {
    /// To close the table and end the program.
    Exit,
    /// To close the table and open the one in the file at `path`; from
    /// then on the shell asks for input with `prompt`.
    Open { path: String, prompt: String },
}

/// What a `MetaCommand` holds.
pub enum MetaCommandView {
    Exit,
    Open { path: Seq<char>, prompt: Seq<char> },
}

impl View for MetaCommand {
    type V = MetaCommandView;

    open spec fn view(&self) -> MetaCommandView {
        match self {
            MetaCommand::Exit => MetaCommandView::Exit,
            MetaCommand::Open { path, prompt } => MetaCommandView::Open {
                path: path@,
                prompt: prompt@,
            },
        }
    }
}

/// Whether a line is to be read as a meta-command: whether it starts with
/// a dot.
pub open spec fn starts_with_dot(line: Seq<char>) -> bool {
    line.len() > 0 && line[0] == '.'
}

/// The meta-command that a line of the given words is. `.exit` is one by
/// itself. `.open` takes the name of a table, which is the next word: the
/// table is in the file of that name, with `.db` behind it, in the directory
/// `data`. A line without words, `.open` without a name, and any other
/// first word are no meta-command.
pub open spec fn meta_command_of(words: Seq<Seq<char>>) -> Option<MetaCommandView> {
    if words.len() == 0 {
        None
    } else if words[0] == ".exit"@ {
        Some(MetaCommandView::Exit)
    } else if words[0] == ".open"@ && words.len() >= 2 {
        Some(
            MetaCommandView::Open {
                path: "./data/"@ + words[1] + ".db"@,
                prompt: "db "@ + words[1],
            },
        )
    } else {
        None
    }
}

/// Whether a line is to be read as a meta-command and not as a statement.
pub fn is_meta_command(line: &str) -> (meta: bool)
    ensures
        meta == starts_with_dot(line@),
{
    !line.is_empty() && line.get_char(0) == '.'
}

/// The meta-command that a line of the given words is, or nothing where it
/// is none.
pub fn meta_command_of_words(words: &Vec<String>) -> (result: Result<MetaCommand, ()>)
    ensures
        result is Ok <==> meta_command_of(texts(words@)) is Some,
        result matches Ok(command) ==> meta_command_of(texts(words@)) == Some(command@),
{
    if words.len() == 0 {
        return Err(());
    }
    if words[0] == String::from_str(".exit") {
        Ok(MetaCommand::Exit)
    } else if words[0] == String::from_str(".open") && words.len() >= 2 {
        let name = words[1].as_str();
        let path = String::from_str("./data/").concat(name).concat(".db");
        let prompt = String::from_str("db ").concat(name);
        Ok(MetaCommand::Open { path, prompt })
    } else {
        Err(())
    }
}

/// The meta-command that a line is. Its words are what white space parts.
pub fn do_meta_command(command: &String) -> (result: Result<MetaCommand, ()>)
    ensures
        result is Ok <==> meta_command_of(whitespace_tokens(command@)) is Some,
        result matches Ok(meta) ==> meta_command_of(whitespace_tokens(command@)) == Some(meta@),
{
    let words = split_whitespace(command.as_str());
    meta_command_of_words(&words)
}

} // verus!
