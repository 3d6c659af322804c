//! What has to be done with the real terminal, which the panels give away for it.

use crate::os::editor;
use crate::text;
use vstd::prelude::*;

verus! {

/// A file to be opened in the editor.
#[derive(Debug)]
pub struct EditRequest {
    /// An absolute path to a file that exists.
    pub path: String,
    pub line: Option<usize>,
    /// The column, counted from one.
    pub column: usize,
}

impl EditRequest {
    /// A file without a known column.
    pub fn at(path: String, line: Option<usize>) -> (r: Self)
        ensures
            r == (EditRequest { path, line, column: 1 }),
    {
        EditRequest { path, line, column: 1 }
    }
}

/// What is put off until the terminal is free.
#[derive(Debug)]
pub enum Interactive {
    Edit(EditRequest),
}

/// A command that edits a file. One that needs the terminal suspends the panels.
#[derive(Debug)]
pub struct EditorCmd {
    pub template: String,
    pub suspend: bool,
}

/// How an editor ended.
#[derive(Debug, Clone, Copy, PartialEq, Eq, Structural)]
pub enum EditorExit {
    Success,
    Code(i32),
    Signal,
}

/// Why a file could not be edited. Without the terminal nothing can be shown any
/// more; a failure of the editor can be told.
#[derive(Debug)]
pub enum EditError {
    Editor(String),
    Terminal(String),
}

/// How a file is edited.
#[derive(Debug)]
pub enum EditPlan {
    /// The panels are suspended while the command runs.
    RunSuspended(String),
    /// The command is started and left alone.
    RunDetached(String),
    /// The program that opens files is run.
    OpenDefault,
    Fail(EditError),
}

/// A number with its sign, in decimal.
pub open spec fn signed_decimal(n: int) -> Seq<char> {
    if n < 0 {
        seq!['-'] + text::decimal((-n) as nat)
    } else {
        text::decimal(n as nat)
    }
}

fn signed_decimal_of(n: i32) -> (r: String)
    ensures
        r@ == signed_decimal(n as int),
{
    let wide: i64 = n as i64;
    if wide < 0 {
        let mut s = String::new();
        s.push('-');
        let d: usize = (-wide) as usize;
        s.append(text::decimal_of(d).as_str());
        assert(s@ =~= signed_decimal(n as int));
        s
    } else {
        text::decimal_of(n as usize)
    }
}

/// What is told of an editor that failed.
pub open spec fn exit_text(exit: EditorExit, command: Seq<char>) -> Option<Seq<char>> {
    match exit {
        EditorExit::Success => None,
        EditorExit::Code(127) => Some("editor not found (status 127): "@ + command),
        EditorExit::Code(c) => Some(
            "editor exited with status "@ + signed_decimal(c as int) + ": "@ + command,
        ),
        EditorExit::Signal => Some("editor was killed by a signal: "@ + command),
    }
}

/// What is told of an editor that ended: nothing where it succeeded. A shell that did
/// not find it ends with 127.
pub fn editor_exit(exit: EditorExit, command: &str) -> (r: Result<(), String>)
    ensures
        match exit_text(exit, command@) {
            Some(t) => r matches Err(e) && e@ == t,
            None => r is Ok,
        },
{
    match exit {
        EditorExit::Success => Ok(()),
        EditorExit::Code(127) => {
            let mut s = "editor not found (status 127): ".to_string();
            s.append(command);
            Err(s)
        },
        EditorExit::Code(c) => {
            let mut s = "editor exited with status ".to_string();
            s.append(signed_decimal_of(c).as_str());
            s.append(": ");
            s.append(command);
            Err(s)
        },
        EditorExit::Signal => {
            let mut s = "editor was killed by a signal: ".to_string();
            s.append(command);
            Err(s)
        },
    }
}

/// What is told where nothing is configured that opens a file.
pub open spec fn nothing_configured() -> Seq<char> {
    "No editor configured. Set `os.edit` or `os.editPreset` in your config.yml, or set $EDITOR."@
}

/// Whether a file can be opened by the program that opens files: not where none is
/// configured.
pub fn open_with_default_program(open_template: &str) -> (r: Result<(), String>)
    ensures
        open_template@.len() > 0 ==> r is Ok,
        open_template@.len() == 0 ==> (r matches Err(e) && e@ == nothing_configured()),
{
    if text::is_empty_str(open_template) {
        return Err(
            "No editor configured. Set `os.edit` or `os.editPreset` in your config.yml, or set $EDITOR.".to_string(),
        );
    }
    Ok(())
}

/// The command that edits a file.
pub open spec fn edit_command(cmd: EditorCmd, req: EditRequest) -> Seq<char> {
    editor::expanded(cmd.template@, req.path@, req.line, req.column)
}

/// Decides how a file is edited: by the command that was found for it, or else by the
/// program that opens files.
pub fn run_edit_request(cmd: Option<&EditorCmd>, open_template: &str, req: &EditRequest) -> (r:
    EditPlan)
    ensures
        match cmd {
            Some(c) => if c.suspend {
                r matches EditPlan::RunSuspended(s) && s@ == edit_command(*c, *req)
            } else {
                r matches EditPlan::RunDetached(s) && s@ == edit_command(*c, *req)
            },
            None => if open_template@.len() > 0 {
                r is OpenDefault
            } else {
                r matches EditPlan::Fail(EditError::Editor(e)) && e@ == nothing_configured()
            },
        },
{
    match cmd {
        Some(c) => {
            let command = editor::expand(
                c.template.as_str(),
                req.path.as_str(),
                req.line,
                req.column,
            );
            if c.suspend {
                EditPlan::RunSuspended(command)
            } else {
                EditPlan::RunDetached(command)
            }
        },
        None => match open_with_default_program(open_template) {
            Ok(()) => EditPlan::OpenDefault,
            Err(e) => EditPlan::Fail(EditError::Editor(e)),
        },
    }
}

/// What follows a file that was edited with the panels suspended: losing the terminal
/// counts before a failure of the editor.
pub fn after_suspended_edit(terminal: Result<(), String>, exit: EditorExit, command: &str) -> (r:
    Result<(), EditError>)
    ensures
        match terminal {
            Err(t) => r == Err::<(), EditError>(EditError::Terminal(t)),
            Ok(()) => match exit_text(exit, command@) {
                Some(t) => r matches Err(EditError::Editor(e)) && e@ == t,
                None => r is Ok,
            },
        },
{
    match terminal {
        Err(t) => Err(EditError::Terminal(t)),
        Ok(()) => match editor_exit(exit, command) {
            Ok(()) => Ok(()),
            Err(e) => Err(EditError::Editor(e)),
        },
    }
}

// ---------------------------------------------------------------------------
// Laws
// ---------------------------------------------------------------------------

/// An editor that succeeded is not spoken of; of any other it is told how it ended, and of one
/// that the shell did not find that it was not found.
pub proof fn a_failed_editor_is_told(c: i32, command: Seq<char>)
    ensures
        exit_text(EditorExit::Success, command) is None,
        exit_text(EditorExit::Code(127), command) == Some(
            "editor not found (status 127): "@ + command,
        ),
        c != 127 ==> exit_text(EditorExit::Code(c), command) == Some(
            "editor exited with status "@ + signed_decimal(c as int) + ": "@ + command,
        ),
        exit_text(EditorExit::Signal, command) == Some(
            "editor was killed by a signal: "@ + command,
        ),
        c >= 0 ==> signed_decimal(c as int) == text::decimal(c as nat),
        c < 0 ==> signed_decimal(c as int) == "-"@ + text::decimal((-c) as nat),
{
    reveal_strlit("-");
    assert("-"@ =~= seq!['-']);
}

} // verus!
