//! What becomes of the generated README: saved to a file, copied to the clipboard or
//! printed. The dialogue with the user is a state machine: [`write_file_step`] takes the
//! current state and what the user or the file system answered, and gives the next state
//! and what to do next.
use vstd::prelude::*;
use crate::template::{is_valid_filename, spec_is_valid_filename};
use crate::text::{chars_of, push_all, same_text, string_of};

verus! {

/// The destinations offered for the README.
pub enum OutputChoice {
    Save,
    Copy,
    Console,
    Unmatched,
}

/// The destination that the menu entry `selection` stands for.
pub open spec fn spec_output_choice(selection: Seq<char>) -> OutputChoice {
    if selection == "Save to current directory"@ {
        OutputChoice::Save
    } else if selection == "Copy to clipboard"@ {
        OutputChoice::Copy
    } else if selection == "Output to console"@ {
        OutputChoice::Console
    } else {
        OutputChoice::Unmatched
    }
}

/// The destination that the menu entry `selection` stands for.
pub fn output_choice(selection: &str) -> (c: OutputChoice)
    ensures
        c == spec_output_choice(selection@),
{
    if same_text(selection, "Save to current directory") {
        OutputChoice::Save
    } else if same_text(selection, "Copy to clipboard") {
        OutputChoice::Copy
    } else if same_text(selection, "Output to console") {
        OutputChoice::Console
    } else {
        OutputChoice::Unmatched
    }
}

/// The menu of destinations, in the order shown.
pub fn output_options() -> (options: Vec<String>)
    ensures
        options.deep_view() == seq![
            "Save to current directory"@,
            "Copy to clipboard"@,
            "Output to console"@,
        ],
{
    let options = vec![
        "Save to current directory".to_owned(),
        "Copy to clipboard".to_owned(),
        "Output to console".to_owned(),
    ];
    assert(options.deep_view() =~= seq![
        "Save to current directory"@,
        "Copy to clipboard"@,
        "Output to console"@,
    ]);
    options
}

/// The question asked with the menu of destinations.
pub fn output_prompt() -> (prompt: String)
    ensures
        prompt@ == "What would you like to do with the generated README?"@,
{
    "What would you like to do with the generated README?".to_owned()
}

/// The file written by default.
pub open spec fn readme_name() -> Seq<char> {
    "README.md"@
}

/// Where the dialogue about the README stands.
pub enum WriteState {
    /// Nothing asked yet.
    Start,
    /// The menu of destinations was shown.
    ChooseOutput,
    /// The README is being copied to the clipboard.
    Copying,
    /// Waiting to learn whether `README.md` exists.
    CheckReadme,
    /// The user was asked whether to overwrite `README.md`.
    ConfirmOverwrite,
    /// The user was asked whether to save under another name.
    ConfirmOtherName,
    /// The user was asked for a file name.
    EnterName,
    /// Waiting to learn whether the file of the given name exists.
    CheckName(String),
    /// A file name was refused; the menu comes back next.
    Rejected,
    /// A file is being written.
    Writing,
    /// Nothing more to do.
    Finished,
}

/// What the user or the file system answered to the last action.
pub enum WriteEvent {
    /// The dialogue begins.
    Begin,
    /// The user chose this entry of the menu.
    Chosen(String),
    /// The last action (copy, print, message) was carried out.
    Done,
    /// Whether the file asked about exists.
    Exists(bool),
    /// The user's answer to a yes-or-no question.
    Answered(bool),
    /// The text that the user entered.
    Entered(String),
    /// How writing the file went: the error's text when it failed.
    Written(Result<(), String>),
}

/// What to do next.
pub enum WriteAction {
    /// Show the menu of destinations ([`output_options`], [`output_prompt`]).
    AskOutput,
    /// Copy the README to the clipboard.
    CopyToClipboard,
    /// Print the README.
    Print,
    /// Find out whether the file of this name exists.
    CheckExists(String),
    /// Ask this yes-or-no question.
    Confirm(String),
    /// Ask for a text, with a question and the answer offered by default.
    AskName(String, String),
    /// Write the README to the file of this name.
    Write(String),
    /// Show this message.
    Show(Result<String, String>),
    /// The dialogue is over.
    Stop,
}

/// A message with its text taken as characters.
pub open spec fn result_text(r: Result<String, String>) -> Result<Seq<char>, Seq<char>> {
    match r {
        Ok(m) => Ok(m@),
        Err(m) => Err(m@),
    }
}

/// Gives the next state of the dialogue and the next action, from the current state and the
/// answer to the last action.
pub fn write_file_step(state: WriteState, event: WriteEvent) -> (r: (WriteState, WriteAction))
    ensures
        match (state, event) {
            (WriteState::Start, WriteEvent::Begin) => r.0 is ChooseOutput && r.1 is AskOutput,
            (WriteState::ChooseOutput, WriteEvent::Chosen(sel)) => match spec_output_choice(sel@) {
                OutputChoice::Copy => r.0 is Copying && r.1 is CopyToClipboard,
                OutputChoice::Save => {
                    &&& r.0 is CheckReadme
                    &&& r.1 matches WriteAction::CheckExists(p)
                    &&& p@ == readme_name()
                },
                _ => r.0 is Finished && r.1 is Print,
            },
            (WriteState::Copying, WriteEvent::Done) => {
                &&& r.0 is Finished
                &&& r.1 matches WriteAction::Show(m)
                &&& result_text(m) == Ok::<Seq<char>, Seq<char>>(
                    "README copied to clipboard successfully"@,
                )
            },
            (WriteState::CheckReadme, WriteEvent::Exists(true)) => {
                &&& r.0 is ConfirmOverwrite
                &&& r.1 matches WriteAction::Confirm(q)
                &&& q@ == "README.md already exists. Overwrite?"@
            },
            (WriteState::CheckReadme, WriteEvent::Exists(false)) => {
                &&& r.0 is Writing
                &&& r.1 matches WriteAction::Write(p)
                &&& p@ == readme_name()
            },
            (WriteState::ConfirmOverwrite, WriteEvent::Answered(true)) => {
                &&& r.0 is Writing
                &&& r.1 matches WriteAction::Write(p)
                &&& p@ == readme_name()
            },
            (WriteState::ConfirmOverwrite, WriteEvent::Answered(false)) => {
                &&& r.0 is ConfirmOtherName
                &&& r.1 matches WriteAction::Confirm(q)
                &&& q@ == "Would you like to save to a different file name?"@
            },
            (WriteState::ConfirmOtherName, WriteEvent::Answered(true)) => {
                &&& r.0 is EnterName
                &&& r.1 matches WriteAction::AskName(q, d)
                &&& q@ == "Enter a new file name"@
                &&& d@ == "README"@
            },
            (WriteState::ConfirmOtherName, WriteEvent::Answered(false)) => r.0 is ChooseOutput
                && r.1 is AskOutput,
            (WriteState::EnterName, WriteEvent::Entered(input)) => {
                &&& r.0 matches WriteState::CheckName(n)
                &&& n@ == input@ + ".md"@
                &&& r.1 matches WriteAction::CheckExists(p)
                &&& p@ == n@
            },
            (WriteState::CheckName(n), WriteEvent::Exists(exists)) => if !exists
                && spec_is_valid_filename(n@) {
                &&& r.0 is Writing
                &&& r.1 matches WriteAction::Write(p)
                &&& p@ == n@
            } else {
                &&& r.0 is Rejected
                &&& r.1 matches WriteAction::Show(m)
                &&& result_text(m) == Err::<Seq<char>, Seq<char>>(
                    "Invalid name or file already exists"@,
                )
            },
            (WriteState::Rejected, WriteEvent::Done) => r.0 is ChooseOutput && r.1 is AskOutput,
            (WriteState::Writing, WriteEvent::Written(w)) => {
                &&& r.0 is Finished
                &&& r.1 matches WriteAction::Show(m)
                &&& result_text(m) == match w {
                    Ok(_) => Ok::<Seq<char>, Seq<char>>("README generated successfully"@),
                    Err(e) => Err(e@),
                }
            },
            _ => r.0 is Finished && r.1 is Stop,
        },
        // A file is written only when it does not exist yet, or when it is `README.md` and the
        // user agreed to overwrite it; a name the user entered must be a valid file name.
        r.1 matches WriteAction::Write(p) ==> {
            ||| p@ == readme_name() && state is CheckReadme && event == WriteEvent::Exists(false)
            ||| p@ == readme_name() && state is ConfirmOverwrite && event == WriteEvent::Answered(
                true,
            )
            ||| state matches WriteState::CheckName(n) && n@ == p@ && spec_is_valid_filename(p@)
                && event == WriteEvent::Exists(false)
        },
{
    match (state, event) {
        (WriteState::Start, WriteEvent::Begin) => (WriteState::ChooseOutput, WriteAction::AskOutput),
        (WriteState::ChooseOutput, WriteEvent::Chosen(sel)) => match output_choice(sel.as_str()) {
            OutputChoice::Copy => (WriteState::Copying, WriteAction::CopyToClipboard),
            OutputChoice::Save => (
                WriteState::CheckReadme,
                WriteAction::CheckExists("README.md".to_owned()),
            ),
            _ => (WriteState::Finished, WriteAction::Print),
        },
        (WriteState::Copying, WriteEvent::Done) => (
            WriteState::Finished,
            WriteAction::Show(Ok("README copied to clipboard successfully".to_owned())),
        ),
        (WriteState::CheckReadme, WriteEvent::Exists(exists)) => {
            if exists {
                (
                    WriteState::ConfirmOverwrite,
                    WriteAction::Confirm("README.md already exists. Overwrite?".to_owned()),
                )
            } else {
                (WriteState::Writing, WriteAction::Write("README.md".to_owned()))
            }
        },
        (WriteState::ConfirmOverwrite, WriteEvent::Answered(yes)) => {
            if yes {
                (WriteState::Writing, WriteAction::Write("README.md".to_owned()))
            } else {
                (
                    WriteState::ConfirmOtherName,
                    WriteAction::Confirm(
                        "Would you like to save to a different file name?".to_owned(),
                    ),
                )
            }
        },
        (WriteState::ConfirmOtherName, WriteEvent::Answered(yes)) => {
            if yes {
                (
                    WriteState::EnterName,
                    WriteAction::AskName("Enter a new file name".to_owned(), "README".to_owned()),
                )
            } else {
                (WriteState::ChooseOutput, WriteAction::AskOutput)
            }
        },
        (WriteState::EnterName, WriteEvent::Entered(input)) => {
            let mut name = chars_of(input.as_str());
            push_all(&mut name, &chars_of(".md"));
            let n = string_of(&name);
            let p = string_of(&name);
            (WriteState::CheckName(n), WriteAction::CheckExists(p))
        },
        (WriteState::CheckName(n), WriteEvent::Exists(exists)) => {
            if !exists && is_valid_filename(n.as_str()) {
                let p = n.clone();
                (WriteState::Writing, WriteAction::Write(p))
            } else {
                (
                    WriteState::Rejected,
                    WriteAction::Show(Err("Invalid name or file already exists".to_owned())),
                )
            }
        },
        (WriteState::Rejected, WriteEvent::Done) => (WriteState::ChooseOutput, WriteAction::AskOutput),
        (WriteState::Writing, WriteEvent::Written(w)) => match w {
            Ok(_) => (
                WriteState::Finished,
                WriteAction::Show(Ok("README generated successfully".to_owned())),
            ),
            Err(e) => (WriteState::Finished, WriteAction::Show(Err(e))),
        },
        _ => (WriteState::Finished, WriteAction::Stop),
    }
}

} // verus!
