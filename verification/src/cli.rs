//! The command line: a mode and two paths.
//!
//! ```text
//! <program> --export <database_path> <output_workbook_path>
//! <program> --import <input_workbook_path> <output_database_path>
//! ```

use vstd::prelude::*;
use crate::text::{texts, Text};

verus! {

/// What the program is asked to do.
pub enum Command {
    /// Write every table of `database` to a worksheet of `workbook`.
    Export { database: String, workbook: String },
    /// Load every worksheet of `workbook` into a table of `database`.
    Import { workbook: String, database: String },
}

/// The mathematical view of a [`Command`].
pub enum CommandView {
    Export { database: Text, workbook: Text },
    Import { workbook: Text, database: Text },
}

impl View for Command {
    type V = CommandView;

    open spec fn view(&self) -> CommandView {
        match self {
            Command::Export { database, workbook } => CommandView::Export {
                database: database@,
                workbook: workbook@,
            },
            Command::Import { workbook, database } => CommandView::Import {
                workbook: workbook@,
                database: database@,
            },
        }
    }
}

/// Why a command line is refused.
pub enum UsageError {
    /// The program name is not followed by exactly three arguments.
    WrongArgumentCount,
    /// The mode, held here, is neither `--export` nor `--import`.
    InvalidCommand(String),
}

/// The mathematical view of a [`UsageError`].
pub enum UsageErrorView {
    WrongArgumentCount,
    InvalidCommand(Text),
}

impl View for UsageError {
    type V = UsageErrorView;

    open spec fn view(&self) -> UsageErrorView {
        match self {
            UsageError::WrongArgumentCount => UsageErrorView::WrongArgumentCount,
            UsageError::InvalidCommand(mode) => UsageErrorView::InvalidCommand(mode@),
        }
    }
}

/// How a run ended.
pub enum Outcome {
    /// The conversion ran to its end.
    Completed,
    /// The command line was refused; no file was touched.
    Usage(UsageError),
    /// The conversion stopped at an error.
    Failed,
}

/// What a command line asks for: `args[0]` is the program name, `args[1]`
/// the mode and `args[2]`, `args[3]` the input and output paths.
pub open spec fn parsed(args: Seq<Text>) -> Result<CommandView, UsageErrorView> {
    if args.len() != 4 {
        Err(UsageErrorView::WrongArgumentCount)
    } else if args[1] == "--export"@ {
        Ok(CommandView::Export { database: args[2], workbook: args[3] })
    } else if args[1] == "--import"@ {
        Ok(CommandView::Import { workbook: args[2], database: args[3] })
    } else {
        Err(UsageErrorView::InvalidCommand(args[1]))
    }
}

/// The first line of every usage message.
pub open spec fn banner_text() -> Text {
    "Sqlite and Excel Export/Import tool v1.0 by CSA(1)3 written in Rust"@
}

/// The usage line for exporting.
pub open spec fn export_usage_text(program: Text) -> Text {
    "Usage: "@ + program + " --export <database_path> <output_excel>"@
}

/// The usage line for importing.
pub open spec fn import_usage_text(program: Text) -> Text {
    "Usage: "@ + program + " --import <excel_path> <output_database>"@
}

/// The lines that report `error` to the user of `program`.
pub open spec fn usage_text(program: Text, error: UsageErrorView) -> Seq<Text> {
    match error {
        UsageErrorView::WrongArgumentCount => seq![
            banner_text(),
            export_usage_text(program),
            import_usage_text(program),
        ],
        UsageErrorView::InvalidCommand(mode) => seq![
            banner_text(),
            "Invalid command: "@ + mode,
            export_usage_text(program),
            import_usage_text(program),
        ],
    }
}

/// Reads a command line, program name included.
///
/// Refuses any argument count but four before it looks at the mode, and
/// any mode but `--export` and `--import`.
pub fn parse_args(args: &Vec<String>) -> (result: Result<Command, UsageError>)
    ensures
        match result {
            Ok(command) => parsed(texts(args@)) == Ok::<CommandView, UsageErrorView>(command@),
            Err(error) => parsed(texts(args@)) == Err::<CommandView, UsageErrorView>(error@),
        },
{
    if args.len() != 4 {
        return Err(UsageError::WrongArgumentCount);
    }
    let export_mode = String::from_str("--export");
    let import_mode = String::from_str("--import");
    if args[1] == export_mode {
        Ok(Command::Export { database: args[2].clone(), workbook: args[3].clone() })
    } else if args[1] == import_mode {
        Ok(Command::Import { workbook: args[2].clone(), database: args[3].clone() })
    } else {
        Err(UsageError::InvalidCommand(args[1].clone()))
    }
}

/// The lines to print on standard error for `error`.
pub fn usage_lines(program: &str, error: &UsageError) -> (lines: Vec<String>)
    ensures
        texts(lines@) == usage_text(program@, error@),
{
    let mut lines: Vec<String> = Vec::new();
    lines.push(String::from_str("Sqlite and Excel Export/Import tool v1.0 by CSA(1)3 written in Rust"));
    match error {
        UsageError::WrongArgumentCount => {},
        UsageError::InvalidCommand(mode) => {
            let mut line = String::from_str("Invalid command: ");
            line.append(mode.as_str());
            lines.push(line);
        },
    }
    let mut export_line = String::from_str("Usage: ");
    export_line.append(program);
    export_line.append(" --export <database_path> <output_excel>");
    lines.push(export_line);
    let mut import_line = String::from_str("Usage: ");
    import_line.append(program);
    import_line.append(" --import <excel_path> <output_database>");
    lines.push(import_line);
    assert(texts(lines@) =~= usage_text(program@, error@));
    lines
}

/// The status that the process exits with: 0 after a completed
/// conversion, 1 after a refused command line or a failed conversion.
pub open spec fn status_of(outcome: Outcome) -> i32 {
    match outcome {
        Outcome::Completed => 0,
        Outcome::Usage(_) => 1,
        Outcome::Failed => 1,
    }
}

/// The status that the process exits with.
pub fn exit_status(outcome: &Outcome) -> (status: i32)
    ensures
        status == status_of(*outcome),
        status == 0 <==> outcome is Completed,
{
    match outcome {
        Outcome::Completed => 0,
        Outcome::Usage(_) => 1,
        Outcome::Failed => 1,
    }
}

/// Whatever follows the program name, a command line is accepted only
/// with exactly three arguments of which the first is a known mode; any
/// other is refused, and the process then exits with status 1.
pub proof fn lemma_usage_validation(args: Seq<Text>)
    ensures
        parsed(args) is Ok <==> args.len() == 4 && (args[1] == "--export"@ || args[1]
            == "--import"@),
        args.len() != 4 ==> parsed(args) == Err::<CommandView, UsageErrorView>(
            UsageErrorView::WrongArgumentCount,
        ),
        forall|error: UsageError| status_of(Outcome::Usage(error)) == 1,
{
}

} // verus!
