//! What the program is asked to do on the command line, by the user and by itself.
use vstd::prelude::*;

verus! {

/// What the editor service is asked to do.
#[derive(Debug)]
pub enum ServiceCommand {
    /// Be there.
    Activate,
    /// Open the screenshot at this path.
    Open { path: String },
    /// Start a fresh capture helper.
    StartCapture,
    /// Nothing that the service knows.
    Unsupported,
}

/// The model of a command.
pub enum Command {
    Activate,
    Open { path: Seq<char> },
    StartCapture,
    Unsupported,
}

impl View for ServiceCommand {
    type V = Command;

    open spec fn view(&self) -> Command {
        match *self {
            ServiceCommand::Activate => Command::Activate,
            ServiceCommand::Open { path } => Command::Open { path: path@ },
            ServiceCommand::StartCapture => Command::StartCapture,
            ServiceCommand::Unsupported => Command::Unsupported,
        }
    }
}

/// The argument that asks for a capture.
pub fn capture_argument() -> (argument: &'static str)
    ensures
        argument@ == "--capture"@,
{
    "--capture"
}

/// The argument that starts the service.
pub fn daemon_argument() -> (argument: &'static str)
    ensures
        argument@ == "--daemon"@,
{
    "--daemon"
}

/// The argument that announces the path of a screenshot.
pub fn open_argument() -> (argument: &'static str)
    ensures
        argument@ == "--open"@,
{
    "--open"
}

/// Whether the program is started as a capture helper: its first argument asks for a capture.
/// The first entry is the name of the program.
pub open spec fn asks_for_capture(command_line: Seq<Seq<char>>) -> bool {
    command_line.len() > 1 && command_line[1] == "--capture"@
}

/// What the arguments after the name of the program ask of the service: `--daemon` alone, `--open`
/// with a path, or nothing at all. Everything else is unsupported.
pub open spec fn meaning(command_line: Seq<Seq<char>>) -> Command {
    if command_line.len() <= 1 {
        Command::StartCapture
    } else if command_line.len() == 2 && command_line[1] == "--daemon"@ {
        Command::Activate
    } else if command_line.len() == 3 && command_line[1] == "--open"@ {
        Command::Open { path: command_line[2] }
    } else {
        Command::Unsupported
    }
}

/// The text of the entries of a command line.
pub open spec fn entries(command_line: Seq<String>) -> Seq<Seq<char>> {
    command_line.map_values(|entry: String| entry@)
}

/// Whether the program is started as a capture helper: its first argument asks for a capture.
/// The first entry is the name of the program.
pub fn is_capture_request(command_line: &Vec<String>) -> (asks: bool)
    ensures
        asks == asks_for_capture(entries(command_line@)),
{
    command_line.len() > 1 && command_line[1] == capture_argument().to_owned()
}

/// What the arguments after the name of the program ask of the service.
pub fn service_command(command_line: &Vec<String>) -> (command: ServiceCommand)
    ensures
        command@ == meaning(entries(command_line@)),
{
    if command_line.len() <= 1 {
        ServiceCommand::StartCapture
    } else if command_line.len() == 2 && command_line[1] == daemon_argument().to_owned() {
        ServiceCommand::Activate
    } else if command_line.len() == 3 && command_line[1] == open_argument().to_owned() {
        ServiceCommand::Open { path: command_line[2].clone() }
    } else {
        ServiceCommand::Unsupported
    }
}

/// The program understands what it tells itself: what the helper sends to start the service starts
/// it and to open a screenshot opens that screenshot, and what the service starts for a capture is
/// a helper. None of the messages to the service is taken for a capture.
pub proof fn law_own_commands_are_understood(program: Seq<char>, path: Seq<char>)
    ensures
        meaning(seq![program, "--daemon"@]) == Command::Activate,
        meaning(seq![program, "--open"@, path]) == (Command::Open { path }),
        asks_for_capture(seq![program, "--capture"@]),
        !asks_for_capture(seq![program, "--daemon"@]),
        !asks_for_capture(seq![program, "--open"@, path]),
{
    reveal_strlit("--capture");
    reveal_strlit("--daemon");
    reveal_strlit("--open");
    assert("--capture"@[2] == 'c' && "--daemon"@[2] == 'd' && "--open"@[2] == 'o');
}

/// Each command is given in one way: nothing after the program starts a capture, `--daemon` alone
/// activates, `--open` with one path opens that path, and all else is unsupported. A capture is
/// asked for by the first argument, whatever follows it.
pub proof fn law_each_command_has_one_form(line: Seq<Seq<char>>, path: Seq<char>)
    ensures
        meaning(line) == Command::StartCapture <==> line.len() <= 1,
        meaning(line) == Command::Activate <==> line.len() == 2 && line[1] == "--daemon"@,
        meaning(line) == (Command::Open { path }) <==> line.len() == 3 && line[1] == "--open"@
            && line[2] == path,
        meaning(line) == Command::Unsupported <==> line.len() >= 2 && !(line.len() == 2 && line[1]
            == "--daemon"@) && !(line.len() == 3 && line[1] == "--open"@),
        asks_for_capture(line) <==> line.len() >= 2 && line[1] == "--capture"@,
{
}

/// A command line is read entry by entry.
pub proof fn law_entries_are_read_whole(line: Seq<String>)
    ensures
        entries(line).len() == line.len(),
        forall|i: int| 0 <= i < line.len() ==> #[trigger] entries(line)[i] == line[i]@,
{
}

} // verus!
