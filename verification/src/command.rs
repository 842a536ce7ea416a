//! The command interpreter: which command a line asks for, and whether
//! the read loop goes on.

use crate::words::{same_text, split_words, texts, words};
use vstd::prelude::*;
use vstd::string::*;

verus! {

/// The commands of the operator.
#[derive(Copy, Clone, Debug, PartialEq, Eq, Structural)]
pub enum Command {
    Help,
    OpenChannel,
    CloseChannel,
    ForceCloseChannel,
    ListChannels,
    SendPayment,
    GetInvoice,
    NodeInfo,
    Quit,
    /// A first word that names no command.
    Unknown,
}

/// The command that a word names. `quit` and `exit` are the same command;
/// the names are matched exactly, in lower case.
pub open spec fn command_of(word: Seq<char>) -> Command {
    if word == "help"@ {
        Command::Help
    } else if word == "openchannel"@ {
        Command::OpenChannel
    } else if word == "getinvoice"@ {
        Command::GetInvoice
    } else if word == "nodeinfo"@ {
        Command::NodeInfo
    } else if word == "sendpayment"@ {
        Command::SendPayment
    } else if word == "listchannels"@ {
        Command::ListChannels
    } else if word == "closechannel"@ {
        Command::CloseChannel
    } else if word == "forceclosechannel"@ {
        Command::ForceCloseChannel
    } else if word == "quit"@ || word == "exit"@ {
        Command::Quit
    } else {
        Command::Unknown
    }
}

/// Finds the command that a word names.
pub fn parse_command(word: &str) -> (r: Command)
    ensures
        r == command_of(word@),
{
    if same_text(word, "help") {
        Command::Help
    } else if same_text(word, "openchannel") {
        Command::OpenChannel
    } else if same_text(word, "getinvoice") {
        Command::GetInvoice
    } else if same_text(word, "nodeinfo") {
        Command::NodeInfo
    } else if same_text(word, "sendpayment") {
        Command::SendPayment
    } else if same_text(word, "listchannels") {
        Command::ListChannels
    } else if same_text(word, "closechannel") {
        Command::CloseChannel
    } else if same_text(word, "forceclosechannel") {
        Command::ForceCloseChannel
    } else if same_text(word, "quit") || same_text(word, "exit") {
        Command::Quit
    } else {
        Command::Unknown
    }
}

/// What the read loop does with one reading of the input.
#[derive(Copy, Clone, Debug, PartialEq, Eq, Structural)]
pub enum LineDecision {
    /// Leave the loop.
    Stop,
    /// Read on: the line holds no word.
    Skip,
    /// Run the command, then read on. For `Unknown` the command to run is
    /// a diagnostic.
    Run(Command),
}

/// The decision for one reading: the end of the input stops the loop and
/// so does the command `quit`; a line without words is skipped; any other
/// line runs the command that its first word names.
pub open spec fn decision_of(input: Option<Seq<char>>) -> LineDecision {
    match input {
        None => LineDecision::Stop,
        Some(line) => if words(line).len() == 0 {
            LineDecision::Skip
        } else if command_of(words(line)[0]) == Command::Quit {
            LineDecision::Stop
        } else {
            LineDecision::Run(command_of(words(line)[0]))
        },
    }
}

/// The arguments of a line: its words after the first.
pub open spec fn arguments_of(input: Option<Seq<char>>) -> Seq<Seq<char>> {
    match input {
        Some(line) => if words(line).len() == 0 {
            Seq::empty()
        } else {
            words(line).skip(1)
        },
        None => Seq::empty(),
    }
}

/// The text of an optional line.
pub open spec fn input_text(input: Option<&str>) -> Option<Seq<char>> {
    match input {
        Some(line) => Some(line@),
        None => None,
    }
}

/// One reading of the input, interpreted.
#[derive(Debug, PartialEq, Eq)]
pub struct Interpreted {
    pub decision: LineDecision,
    /// The words after the command.
    pub args: Vec<String>,
}

/// Interprets one reading of the input: a line, or `None` at the end of
/// the input. The arguments are handed on unchecked; each command checks
/// its own.
pub fn interpret(input: Option<&str>) -> (r: Interpreted)
    ensures
        r.decision == decision_of(input_text(input)),
        texts(r.args@) == arguments_of(input_text(input)),
{
    match input {
        None => {
            let args: Vec<String> = Vec::new();
            assert(texts(args@) =~= Seq::<Seq<char>>::empty());
            Interpreted { decision: LineDecision::Stop, args }
        },
        Some(line) => {
            let mut all = split_words(line);
            if all.len() == 0 {
                assert(texts(all@) =~= Seq::<Seq<char>>::empty());
                Interpreted { decision: LineDecision::Skip, args: all }
            } else {
                let ghost before = all@;
                let first = all.remove(0);
                assert(first@ == texts(before)[0]);
                assert(texts(all@) =~= texts(before).skip(1));
                let command = parse_command(first.as_str());
                let decision = match command {
                    Command::Quit => LineDecision::Stop,
                    _ => LineDecision::Run(command),
                };
                Interpreted { decision, args: all }
            }
        },
    }
}

/// Only the end of the input and the command `quit` stop the loop: after
/// any other line, a line that names no command among them, the loop
/// reads on.
pub proof fn lemma_loop_goes_on(line: Seq<char>)
    ensures
        decision_of(Some(line)) == LineDecision::Stop <==> words(line).len() > 0 && (words(
            line,
        )[0] == "quit"@ || words(line)[0] == "exit"@),
        decision_of(None) == LineDecision::Stop,
{
    if words(line).len() > 0 {
        let w = words(line)[0];
        reveal_strlit("help");
        reveal_strlit("openchannel");
        reveal_strlit("getinvoice");
        reveal_strlit("nodeinfo");
        reveal_strlit("sendpayment");
        reveal_strlit("listchannels");
        reveal_strlit("closechannel");
        reveal_strlit("forceclosechannel");
        reveal_strlit("quit");
        reveal_strlit("exit");
        if w == "quit"@ || w == "exit"@ {
            assert(w.len() == 4 && w[0] != 'h');
        }
    }
}

/// The text of `help`, for a program of the given name and version.
pub open spec fn help_text_of(name: Seq<char>, version: Seq<char>) -> Seq<char> {
    "\nVERSION:\n  "@ + name + " v"@ + version
        + "\n\nUSAGE:\n  Command [arguments]\n\nCOMMANDS:\n  help\tShows a list of commands.\n  quit\tClose the application.\n\n  Channels:\n      openchannel pubkey@[host:port] <amt_satoshis> [--public] [--with-anchors]\n      closechannel <channel_id> <peer_pubkey>\n      forceclosechannel <channel_id> <peer_pubkey>\n      listchannels\n\n  Peers:\n\n  Payments:\n      sendpayment <invoice|offer|human readable name> [<amount_msat>]\n\n  Invoices:\n      getinvoice <amt_msats> <expiry_secs>\n\n  Other:\n      nodeinfo\n"@
}

/// Writes the text of `help`.
pub fn help(name: &str, version: &str) -> (r: String)
    ensures
        r@ == help_text_of(name@, version@),
{
    let mut out = String::from_str("\nVERSION:\n  ");
    out.append(name);
    out.append(" v");
    out.append(version);
    out.append(
        "\n\nUSAGE:\n  Command [arguments]\n\nCOMMANDS:\n  help\tShows a list of commands.\n  quit\tClose the application.\n\n  Channels:\n      openchannel pubkey@[host:port] <amt_satoshis> [--public] [--with-anchors]\n      closechannel <channel_id> <peer_pubkey>\n      forceclosechannel <channel_id> <peer_pubkey>\n      listchannels\n\n  Peers:\n\n  Payments:\n      sendpayment <invoice|offer|human readable name> [<amount_msat>]\n\n  Invoices:\n      getinvoice <amt_msats> <expiry_secs>\n\n  Other:\n      nodeinfo\n",
    );
    out
}

/// What is said of a first word that names no command.
pub fn unknown_command_message() -> (r: String)
    ensures
        r@ == "Unknown command. See `\"help\" for available commands."@,
{
    String::from_str("Unknown command. See `\"help\" for available commands.")
}

} // verus!
