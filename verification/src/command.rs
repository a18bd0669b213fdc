//! The command line: which command the arguments name, and the commands that
//! only change the node's own flags.
use vstd::prelude::*;
use crate::config::texts;
use crate::state::GlobalState;
use crate::text::text_eq;

verus! {

/// A command of the command line.
pub enum Command {
    /// `start`: start the server.
    Start,
    /// `node add ADDRESS`: add the node that listens at the address.
    NodeAdd(String),
    /// `node add` without an address: show its help.
    NodeAddHelp,
    /// `node del`.
    NodeDel,
    /// `node list` or `node ls`.
    NodeList,
    /// `node` alone or with another word: show its help.
    NodeHelp,
    /// `test`: add the node at `127.0.0.1:8000`.
    Test,
    /// Anything else: show the help.
    Help,
}

pub enum CommandView {
    Start,
    NodeAdd(Seq<char>),
    NodeAddHelp,
    NodeDel,
    NodeList,
    NodeHelp,
    Test,
    Help,
}

impl View for Command {
    type V = CommandView;

    open spec fn view(&self) -> CommandView {
        match self {
            Command::Start => CommandView::Start,
            Command::NodeAdd(a) => CommandView::NodeAdd(a@),
            Command::NodeAddHelp => CommandView::NodeAddHelp,
            Command::NodeDel => CommandView::NodeDel,
            Command::NodeList => CommandView::NodeList,
            Command::NodeHelp => CommandView::NodeHelp,
            Command::Test => CommandView::Test,
            Command::Help => CommandView::Help,
        }
    }
}

/// The command that the arguments (the program name first) name.
pub open spec fn command_of(a: Seq<Seq<char>>) -> CommandView {
    if a.len() > 1 {
        if a[1] == "start"@ {
            CommandView::Start
        } else if a[1] == "node"@ {
            if a.len() > 2 {
                if a[2] == "add"@ {
                    if a.len() < 4 {
                        CommandView::NodeAddHelp
                    } else {
                        CommandView::NodeAdd(a[3])
                    }
                } else if a[2] == "del"@ {
                    CommandView::NodeDel
                } else if a[2] == "list"@ || a[2] == "ls"@ {
                    CommandView::NodeList
                } else {
                    CommandView::NodeHelp
                }
            } else {
                CommandView::NodeHelp
            }
        } else if a[1] == "test"@ {
            CommandView::Test
        } else {
            CommandView::Help
        }
    } else {
        CommandView::Help
    }
}

/// Reads the command from the program's arguments.
pub fn command_parse(args: &Vec<String>) -> (r: Command)
    ensures
        r@ == command_of(texts(args@)),
{
    let ghost a = texts(args@);
    let n = args.len();
    if n > 1 {
        assert(a[1] == args@[1]@);
        if text_eq(&args[1], "start") {
            Command::Start
        } else if text_eq(&args[1], "node") {
            if n > 2 {
                assert(a[2] == args@[2]@);
                if text_eq(&args[2], "add") {
                    if n < 4 {
                        Command::NodeAddHelp
                    } else {
                        assert(a[3] == args@[3]@);
                        Command::NodeAdd(args[3].clone())
                    }
                } else if text_eq(&args[2], "del") {
                    Command::NodeDel
                } else if text_eq(&args[2], "list") || text_eq(&args[2], "ls") {
                    Command::NodeList
                } else {
                    Command::NodeHelp
                }
            } else {
                Command::NodeHelp
            }
        } else if text_eq(&args[1], "test") {
            Command::Test
        } else {
            Command::Help
        }
    } else {
        Command::Help
    }
}

/// `node add` names the node by the fourth argument, whatever follows it.
pub proof fn law_node_add_takes_fourth_argument(a: Seq<Seq<char>>)
    requires
        a.len() >= 4,
        a[1] == "node"@,
        a[2] == "add"@,
    ensures
        command_of(a) == CommandView::NodeAdd(a[3]),
{
    reveal_strlit("node");
    reveal_strlit("start");
    reveal_strlit("add");
    assert("node"@ != "start"@) by {
        assert("node"@[0] != "start"@[0]);
    }
}

/// The command depends on the first four arguments alone: arguments added
/// after them (such as a `-p` option) do not change it.
pub proof fn law_command_ignores_later_arguments(a: Seq<Seq<char>>, later: Seq<Seq<char>>)
    requires
        a.len() >= 4,
    ensures
        command_of(a + later) == command_of(a),
{
    let b = a + later;
    assert(b[1] == a[1] && b[2] == a[2] && b[3] == a[3]);
}

/// `start`: asks for the server to start.
pub fn start(state: &mut GlobalState)
    ensures
        final(state).start_server,
        final(state).listen_leader_beat == old(state).listen_leader_beat,
{
    state.start_server = true;
}

/// `node del`: not implemented; it does nothing.
pub fn node_del() {
}

/// `node list`: not implemented; it does nothing.
pub fn node_ls() {
}

} // verus!
