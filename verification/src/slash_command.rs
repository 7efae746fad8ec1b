//! Commands that can be invoked by starting a message with a leading slash.
use vstd::prelude::*;

verus! {

/// Commands that can be invoked by starting a message with a leading slash.
/// The order of the variants is the order in which the popup lists them.
#[derive(Debug, Clone, Copy, PartialEq, Eq, Structural, Hash)]
pub enum SlashCommand {
    Model,
    Approvals,
    New,
    Init,
    Compact,
    Diff,
    Mention,
    Status,
    Mcp,
    Logout,
    Quit,
}

/// The command's name: its variant in kebab case, without the leading '/'.
pub open spec fn command_name(c: SlashCommand) -> Seq<char> {
    match c {
        SlashCommand::Model => seq!['m', 'o', 'd', 'e', 'l'],
        SlashCommand::Approvals => seq!['a', 'p', 'p', 'r', 'o', 'v', 'a', 'l', 's'],
        SlashCommand::New => seq!['n', 'e', 'w'],
        SlashCommand::Init => seq!['i', 'n', 'i', 't'],
        SlashCommand::Compact => seq!['c', 'o', 'm', 'p', 'a', 'c', 't'],
        SlashCommand::Diff => seq!['d', 'i', 'f', 'f'],
        SlashCommand::Mention => seq!['m', 'e', 'n', 't', 'i', 'o', 'n'],
        SlashCommand::Status => seq!['s', 't', 'a', 't', 'u', 's'],
        SlashCommand::Mcp => seq!['m', 'c', 'p'],
        SlashCommand::Logout => seq!['l', 'o', 'g', 'o', 'u', 't'],
        SlashCommand::Quit => seq!['q', 'u', 'i', 't'],
    }
}

/// All commands, in presentation order.
pub open spec fn all_commands() -> Seq<SlashCommand> {
    seq![
        SlashCommand::Model,
        SlashCommand::Approvals,
        SlashCommand::New,
        SlashCommand::Init,
        SlashCommand::Compact,
        SlashCommand::Diff,
        SlashCommand::Mention,
        SlashCommand::Status,
        SlashCommand::Mcp,
        SlashCommand::Logout,
        SlashCommand::Quit,
    ]
}

/// The user-visible description of each command.
pub open spec fn command_description(c: SlashCommand) -> Seq<char> {
    match c {
        SlashCommand::Model => "choose what model and reasoning effort to use"@,
        SlashCommand::Approvals => "choose what Codex can do without approval"@,
        SlashCommand::New => "start a new chat during a conversation"@,
        SlashCommand::Init => "create an AGENTS.md file with instructions for Codex"@,
        SlashCommand::Compact => "summarize conversation to prevent hitting the context limit"@,
        SlashCommand::Diff => "show git diff (including untracked files)"@,
        SlashCommand::Mention => "mention a file"@,
        SlashCommand::Status => "show current session configuration and token usage"@,
        SlashCommand::Mcp => "list configured MCP tools"@,
        SlashCommand::Logout => "log out of Codex"@,
        SlashCommand::Quit => "Exit the application."@,
    }
}

impl SlashCommand {
    /// User-visible description shown in the popup.
    pub fn description(self) -> (r: &'static str)
        ensures
            r@ == command_description(self),
    {
        match self {
            SlashCommand::Model => "choose what model and reasoning effort to use",
            SlashCommand::Approvals => "choose what Codex can do without approval",
            SlashCommand::New => "start a new chat during a conversation",
            SlashCommand::Init => "create an AGENTS.md file with instructions for Codex",
            SlashCommand::Compact => "summarize conversation to prevent hitting the context limit",
            SlashCommand::Diff => "show git diff (including untracked files)",
            SlashCommand::Mention => "mention a file",
            SlashCommand::Status => "show current session configuration and token usage",
            SlashCommand::Mcp => "list configured MCP tools",
            SlashCommand::Logout => "log out of Codex",
            SlashCommand::Quit => "Exit the application.",
        }
    }

    /// Command string without the leading '/'.
    pub fn command(self) -> (r: &'static str)
        ensures
            r@ == command_name(self),
    {
        match self {
            SlashCommand::Model => {
                proof {
                    reveal_strlit("model");
                }
                "model"
            },
            SlashCommand::Approvals => {
                proof {
                    reveal_strlit("approvals");
                }
                "approvals"
            },
            SlashCommand::New => {
                proof {
                    reveal_strlit("new");
                }
                "new"
            },
            SlashCommand::Init => {
                proof {
                    reveal_strlit("init");
                }
                "init"
            },
            SlashCommand::Compact => {
                proof {
                    reveal_strlit("compact");
                }
                "compact"
            },
            SlashCommand::Diff => {
                proof {
                    reveal_strlit("diff");
                }
                "diff"
            },
            SlashCommand::Mention => {
                proof {
                    reveal_strlit("mention");
                }
                "mention"
            },
            SlashCommand::Status => {
                proof {
                    reveal_strlit("status");
                }
                "status"
            },
            SlashCommand::Mcp => {
                proof {
                    reveal_strlit("mcp");
                }
                "mcp"
            },
            SlashCommand::Logout => {
                proof {
                    reveal_strlit("logout");
                }
                "logout"
            },
            SlashCommand::Quit => {
                proof {
                    reveal_strlit("quit");
                }
                "quit"
            },
        }
    }
}

/// All built-in commands paired with their command string, in presentation
/// order.
pub fn built_in_slash_commands() -> (r: Vec<(&'static str, SlashCommand)>)
    ensures
        r@.len() == all_commands().len(),
        forall|i: int|
            0 <= i < r@.len() ==> (#[trigger] r@[i]).1 == all_commands()[i] && r@[i].0@
                == command_name(all_commands()[i]),
{
    let all = [
        SlashCommand::Model,
        SlashCommand::Approvals,
        SlashCommand::New,
        SlashCommand::Init,
        SlashCommand::Compact,
        SlashCommand::Diff,
        SlashCommand::Mention,
        SlashCommand::Status,
        SlashCommand::Mcp,
        SlashCommand::Logout,
        SlashCommand::Quit,
    ];
    assert(all@ =~= all_commands());
    let mut r: Vec<(&'static str, SlashCommand)> = Vec::new();
    let mut i: usize = 0;
    while i < 11
        invariant
            all@ == all_commands(),
            i <= 11,
            r@.len() == i,
            forall|j: int|
                0 <= j < i ==> (#[trigger] r@[j]).1 == all_commands()[j] && r@[j].0@
                    == command_name(all_commands()[j]),
        decreases 11 - i,
    {
        let c = all[i];
        r.push((c.command(), c));
        i += 1;
    }
    r
}

} // verus!
