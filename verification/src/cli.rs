//! The command lines of the Hope OS programs: which command the arguments
//! ask for.

use vstd::prelude::*;
use crate::text::{append_chars, chars_eq, chars_of, join, join_chars, string_of, text};

verus! {

/// What `hope-mind` is asked to do.
#[derive(Debug, Clone, Copy, PartialEq, Eq)]
pub enum MindCommand {
    Chat,
    Status,
    Models,
    Select,
    Help,
    Version,
    /// No recognised command: greet, then chat.
    Default,
}

/// What `hope-shell` is asked to do.
#[derive(Debug, Clone, Copy, PartialEq, Eq)]
pub enum ShellCommand {
    Start,
    Config,
    Theme,
    Help,
    Version,
    /// No recognised command: greet, then start.
    Default,
}

/// What `hope-vault` is asked to do.
#[derive(Debug, Clone, PartialEq, Eq)]
pub enum VaultCommand {
    List,
    Add(String),
    Get(String),
    Remove(String),
    Version,
    /// `--help`, or no recognised command.
    Help,
}

/// What `hope-voice` is asked to do.
#[derive(Debug, Clone, PartialEq, Eq)]
pub enum VoiceCommand {
    Listen,
    Speak(String),
    Status,
    Version,
    /// `--help`, or no recognised command.
    Help,
}

/// What `hope-spotlight` is asked to do.
#[derive(Debug, Clone, PartialEq, Eq)]
pub enum SpotlightCommand {
    Help,
    Version,
    Search(String),
}

/// The first argument after the program name, if any.
pub open spec fn arg1(args: Seq<String>) -> Option<Seq<char>> {
    if args.len() > 1 {
        Some(args[1]@)
    } else {
        None
    }
}

/// The argument is one of the given words.
pub open spec fn is_word(a: Option<Seq<char>>, w: Seq<char>) -> bool {
    a == Some(w)
}

fn arg_is(args: &Vec<String>, k: usize, w: &str) -> (r: bool)
    ensures
        r == (k < args@.len() && args@[k as int]@ == w@),
{
    if k < args.len() {
        chars_eq(&chars_of(args[k].as_str()), &chars_of(w))
    } else {
        false
    }
}

/// Reads the `hope-mind` command line.
pub fn mind_command(args: &Vec<String>) -> (r: MindCommand)
    ensures
        r == (if is_word(arg1(args@), "chat"@) {
            MindCommand::Chat
        } else if is_word(arg1(args@), "status"@) {
            MindCommand::Status
        } else if is_word(arg1(args@), "models"@) {
            MindCommand::Models
        } else if is_word(arg1(args@), "select"@) {
            MindCommand::Select
        } else if is_word(arg1(args@), "--help"@) || is_word(arg1(args@), "-h"@) {
            MindCommand::Help
        } else if is_word(arg1(args@), "--version"@) || is_word(arg1(args@), "-v"@) {
            MindCommand::Version
        } else {
            MindCommand::Default
        }),
{
    if arg_is(args, 1, "chat") {
        MindCommand::Chat
    } else if arg_is(args, 1, "status") {
        MindCommand::Status
    } else if arg_is(args, 1, "models") {
        MindCommand::Models
    } else if arg_is(args, 1, "select") {
        MindCommand::Select
    } else if arg_is(args, 1, "--help") || arg_is(args, 1, "-h") {
        MindCommand::Help
    } else if arg_is(args, 1, "--version") || arg_is(args, 1, "-v") {
        MindCommand::Version
    } else {
        MindCommand::Default
    }
}

/// Reads the `hope-shell` command line.
pub fn shell_command(args: &Vec<String>) -> (r: ShellCommand)
    ensures
        r == (if is_word(arg1(args@), "start"@) {
            ShellCommand::Start
        } else if is_word(arg1(args@), "config"@) {
            ShellCommand::Config
        } else if is_word(arg1(args@), "theme"@) {
            ShellCommand::Theme
        } else if is_word(arg1(args@), "--help"@) || is_word(arg1(args@), "-h"@) {
            ShellCommand::Help
        } else if is_word(arg1(args@), "--version"@) || is_word(arg1(args@), "-v"@) {
            ShellCommand::Version
        } else {
            ShellCommand::Default
        }),
{
    if arg_is(args, 1, "start") {
        ShellCommand::Start
    } else if arg_is(args, 1, "config") {
        ShellCommand::Config
    } else if arg_is(args, 1, "theme") {
        ShellCommand::Theme
    } else if arg_is(args, 1, "--help") || arg_is(args, 1, "-h") {
        ShellCommand::Help
    } else if arg_is(args, 1, "--version") || arg_is(args, 1, "-v") {
        ShellCommand::Version
    } else {
        ShellCommand::Default
    }
}

/// The label argument of a vault command, or the usage message for it.
pub open spec fn label_or_usage(args: Seq<String>, usage: Seq<char>) -> Result<Seq<char>, Seq<char>> {
    if args.len() > 2 {
        Ok(args[2]@)
    } else {
        Err(usage)
    }
}

fn label_arg(args: &Vec<String>, usage: &str) -> (r: Result<String, String>)
    ensures
        match label_or_usage(args@, usage@) {
            Ok(l) => r matches Ok(s) && s@ == l,
            Err(u) => r matches Err(s) && s@ == u,
        },
{
    if args.len() > 2 {
        Ok(args[2].clone())
    } else {
        Err(String::from_str(usage))
    }
}

/// Reads the `hope-vault` command line; a command that needs a label and
/// lacks one gives its usage message.
pub fn vault_command(args: &Vec<String>) -> (r: Result<VaultCommand, String>)
    ensures
        if is_word(arg1(args@), "list"@) {
            r == Ok::<VaultCommand, String>(VaultCommand::List)
        } else if is_word(arg1(args@), "add"@) {
            match label_or_usage(args@, "Usage: hope-vault add <label>"@) {
                Ok(l) => r matches Ok(VaultCommand::Add(s)) && s@ == l,
                Err(u) => r matches Err(s) && s@ == u,
            }
        } else if is_word(arg1(args@), "get"@) {
            match label_or_usage(args@, "Usage: hope-vault get <label>"@) {
                Ok(l) => r matches Ok(VaultCommand::Get(s)) && s@ == l,
                Err(u) => r matches Err(s) && s@ == u,
            }
        } else if is_word(arg1(args@), "remove"@) {
            match label_or_usage(args@, "Usage: hope-vault remove <label>"@) {
                Ok(l) => r matches Ok(VaultCommand::Remove(s)) && s@ == l,
                Err(u) => r matches Err(s) && s@ == u,
            }
        } else if is_word(arg1(args@), "--version"@) || is_word(arg1(args@), "-v"@) {
            r == Ok::<VaultCommand, String>(VaultCommand::Version)
        } else {
            r == Ok::<VaultCommand, String>(VaultCommand::Help)
        },
{
    if arg_is(args, 1, "list") {
        Ok(VaultCommand::List)
    } else if arg_is(args, 1, "add") {
        match label_arg(args, "Usage: hope-vault add <label>") {
            Ok(l) => Ok(VaultCommand::Add(l)),
            Err(u) => Err(u),
        }
    } else if arg_is(args, 1, "get") {
        match label_arg(args, "Usage: hope-vault get <label>") {
            Ok(l) => Ok(VaultCommand::Get(l)),
            Err(u) => Err(u),
        }
    } else if arg_is(args, 1, "remove") {
        match label_arg(args, "Usage: hope-vault remove <label>") {
            Ok(l) => Ok(VaultCommand::Remove(l)),
            Err(u) => Err(u),
        }
    } else if arg_is(args, 1, "--version") || arg_is(args, 1, "-v") {
        Ok(VaultCommand::Version)
    } else {
        Ok(VaultCommand::Help)
    }
}

/// Reads the `hope-voice` command line; `speak` without a text speaks a
/// greeting.
pub fn voice_command(args: &Vec<String>) -> (r: VoiceCommand)
    ensures
        if is_word(arg1(args@), "listen"@) {
            r == VoiceCommand::Listen
        } else if is_word(arg1(args@), "speak"@) {
            r matches VoiceCommand::Speak(t) && t@ == (if args@.len() > 2 {
                args@[2]@
            } else {
                "Hello from Hope Voice"@
            })
        } else if is_word(arg1(args@), "status"@) {
            r == VoiceCommand::Status
        } else if is_word(arg1(args@), "--version"@) || is_word(arg1(args@), "-v"@) {
            r == VoiceCommand::Version
        } else {
            r == VoiceCommand::Help
        },
{
    if arg_is(args, 1, "listen") {
        VoiceCommand::Listen
    } else if arg_is(args, 1, "speak") {
        if args.len() > 2 {
            VoiceCommand::Speak(args[2].clone())
        } else {
            VoiceCommand::Speak(String::from_str("Hello from Hope Voice"))
        }
    } else if arg_is(args, 1, "status") {
        VoiceCommand::Status
    } else if arg_is(args, 1, "--version") || arg_is(args, 1, "-v") {
        VoiceCommand::Version
    } else {
        VoiceCommand::Help
    }
}

/// The search query: the arguments after the program name, joined by
/// spaces.
pub open spec fn query_of(args: Seq<String>) -> Seq<char> {
    join(args.drop_first().map_values(|a: String| a@), " "@)
}

/// Reads the `hope-spotlight` command line.
pub fn spotlight_command(args: &Vec<String>) -> (r: SpotlightCommand)
    requires
        args@.len() >= 1,
    ensures
        if query_of(args@).len() == 0 || query_of(args@) == "--help"@ || query_of(args@) == "-h"@ {
            r == SpotlightCommand::Help
        } else if query_of(args@) == "--version"@ || query_of(args@) == "-v"@ {
            r == SpotlightCommand::Version
        } else {
            r matches SpotlightCommand::Search(q) && q@ == query_of(args@)
        },
{
    let mut parts: Vec<Vec<char>> = Vec::new();
    let mut i: usize = 1;
    while i < args.len()
        invariant
            1 <= i <= args@.len(),
            parts@.len() == i - 1,
            forall|k: int| 0 <= k < i - 1 ==> #[trigger] parts@[k]@ == args@[k + 1]@,
        decreases args@.len() - i,
    {
        parts.push(chars_of(args[i].as_str()));
        i = i + 1;
    }
    proof {
        assert(parts@.map_values(|p: Vec<char>| p@) =~= args@.drop_first().map_values(|a: String| a@));
    }
    let q = join_chars(&parts, &text(" "));
    if q.len() == 0 || chars_eq(&q, &text("--help")) || chars_eq(&q, &text("-h")) {
        SpotlightCommand::Help
    } else if chars_eq(&q, &text("--version")) || chars_eq(&q, &text("-v")) {
        SpotlightCommand::Version
    } else {
        SpotlightCommand::Search(string_of(&q))
    }
}

} // verus!
