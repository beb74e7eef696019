//! The command line: which command a list of arguments asks for.

use vstd::prelude::*;
use vstd::string::StringExecFns;
use crate::text::chars_of;

verus! {

/// A command of the program.
#[derive(Debug, PartialEq)]
pub enum Command {
    Login,
    Whoami,
    RemoteList,
    RemoteAdd { repo: String },
    RemoteRemove { repo: String },
    Push,
    Help,
    Unknown(String),
}

/// The mathematical content of a [`Command`].
pub enum CommandView {
    Login,
    Whoami,
    RemoteList,
    RemoteAdd { repo: Seq<char> },
    RemoteRemove { repo: Seq<char> },
    Push,
    Help,
    Unknown(Seq<char>),
}

impl View for Command {
    type V = CommandView;

    open spec fn view(&self) -> CommandView {
        match self {
            Command::Login => CommandView::Login,
            Command::Whoami => CommandView::Whoami,
            Command::RemoteList => CommandView::RemoteList,
            Command::RemoteAdd { repo } => CommandView::RemoteAdd { repo: repo@ },
            Command::RemoteRemove { repo } => CommandView::RemoteRemove { repo: repo@ },
            Command::Push => CommandView::Push,
            Command::Help => CommandView::Help,
            Command::Unknown(message) => CommandView::Unknown(message@),
        }
    }
}

/// Whether `name` has the shape `<owner>/<repo>`: exactly one slash, with
/// something before it and something after it.
pub open spec fn is_repository_name(name: Seq<char>) -> bool {
    exists|at: int|
        {
            &&& 0 < at < name.len() - 1
            &&& #[trigger] name[at] == '/'
            &&& forall|other: int|
                0 <= other < name.len() && other != at ==> #[trigger] name[other] != '/'
        }
}

/// Whether `word` names a subcommand of `remote` that takes a repository.
pub open spec fn is_remote_subcommand(word: Seq<char>) -> bool {
    word == "add"@ || word == "remove"@
}

/// The command that a single word after the program name asks for.
pub open spec fn single_word_command(word: Seq<char>) -> CommandView {
    if word == "login"@ {
        CommandView::Login
    } else if word == "whoami"@ {
        CommandView::Whoami
    } else if word == "remote"@ {
        CommandView::RemoteList
    } else if word == "push"@ {
        CommandView::Push
    } else if word == "help"@ {
        CommandView::Help
    } else {
        CommandView::Unknown(word)
    }
}

/// The command that two words after the program name ask for: none is
/// complete with two words, so the answer says what is missing or unknown.
pub open spec fn two_word_command(first: Seq<char>, second: Seq<char>) -> CommandView {
    if first == "remote"@ {
        if is_remote_subcommand(second) {
            CommandView::Unknown(
                "Missing repository argument. Usage: atat remote "@ + second
                    + " <owner>/<repo>"@,
            )
        } else {
            CommandView::Unknown("remote "@ + second)
        }
    } else {
        CommandView::Unknown(first)
    }
}

/// The command that three or more words after the program name ask for;
/// words after the third are ignored.
pub open spec fn long_command(first: Seq<char>, second: Seq<char>, third: Seq<char>) -> CommandView {
    if first == "remote"@ {
        if !is_remote_subcommand(second) {
            CommandView::Unknown("remote "@ + second)
        } else if !is_repository_name(third) {
            CommandView::Unknown("Invalid repository format. Please use <owner>/<repo>."@)
        } else if second == "add"@ {
            CommandView::RemoteAdd { repo: third }
        } else {
            CommandView::RemoteRemove { repo: third }
        }
    } else {
        CommandView::Unknown(first + " "@ + second)
    }
}

/// The command that `args` asks for; `args[0]` is the program's name.
pub open spec fn parsed_command(args: Seq<Seq<char>>) -> CommandView {
    if args.len() <= 1 {
        CommandView::Help
    } else if args.len() == 2 {
        single_word_command(args[1])
    } else if args.len() == 3 {
        two_word_command(args[1], args[2])
    } else {
        long_command(args[1], args[2], args[3])
    }
}

/// Whether `name` has the shape `<owner>/<repo>`.
pub fn check_repository_name(name: &str) -> (r: bool)
    ensures
        r == is_repository_name(name@),
{
    let chars = chars_of(name);
    let mut slash: Option<usize> = None;
    let mut at: usize = 0;
    while at < chars.len()
        invariant
            at <= chars.len(),
            chars@ == name@,
            match slash {
                Some(found) => found < at && chars[found as int] == '/' && forall|other: int|
                    0 <= other < at && other != found ==> #[trigger] chars[other] != '/',
                None => forall|other: int| 0 <= other < at ==> #[trigger] chars[other] != '/',
            },
        decreases chars.len() - at,
    {
        if chars[at] == '/' {
            match slash {
                Some(found) => {
                    assert(!is_repository_name(name@)) by {
                        if is_repository_name(name@) {
                            let only = choose|only: int|
                                {
                                    &&& 0 < only < name@.len() - 1
                                    &&& #[trigger] name@[only] == '/'
                                    &&& forall|other: int|
                                        0 <= other < name@.len() && other != only
                                            ==> #[trigger] name@[other] != '/'
                                };
                            assert(name@[found as int] == '/');
                            assert(name@[at as int] == '/');
                        }
                    }
                    return false;
                },
                None => {
                    slash = Some(at);
                },
            }
        }
        at += 1;
    }
    match slash {
        Some(found) => {
            let ok = 0 < found && found < chars.len() - 1;
            proof {
                if ok {
                    assert(name@[found as int] == '/');
                } else if is_repository_name(name@) {
                    let only = choose|only: int|
                        {
                            &&& 0 < only < name@.len() - 1
                            &&& #[trigger] name@[only] == '/'
                            &&& forall|other: int|
                                0 <= other < name@.len() && other != only
                                    ==> #[trigger] name@[other] != '/'
                        };
                    assert(name@[found as int] == '/');
                }
            }
            ok
        },
        None => false,
    }
}

fn check_remote_subcommand(word: &str) -> (r: bool)
    ensures
        r == is_remote_subcommand(word@),
{
    *word == *"add" || *word == *"remove"
}

fn unknown(parts: &[&str]) -> (r: Command)
    requires
        1 <= parts.len() <= 3,
    ensures
        parts.len() == 1 ==> r@ == CommandView::Unknown(parts[0]@),
        parts.len() == 2 ==> r@ == CommandView::Unknown(parts[0]@ + parts[1]@),
        parts.len() == 3 ==> r@ == CommandView::Unknown(parts[0]@ + parts[1]@ + parts[2]@),
{
    let mut message = String::from_str(parts[0]);
    if parts.len() > 1 {
        message.append(parts[1]);
    }
    if parts.len() > 2 {
        message.append(parts[2]);
    }
    Command::Unknown(message)
}

/// Reads the command that `args` asks for; `args[0]` is the program's name.
pub fn parse_args(args: &[String]) -> (r: Command)
    ensures
        r@ == parsed_command(args.deep_view()),
{
    let ghost words = args.deep_view();
    if args.len() <= 1 {
        return Command::Help;
    }
    let first = args[1].as_str();
    assert(first@ == words[1]);
    if args.len() == 2 {
        return if *first == *"login" {
            Command::Login
        } else if *first == *"whoami" {
            Command::Whoami
        } else if *first == *"remote" {
            Command::RemoteList
        } else if *first == *"push" {
            Command::Push
        } else if *first == *"help" {
            Command::Help
        } else {
            unknown(&[first])
        };
    }
    let second = args[2].as_str();
    assert(second@ == words[2]);
    let remote = *first == *"remote";
    if args.len() == 3 {
        return if remote {
            if check_remote_subcommand(second) {
                unknown(
                    &[
                        "Missing repository argument. Usage: atat remote ",
                        second,
                        " <owner>/<repo>",
                    ],
                )
            } else {
                unknown(&["remote ", second])
            }
        } else {
            unknown(&[first])
        };
    }
    let third = &args[3];
    assert(third@ == words[3]);
    if remote {
        if !check_remote_subcommand(second) {
            unknown(&["remote ", second])
        } else if !check_repository_name(third.as_str()) {
            unknown(&["Invalid repository format. Please use <owner>/<repo>."])
        } else if *second == *"add" {
            Command::RemoteAdd { repo: third.clone() }
        } else {
            Command::RemoteRemove { repo: third.clone() }
        }
    } else {
        unknown(&[first, " ", second])
    }
}

} // verus!
