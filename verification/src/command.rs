//! The operator's command grammar. A line is cut into whitespace-separated
//! tokens, and the tokens are matched by their number and their first
//! words. Anything that fits no command is `Invalid`.

use crate::text::{split_whitespace, texts, tokens};
use vstd::prelude::*;

verus! {

/// A command, as contracts see it.
pub enum CommandView {
    Help,
    Register { username: Seq<char>, admin: bool },
    Put { key: Seq<char>, value: Seq<char>, public_key: Seq<char>, signature: Seq<char> },
    Get { key: Seq<char>, public_key: Seq<char>, signature: Seq<char> },
    PutFile { key: Seq<char>, path: Seq<char>, public_key: Seq<char>, signature: Seq<char> },
    GetFile { key: Seq<char>, public_key: Seq<char>, signature: Seq<char> },
    Permission { key: Seq<char>, public_key: Seq<char> },
    Sign { username: Seq<char>, message: Seq<char> },
    Listen { address: Seq<char> },
    Exit,
    Invalid,
}

/// A command of the operator. Public keys and signatures are still the
/// hexadecimal texts that were typed.
#[derive(Clone, Debug, PartialEq, Eq)]
pub enum Command {
    /// `help`
    Help,
    /// `register <username> [--admin]`
    Register { username: String, admin: bool },
    /// `put <key> <value> <pk_hex> <sig_hex>`
    Put { key: String, value: String, public_key: String, signature: String },
    /// `get <key> <pk_hex> <sig_hex>`
    Get { key: String, public_key: String, signature: String },
    /// `put -f <key> <file_path> <pk_hex> <sig_hex>`
    PutFile { key: String, path: String, public_key: String, signature: String },
    /// `get -f <key> <pk_hex> <sig_hex>`
    GetFile { key: String, public_key: String, signature: String },
    /// `permission <key> <pk_hex>`
    Permission { key: String, public_key: String },
    /// `sign <username> <message>`
    Sign { username: String, message: String },
    /// `listen <multi_address>`
    Listen { address: String },
    /// `exit`
    Exit,
    /// Anything else.
    Invalid,
}

impl View for Command {
    type V = CommandView;

    open spec fn view(&self) -> CommandView {
        match self {
            Command::Help => CommandView::Help,
            Command::Register { username, admin } => CommandView::Register {
                username: username@,
                admin: *admin,
            },
            Command::Put { key, value, public_key, signature } => CommandView::Put {
                key: key@,
                value: value@,
                public_key: public_key@,
                signature: signature@,
            },
            Command::Get { key, public_key, signature } => CommandView::Get {
                key: key@,
                public_key: public_key@,
                signature: signature@,
            },
            Command::PutFile { key, path, public_key, signature } => CommandView::PutFile {
                key: key@,
                path: path@,
                public_key: public_key@,
                signature: signature@,
            },
            Command::GetFile { key, public_key, signature } => CommandView::GetFile {
                key: key@,
                public_key: public_key@,
                signature: signature@,
            },
            Command::Permission { key, public_key } => CommandView::Permission {
                key: key@,
                public_key: public_key@,
            },
            Command::Sign { username, message } => CommandView::Sign {
                username: username@,
                message: message@,
            },
            Command::Listen { address } => CommandView::Listen { address: address@ },
            Command::Exit => CommandView::Exit,
            Command::Invalid => CommandView::Invalid,
        }
    }
}

/// The command that a line's tokens make. The shapes are tried in this
/// order, so `put -f k p s` is a `put` of the key `-f`.
pub open spec fn command_of(words: Seq<Seq<char>>) -> CommandView {
    if words.len() == 1 && words[0] == "help"@ {
        CommandView::Help
    } else if words.len() == 3 && words[0] == "register"@ && words[2] == "--admin"@ {
        CommandView::Register { username: words[1], admin: true }
    } else if words.len() == 2 && words[0] == "register"@ {
        CommandView::Register { username: words[1], admin: false }
    } else if words.len() == 5 && words[0] == "put"@ {
        CommandView::Put {
            key: words[1],
            value: words[2],
            public_key: words[3],
            signature: words[4],
        }
    } else if words.len() == 4 && words[0] == "get"@ {
        CommandView::Get { key: words[1], public_key: words[2], signature: words[3] }
    } else if words.len() == 6 && words[0] == "put"@ && words[1] == "-f"@ {
        CommandView::PutFile {
            key: words[2],
            path: words[3],
            public_key: words[4],
            signature: words[5],
        }
    } else if words.len() == 5 && words[0] == "get"@ && words[1] == "-f"@ {
        CommandView::GetFile { key: words[2], public_key: words[3], signature: words[4] }
    } else if words.len() == 3 && words[0] == "permission"@ {
        CommandView::Permission { key: words[1], public_key: words[2] }
    } else if words.len() == 3 && words[0] == "sign"@ {
        CommandView::Sign { username: words[1], message: words[2] }
    } else if words.len() == 2 && words[0] == "listen"@ {
        CommandView::Listen { address: words[1] }
    } else if words.len() == 1 && words[0] == "exit"@ {
        CommandView::Exit
    } else {
        CommandView::Invalid
    }
}

/// Whether a token is the given word.
fn is_word(token: &String, word: &str) -> (same: bool)
    ensures
        same == (token@ == word@),
{
    let expected = String::from_str(word);
    *token == expected
}

/// Reads one line of the operator.
pub fn parse_command(line: &str) -> (command: Command)
    ensures
        command@ == command_of(tokens(line@)),
{
    let words = split_whitespace(line);
    let n = words.len();
    proof {
        assert(forall|i: int| 0 <= i < words@.len() ==> words@[i]@ == texts(words@)[i]);
    }
    if n == 1 && is_word(&words[0], "help") {
        Command::Help
    } else if n == 3 && is_word(&words[0], "register") && is_word(&words[2], "--admin") {
        Command::Register { username: words[1].clone(), admin: true }
    } else if n == 2 && is_word(&words[0], "register") {
        Command::Register { username: words[1].clone(), admin: false }
    } else if n == 5 && is_word(&words[0], "put") {
        Command::Put {
            key: words[1].clone(),
            value: words[2].clone(),
            public_key: words[3].clone(),
            signature: words[4].clone(),
        }
    } else if n == 4 && is_word(&words[0], "get") {
        Command::Get {
            key: words[1].clone(),
            public_key: words[2].clone(),
            signature: words[3].clone(),
        }
    } else if n == 6 && is_word(&words[0], "put") && is_word(&words[1], "-f") {
        Command::PutFile {
            key: words[2].clone(),
            path: words[3].clone(),
            public_key: words[4].clone(),
            signature: words[5].clone(),
        }
    } else if n == 5 && is_word(&words[0], "get") && is_word(&words[1], "-f") {
        Command::GetFile {
            key: words[2].clone(),
            public_key: words[3].clone(),
            signature: words[4].clone(),
        }
    } else if n == 3 && is_word(&words[0], "permission") {
        Command::Permission { key: words[1].clone(), public_key: words[2].clone() }
    } else if n == 3 && is_word(&words[0], "sign") {
        Command::Sign { username: words[1].clone(), message: words[2].clone() }
    } else if n == 2 && is_word(&words[0], "listen") {
        Command::Listen { address: words[1].clone() }
    } else if n == 1 && is_word(&words[0], "exit") {
        Command::Exit
    } else {
        Command::Invalid
    }
}

} // verus!
