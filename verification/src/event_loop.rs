//! The node's side of the event loop. The loop itself waits for the
//! operator and for the network; each thing that arrives is handed to one
//! of the functions here, which changes the node where the event calls for
//! it and answers with the actions to carry out, in order. Some actions
//! come back as an event of their own: a file that was read, a key that was
//! written, a chunk that was appended.

use crate::auth::{PendingRegistration, PendingView, RegistrationError};
use crate::behaviour::{
    on_record, progress_after, record_step, ChunkView, ChunkWrite, Progress, ProgressView,
    RecordStep, StepView, WriteOutcome,
};
use crate::chunk::{chunk_key, chunk_key_text, total_key, total_key_text, Record};
use crate::command::{command_of, parse_command, Command, CommandView};
use crate::hexcode::{decode_hex, encode_hex, hex_bytes, hex_text, is_hex_text};
use crate::node::{
    file_requests, get_request, put_request, request_views, AccessError, DhtRequest, Node,
    PutFileError, RequestView,
};
use crate::signing::{
    ed25519_public_key, ed25519_signature, key_length_error, private_key_location,
    private_key_path, sign_message, KeyFile, SignError, KEY_BYTES,
};
use crate::text::{bytes_to_text, decimal, decimal_string, lossy_text, tokens};
use vstd::prelude::*;
use vstd::utf8::encode_utf8;

verus! {

/// A file on its way into the table, as contracts see it.
pub struct UploadView {
    pub key: Seq<char>,
    pub path: Seq<char>,
    pub total: usize,
    pub rest: Seq<RequestView>,
}

/// A file on its way into the table: the writes that are still to be sent
/// after the one that is out.
#[derive(Clone, Debug, PartialEq, Eq)]
pub struct FileUpload {
    /// The key the file is stored under.
    pub key: String,
    /// The path the file was read from.
    pub path: String,
    /// The number of chunks of the file.
    pub total: usize,
    /// The writes after the one that is out, in order: the later chunks,
    /// then the number of chunks.
    pub rest: Vec<DhtRequest>,
}

impl View for FileUpload {
    type V = UploadView;

    open spec fn view(&self) -> UploadView {
        UploadView {
            key: self.key@,
            path: self.path@,
            total: self.total,
            rest: request_views(self.rest@),
        }
    }
}

/// One thing for the loop to carry out, as contracts see it.
pub enum ActionView {
    Print(Seq<char>),
    PrintError(Seq<char>),
    StorePrivateKey(PendingView),
    LoadPrivateKey { path: Seq<char>, message: Seq<char> },
    ReadFile { key: Seq<char>, path: Seq<char>, public_key: Seq<u8>, signature: Seq<u8> },
    Send(RequestView),
    SendFile { request: RequestView, upload: UploadView },
    WriteChunk(ChunkView),
    Listen(Seq<char>),
    Exit,
}

/// One thing for the loop to carry out.
#[derive(Clone, Debug, PartialEq, Eq)]
pub enum Action {
    /// Print the line on standard output.
    Print(String),
    /// Print the line on standard error.
    PrintError(String),
    /// Write the private key to its path, in place of what the file held,
    /// then call [`Node::on_key_stored`] with the outcome.
    StorePrivateKey(PendingRegistration),
    /// Read the private key at `path`, then call [`Node::on_key_loaded`]
    /// with what was found.
    LoadPrivateKey { path: String, message: String },
    /// Read the file at `path` as text, then call [`Node::on_file_read`]
    /// with the outcome.
    ReadFile { key: String, path: String, public_key: Vec<u8>, signature: Vec<u8> },
    /// Hand the request to the distributed hash table. After a write, call
    /// [`Node::on_put_answered`] with whether the table took it. A lookup is
    /// answered by the table's own event.
    Send(DhtRequest),
    /// Hand this write of a file to the distributed hash table, then call
    /// [`Node::on_file_write`] with the upload and whether the table took
    /// the write.
    SendFile { request: DhtRequest, upload: FileUpload },
    /// Write the chunk to its file in the working directory, then call
    /// [`Node::on_chunk_written`] with the outcome.
    WriteChunk(ChunkWrite),
    /// Listen on the address as well, then call
    /// [`Node::on_listen_answered`] with the outcome.
    Listen(String),
    /// Leave the loop.
    Exit,
}

impl View for Action {
    type V = ActionView;

    open spec fn view(&self) -> ActionView {
        match self {
            Action::Print(text) => ActionView::Print(text@),
            Action::PrintError(text) => ActionView::PrintError(text@),
            Action::StorePrivateKey(pending) => ActionView::StorePrivateKey(pending@),
            Action::LoadPrivateKey { path, message } => ActionView::LoadPrivateKey {
                path: path@,
                message: message@,
            },
            Action::ReadFile { key, path, public_key, signature } => ActionView::ReadFile {
                key: key@,
                path: path@,
                public_key: public_key@,
                signature: signature@,
            },
            Action::Send(request) => ActionView::Send(request@),
            Action::SendFile { request, upload } => ActionView::SendFile {
                request: request@,
                upload: upload@,
            },
            Action::WriteChunk(chunk) => ActionView::WriteChunk(chunk@),
            Action::Listen(address) => ActionView::Listen(address@),
            Action::Exit => ActionView::Exit,
        }
    }
}

/// The views of a vector of actions, in order.
pub open spec fn action_views(actions: Seq<Action>) -> Seq<ActionView> {
    Seq::new(actions.len(), |i: int| actions[i]@)
}

/// A line for standard output.
pub open spec fn say(text: Seq<char>) -> ActionView {
    ActionView::Print(text)
}

/// A line for standard error.
pub open spec fn warn(text: Seq<char>) -> ActionView {
    ActionView::PrintError(text)
}

/// The lines of `help`.
pub open spec fn help_lines() -> Seq<ActionView> {
    seq![
        say("Available commands:"@),
        say("  register <username> [--admin]        - Register a new user"@),
        say("  put <key> <value> <pk> <sig>         - Store a key-value pair"@),
        say("  put -f <key> <file_path> <pk> <sig>  - Store a file"@),
        say("  get <key> <pk> <sig>                 - Retrieve a key-value pair"@),
        say("  get -f <key> <pk> <sig>              - Retrieve a file"@),
        say("  sign <username> <key>                - Sign a file"@),
        say("  permission <key> <pk>                - Permit access to a file"@),
        say("  listen <address>                     - Start listening on an address"@),
        say("  help                                 - Print this help message"@),
        say("  exit                                 - Exit the program gracefully"@),
    ]
}

/// What the operator typed as a public key and a signature, read as bytes,
/// or the line that says which of the two is not hexadecimal. The public
/// key is looked at first.
pub open spec fn credentials_of(public_key: Seq<char>, signature: Seq<char>) -> Result<
    (Seq<u8>, Seq<u8>),
    ActionView,
> {
    if !is_hex_text(public_key) {
        Err(say("Invalid public key format"@))
    } else if !is_hex_text(signature) {
        Err(say("Invalid signature format"@))
    } else {
        Ok((hex_bytes(public_key), hex_bytes(signature)))
    }
}

/// The line on standard error for a request that was turned away. `what`
/// names what was asked for: `key`, `file` or `file retrieval`.
pub open spec fn refusal(error: AccessError, what: Seq<char>, key: Seq<char>) -> ActionView {
    match error {
        AccessError::AuthenticationFailed => warn(
            "Authentication failed for "@ + what + ": "@ + key,
        ),
        AccessError::PermissionDenied => warn("Permission denied for "@ + what + ": "@ + key),
    }
}

/// The answer to `put`.
pub open spec fn put_reaction(
    node: Node,
    key: Seq<char>,
    value: Seq<char>,
    public_key: Seq<char>,
    signature: Seq<char>,
) -> Seq<ActionView> {
    match credentials_of(public_key, signature) {
        Err(line) => seq![line],
        Ok(c) => match node.admits(key, c.0, c.1) {
            Err(error) => seq![refusal(error, "key"@, key), say("Operation failed"@)],
            Ok(_) => seq![ActionView::Send(put_request(key, encode_utf8(value)))],
        },
    }
}

/// The answer to `get`.
pub open spec fn get_reaction(
    node: Node,
    key: Seq<char>,
    public_key: Seq<char>,
    signature: Seq<char>,
) -> Seq<ActionView> {
    match credentials_of(public_key, signature) {
        Err(line) => seq![line],
        Ok(c) => match node.admits(key, c.0, c.1) {
            Err(error) => seq![refusal(error, "key"@, key), say("Retrieval failed"@)],
            Ok(_) => seq![ActionView::Send(get_request(key)), say("Retrieving key-value pair"@)],
        },
    }
}

/// The answer to `put -f`.
pub open spec fn put_file_reaction(
    node: Node,
    key: Seq<char>,
    path: Seq<char>,
    public_key: Seq<char>,
    signature: Seq<char>,
) -> Seq<ActionView> {
    match credentials_of(public_key, signature) {
        Err(line) => seq![line],
        Ok(c) => match node.admits(key, c.0, c.1) {
            Err(error) => seq![
                refusal(error, "file"@, key),
                say("File storage operation failed"@),
            ],
            Ok(_) => seq![ActionView::ReadFile { key, path, public_key: c.0, signature: c.1 }],
        },
    }
}

/// The answer to `get -f`.
pub open spec fn get_file_reaction(
    node: Node,
    key: Seq<char>,
    public_key: Seq<char>,
    signature: Seq<char>,
) -> Seq<ActionView> {
    match credentials_of(public_key, signature) {
        Err(line) => seq![line],
        Ok(c) => match node.admits(key, c.0, c.1) {
            Err(error) => seq![
                refusal(error, "file retrieval"@, key),
                say("File retrieval failed"@),
            ],
            Ok(_) => seq![
                ActionView::Send(get_request(total_key_text(key))),
                say("Initiated retrieval for file '"@ + key + "'"@),
                say("Retrieving file with key: "@ + key),
            ],
        },
    }
}

/// The answer to `permission`.
pub open spec fn permission_reaction(key: Seq<char>, public_key: Seq<char>) -> Seq<ActionView> {
    if is_hex_text(public_key) {
        seq![say("Permission granted for key: "@ + key)]
    } else {
        seq![say("Invalid public key format"@)]
    }
}

/// The answer to a command, but for `register`, whose answer depends on the
/// key pair that is generated.
pub open spec fn command_reaction(node: Node, command: CommandView) -> Seq<ActionView> {
    match command {
        CommandView::Help => help_lines(),
        CommandView::Register { .. } => seq![],
        CommandView::Put { key, value, public_key, signature } => put_reaction(
            node,
            key,
            value,
            public_key,
            signature,
        ),
        CommandView::Get { key, public_key, signature } => get_reaction(
            node,
            key,
            public_key,
            signature,
        ),
        CommandView::PutFile { key, path, public_key, signature } => put_file_reaction(
            node,
            key,
            path,
            public_key,
            signature,
        ),
        CommandView::GetFile { key, public_key, signature } => get_file_reaction(
            node,
            key,
            public_key,
            signature,
        ),
        CommandView::Permission { key, public_key } => permission_reaction(key, public_key),
        CommandView::Sign { username, message } => seq![
            ActionView::LoadPrivateKey { path: private_key_location(username), message },
        ],
        CommandView::Listen { address } => seq![ActionView::Listen(address)],
        CommandView::Exit => seq![ActionView::Exit],
        CommandView::Invalid => seq![
            say("Invalid command. Type 'help' for available commands."@),
        ],
    }
}

/// The permissions once a command is done: `permission` with a hexadecimal
/// public key adds one, and nothing else changes them.
pub open spec fn grants_after(node: Node, command: CommandView) -> Set<(Seq<char>, Seq<u8>)> {
    match command {
        CommandView::Permission { key, public_key } => if is_hex_text(public_key) {
            node.user_manager.grants().insert((key, hex_bytes(public_key)))
        } else {
            node.user_manager.grants()
        },
        _ => node.user_manager.grants(),
    }
}

/// A line for standard output.
fn print(text: &str) -> (action: Action)
    ensures
        action@ == say(text@),
{
    Action::Print(String::from_str(text))
}

/// The line of a text followed by another.
fn print2(head: &str, tail: &str) -> (action: Action)
    ensures
        action@ == say(head@ + tail@),
{
    let mut text = String::from_str(head);
    text.append(tail);
    Action::Print(text)
}

/// Reads the two hexadecimal texts of a command.
fn read_credentials(public_key: &str, signature: &str) -> (out: Result<(Vec<u8>, Vec<u8>), Action>)
    ensures
        match credentials_of(public_key@, signature@) {
            Ok(c) => out matches Ok(read) && read.0@ == c.0 && read.1@ == c.1,
            Err(line) => out matches Err(action) && action@ == line,
        },
{
    let key = match decode_hex(public_key) {
        Some(bytes) => bytes,
        None => {
            return Err(print("Invalid public key format"));
        },
    };
    let sig = match decode_hex(signature) {
        Some(bytes) => bytes,
        None => {
            return Err(print("Invalid signature format"));
        },
    };
    Ok((key, sig))
}

/// The line on standard error for a request that was turned away.
fn refuse(error: AccessError, what: &str, key: &str) -> (action: Action)
    ensures
        action@ == refusal(error, what@, key@),
{
    let mut text = match error {
        AccessError::AuthenticationFailed => String::from_str("Authentication failed for "),
        AccessError::PermissionDenied => String::from_str("Permission denied for "),
    };
    text.append(what);
    text.append(": ");
    text.append(key);
    Action::PrintError(text)
}

/// The lines of `help`.
fn help() -> (actions: Vec<Action>)
    ensures
        action_views(actions@) == help_lines(),
{
    let mut actions: Vec<Action> = Vec::new();
    actions.push(print("Available commands:"));
    actions.push(print("  register <username> [--admin]        - Register a new user"));
    actions.push(print("  put <key> <value> <pk> <sig>         - Store a key-value pair"));
    actions.push(print("  put -f <key> <file_path> <pk> <sig>  - Store a file"));
    actions.push(print("  get <key> <pk> <sig>                 - Retrieve a key-value pair"));
    actions.push(print("  get -f <key> <pk> <sig>              - Retrieve a file"));
    actions.push(print("  sign <username> <key>                - Sign a file"));
    actions.push(print("  permission <key> <pk>                - Permit access to a file"));
    actions.push(print("  listen <address>                     - Start listening on an address"));
    actions.push(print("  help                                 - Print this help message"));
    actions.push(print("  exit                                 - Exit the program gracefully"));
    assert(action_views(actions@) =~= help_lines());
    actions
}

/// One action.
fn one(action: Action) -> (actions: Vec<Action>)
    ensures
        action_views(actions@) == seq![action@],
        actions@.len() == 1,
        actions@[0] == action,
{
    let mut actions: Vec<Action> = Vec::new();
    actions.push(action);
    assert(action_views(actions@) =~= seq![action@]);
    actions
}

/// Two actions.
fn two(first: Action, second: Action) -> (actions: Vec<Action>)
    ensures
        action_views(actions@) == seq![first@, second@],
{
    let mut actions: Vec<Action> = Vec::new();
    actions.push(first);
    actions.push(second);
    assert(action_views(actions@) =~= seq![first@, second@]);
    actions
}

impl Node {
    /// Answers `put`.
    fn on_put(&self, key: String, value: String, public_key: String, signature: String) -> (actions:
        Vec<Action>)
        ensures
            action_views(actions@) == put_reaction(*self, key@, value@, public_key@, signature@),
    {
        let (pk, sig) = match read_credentials(public_key.as_str(), signature.as_str()) {
            Ok(read) => read,
            Err(line) => {
                return one(line);
            },
        };
        let bytes = value.as_str().as_bytes_vec();
        let ghost asked = key@;
        match self.put(key.clone(), bytes, pk, sig) {
            Ok(request) => one(Action::Send(request)),
            Err(error) => two(refuse(error, "key", key.as_str()), print("Operation failed")),
        }
    }

    /// Answers `get`.
    fn on_get(&self, key: String, public_key: String, signature: String) -> (actions: Vec<Action>)
        ensures
            action_views(actions@) == get_reaction(*self, key@, public_key@, signature@),
    {
        let (pk, sig) = match read_credentials(public_key.as_str(), signature.as_str()) {
            Ok(read) => read,
            Err(line) => {
                return one(line);
            },
        };
        match self.get(key.clone(), pk, sig) {
            Ok(request) => two(Action::Send(request), print("Retrieving key-value pair")),
            Err(error) => two(refuse(error, "key", key.as_str()), print("Retrieval failed")),
        }
    }

    /// Answers `put -f`.
    fn on_put_file(&self, key: String, path: String, public_key: String, signature: String) -> (actions:
        Vec<Action>)
        ensures
            action_views(actions@) == put_file_reaction(
                *self,
                key@,
                path@,
                public_key@,
                signature@,
            ),
    {
        let (pk, sig) = match read_credentials(public_key.as_str(), signature.as_str()) {
            Ok(read) => read,
            Err(line) => {
                return one(line);
            },
        };
        match self.authorize(key.as_str(), pk.as_slice(), sig.as_slice()) {
            Ok(_) => one(Action::ReadFile { key, path, public_key: pk, signature: sig }),
            Err(error) => two(
                refuse(error, "file", key.as_str()),
                print("File storage operation failed"),
            ),
        }
    }

    /// Answers `get -f`.
    fn on_get_file(&self, key: String, public_key: String, signature: String) -> (actions: Vec<
        Action,
    >)
        ensures
            action_views(actions@) == get_file_reaction(*self, key@, public_key@, signature@),
    {
        let (pk, sig) = match read_credentials(public_key.as_str(), signature.as_str()) {
            Ok(read) => read,
            Err(line) => {
                return one(line);
            },
        };
        match self.get_file(key.clone(), pk, sig) {
            Ok(request) => {
                let mut started = String::from_str("Initiated retrieval for file '");
                started.append(key.as_str());
                started.append("'");
                let mut actions: Vec<Action> = Vec::new();
                actions.push(Action::Send(request));
                actions.push(Action::Print(started));
                actions.push(print2("Retrieving file with key: ", key.as_str()));
                assert(action_views(actions@) =~= get_file_reaction(
                    *self,
                    key@,
                    public_key@,
                    signature@,
                ));
                actions
            },
            Err(error) => two(
                refuse(error, "file retrieval", key.as_str()),
                print("File retrieval failed"),
            ),
        }
    }

    /// Answers `permission`.
    fn on_permission(&mut self, key: String, public_key: String) -> (actions: Vec<Action>)
        ensures
            action_views(actions@) == permission_reaction(key@, public_key@),
            final(self).user_manager.grants() == grants_after(
                *old(self),
                CommandView::Permission { key: key@, public_key: public_key@ },
            ),
            final(self).user_manager.directory() == old(self).user_manager.directory(),
            final(self).peer_id == old(self).peer_id,
    {
        match decode_hex(public_key.as_str()) {
            None => one(print("Invalid public key format")),
            Some(pk) => {
                self.user_manager.add_key_permission(key.as_str(), pk.as_slice());
                one(print2("Permission granted for key: ", key.as_str()))
            },
        }
    }

    /// Answers `register`.
    fn on_register(&self, username: String, admin: bool) -> (actions: Vec<Action>)
        ensures
            actions@.len() == 1,
            match actions@[0]@ {
                ActionView::StorePrivateKey(pending) => {
                    &&& pending.username == username@
                    &&& pending.is_admin == admin
                    &&& pending.private_key.len() == KEY_BYTES
                    &&& pending.public_key == ed25519_public_key(pending.private_key)
                    &&& pending.private_key_path == private_key_location(username@)
                    &&& pending.public_key.len() == KEY_BYTES
                    &&& !self.user_manager.is_registered(pending.public_key)
                },
                other => {
                    &&& other == say(
                        "Registration failed: "@ + RegistrationError::UserExists.text(),
                    )
                    &&& exists|taken: Seq<u8>|
                        taken.len() == KEY_BYTES && self.user_manager.is_registered(taken)
                },
            },
    {
        match self.user_manager.register_user(username.as_str(), admin) {
            Ok(pending) => one(Action::StorePrivateKey(pending)),
            Err(error) => {
                let reason = error.message();
                one(print2("Registration failed: ", reason.as_str()))
            },
        }
    }

    /// Answers one line of the operator. Every command but `register` has
    /// one answer, [`command_reaction`]; `register` answers with the
    /// private key to write for a fresh key pair, or, where the directory
    /// holds the generated key already, with the line that says so. Only
    /// `permission` changes the node.
    pub fn on_line(&mut self, line: &str) -> (actions: Vec<Action>)
        ensures
            match command_of(tokens(line@)) {
                CommandView::Register { username, admin } => {
                    &&& actions@.len() == 1
                    &&& match actions@[0]@ {
                        ActionView::StorePrivateKey(pending) => {
                            &&& pending.username == username
                            &&& pending.is_admin == admin
                            &&& pending.private_key.len() == KEY_BYTES
                            &&& pending.public_key == ed25519_public_key(pending.private_key)
                            &&& pending.private_key_path == private_key_location(username)
                            &&& pending.public_key.len() == KEY_BYTES
                            &&& !old(self).user_manager.is_registered(pending.public_key)
                        },
                        other => {
                            &&& other == say(
                                "Registration failed: "@ + RegistrationError::UserExists.text(),
                            )
                            &&& exists|taken: Seq<u8>|
                                taken.len() == KEY_BYTES && old(self).user_manager.is_registered(
                                    taken,
                                )
                        },
                    }
                },
                command => action_views(actions@) == command_reaction(*old(self), command),
            },
            final(self).user_manager.grants() == grants_after(
                *old(self),
                command_of(tokens(line@)),
            ),
            final(self).user_manager.directory() == old(self).user_manager.directory(),
            final(self).peer_id == old(self).peer_id,
    {
        match parse_command(line) {
            Command::Help => help(),
            Command::Register { username, admin } => self.on_register(username, admin),
            Command::Put { key, value, public_key, signature } => self.on_put(
                key,
                value,
                public_key,
                signature,
            ),
            Command::Get { key, public_key, signature } => self.on_get(key, public_key, signature),
            Command::PutFile { key, path, public_key, signature } => self.on_put_file(
                key,
                path,
                public_key,
                signature,
            ),
            Command::GetFile { key, public_key, signature } => self.on_get_file(
                key,
                public_key,
                signature,
            ),
            Command::Permission { key, public_key } => self.on_permission(key, public_key),
            Command::Sign { username, message } => {
                let path = private_key_path(username.as_str());
                one(Action::LoadPrivateKey { path, message })
            },
            Command::Listen { address } => one(Action::Listen(address)),
            Command::Exit => one(Action::Exit),
            Command::Invalid => one(print("Invalid command. Type 'help' for available commands.")),
        }
    }
}

// ---------------------------------------------------------------------------
// Answers of the loop to the node's own actions
// ---------------------------------------------------------------------------

/// The answer to a write that the table took or refused.
pub open spec fn put_answer(accepted: bool) -> Seq<ActionView> {
    if accepted {
        seq![say("Successfully stored key-value pair"@)]
    } else {
        seq![warn("Failed to store record"@), say("Operation failed"@)]
    }
}

/// The answer to a private key that was written or could not be. `taken`
/// says whether the public key is in the directory already.
pub open spec fn key_stored_answer(
    pending: PendingView,
    stored: Result<(), String>,
    taken: bool,
) -> Seq<ActionView> {
    match stored {
        Err(why) => seq![say("Registration failed: "@ + why@)],
        Ok(_) => if taken {
            seq![say("Registration failed: "@ + RegistrationError::UserExists.text())]
        } else {
            seq![
                say(
                    if pending.is_admin {
                        "Registered admin user: "@
                    } else {
                        "Registered user: "@
                    } + pending.username,
                ),
                say("Public Key (hex): "@ + hex_text(pending.public_key)),
            ]
        },
    }
}

/// The answer to a signed message.
pub open spec fn signed_answer(public_key: Seq<u8>, signature: Seq<u8>) -> Seq<ActionView> {
    seq![
        say("Public Key (hex): "@ + hex_text(public_key)),
        say("Signature (hex): "@ + hex_text(signature)),
    ]
}

/// The line for the chunk with the given index that the table took.
pub open spec fn stored_chunk_line(key: Seq<char>, index: nat, total: nat) -> ActionView {
    say(
        "Stored chunk "@ + decimal(index + 1) + " of "@ + decimal(total) + " for file '"@ + key
            + "' under key '"@ + chunk_key_text(key, index, total) + "'."@,
    )
}

/// The line that says that every chunk is stored.
pub open spec fn chunks_stored_line(path: Seq<char>, total: nat) -> Seq<char> {
    "Stored file '"@ + path + "' in "@ + decimal(total)
        + " chunks. Each chunk stored with keys '<file_key>_<chunk_number>_<total_chunks>'."@
}

/// The first step of storing a file: its first write goes out and the
/// others wait. A file without chunks is said to be stored in no chunks
/// before the write of that number goes out.
pub open spec fn upload_start(
    key: Seq<char>,
    path: Seq<char>,
    requests: Seq<RequestView>,
) -> Seq<ActionView> {
    if requests.len() == 0 {
        seq![]
    } else {
        let total = (requests.len() - 1) as usize;
        let send = ActionView::SendFile {
            request: requests[0],
            upload: UploadView { key, path, total, rest: requests.skip(1) },
        };
        if total == 0 {
            seq![say(chunks_stored_line(path, 0)), send]
        } else {
            seq![send]
        }
    }
}

/// Which write of its file is out: as many writes went before it as the
/// file has chunks beyond those that wait.
pub open spec fn upload_index(upload: UploadView) -> int {
    if upload.rest.len() <= upload.total {
        upload.total - upload.rest.len()
    } else {
        0
    }
}

/// The lines for a write that the table took. After a chunk: that the
/// chunk is stored and, after the last one, that all are. After the number
/// of chunks: that the file is stored.
pub open spec fn upload_lines(upload: UploadView) -> Seq<ActionView> {
    let index = upload_index(upload);
    let total = upload.total as nat;
    if index < total {
        if index + 1 == total {
            seq![
                stored_chunk_line(upload.key, index as nat, total),
                say(chunks_stored_line(upload.path, total)),
            ]
        } else {
            seq![stored_chunk_line(upload.key, index as nat, total)]
        }
    } else {
        seq![
            say(
                chunks_stored_line(upload.path, total)
                    + " Total chunks metadata stored under key '"@ + total_key_text(upload.key)
                    + "'."@,
            ),
            say("Successfully stored file: "@ + upload.path),
        ]
    }
}

/// The answer to one write of a file. A write that the table refused ends
/// the file: the failure is said and nothing more is sent. After a write
/// that it took, the next write goes out, if one waits.
pub open spec fn file_write_answer(upload: UploadView, taken: bool) -> Seq<ActionView> {
    if !taken {
        seq![warn("Failed to store record"@), say("File storage operation failed"@)]
    } else if upload.rest.len() > 0 {
        upload_lines(upload) + seq![
            ActionView::SendFile {
                request: upload.rest[0],
                upload: UploadView {
                    key: upload.key,
                    path: upload.path,
                    total: upload.total,
                    rest: upload.rest.skip(1),
                },
            },
        ]
    } else {
        upload_lines(upload)
    }
}

/// Whether an action hands anything to the distributed hash table.
pub open spec fn sends(action: ActionView) -> bool {
    action is Send || action is SendFile
}

/// After a refused write nothing more of the file is sent: not the chunks
/// that wait, and not their number.
pub proof fn law_refused_write_ends_the_file(upload: UploadView)
    ensures
        forall|i: int|
            0 <= i < file_write_answer(upload, false).len() ==> !sends(
                #[trigger] file_write_answer(upload, false)[i],
            ),
{
}

/// The writes of a file go out one at a time and in order: the answer to a
/// write that was taken sends at most one write, the first of those that
/// wait, and leaves the others waiting.
pub proof fn law_writes_go_out_in_order(upload: UploadView, i: int)
    requires
        0 <= i < file_write_answer(upload, true).len(),
        sends(file_write_answer(upload, true)[i]),
    ensures
        upload.rest.len() > 0,
        i == file_write_answer(upload, true).len() - 1,
        file_write_answer(upload, true)[i] == (ActionView::SendFile {
            request: upload.rest[0],
            upload: UploadView {
                key: upload.key,
                path: upload.path,
                total: upload.total,
                rest: upload.rest.skip(1),
            },
        }),
{
}

/// The answer to a request to listen that went through or did not.
pub open spec fn listen_answer(address: Seq<char>, outcome: Result<(), String>) -> Seq<ActionView> {
    match outcome {
        Ok(_) => seq![say("Listening on: "@ + address)],
        Err(why) => seq![warn("Failed to listen on '"@ + address + "': "@ + why@)],
    }
}

/// The answer to a private key that was looked for.
pub open spec fn key_loaded_answer(key_file: KeyFile, message: Seq<char>) -> Seq<ActionView> {
    match key_file {
        KeyFile::Missing => seq![say("Signing failed: "@ + SignError::NotRegistered.text())],
        KeyFile::Unreadable(why) => seq![say("Signing failed: "@ + why@)],
        KeyFile::Contents(secret) => if secret@.len() == KEY_BYTES {
            signed_answer(
                ed25519_public_key(secret@),
                ed25519_signature(secret@, encode_utf8(message)),
            )
        } else {
            seq![say("Signing failed: "@ + key_length_error())]
        },
    }
}

/// The answer to a file that was read, or could not be.
pub open spec fn file_read_answer(
    node: Node,
    key: Seq<char>,
    path: Seq<char>,
    public_key: Seq<u8>,
    signature: Seq<u8>,
    file: Result<String, String>,
) -> Seq<ActionView> {
    match node.admits(key, public_key, signature) {
        Err(error) => seq![refusal(error, "file"@, key), say("File storage operation failed"@)],
        Ok(_) => match file {
            Err(why) => seq![
                warn("Failed to read file '"@ + path + "': "@ + why@),
                say("File storage operation failed"@),
            ],
            Ok(content) => upload_start(key, path, file_requests(key, content@)),
        },
    }
}

/// The answer to one retrieved record, by the step it calls for.
pub open spec fn step_answer(step: StepView) -> Seq<ActionView> {
    match step {
        StepView::Traditional { key, value } => seq![
            say(
                "Retrieved traditional key-value pair: Key = '"@ + key + "', Value = '"@ + value
                    + "'"@,
            ),
        ],
        StepView::NoChunks { key, readable } => if readable {
            seq![warn("Total chunk number is 0 for key '"@ + key + "'."@)]
        } else {
            seq![
                warn("Invalid total chunk number in key '"@ + key + "'"@),
                warn("Total chunk number is 0 for key '"@ + key + "'."@),
            ]
        },
        StepView::FirstChunk { file_key, total, request } => seq![
            ActionView::Send(request),
            say(
                "Retrieving first chunk for file '"@ + file_key + "', total chunks: "@ + decimal(
                    total as nat,
                ) + "."@,
            ),
        ],
        StepView::Chunk(chunk) => (if chunk.index_readable {
            seq![]
        } else {
            seq![warn("Invalid current chunk number in key '"@ + chunk.key + "'"@)]
        }) + (if chunk.total_readable {
            seq![]
        } else {
            seq![warn("Invalid total chunk number in key '"@ + chunk.key + "'"@)]
        }) + seq![ActionView::WriteChunk(chunk)],
        StepView::Unexpected { key } => seq![warn("Unexpected key format: '"@ + key + "'"@)],
    }
}

/// The answer to the first `count` of the records that a lookup returned.
pub open spec fn records_answer(records: Seq<Record>, count: nat) -> Seq<ActionView>
    decreases count,
{
    if count == 0 {
        seq![]
    } else {
        let record = records[count - 1];
        records_answer(records, (count - 1) as nat) + step_answer(
            record_step(lossy_text(record.key@), record.value@),
        )
    }
}

/// What the distributed hash table reported for a finished query.
#[derive(Clone, Debug, PartialEq, Eq)]
pub enum QueryOutcome {
    /// A lookup returned these records.
    GetRecordOk(Vec<Record>),
    /// A lookup failed; the text says why.
    GetRecordErr(String),
    /// A write under this key was acknowledged.
    PutRecordOk(Vec<u8>),
    /// A write failed; the text says why.
    PutRecordErr(String),
    /// Any other query.
    Other,
}

/// The answer to a finished query. A failed lookup or write is reported
/// and not tried again.
pub open spec fn query_answer(outcome: QueryOutcome) -> Seq<ActionView> {
    match outcome {
        QueryOutcome::GetRecordOk(records) => records_answer(records@, records@.len()),
        QueryOutcome::GetRecordErr(why) => seq![warn("Failed to retrieve record: "@ + why@)],
        QueryOutcome::PutRecordOk(key) => seq![
            say("Successfully added record with key: '"@ + lossy_text(key@) + "'"@),
        ],
        QueryOutcome::PutRecordErr(why) => seq![warn("Failed to add record: "@ + why@)],
        QueryOutcome::Other => seq![],
    }
}

/// The answer to a chunk that was written, or could not be. `path` is the
/// file's path as it is shown. After a failure nothing more is looked up.
pub open spec fn chunk_written_answer(
    chunk: ChunkView,
    path: Seq<char>,
    outcome: WriteOutcome,
) -> Seq<ActionView> {
    match outcome {
        WriteOutcome::OpenFailed(why) => seq![
            warn("Failed to open file '"@ + path + "': "@ + why@),
        ],
        WriteOutcome::WriteFailed(why) => seq![
            warn(
                "Failed to write chunk "@ + decimal(chunk.index as nat) + " to file '"@ + path
                    + "': "@ + why@,
            ),
        ],
        WriteOutcome::Written => seq![
            say(
                "Successfully wrote chunk "@ + decimal(chunk.index as nat) + " to file '"@ + path
                    + "'."@,
            ),
        ] + match progress_after(chunk, true) {
            ProgressView::Halted => seq![],
            ProgressView::Complete => seq![
                say(
                    "All chunks retrieved for file '"@ + chunk.file_key + "'. File written to '"@
                        + path + "'."@,
                ),
            ],
            ProgressView::Next(request) => seq![
                ActionView::Send(request),
                say(
                    "Retrieving next chunk: "@ + decimal((chunk.index + 1) as nat) + " for file '"@
                        + chunk.file_key + "'"@,
                ),
            ],
        },
    }
}

/// A line for standard error.
fn complain(text: &str) -> (action: Action)
    ensures
        action@ == warn(text@),
{
    Action::PrintError(String::from_str(text))
}

/// A line for standard error: a text followed by another.
fn complain2(head: &str, tail: &str) -> (action: Action)
    ensures
        action@ == warn(head@ + tail@),
{
    let mut text = String::from_str(head);
    text.append(tail);
    Action::PrintError(text)
}

/// A line for standard error: a text, a quoted part and a closing text.
fn complain3(head: &str, middle: &str, tail: &str) -> (action: Action)
    ensures
        action@ == warn(head@ + middle@ + tail@),
{
    let mut text = String::from_str(head);
    text.append(middle);
    text.append(tail);
    Action::PrintError(text)
}

/// The line that says that every chunk is stored.
fn chunks_stored(path: &str, total: usize) -> (text: String)
    ensures
        text@ == chunks_stored_line(path@, total as nat),
{
    let mut text = String::from_str("Stored file '");
    text.append(path);
    text.append("' in ");
    text.append(decimal_string(total).as_str());
    text.append(
        " chunks. Each chunk stored with keys '<file_key>_<chunk_number>_<total_chunks>'.",
    );
    text
}

/// Appends the actions of `more` to `actions`.
fn extend(actions: &mut Vec<Action>, more: Vec<Action>)
    ensures
        action_views(final(actions)@) == action_views(old(actions)@) + action_views(more@),
{
    broadcast use vstd::std_specs::vec::group_vec_axioms;

    let ghost before = actions@;
    let ghost added = more@;
    for action in it: more.into_iter()
        invariant
            it.seq() == added,
            actions@ == before + added.take(it.index() as int),
    {
        actions.push(action);
        assert(actions@ =~= before + added.take(it.index() + 1));
    }
    assert(added.take(added.len() as int) =~= added);
    assert(action_views(actions@) =~= action_views(before) + action_views(added));
}

/// The answer to one retrieved record.
fn answer_step(step: RecordStep) -> (actions: Vec<Action>)
    ensures
        action_views(actions@) == step_answer(step@),
{
    let mut actions: Vec<Action> = Vec::new();
    match step {
        RecordStep::Traditional { key, value } => {
            let mut text = String::from_str("Retrieved traditional key-value pair: Key = '");
            text.append(key.as_str());
            text.append("', Value = '");
            text.append(value.as_str());
            text.append("'");
            actions.push(Action::Print(text));
        },
        RecordStep::NoChunks { key, readable } => {
            if !readable {
                actions.push(complain3("Invalid total chunk number in key '", key.as_str(), "'"));
            }
            actions.push(complain3("Total chunk number is 0 for key '", key.as_str(), "'."));
        },
        RecordStep::FirstChunk { file_key, total, request } => {
            let mut text = String::from_str("Retrieving first chunk for file '");
            text.append(file_key.as_str());
            text.append("', total chunks: ");
            text.append(decimal_string(total).as_str());
            text.append(".");
            actions.push(Action::Send(request));
            actions.push(Action::Print(text));
        },
        RecordStep::Chunk(chunk) => {
            if !chunk.index_readable {
                actions.push(
                    complain3("Invalid current chunk number in key '", chunk.key.as_str(), "'"),
                );
            }
            if !chunk.total_readable {
                actions.push(
                    complain3("Invalid total chunk number in key '", chunk.key.as_str(), "'"),
                );
            }
            actions.push(Action::WriteChunk(chunk));
        },
        RecordStep::Unexpected { key } => {
            actions.push(complain3("Unexpected key format: '", key.as_str(), "'"));
        },
    }
    assert(action_views(actions@) =~= step_answer(step@));
    actions
}

/// Answers a finished query of the distributed hash table: the step for
/// each retrieved record, in the order in which the records came, or the
/// line that reports the acknowledgement or the failure.
pub fn inject_event(event: QueryOutcome) -> (actions: Vec<Action>)
    ensures
        action_views(actions@) == query_answer(event),
{
    broadcast use vstd::std_specs::vec::group_vec_axioms;

    match event {
        QueryOutcome::GetRecordOk(records) => {
            let ghost all = records@;
            let mut actions: Vec<Action> = Vec::new();
            assert(action_views(actions@) =~= records_answer(all, 0));
            for record in it: records.into_iter()
                invariant
                    it.seq() == all,
                    action_views(actions@) == records_answer(all, it.index() as nat),
            {
                let step = on_record(record);
                extend(&mut actions, answer_step(step));
            }
            actions
        },
        QueryOutcome::GetRecordErr(why) => one(
            complain2("Failed to retrieve record: ", why.as_str()),
        ),
        QueryOutcome::PutRecordOk(key) => {
            let shown = bytes_to_text(key.as_slice());
            let mut text = String::from_str("Successfully added record with key: '");
            text.append(shown.as_str());
            text.append("'");
            one(Action::Print(text))
        },
        QueryOutcome::PutRecordErr(why) => one(complain2("Failed to add record: ", why.as_str())),
        QueryOutcome::Other => {
            let actions: Vec<Action> = Vec::new();
            assert(action_views(actions@) =~= Seq::<ActionView>::empty());
            actions
        },
    }
}

impl Node {
    /// Answers a write that the table took or refused.
    pub fn on_put_answered(&self, accepted: bool) -> (actions: Vec<Action>)
        ensures
            action_views(actions@) == put_answer(accepted),
    {
        if accepted {
            one(print("Successfully stored key-value pair"))
        } else {
            two(complain("Failed to store record"), print("Operation failed"))
        }
    }

    /// Finishes a registration once the private key was written, or could
    /// not be: the user enters the directory after a successful write and
    /// only then, and never in place of a user that is there.
    pub fn on_key_stored(&mut self, pending: PendingRegistration, stored: Result<(), String>) -> (actions:
        Vec<Action>)
        ensures
            action_views(actions@) == key_stored_answer(
                pending@,
                stored,
                old(self).user_manager.is_registered(pending.public_key@),
            ),
            final(self).user_manager.grants() == old(self).user_manager.grants(),
            final(self).user_manager.directory() == if stored is Err || old(
                self
            ).user_manager.is_registered(pending.public_key@) {
                old(self).user_manager.directory()
            } else {
                old(self).user_manager.directory().insert(
                    pending.public_key@,
                    pending.credentials(),
                )
            },
            final(self).peer_id == old(self).peer_id,
    {
        let admin = pending.is_admin;
        let username = pending.username.clone();
        match self.user_manager.complete_registration(pending, stored) {
            Ok(public_key) => {
                let shown = encode_hex(public_key.as_slice());
                let first = if admin {
                    print2("Registered admin user: ", username.as_str())
                } else {
                    print2("Registered user: ", username.as_str())
                };
                two(first, print2("Public Key (hex): ", shown.as_str()))
            },
            Err(error) => {
                let reason = error.message();
                one(print2("Registration failed: ", reason.as_str()))
            },
        }
    }

    /// Signs `message` with the private key that was found, and shows the
    /// public key and the signature, or says why there is none.
    pub fn on_key_loaded(&self, key_file: KeyFile, message: String) -> (actions: Vec<Action>)
        ensures
            action_views(actions@) == key_loaded_answer(key_file, message@),
    {
        match sign_message(key_file, message.as_str()) {
            Ok(signed) => {
                let key = encode_hex(signed.public_key.as_slice());
                let sig = encode_hex(signed.signature.as_slice());
                two(
                    print2("Public Key (hex): ", key.as_str()),
                    print2("Signature (hex): ", sig.as_str()),
                )
            },
            Err(error) => {
                let reason = error.message();
                one(print2("Signing failed: ", reason.as_str()))
            },
        }
    }

    /// Answers a file that was read for `put -f`, or could not be. The
    /// request is checked again, so a file is cut up only for a caller that
    /// is admitted on `key`.
    pub fn on_file_read(
        &self,
        key: String,
        path: String,
        public_key: Vec<u8>,
        signature: Vec<u8>,
        file: Result<String, String>,
    ) -> (actions: Vec<Action>)
        ensures
            action_views(actions@) == file_read_answer(
                *self,
                key@,
                path@,
                public_key@,
                signature@,
                file,
            ),
    {
        match self.put_file(key.clone(), file, public_key, signature) {
            Ok(requests) => {
                let mut rest = requests;
                let ghost all = rest@;
                let request = rest.remove(0);
                let total = rest.len();
                assert(request_views(rest@) =~= request_views(all).skip(1));
                let send = Action::SendFile {
                    request,
                    upload: FileUpload { key, path: path.clone(), total, rest },
                };
                if total == 0 {
                    let said = chunks_stored(path.as_str(), 0);
                    two(Action::Print(said), send)
                } else {
                    one(send)
                }
            },
            Err(PutFileError::Access(error)) => two(
                refuse(error, "file", key.as_str()),
                print("File storage operation failed"),
            ),
            Err(PutFileError::Unreadable(why)) => {
                let mut text = String::from_str("Failed to read file '");
                text.append(path.as_str());
                text.append("': ");
                text.append(why.as_str());
                two(Action::PrintError(text), print("File storage operation failed"))
            },
        }
    }

    /// Answers one write of a file that the table took or refused. After a
    /// refusal the file ends there and nothing more of it is sent. After a
    /// write that was taken the lines for it are said and the next write
    /// goes out, until none waits.
    pub fn on_file_write(&self, upload: FileUpload, taken: bool) -> (actions: Vec<Action>)
        ensures
            action_views(actions@) == file_write_answer(upload@, taken),
    {
        if !taken {
            return two(complain("Failed to store record"), print("File storage operation failed"));
        }
        let ghost before = upload@;
        let FileUpload { key, path, total, rest } = upload;
        let mut rest = rest;
        let index = if rest.len() <= total {
            total - rest.len()
        } else {
            0
        };
        let mut actions: Vec<Action> = Vec::new();
        if index < total {
            let mut text = String::from_str("Stored chunk ");
            text.append(decimal_string(index + 1).as_str());
            text.append(" of ");
            text.append(decimal_string(total).as_str());
            text.append(" for file '");
            text.append(key.as_str());
            text.append("' under key '");
            text.append(chunk_key(key.as_str(), index, total).as_str());
            text.append("'.");
            actions.push(Action::Print(text));
            if index + 1 == total {
                actions.push(Action::Print(chunks_stored(path.as_str(), total)));
            }
        } else {
            let mut whole = chunks_stored(path.as_str(), total);
            whole.append(" Total chunks metadata stored under key '");
            whole.append(total_key(key.as_str()).as_str());
            whole.append("'.");
            actions.push(Action::Print(whole));
            actions.push(print2("Successfully stored file: ", path.as_str()));
        }
        assert(action_views(actions@) =~= upload_lines(before));
        if rest.len() > 0 {
            let ghost lines = action_views(actions@);
            let ghost waiting = rest@;
            let request = rest.remove(0);
            assert(request_views(rest@) =~= request_views(waiting).skip(1));
            let send = Action::SendFile { request, upload: FileUpload { key, path, total, rest } };
            actions.push(send);
            assert(action_views(actions@) =~= lines + seq![send@]);
        }
        actions
    }

    /// Answers a request to listen on another address that went through, or
    /// did not. The node goes on either way.
    pub fn on_listen_answered(&self, address: String, outcome: Result<(), String>) -> (actions:
        Vec<Action>)
        ensures
            action_views(actions@) == listen_answer(address@, outcome),
    {
        match outcome {
            Ok(_) => one(print2("Listening on: ", address.as_str())),
            Err(why) => {
                let mut text = String::from_str("Failed to listen on '");
                text.append(address.as_str());
                text.append("': ");
                text.append(why.as_str());
                one(Action::PrintError(text))
            },
        }
    }

    /// Answers a chunk that was written, or could not be. `path` is the
    /// file's path as it is shown to the operator.
    pub fn on_chunk_written(&self, chunk: ChunkWrite, path: String, outcome: WriteOutcome) -> (actions:
        Vec<Action>)
        ensures
            action_views(actions@) == chunk_written_answer(chunk@, path@, outcome),
    {
        let progress = chunk.after_write(&outcome);
        let mut actions: Vec<Action> = Vec::new();
        match outcome {
            WriteOutcome::OpenFailed(why) => {
                let mut text = String::from_str("Failed to open file '");
                text.append(path.as_str());
                text.append("': ");
                text.append(why.as_str());
                actions.push(Action::PrintError(text));
            },
            WriteOutcome::WriteFailed(why) => {
                let mut text = String::from_str("Failed to write chunk ");
                text.append(decimal_string(chunk.index).as_str());
                text.append(" to file '");
                text.append(path.as_str());
                text.append("': ");
                text.append(why.as_str());
                actions.push(Action::PrintError(text));
            },
            WriteOutcome::Written => {
                let mut text = String::from_str("Successfully wrote chunk ");
                text.append(decimal_string(chunk.index).as_str());
                text.append(" to file '");
                text.append(path.as_str());
                text.append("'.");
                actions.push(Action::Print(text));
                match progress {
                    Progress::Halted => {},
                    Progress::Complete => {
                        let mut done = String::from_str("All chunks retrieved for file '");
                        done.append(chunk.file_key.as_str());
                        done.append("'. File written to '");
                        done.append(path.as_str());
                        done.append("'.");
                        actions.push(Action::Print(done));
                    },
                    Progress::Next(request) => {
                        let mut next = String::from_str("Retrieving next chunk: ");
                        next.append(decimal_string(chunk.index + 1).as_str());
                        next.append(" for file '");
                        next.append(chunk.file_key.as_str());
                        next.append("'");
                        actions.push(Action::Send(request));
                        actions.push(Action::Print(next));
                    },
                }
            },
        }
        assert(action_views(actions@) =~= chunk_written_answer(chunk@, path@, outcome));
        actions
    }
}

} // verus!
