//! The user directory and the per-key access control list.
//!
//! Both are hash maps keyed by text: users stand under the hexadecimal text
//! of their public key, and the list of a storage key under the hexadecimal
//! text of that key. Contracts speak of public keys and storage keys
//! themselves: both texts determine what they were written for.

use crate::hexcode::{encode, hex_text, lemma_hex_text_injective};
use crate::signing::{
    ed25519_public_key, ed25519_verifies, generate_keypair, private_key_location,
    private_key_path, verify_detached, KEY_BYTES, SIGNATURE_BYTES,
};
use vstd::hash_map::StringHashMap;
use vstd::prelude::*;
use vstd::utf8::{encode_utf8, encode_utf8_decode_utf8};

verus! {

/// A registered user, as contracts see it.
pub struct CredentialsView {
    pub username: Seq<char>,
    pub public_key: Seq<u8>,
    pub is_admin: bool,
}

/// A registered user: the name, the public key, and the admin flag, which
/// is recorded and not consulted.
#[derive(Clone, Debug)]
pub struct UserCredentials {
    username: String,
    public_key: Vec<u8>,
    is_admin: bool,
}

impl View for UserCredentials {
    type V = CredentialsView;

    closed spec fn view(&self) -> CredentialsView {
        CredentialsView {
            username: self.username@,
            public_key: self.public_key@,
            is_admin: self.is_admin,
        }
    }
}

/// Whether a list of texts holds `text`.
spec fn holds_text(list: Seq<String>, text: Seq<char>) -> bool {
    exists|j: int| 0 <= j < list.len() && (#[trigger] list[j])@ == text
}

/// Whether the lists of `acl` authorize `public_key` on the storage key `key`.
spec fn listed(acl: Map<Seq<char>, Vec<String>>, key: Seq<char>, public_key: Seq<u8>) -> bool {
    acl.contains_key(hex_text(encode_utf8(key))) && holds_text(
        acl[hex_text(encode_utf8(key))]@,
        hex_text(public_key),
    )
}

/// A storage key is determined by the hexadecimal text of its bytes.
proof fn lemma_key_text_injective(a: Seq<char>, b: Seq<char>)
    requires
        hex_text(encode_utf8(a)) == hex_text(encode_utf8(b)),
    ensures
        a == b,
{
    lemma_hex_text_injective(encode_utf8(a), encode_utf8(b));
    encode_utf8_decode_utf8(a);
    encode_utf8_decode_utf8(b);
}

/// A copy of a list of texts.
fn copy_texts(list: &Vec<String>) -> (out: Vec<String>)
    ensures
        out@ == list@,
{
    let mut out: Vec<String> = Vec::new();
    let mut i: usize = 0;
    while i < list.len()
        invariant
            i <= list@.len(),
            out@ == list@.take(i as int),
        decreases list@.len() - i,
    {
        out.push(list[i].clone());
        i = i + 1;
        assert(out@ =~= list@.take(i as int));
    }
    assert(list@.take(list@.len() as int) =~= list@);
    out
}

/// Whether `list` holds `text`.
fn contains_text(list: &Vec<String>, text: &String) -> (found: bool)
    ensures
        found == holds_text(list@, text@),
{
    let mut j: usize = 0;
    while j < list.len()
        invariant
            j <= list@.len(),
            forall|k: int| 0 <= k < j ==> list@[k]@ != text@,
        decreases list@.len() - j,
    {
        if list[j] == *text {
            return true;
        }
        j = j + 1;
    }
    false
}

/// Why a registration did not go through.
#[derive(Clone, Debug, PartialEq, Eq)]
pub enum RegistrationError {
    /// The generated public key is already in the directory.
    UserExists,
    /// The private key could not be written; the text says why.
    PrivateKeyStore(String),
}

impl RegistrationError {
    /// The text shown to the operator.
    pub open spec fn text(self) -> Seq<char> {
        match self {
            RegistrationError::UserExists => "User already exists"@,
            RegistrationError::PrivateKeyStore(detail) => detail@,
        }
    }

    /// The text shown to the operator.
    pub fn message(&self) -> (out: String)
        ensures
            out@ == self.text(),
    {
        match self {
            RegistrationError::UserExists => String::from_str("User already exists"),
            RegistrationError::PrivateKeyStore(detail) => detail.clone(),
        }
    }
}

/// A registration whose key pair exists and whose private key still has to
/// be written to `private_key_path`.
#[derive(Clone, Debug, PartialEq, Eq)]
pub struct PendingRegistration {
    pub username: String,
    pub is_admin: bool,
    pub public_key: Vec<u8>,
    pub private_key: Vec<u8>,
    pub private_key_path: String,
}

/// A pending registration, as contracts see it.
pub struct PendingView {
    pub username: Seq<char>,
    pub is_admin: bool,
    pub public_key: Seq<u8>,
    pub private_key: Seq<u8>,
    pub private_key_path: Seq<char>,
}

impl View for PendingRegistration {
    type V = PendingView;

    open spec fn view(&self) -> PendingView {
        PendingView {
            username: self.username@,
            is_admin: self.is_admin,
            public_key: self.public_key@,
            private_key: self.private_key@,
            private_key_path: self.private_key_path@,
        }
    }
}

impl PendingRegistration {
    /// The directory entry that this registration will make.
    pub open spec fn credentials(self) -> CredentialsView {
        CredentialsView {
            username: self.username@,
            public_key: self.public_key@,
            is_admin: self.is_admin,
        }
    }
}

/// The user directory and the access control list of one node. Users are
/// kept under the hexadecimal text of their public key, and the public keys
/// authorized on a storage key under the hexadecimal text of that key.
pub struct UserManager {
    users: StringHashMap<UserCredentials>,
    acl: StringHashMap<Vec<String>>,
}

impl UserManager {
    /// The directory: each registered public key with its user.
    pub closed spec fn directory(self) -> Map<Seq<u8>, CredentialsView> {
        Map::new(
            |public_key: Seq<u8>| self.users@.contains_key(hex_text(public_key)),
            |public_key: Seq<u8>| self.users@[hex_text(public_key)]@,
        )
    }

    /// The access control list: the pairs of a storage key and a public key
    /// authorized on it.
    pub closed spec fn grants(self) -> Set<(Seq<char>, Seq<u8>)> {
        Set::new(|g: (Seq<char>, Seq<u8>)| listed(self.acl@, g.0, g.1))
    }

    /// Whether a user with `public_key` is in the directory.
    pub open spec fn is_registered(self, public_key: Seq<u8>) -> bool {
        self.directory().dom().contains(public_key)
    }

    /// Whether `public_key` is authorized on storage key `key`.
    pub open spec fn permits(self, key: Seq<char>, public_key: Seq<u8>) -> bool {
        self.grants().contains((key, public_key))
    }

    /// A manager with no user and no permission.
    pub fn new() -> (out: Self)
        ensures
            out.directory() == Map::<Seq<u8>, CredentialsView>::empty(),
            out.grants() == Set::<(Seq<char>, Seq<u8>)>::empty(),
    {
        let out = UserManager { users: StringHashMap::new(), acl: StringHashMap::new() };
        assert(out.directory() =~= Map::<Seq<u8>, CredentialsView>::empty());
        assert(out.grants() =~= Set::<(Seq<char>, Seq<u8>)>::empty());
        out
    }

    /// Starts a registration with a fresh key pair. Fails with `UserExists`
    /// where the generated public key is already in the directory, so it
    /// succeeds wherever the directory holds no 32-byte key. Otherwise the
    /// result holds the key pair and the path at which the private key is
    /// to be written; the directory changes only in
    /// [`UserManager::complete_registration`].
    pub fn register_user(&self, username: &str, is_admin: bool) -> (out: Result<
        PendingRegistration,
        RegistrationError,
    >)
        ensures
            match out {
                Ok(pending) => {
                    &&& pending.username@ == username@
                    &&& pending.is_admin == is_admin
                    &&& pending.private_key@.len() == KEY_BYTES
                    &&& pending.public_key@.len() == KEY_BYTES
                    &&& pending.public_key@ == ed25519_public_key(pending.private_key@)
                    &&& pending.private_key_path@ == private_key_location(username@)
                    &&& !self.is_registered(pending.public_key@)
                },
                Err(error) => {
                    &&& error is UserExists
                    &&& exists|taken: Seq<u8>| taken.len() == KEY_BYTES && self.is_registered(taken)
                },
            },
    {
        let (private_key, public_key) = generate_keypair();
        let ghost generated = public_key@;
        let out = self.prepare_registration(username, is_admin, private_key, public_key);
        assert(out is Err ==> generated.len() == KEY_BYTES && self.is_registered(generated));
        out
    }

    /// Starts a registration with the given key pair: `UserExists` exactly
    /// where `public_key` is already in the directory, and otherwise the
    /// pending registration of `username` under that key pair.
    pub fn prepare_registration(
        &self,
        username: &str,
        is_admin: bool,
        private_key: Vec<u8>,
        public_key: Vec<u8>,
    ) -> (out: Result<PendingRegistration, RegistrationError>)
        ensures
            self.is_registered(public_key@) ==> out == Err::<
                PendingRegistration,
                RegistrationError,
            >(RegistrationError::UserExists),
            !self.is_registered(public_key@) ==> {
                &&& out matches Ok(pending)
                &&& pending.username@ == username@
                &&& pending.is_admin == is_admin
                &&& pending.private_key == private_key
                &&& pending.public_key == public_key
                &&& pending.private_key_path@ == private_key_location(username@)
            },
    {
        let index = encode(public_key.as_slice());
        if self.users.contains_key(index.as_str()) {
            return Err(RegistrationError::UserExists);
        }
        Ok(
            PendingRegistration {
                username: String::from_str(username),
                is_admin,
                public_key,
                private_key,
                private_key_path: private_key_path(username),
            },
        )
    }

    /// Finishes a registration once the private key has been written, or
    /// could not be. After a failed write the result is `PrivateKeyStore`
    /// with the reason. Where the public key has entered the directory in
    /// the meantime the result is `UserExists`. In both cases nothing
    /// changes. Otherwise the user enters the directory under its public
    /// key, and the result is that public key.
    pub fn complete_registration(
        &mut self,
        pending: PendingRegistration,
        stored: Result<(), String>,
    ) -> (out: Result<Vec<u8>, RegistrationError>)
        ensures
            final(self).grants() == old(self).grants(),
            match stored {
                Err(why) => {
                    &&& out == Err::<Vec<u8>, RegistrationError>(
                        RegistrationError::PrivateKeyStore(why),
                    )
                    &&& final(self).directory() == old(self).directory()
                },
                Ok(_) => if old(self).is_registered(pending.public_key@) {
                    &&& out == Err::<Vec<u8>, RegistrationError>(RegistrationError::UserExists)
                    &&& final(self).directory() == old(self).directory()
                } else {
                    &&& out matches Ok(public_key)
                    &&& public_key@ == pending.public_key@
                    &&& final(self).directory() == old(self).directory().insert(
                        pending.public_key@,
                        pending.credentials(),
                    )
                },
            },
    {
        if let Err(why) = stored {
            return Err(RegistrationError::PrivateKeyStore(why));
        }
        let index = encode(pending.public_key.as_slice());
        if self.users.contains_key(index.as_str()) {
            return Err(RegistrationError::UserExists);
        }
        let ghost key = pending.public_key@;
        let public_key = pending.public_key.clone();
        let credentials = UserCredentials {
            username: pending.username,
            public_key: pending.public_key,
            is_admin: pending.is_admin,
        };
        self.users.insert(index, credentials);
        proof {
            let target = old(self).directory().insert(key, pending.credentials());
            let now = self.directory();
            assert forall|k: Seq<u8>| now.dom().contains(k) <==> target.dom().contains(k) by {
                if hex_text(k) == hex_text(key) {
                    lemma_hex_text_injective(k, key);
                }
            }
            assert forall|k: Seq<u8>| now.dom().contains(k) implies now[k] == target[k] by {
                if hex_text(k) == hex_text(key) {
                    lemma_hex_text_injective(k, key);
                }
            }
            assert(now =~= target);
        }
        Ok(public_key)
    }

    /// Whether the signature verifies on the message under the public key.
    /// A key or a signature that does not decode verifies nothing.
    pub fn authenticate(&self, public_key: &[u8], signature: &[u8], message: &[u8]) -> (ok: bool)
        ensures
            ok == ed25519_verifies(public_key@, signature@, message@),
            ok ==> public_key@.len() == KEY_BYTES && signature@.len() == SIGNATURE_BYTES,
    {
        verify_detached(public_key, signature, message)
    }

    /// Authorizes `public_key` on `key`. The list of `key` is made where it
    /// does not exist; the public key is appended to it, also where it
    /// already stands there. Nothing else changes.
    pub fn add_key_permission(&mut self, key: &str, authorized_public_key: &[u8])
        ensures
            final(self).grants() == old(self).grants().insert((key@, authorized_public_key@)),
            final(self).directory() == old(self).directory(),
    {
        let hex_key = encode(key.as_bytes());
        let hex_public_key = encode(authorized_public_key);
        let mut list: Vec<String> = match self.acl.get(hex_key.as_str()) {
            Some(authorized) => copy_texts(authorized),
            None => Vec::new(),
        };
        let ghost before = list@;
        let ghost added = hex_public_key@;
        list.push(hex_public_key);
        assert(list@[before.len() as int]@ == added);
        self.acl.insert(hex_key, list);
        proof {
            let grant = (key@, authorized_public_key@);
            let now = self.grants();
            let target = old(self).grants().insert(grant);
            let was = old(self).acl@;
            let is = self.acl@;
            let slot = hex_text(encode_utf8(key@));
            assert forall|g: (Seq<char>, Seq<u8>)| now.contains(g) <==> target.contains(g) by {
                let at = hex_text(encode_utf8(g.0));
                if at == slot {
                    lemma_key_text_injective(g.0, key@);
                    let wanted = hex_text(g.1);
                    if holds_text(is[slot]@, wanted) {
                        let j = choose|j: int| 0 <= j < is[slot]@.len() && is[slot]@[j]@ == wanted;
                        if j < before.len() {
                            assert(before[j]@ == wanted);
                            assert(was.contains_key(slot));
                            assert(holds_text(was[slot]@, wanted));
                        } else {
                            lemma_hex_text_injective(g.1, authorized_public_key@);
                        }
                    }
                    if listed(was, g.0, g.1) {
                        let j = choose|j: int|
                            0 <= j < was[slot]@.len() && was[slot]@[j]@ == wanted;
                        assert(is[slot]@[j]@ == wanted);
                    }
                    if g == grant {
                        assert(is[slot]@[before.len() as int]@ == wanted);
                    }
                } else {
                    assert(is.contains_key(at) == was.contains_key(at));
                    if was.contains_key(at) {
                        assert(is[at] == was[at]);
                    }
                }
            }
            assert(now =~= target);
        }
    }

    /// Whether `public_key` is authorized on `key`: whether some earlier
    /// `add_key_permission` named this key and this public key.
    pub fn check_key_permission(&self, key: &str, public_key: &[u8]) -> (ok: bool)
        ensures
            ok == self.permits(key@, public_key@),
    {
        let hex_key = encode(key.as_bytes());
        let hex_public_key = encode(public_key);
        match self.acl.get(hex_key.as_str()) {
            Some(authorized) => contains_text(authorized, &hex_public_key),
            None => false,
        }
    }
}

/// The permissions of a manager that started with none and was then given
/// the grants of `adds`, in order.
pub open spec fn grants_of(adds: Seq<(Seq<char>, Seq<u8>)>) -> Set<(Seq<char>, Seq<u8>)>
    decreases adds.len(),
{
    if adds.len() == 0 {
        Set::empty()
    } else {
        grants_of(adds.drop_last()).insert(adds.last())
    }
}

/// A public key is authorized on a storage key exactly when some earlier
/// grant named that key and that public key.
pub proof fn law_permitted_iff_granted(
    adds: Seq<(Seq<char>, Seq<u8>)>,
    key: Seq<char>,
    public_key: Seq<u8>,
)
    ensures
        grants_of(adds).contains((key, public_key)) <==> adds.contains((key, public_key)),
    decreases adds.len(),
{
    if adds.len() > 0 {
        let earlier = adds.drop_last();
        law_permitted_iff_granted(earlier, key, public_key);
        if adds.contains((key, public_key)) {
            let i = choose|i: int| 0 <= i < adds.len() && adds[i] == (key, public_key);
            if i < earlier.len() {
                assert(earlier[i] == (key, public_key));
            }
        }
        if earlier.contains((key, public_key)) {
            let i = choose|i: int| 0 <= i < earlier.len() && earlier[i] == (key, public_key);
            assert(adds[i] == (key, public_key));
        }
        if adds.last() == (key, public_key) {
            assert(adds[adds.len() - 1] == (key, public_key));
        }
    }
}

/// Each grant adds its pair to the permissions and keeps the others, so a
/// manager that started with none permits what its history of grants names.
pub proof fn law_grants_follow_history(
    before: UserManager,
    after: UserManager,
    adds: Seq<(Seq<char>, Seq<u8>)>,
    key: Seq<char>,
    public_key: Seq<u8>,
)
    requires
        before.grants() == grants_of(adds),
        after.grants() == before.grants().insert((key, public_key)),
    ensures
        after.grants() == grants_of(adds.push((key, public_key))),
        forall|k: Seq<char>, p: Seq<u8>|
            after.permits(k, p) <==> adds.push((key, public_key)).contains((k, p)),
{
    let history = adds.push((key, public_key));
    assert(history.drop_last() =~= adds);
    assert forall|k: Seq<char>, p: Seq<u8>| after.permits(k, p) <==> history.contains(
        (k, p),
    ) by {
        law_permitted_iff_granted(history, k, p);
    }
}

/// Granting the same permission a second time changes no answer: whatever
/// is permitted after the first grant is permitted after the second, and
/// nothing else is.
pub proof fn law_grant_idempotent(
    before: UserManager,
    once: UserManager,
    twice: UserManager,
    key: Seq<char>,
    public_key: Seq<u8>,
)
    requires
        once.grants() == before.grants().insert((key, public_key)),
        twice.grants() == once.grants().insert((key, public_key)),
    ensures
        twice.grants() == once.grants(),
        forall|k: Seq<char>, p: Seq<u8>| twice.permits(k, p) == once.permits(k, p),
{
    assert(twice.grants() =~= once.grants());
}

} // verus!
