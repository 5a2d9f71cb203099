//! The node's access decisions: which operator requests become requests to
//! the distributed hash table, and what those requests hold.
//!
//! Every request names a storage key, a public key and a signature over the
//! key's UTF-8 bytes. It goes through only if the signature verifies under
//! the public key and the public key is authorized on the storage key. A
//! request that goes through has a public key of 32 bytes and a signature
//! of 64.

use crate::auth::{CredentialsView, UserManager};
use crate::chunk::{
    chunk_count, encode_file, file_records, record_views, total_key, total_key_text, Record, RecordView,
    WRITE_QUORUM,
};
use crate::signing::{ed25519_verifies, KEY_BYTES, SIGNATURE_BYTES};
use vstd::prelude::*;
use vstd::utf8::encode_utf8;

verus! {

/// How many peers must answer a request.
#[derive(Clone, Copy, Debug, PartialEq, Eq, Structural)]
pub enum Quorum {
    /// One peer.
    One,
    /// The given number of peers.
    N(usize),
}

/// A request to the distributed hash table, as contracts see it.
pub enum RequestView {
    Put { record: RecordView, quorum: Quorum },
    Get { key: Seq<u8>, quorum: Quorum },
}

/// A request to the distributed hash table.
#[derive(Clone, Debug, PartialEq, Eq)]
pub enum DhtRequest {
    /// Store the record with the given quorum.
    Put { record: Record, quorum: Quorum },
    /// Look the key up with the given quorum.
    Get { key: Vec<u8>, quorum: Quorum },
}

impl View for DhtRequest {
    type V = RequestView;

    open spec fn view(&self) -> RequestView {
        match self {
            DhtRequest::Put { record, quorum } => RequestView::Put {
                record: record@,
                quorum: *quorum,
            },
            DhtRequest::Get { key, quorum } => RequestView::Get { key: key@, quorum: *quorum },
        }
    }
}

/// The views of a vector of requests, in order.
pub open spec fn request_views(requests: Seq<DhtRequest>) -> Seq<RequestView> {
    Seq::new(requests.len(), |i: int| requests[i]@)
}

/// The request that stores `value` under the storage key `key`.
pub open spec fn put_request(key: Seq<char>, value: Seq<u8>) -> RequestView {
    RequestView::Put {
        record: RecordView { key: encode_utf8(key), value },
        quorum: Quorum::N(WRITE_QUORUM),
    }
}

/// The request that looks the storage key `key` up.
pub open spec fn get_request(key: Seq<char>) -> RequestView {
    RequestView::Get { key: encode_utf8(key), quorum: Quorum::One }
}

/// The requests that store a file: one write for each of its records, in order.
pub open spec fn file_requests(file_key: Seq<char>, content: Seq<char>) -> Seq<RequestView> {
    let records = file_records(file_key, content);
    Seq::new(
        records.len(),
        |i: int| RequestView::Put { record: records[i], quorum: Quorum::N(WRITE_QUORUM) },
    )
}

/// Why a request was turned away.
#[derive(Clone, Copy, Debug, PartialEq, Eq, Structural)]
pub enum AccessError {
    /// The signature does not verify on the storage key under the public key.
    AuthenticationFailed,
    /// The public key is not authorized on the storage key.
    PermissionDenied,
}

/// Why a file was not stored.
#[derive(Clone, Debug, PartialEq, Eq)]
pub enum PutFileError {
    /// The request was turned away.
    Access(AccessError),
    /// The file could not be read; the text says why.
    Unreadable(String),
}

/// One node: its peer identifier, as text, and its user directory.
pub struct Node {
    pub peer_id: String,
    pub user_manager: UserManager,
}

impl Node {
    /// Whether a request on `key` by `public_key` with `signature` goes
    /// through, and why not. The signature is checked first.
    pub open spec fn admits(
        self,
        key: Seq<char>,
        public_key: Seq<u8>,
        signature: Seq<u8>,
    ) -> Result<(), AccessError> {
        if !ed25519_verifies(public_key, signature, encode_utf8(key)) {
            Err(AccessError::AuthenticationFailed)
        } else if !self.user_manager.permits(key, public_key) {
            Err(AccessError::PermissionDenied)
        } else {
            Ok(())
        }
    }

    /// A node with the given peer identifier, no user and no permission.
    pub fn new(peer_id: String) -> (node: Self)
        ensures
            node.peer_id == peer_id,
            node.user_manager.directory() == Map::<Seq<u8>, CredentialsView>::empty(),
            node.user_manager.grants() == Set::<(Seq<char>, Seq<u8>)>::empty(),
    {
        Node { peer_id, user_manager: UserManager::new() }
    }

    /// Checks a request: the signature over the key's bytes, then the
    /// permission on the key.
    pub fn authorize(&self, key: &str, public_key: &[u8], signature: &[u8]) -> (out: Result<
        (),
        AccessError,
    >)
        ensures
            out == self.admits(key@, public_key@, signature@),
            out is Ok ==> public_key@.len() == KEY_BYTES && signature@.len() == SIGNATURE_BYTES,
    {
        if !self.user_manager.authenticate(public_key, signature, key.as_bytes()) {
            return Err(AccessError::AuthenticationFailed);
        }
        if !self.user_manager.check_key_permission(key, public_key) {
            return Err(AccessError::PermissionDenied);
        }
        Ok(())
    }

    /// A request to store `value` under `key`: where it is admitted, the
    /// write of that record with the write quorum.
    pub fn put(&self, key: String, value: Vec<u8>, public_key: Vec<u8>, signature: Vec<u8>) -> (out:
        Result<DhtRequest, AccessError>)
        ensures
            match self.admits(key@, public_key@, signature@) {
                Ok(_) => out matches Ok(request) && request@ == put_request(key@, value@),
                Err(error) => out == Err::<DhtRequest, AccessError>(error),
            },
            out is Ok ==> public_key@.len() == KEY_BYTES && signature@.len() == SIGNATURE_BYTES,
    {
        match self.authorize(key.as_str(), public_key.as_slice(), signature.as_slice()) {
            Err(error) => Err(error),
            Ok(_) => Ok(
                DhtRequest::Put {
                    record: Record { key: key.as_str().as_bytes_vec(), value },
                    quorum: Quorum::N(WRITE_QUORUM),
                },
            ),
        }
    }

    /// A request to look `key` up: where it is admitted, the lookup of that
    /// key, for which one peer's answer is enough.
    pub fn get(&self, key: String, public_key: Vec<u8>, signature: Vec<u8>) -> (out: Result<
        DhtRequest,
        AccessError,
    >)
        ensures
            match self.admits(key@, public_key@, signature@) {
                Ok(_) => out matches Ok(request) && request@ == get_request(key@),
                Err(error) => out == Err::<DhtRequest, AccessError>(error),
            },
            out is Ok ==> public_key@.len() == KEY_BYTES && signature@.len() == SIGNATURE_BYTES,
    {
        match self.authorize(key.as_str(), public_key.as_slice(), signature.as_slice()) {
            Err(error) => Err(error),
            Ok(_) => Ok(DhtRequest::Get { key: key.as_str().as_bytes_vec(), quorum: Quorum::One }),
        }
    }

    /// A request to store a file under `file_key`. `file` is the file's text,
    /// or the reason why it could not be read. Where the request is admitted
    /// and the file was read, the result holds one write for each chunk, in
    /// order, and then the write of the number of chunks, all with the write
    /// quorum. A request that is not admitted is turned away whatever the
    /// file holds.
    pub fn put_file(
        &self,
        file_key: String,
        file: Result<String, String>,
        public_key: Vec<u8>,
        signature: Vec<u8>,
    ) -> (out: Result<Vec<DhtRequest>, PutFileError>)
        ensures
            match self.admits(file_key@, public_key@, signature@) {
                Err(error) => out == Err::<Vec<DhtRequest>, PutFileError>(
                    PutFileError::Access(error),
                ),
                Ok(_) => match file {
                    Err(why) => out == Err::<Vec<DhtRequest>, PutFileError>(
                        PutFileError::Unreadable(why),
                    ),
                    Ok(content) => {
                        &&& out matches Ok(requests)
                        &&& request_views(requests@) == file_requests(file_key@, content@)
                        &&& requests@.len() == chunk_count(content@.len()) + 1
                    },
                },
            },
            out is Ok ==> public_key@.len() == KEY_BYTES && signature@.len() == SIGNATURE_BYTES,
    {
        broadcast use vstd::std_specs::vec::group_vec_axioms;

        match self.authorize(file_key.as_str(), public_key.as_slice(), signature.as_slice()) {
            Err(error) => {
                return Err(PutFileError::Access(error));
            },
            Ok(_) => {},
        }
        let content = match file {
            Err(why) => {
                return Err(PutFileError::Unreadable(why));
            },
            Ok(content) => content,
        };
        let records = encode_file(file_key.as_str(), content.as_str());
        let ghost expected = file_records(file_key@, content@);
        let ghost all = records@;
        let mut requests: Vec<DhtRequest> = Vec::new();
        for record in it: records.into_iter()
            invariant
                it.seq() == all,
                record_views(all) == expected,
                requests@.len() == it.index(),
                forall|i: int|
                    0 <= i < requests@.len() ==> (#[trigger] requests@[i])@ == (RequestView::Put {
                        record: expected[i],
                        quorum: Quorum::N(WRITE_QUORUM),
                    }),
        {
            assert(record@ == record_views(all)[it.index() as int]);
            requests.push(DhtRequest::Put { record, quorum: Quorum::N(WRITE_QUORUM) });
        }
        assert(request_views(requests@) =~= file_requests(file_key@, content@));
        Ok(requests)
    }

    /// A request to retrieve the file stored under `file_key`: where it is
    /// admitted, the lookup of the record that holds the number of chunks.
    pub fn get_file(&self, file_key: String, public_key: Vec<u8>, signature: Vec<u8>) -> (out:
        Result<DhtRequest, AccessError>)
        ensures
            match self.admits(file_key@, public_key@, signature@) {
                Ok(_) => out matches Ok(request) && request@ == get_request(
                    total_key_text(file_key@),
                ),
                Err(error) => out == Err::<DhtRequest, AccessError>(error),
            },
            out is Ok ==> public_key@.len() == KEY_BYTES && signature@.len() == SIGNATURE_BYTES,
    {
        match self.authorize(file_key.as_str(), public_key.as_slice(), signature.as_slice()) {
            Err(error) => Err(error),
            Ok(_) => {
                let key = total_key(file_key.as_str());
                Ok(DhtRequest::Get { key: key.as_str().as_bytes_vec(), quorum: Quorum::One })
            },
        }
    }
}

} // verus!
