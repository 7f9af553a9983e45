//! Request, response and storage-row shapes the surrounding service
//! exchanges with its callers and its database. The core never reads them;
//! they carry plain values in and verdicts out.

use vstd::prelude::*;
use crate::model::Revision;

verus! {

/// A sign-in request: the SIWE message and the Ethereum signature over it.
pub struct SiweRequest {
    pub message: String,
    pub signature: String,
}

/// An authenticated session.
#[derive(Debug, Clone)]
pub struct SiweSession {
    pub address: String,
    pub nonce: String,
    pub issued_at: String,
    pub expiration_time: Option<String>,
}

/// A session lookup by nonce.
pub struct SiweNonceRequest {
    pub nonce: String,
}

/// The outcome of a sign-in attempt.
pub struct SiweResponse {
    pub logs: Vec<String>,
    pub success: bool,
    pub session: Option<SiweSession>,
}

/// What can go wrong during sign-in verification.
#[derive(Clone, Copy, Debug, PartialEq, Eq, Structural)]
pub enum SiweError {
    InvalidSignature,
    VerificationFailed,
    AddressMismatch,
    InvalidMessage,
    MessageVerificationFailed,
}

impl SiweError {
    /// A human-readable description of the failure.
    pub fn message(&self) -> (r: String)
        ensures
            (match self {
                SiweError::InvalidSignature => r@ == "Invalid signature"@,
                SiweError::VerificationFailed => r@ == "Failed to verify SIWE message"@,
                SiweError::AddressMismatch => r@ == "Ethereum address mismatch"@,
                SiweError::InvalidMessage => r@ == "Invalid SIWE Message"@,
                SiweError::MessageVerificationFailed => r@ == "Message verification failed"@,
            }),
    {
        match self {
            SiweError::InvalidSignature => String::from_str("Invalid signature"),
            SiweError::VerificationFailed => String::from_str("Failed to verify SIWE message"),
            SiweError::AddressMismatch => String::from_str("Ethereum address mismatch"),
            SiweError::InvalidMessage => String::from_str("Invalid SIWE Message"),
            SiweError::MessageVerificationFailed => String::from_str(
                "Message verification failed",
            ),
        }
    }
}

/// What can go wrong while receiving an upload.
pub enum UploadError {
    FileTooLarge(u32),
    MissingAccount,
    MissingFile,
    MultipartError(String),
}

/// A stored file as the explorer lists it.
#[derive(Debug, Clone)]
pub struct FileInfo {
    pub id: i64,
    pub name: String,
    pub extension: String,
    pub page_data: String,
    pub mode: String,
    pub owner: String,
}

/// What a decoded upload looks like: detected type, size and MIME type.
#[derive(Debug, Clone)]
pub struct FileDataInformation {
    pub file_type: String,
    pub size_bytes: usize,
    pub mime_type: String,
}

/// The explorer's files overview.
#[derive(Debug)]
pub struct Dashboard {
    pub files: Vec<FileInfo>,
}

/// A request to sign a stored chain's newest revision.
pub struct RevisionInput {
    pub file_id: i32,
    pub signature: String,
    pub publickey: String,
    pub wallet_address: String,
}

/// A request to witness a stored chain's newest revision.
pub struct WitnessInput {
    pub file_id: i32,
    pub tx_hash: String,
    pub wallet_address: String,
    pub network: String,
}

/// A request to delete a stored file.
#[derive(Debug, Clone)]
pub struct DeleteInput {
    pub file_id: i32,
}

/// A request to update the service configuration.
pub struct UpdateConfigurationInput {
    pub chain: String,
    pub domain: String,
    pub mode: String,
    pub contract: String,
}

/// A request to import revisions from another chain.
pub struct MergeInput {
    pub file_id: i32,
    pub last_identical_revision_hash: String,
    pub revisions_to_import: Vec<Revision>,
}

/// A lookup of a stored file by name.
pub struct Input {
    pub filename: String,
}

/// The serialized container a chain is stored and shipped in.
pub struct PageDataContainer<T> {
    pub pages: Vec<T>,
}

/// The explorer's generic API response: logs and the touched files.
pub struct ApiResponse {
    pub logs: Vec<String>,
    pub file: Option<FileInfo>,
    pub files: Vec<FileInfo>,
}

/// A stored file row.
#[derive(Debug, Clone)]
pub struct PagesTable {
    pub id: i32,
    pub name: String,
    pub extension: String,
    pub page_data: String,
    pub owner: String,
    pub mode: String,
    pub created_at: String,
    pub is_shared: bool,
}

/// A file row to insert, without the generated id.
#[derive(Debug, Clone)]
pub struct NewPagesTable {
    pub name: String,
    pub extension: String,
    pub page_data: String,
    pub owner: String,
    pub mode: String,
    pub created_at: String,
    pub is_shared: bool,
}

impl From<PagesTable> for NewPagesTable {
    fn from(page: PagesTable) -> Self {
        NewPagesTable {
            name: page.name,
            extension: page.extension,
            page_data: page.page_data,
            owner: page.owner,
            mode: page.mode,
            created_at: page.created_at,
            is_shared: page.is_shared,
        }
    }
}

impl vstd::std_specs::convert::FromSpecImpl<PagesTable> for NewPagesTable {
    open spec fn obeys_from_spec() -> bool {
        true
    }

    open spec fn from_spec(page: PagesTable) -> Self {
        NewPagesTable {
            name: page.name,
            extension: page.extension,
            page_data: page.page_data,
            owner: page.owner,
            mode: page.mode,
            created_at: page.created_at,
            is_shared: page.is_shared,
        }
    }
}

/// A stored sign-in session row.
#[derive(Debug, Clone)]
pub struct SiweSessionsTable {
    pub id: Option<i32>,
    pub address: String,
    pub nonce: String,
    pub issued_at: String,
    pub expiration_time: Option<String>,
}

/// A stored share row.
#[derive(Debug, Clone)]
pub struct ShareDataTable {
    pub id: Option<i32>,
    pub file_id: i32,
    pub identifier: String,
    pub created_time: String,
}

/// A stored user profile row.
#[derive(Debug, Clone)]
pub struct UserProfilesTable {
    pub id: Option<i32>,
    pub address: String,
    pub chain: String,
    pub theme: String,
    pub contract_address: String,
    pub file_mode: String,
    pub domain_name: String,
}

/// The response to a share lookup.
pub struct ShareDataResponse {
    pub logs: Vec<String>,
    pub share_data: Option<ShareDataTable>,
    pub file_data: Option<PagesTable>,
}

/// A request to create a share.
#[derive(Debug, Clone)]
pub struct CreateShareData {
    pub file_id: i32,
    pub identifier: String,
}

/// The response to a user profile lookup.
pub struct UserProfileApiResponse {
    pub logs: Vec<String>,
    pub user_profile: Option<UserProfilesTable>,
}

} // verus!
