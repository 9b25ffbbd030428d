//! Error types of the upload pipeline.
//!
//! Variants that in a running process carry an error from the platform,
//! the store or the filesystem hold the already-rendered message text, so
//! that the pipeline's failure log can be composed in verified code.

use vstd::prelude::*;
use vstd::string::*;
use crate::text::{dec_chars, int_chars, i32_to_string, usize_to_string};

verus! {

/// A per-video or per-part failure of the upload pipeline.
#[derive(Debug, Clone)]
pub enum UploaderError {
    /// A configured path could not be expanded.
    ExpandPath(String),
    /// The authentication flow failed.
    AuthError(AuthError),
    /// The persistent store reported an error.
    Database(String),
    /// The video platform reported an error.
    YoutubeError(String),
    /// No user row exists for the video's owning user id.
    UnknownUser(i32),
    /// No authorized client is registered for the video's owning user id.
    NoClient(i32),
    /// A segment file could not be opened.
    OpenPartFile(String),
    /// The segment directory could not be listed.
    ReadPartsFolder(String),
    /// A segment file could not be deleted after its upload succeeded.
    DeletePartAfterUpload(String),
    /// A directory entry does not have the expected container extension.
    WrongFileExtension,
    /// A directory entry has no filename stem.
    GetNameWithoutFileExtension,
    /// A directory entry's name is not valid text.
    ConvertPathToString,
    /// A filename stem is not a part ordinal.
    ParsePartNumber,
    /// A status update could not be persisted.
    SaveVideoStatus(String),
    /// The video's creation timestamp or the user's timezone does not parse.
    ParseDate,
    /// The number of discovered segment files differs from the declared
    /// count: expected, then actual.
    PartCountMismatch(usize, usize),
    /// The platform accepted a call but returned no identifier.
    NoIdReturned,
}

/// The diagnostic text of an error, as recorded in a video's failure
/// log.
pub open spec fn message_chars(e: UploaderError) -> Seq<char> {
    match e {
        UploaderError::ExpandPath(_) => "Path could not be expanded"@,
        UploaderError::AuthError(a) => "Got an auth error: "@ + auth_message_chars(a),
        UploaderError::Database(s) => "Some error with the database: "@ + s@,
        UploaderError::YoutubeError(s) => "Error with some Youtube operation: "@ + s@ + " "@,
        UploaderError::UnknownUser(u) => "Could not find user: "@ + int_chars(u as int),
        UploaderError::NoClient(u) => "Could not find client for user: "@ + int_chars(u as int),
        UploaderError::OpenPartFile(s) => "Could not read part file: "@ + s@,
        UploaderError::ReadPartsFolder(s) => "Could not read parts folder: "@ + s@,
        UploaderError::DeletePartAfterUpload(s) => "Could not delete part file after uploading: "@
            + s@,
        UploaderError::WrongFileExtension => "wrong file extension"@,
        UploaderError::GetNameWithoutFileExtension => "could not get file stem"@,
        UploaderError::ConvertPathToString => "could not convert path to string"@,
        UploaderError::ParsePartNumber => "could not parse part number from path"@,
        UploaderError::SaveVideoStatus(_) => "could not save video status"@,
        UploaderError::ParseDate => "could not parse date"@,
        UploaderError::PartCountMismatch(expected, got) => "part count does not match: expected: "@
            + dec_chars(expected as nat) + ", got: "@ + dec_chars(got as nat),
        UploaderError::NoIdReturned => "no id returned from youtube"@,
    }
}

/// The diagnostic text of an authentication error.
pub open spec fn auth_message_chars(e: AuthError) -> Seq<char> {
    match e {
        AuthError::ReadApplicationSecret(s) => "could not read application secret from path: "@
            + s@,
        AuthError::CreateAuth(_) => "could not create auth"@,
        AuthError::GetAccessToken(_) => "could not get access to the requested scopes"@,
        AuthError::PersistentPathError(p) => "could not get and validate persistent path: "@
            + path_message_chars(p),
        AuthError::RemoveAuthCodeFile(s) => "could not remove existing auth code file: "@ + s@,
    }
}

/// The diagnostic text of a token-cache path error.
pub open spec fn path_message_chars(e: PersistentPathError) -> Seq<char> {
    match e {
        PersistentPathError::PathNotDir(s) => "persistent path parent folder is not a dir: "@
            + s@,
        PersistentPathError::ReplaceUser(_) => "could not replace user in persistent path"@,
        PersistentPathError::GetParentFolder => "could not get parent folder"@,
        PersistentPathError::CreateDirs(_) => "could not create dirs"@,
    }
}

impl UploaderError {
    /// Renders the error's diagnostic text.
    pub fn message(&self) -> (r: String)
        ensures
            r@ == message_chars(*self),
    {
        match self {
            UploaderError::ExpandPath(_) => String::from_str("Path could not be expanded"),
            UploaderError::AuthError(a) => {
                let mut r = String::from_str("Got an auth error: ");
                r.append(a.message().as_str());
                r
            },
            UploaderError::Database(s) => {
                let mut r = String::from_str("Some error with the database: ");
                r.append(s.as_str());
                r
            },
            UploaderError::YoutubeError(s) => {
                let mut r = String::from_str("Error with some Youtube operation: ");
                r.append(s.as_str());
                r.append(" ");
                r
            },
            UploaderError::UnknownUser(u) => {
                let mut r = String::from_str("Could not find user: ");
                r.append(i32_to_string(*u).as_str());
                r
            },
            UploaderError::NoClient(u) => {
                let mut r = String::from_str("Could not find client for user: ");
                r.append(i32_to_string(*u).as_str());
                r
            },
            UploaderError::OpenPartFile(s) => {
                let mut r = String::from_str("Could not read part file: ");
                r.append(s.as_str());
                r
            },
            UploaderError::ReadPartsFolder(s) => {
                let mut r = String::from_str("Could not read parts folder: ");
                r.append(s.as_str());
                r
            },
            UploaderError::DeletePartAfterUpload(s) => {
                let mut r = String::from_str("Could not delete part file after uploading: ");
                r.append(s.as_str());
                r
            },
            UploaderError::WrongFileExtension => String::from_str("wrong file extension"),
            UploaderError::GetNameWithoutFileExtension => String::from_str(
                "could not get file stem",
            ),
            UploaderError::ConvertPathToString => String::from_str(
                "could not convert path to string",
            ),
            UploaderError::ParsePartNumber => String::from_str(
                "could not parse part number from path",
            ),
            UploaderError::SaveVideoStatus(_) => String::from_str("could not save video status"),
            UploaderError::ParseDate => String::from_str("could not parse date"),
            UploaderError::PartCountMismatch(expected, got) => {
                let mut r = String::from_str("part count does not match: expected: ");
                r.append(usize_to_string(*expected).as_str());
                r.append(", got: ");
                r.append(usize_to_string(*got).as_str());
                r
            },
            UploaderError::NoIdReturned => String::from_str("no id returned from youtube"),
        }
    }
}

impl AuthError {
    /// Renders the error's diagnostic text.
    pub fn message(&self) -> (r: String)
        ensures
            r@ == auth_message_chars(*self),
    {
        match self {
            AuthError::ReadApplicationSecret(s) => {
                let mut r = String::from_str("could not read application secret from path: ");
                r.append(s.as_str());
                r
            },
            AuthError::CreateAuth(_) => String::from_str("could not create auth"),
            AuthError::GetAccessToken(_) => String::from_str(
                "could not get access to the requested scopes",
            ),
            AuthError::PersistentPathError(p) => {
                let mut r = String::from_str("could not get and validate persistent path: ");
                r.append(p.message().as_str());
                r
            },
            AuthError::RemoveAuthCodeFile(s) => {
                let mut r = String::from_str("could not remove existing auth code file: ");
                r.append(s.as_str());
                r
            },
        }
    }
}

impl PersistentPathError {
    /// Renders the error's diagnostic text.
    pub fn message(&self) -> (r: String)
        ensures
            r@ == path_message_chars(*self),
    {
        match self {
            PersistentPathError::PathNotDir(s) => {
                let mut r = String::from_str("persistent path parent folder is not a dir: ");
                r.append(s.as_str());
                r
            },
            PersistentPathError::ReplaceUser(_) => String::from_str(
                "could not replace user in persistent path",
            ),
            PersistentPathError::GetParentFolder => String::from_str(
                "could not get parent folder",
            ),
            PersistentPathError::CreateDirs(_) => String::from_str("could not create dirs"),
        }
    }
}

/// A failure of the token-acquisition flow.
#[derive(Debug, Clone)]
pub enum AuthError {
    ReadApplicationSecret(String),
    CreateAuth(String),
    GetAccessToken(String),
    PersistentPathError(PersistentPathError),
    RemoveAuthCodeFile(String),
}

/// A failure while resolving the per-user token cache path.
#[derive(Debug, Clone)]
pub enum PersistentPathError {
    PathNotDir(String),
    ReplaceUser(String),
    GetParentFolder,
    CreateDirs(String),
}

} // verus!
