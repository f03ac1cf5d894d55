//! The data the site exchanges: errors, titles, permissions, sections, runs and users.
use crate::text::str_eq;
use crate::time::{RunTime, Timestamp};
use vstd::prelude::*;

verus! {

/// Errors that the API reports.
#[derive(Clone, Debug, PartialEq)]
pub enum ApiError {
    Unauthorized,
    Unauthenticated,
    InvalidInput,
    InvalidCredentials,
    InvalidSection,
    InvalidYtId,
    AlreadyExists,
    NotFound,
    ClientError(String),
    ServerError(String),
}

/// The kinds of failure that the server-function transport reports, each with its message.
#[derive(Clone, Debug, PartialEq)]
pub enum ServerFnFailure {
    UnsupportedRequestMethod(String),
    Request(String),
    Deserialization(String),
    Serialization(String),
    Registration(String),
    MiddlewareError(String),
    ServerError(String),
    Args(String),
    MissingArg(String),
    Response(String),
}

impl ApiError {
    /// The message shown for an error.
    pub open spec fn spec_message(self) -> Seq<char> {
        match self {
            ApiError::Unauthorized => "Unauthorized"@,
            ApiError::Unauthenticated => "Unauthenticated"@,
            ApiError::InvalidInput => "Invalid Input"@,
            ApiError::InvalidCredentials => "Invalid Credentials"@,
            ApiError::InvalidSection => "Invalid Section"@,
            ApiError::InvalidYtId => "Invalid YouTube ID"@,
            ApiError::AlreadyExists => "Already Exists"@,
            ApiError::NotFound => "Not Found"@,
            ApiError::ClientError(s) => "Client Error: "@ + s@,
            ApiError::ServerError(s) => "Server Error: "@ + s@,
        }
    }

    /// The message shown for an error (what `to_string` gives).
    pub fn message(&self) -> (r: String)
        ensures
            r@ == self.spec_message(),
    {
        match self {
            ApiError::Unauthorized => String::from_str("Unauthorized"),
            ApiError::Unauthenticated => String::from_str("Unauthenticated"),
            ApiError::InvalidInput => String::from_str("Invalid Input"),
            ApiError::InvalidCredentials => String::from_str("Invalid Credentials"),
            ApiError::InvalidSection => String::from_str("Invalid Section"),
            ApiError::InvalidYtId => String::from_str("Invalid YouTube ID"),
            ApiError::AlreadyExists => String::from_str("Already Exists"),
            ApiError::NotFound => String::from_str("Not Found"),
            ApiError::ClientError(s) => String::from_str("Client Error: ").concat(s.as_str()),
            ApiError::ServerError(s) => String::from_str("Server Error: ").concat(s.as_str()),
        }
    }

    /// Whether `name` names an error: the message of a plain error, or the bare name
    /// of an error that carries a message.
    pub open spec fn is_error_name(name: Seq<char>) -> bool {
        name == "Unauthorized"@ || name == "Unauthenticated"@ || name == "Invalid Input"@
            || name == "Invalid Credentials"@ || name == "Invalid Section"@ || name
            == "Invalid YouTube ID"@ || name == "Already Exists"@ || name == "Not Found"@ || name
            == "ClientError"@ || name == "ServerError"@
    }

    /// `self` is the error that `name` denotes; an error that carries a message is named
    /// by its bare name and then carries the empty message.
    pub open spec fn named_by(self, name: Seq<char>) -> bool {
        match self {
            ApiError::ClientError(m) => name == "ClientError"@ && m@ == Seq::<char>::empty(),
            ApiError::ServerError(m) => name == "ServerError"@ && m@ == Seq::<char>::empty(),
            _ => name == self.spec_message(),
        }
    }

    /// Parses an error from its name (the `FromStr` of the error type).
    pub fn from_name(name: &str) -> (r: Option<ApiError>)
        ensures
            r is None <==> !ApiError::is_error_name(name@),
            r matches Some(e) ==> e.named_by(name@),
    {
        if str_eq(name, "Unauthorized") {
            Some(ApiError::Unauthorized)
        } else if str_eq(name, "Unauthenticated") {
            Some(ApiError::Unauthenticated)
        } else if str_eq(name, "Invalid Input") {
            Some(ApiError::InvalidInput)
        } else if str_eq(name, "Invalid Credentials") {
            Some(ApiError::InvalidCredentials)
        } else if str_eq(name, "Invalid Section") {
            Some(ApiError::InvalidSection)
        } else if str_eq(name, "Invalid YouTube ID") {
            Some(ApiError::InvalidYtId)
        } else if str_eq(name, "Already Exists") {
            Some(ApiError::AlreadyExists)
        } else if str_eq(name, "Not Found") {
            Some(ApiError::NotFound)
        } else if str_eq(name, "ClientError") {
            Some(ApiError::ClientError(String::new()))
        } else if str_eq(name, "ServerError") {
            Some(ApiError::ServerError(String::new()))
        } else {
            None
        }
    }

    /// The error that a transport failure becomes: a failure of the request side is the
    /// client's, every other failure is the server's; the message is kept.
    pub fn from_server_fn_error(value: ServerFnFailure) -> (r: ApiError)
        ensures
            match value {
                ServerFnFailure::UnsupportedRequestMethod(v) => r == ApiError::ClientError(v),
                ServerFnFailure::Request(v) => r == ApiError::ClientError(v),
                ServerFnFailure::Deserialization(v) => r == ApiError::ClientError(v),
                ServerFnFailure::Serialization(v) => r == ApiError::ClientError(v),
                ServerFnFailure::Registration(v) => r == ApiError::ServerError(v),
                ServerFnFailure::MiddlewareError(v) => r == ApiError::ServerError(v),
                ServerFnFailure::ServerError(v) => r == ApiError::ServerError(v),
                ServerFnFailure::Args(v) => r == ApiError::ServerError(v),
                ServerFnFailure::MissingArg(v) => r == ApiError::ServerError(v),
                ServerFnFailure::Response(v) => r == ApiError::ServerError(v),
            },
    {
        match value {
            ServerFnFailure::UnsupportedRequestMethod(v) | ServerFnFailure::Request(v)
            | ServerFnFailure::Deserialization(v) | ServerFnFailure::Serialization(v) => {
                ApiError::ClientError(v)
            },
            ServerFnFailure::Registration(v) | ServerFnFailure::MiddlewareError(v)
            | ServerFnFailure::ServerError(v) | ServerFnFailure::Args(v)
            | ServerFnFailure::MissingArg(v) | ServerFnFailure::Response(v) => {
                ApiError::ServerError(v)
            },
        }
    }
}

/// Reading an error back from the message of an error that carries none gives that
/// error, and nothing else.
pub proof fn lemma_error_name_round_trip(e: ApiError, other: ApiError)
    requires
        !(e is ClientError),
        !(e is ServerError),
        other.named_by(e.spec_message()),
    ensures
        ApiError::is_error_name(e.spec_message()),
        other == e,
{
    reveal_strlit("Unauthorized");
    reveal_strlit("Unauthenticated");
    reveal_strlit("Invalid Input");
    reveal_strlit("Invalid Credentials");
    reveal_strlit("Invalid Section");
    reveal_strlit("Invalid YouTube ID");
    reveal_strlit("Already Exists");
    reveal_strlit("Not Found");
    reveal_strlit("ClientError");
    reveal_strlit("ServerError");
    let m = e.spec_message();
    match other {
        ApiError::ClientError(_) => {
            assert(m.len() != "ClientError"@.len());
        },
        ApiError::ServerError(_) => {
            assert(m.len() != "ServerError"@.len());
        },
        _ => {
            let o = other.spec_message();
            assert(o == m);
            assert(o.len() == m.len() && o[0] == m[0]);
        },
    }
}

/// The titles a player earns in a ranking, from none to first place.
#[derive(Clone, Copy, Debug, PartialEq, Eq, Hash)]
pub enum Title {
    NoTitle,
    Surfer,
    SuperSurfer,
    EpicSurfer,
    LegendarySurfer,
    MythicSurfer,
    TopOne,
}

impl Title {
    /// The place of a title in the order of titles (its stored number).
    pub open spec fn spec_level(self) -> int {
        match self {
            Title::NoTitle => 0,
            Title::Surfer => 1,
            Title::SuperSurfer => 2,
            Title::EpicSurfer => 3,
            Title::LegendarySurfer => 4,
            Title::MythicSurfer => 5,
            Title::TopOne => 6,
        }
    }

    /// The place of a title in the order of titles (its stored number).
    pub fn level(&self) -> (r: i32)
        ensures
            r == self.spec_level(),
    {
        match self {
            Title::NoTitle => 0,
            Title::Surfer => 1,
            Title::SuperSurfer => 2,
            Title::EpicSurfer => 3,
            Title::LegendarySurfer => 4,
            Title::MythicSurfer => 5,
            Title::TopOne => 6,
        }
    }

    /// Whether `self` ranks above `other`.
    pub fn is_above(&self, other: &Title) -> (r: bool)
        ensures
            r == (self.spec_level() > other.spec_level()),
    {
        self.level() > other.level()
    }

    /// The name of a title as shown to players.
    pub open spec fn spec_name(self) -> Seq<char> {
        match self {
            Title::NoTitle => "No Title"@,
            Title::Surfer => "Surfer"@,
            Title::SuperSurfer => "Super Surfer"@,
            Title::EpicSurfer => "Epic Surfer"@,
            Title::LegendarySurfer => "Legendary Surfer"@,
            Title::MythicSurfer => "Mythic Surfer"@,
            Title::TopOne => "Rank 1"@,
        }
    }

    /// The name of a title as shown to players (what `to_string` gives).
    pub fn name(&self) -> (r: String)
        ensures
            r@ == self.spec_name(),
    {
        match self {
            Title::NoTitle => String::from_str("No Title"),
            Title::Surfer => String::from_str("Surfer"),
            Title::SuperSurfer => String::from_str("Super Surfer"),
            Title::EpicSurfer => String::from_str("Epic Surfer"),
            Title::LegendarySurfer => String::from_str("Legendary Surfer"),
            Title::MythicSurfer => String::from_str("Mythic Surfer"),
            Title::TopOne => String::from_str("Rank 1"),
        }
    }
}

/// What a user may do on the site.
#[derive(Clone, Copy, Debug, PartialEq, Eq, Hash)]
pub enum Permissions {
    View,
    Submit,
    Trusted,
    Delete,
    Verify,
    ManageRuns,
    ManageSections,
    ManageUsers,
    Administrator,
}

impl Permissions {
    /// The position of a permission in a user's permission bits.
    pub open spec fn spec_bit(self) -> int {
        match self {
            Permissions::View => 0,
            Permissions::Submit => 1,
            Permissions::Trusted => 2,
            Permissions::Delete => 3,
            Permissions::Verify => 4,
            Permissions::ManageRuns => 5,
            Permissions::ManageSections => 6,
            Permissions::ManageUsers => 7,
            Permissions::Administrator => 63,
        }
    }

    /// The position of a permission in a user's permission bits.
    pub fn bit(&self) -> (r: usize)
        ensures
            r == self.spec_bit(),
    {
        match self {
            Permissions::View => 0,
            Permissions::Submit => 1,
            Permissions::Trusted => 2,
            Permissions::Delete => 3,
            Permissions::Verify => 4,
            Permissions::ManageRuns => 5,
            Permissions::ManageSections => 6,
            Permissions::ManageUsers => 7,
            Permissions::Administrator => 63,
        }
    }
}

/// A user as shown next to a run or a ranking.
#[derive(Debug, PartialEq, Eq)]
pub struct PartialUser {
    pub user_id: i64,
    pub username: String,
}

/// A section as shown with its runs: one map of a layout and category in a patch.
#[derive(Clone, Debug, PartialEq, Eq)]
pub struct PartialSection {
    pub id: i32,
    pub patch: String,
    pub layout: String,
    pub category: String,
    pub map: String,
    pub submittable: bool,
}

/// A section with the workshop code of its map.
#[derive(Clone, Debug, PartialEq, Eq)]
pub struct Section {
    pub id: i32,
    pub patch: String,
    pub layout: String,
    pub category: String,
    pub map: String,
    pub code: String,
    pub submittable: bool,
}

/// A map and its workshop code.
#[derive(Clone, Debug, PartialEq, Eq)]
pub struct MapCode {
    pub name: String,
    pub code: String,
}

/// A submitted run, as listed under its section.
#[derive(Debug, PartialEq, Eq)]
pub struct PartialRun {
    pub id: i32,
    pub section_id: i32,
    pub user: PartialUser,
    pub time: RunTime,
    pub proof: String,
    pub yt_id: Option<String>,
    pub verified: bool,
    pub is_pb: bool,
    pub is_wr: bool,
    pub created_at: Timestamp,
}

impl Clone for PartialUser {
    fn clone(&self) -> (r: Self)
        ensures
            r == *self,
    {
        PartialUser { user_id: self.user_id, username: self.username.clone() }
    }
}

impl Clone for PartialRun {
    fn clone(&self) -> (r: Self)
        ensures
            r == *self,
    {
        let yt_id = match &self.yt_id {
            Some(y) => Some(y.clone()),
            None => None,
        };
        PartialRun {
            id: self.id,
            section_id: self.section_id,
            user: self.user.clone(),
            time: self.time,
            proof: self.proof.clone(),
            yt_id,
            verified: self.verified,
            is_pb: self.is_pb,
            is_wr: self.is_wr,
            created_at: self.created_at,
        }
    }
}

impl PartialRun {
    /// The time and the instant of the run are well formed.
    pub open spec fn wf(self) -> bool {
        self.time.wf() && self.created_at.wf()
    }
}

/// A submitted run together with its section.
#[derive(Clone, Debug, PartialEq, Eq)]
pub struct Run {
    pub id: i32,
    pub section: PartialSection,
    pub user: PartialUser,
    pub time: RunTime,
    pub proof: String,
    pub yt_id: Option<String>,
    pub verified: bool,
    pub is_pb: bool,
    pub is_wr: bool,
    pub created_at: Timestamp,
}

/// A section with all its runs, oldest first.
#[derive(Clone, Debug, PartialEq, Eq)]
pub struct SectionRuns {
    pub section: PartialSection,
    pub runs: Vec<PartialRun>,
}

/// An entry of the activity feed: a player joined, or changed rank or title.
#[derive(Clone, Debug, PartialEq, Eq)]
pub struct Activity {
    pub id: i32,
    pub user: PartialUser,
    pub rank_id: Option<i32>,
    pub patch: Option<String>,
    pub layout: Option<String>,
    pub category: Option<String>,
    pub title_old: Option<Title>,
    pub title_new: Option<Title>,
    pub rank_old: Option<i32>,
    pub rank_new: Option<i32>,
    pub created_at: Timestamp,
}

/// A Discord account linked to a user.
#[derive(Clone, Debug, PartialEq, Eq)]
pub struct Discord {
    pub name: String,
    pub snowflake: String,
}

/// A request to change a password: the current one and the new one.
#[derive(Clone, Debug)]
pub struct PasswordUpdate {
    pub old: String,
    pub new: String,
}

/// The stored hash of a user's password.
#[derive(Clone, Debug, PartialEq, Eq)]
pub struct UserPasshash(pub String);

/// One permission token of a user, as stored.
#[derive(Clone, Debug)]
pub struct PgPermissionToken {
    pub token: Permissions,
}

/// One permission token of a user, as stored by name.
#[derive(Clone, Debug)]
pub struct PgPermissionTokens {
    pub token: String,
}

/// The video proof of a run: the YouTube id where there is one, and the link.
#[derive(Clone, Debug, PartialEq, Eq)]
pub struct Proof {
    pub yt_id: Option<String>,
    pub url: String,
}

/// One video in a YouTube video list.
#[derive(Clone, Debug)]
pub struct YtVidJson {
    pub kind: String,
    pub etag: String,
    pub id: String,
}

/// The paging figures of a YouTube video list.
#[derive(Clone, Debug)]
pub struct YtPageInfo {
    pub total_results: i32,
    pub results_per_page: i32,
}

/// A YouTube video list.
#[derive(Clone, Debug)]
pub struct YtJson {
    pub kind: String,
    pub etag: String,
    pub items: Vec<YtVidJson>,
    pub page_info: YtPageInfo,
}

/// The answer of Discord's token endpoint.
#[derive(Clone, Debug)]
pub struct AuthRes {
    pub access_token: String,
    pub token_type: String,
    pub expires_in: i64,
    pub refresh_token: String,
    pub scope: String,
}

} // verus!
