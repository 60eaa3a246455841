//! The request pipeline.
//!
//! A request walks one line: derive the identity token, fetch the linked
//! record, write the update, resolve the tiers of the written record, read
//! the member's badges, replace them. The store and the membership service
//! are reached by the caller. This module decides: each function takes what
//! a collaborator answered and says what is to be done next, or how the
//! request ends.

use crate::constants::{persistent_roles, ErrorLogType, C2SGUILD, LOG, PERSISTENT_ROLES};
use crate::errors::MyError;
use crate::models::{MessageResponse, OGUpdateUserData, UpdateUserData, UserData};
use crate::role_handling::{
    badge_names, computed_badges, gained, handle_roles, names_of, target, ReconciliationResult,
};
use crate::text::{parse_u64, parsed_u64, push_text, same_text};
use crate::utilities::{
    derive_token, fits_mac, hmac_sha1, lemma_changed_part_changes_message,
    lemma_tokens_differ_as_codes_do, message_of, texts_of, token_input_fits, token_message,
    token_text, AuthData, TokenDerivationError,
};
use vstd::utf8::encode_utf8;
use vstd::prelude::*;

verus! {

/// The release channel that a game client names in its request.
#[derive(Clone, Debug)]
pub struct DistributionChannel(pub String);

/// The name of the header that carries the distribution channel.
pub const DISTRIBUTION_CHANNEL_HEADER: &'static str = "x-distribution-channel";

/// The channel of beta testers.
pub const BETA_CHANNEL: &'static str = "Beta";

impl DistributionChannel {
    /// The name of the header that carries the channel.
    pub fn name() -> (name: &'static str)
        ensures
            name@ == DISTRIBUTION_CHANNEL_HEADER@,
    {
        DISTRIBUTION_CHANNEL_HEADER
    }

    /// Whether the client is of the beta channel.
    pub fn is_beta(&self) -> (beta: bool)
        ensures
            beta == (self.0@ == BETA_CHANNEL@),
    {
        same_text(self.0.as_str(), BETA_CHANNEL)
    }
}

/// The player identifier that a request names in its query.
#[derive(Clone, Debug)]
pub struct PlayerData {
    pub player_id: String,
}

/// What went wrong at the store.
#[derive(Clone, Copy, Debug, PartialEq, Eq, Structural)]
pub enum StoreFault {
    FetchFailed,
    WriteFailed,
}

/// What went wrong at the membership service.
#[derive(Clone, Copy, Debug, PartialEq, Eq, Structural)]
pub enum MembershipFault {
    /// The record's member identifier is no number.
    IdentityUnreadable,
    /// The record's member identifier is zero, which names nobody.
    IdentityInvalid,
    /// The service knows no such member.
    MemberUnavailable,
    /// The service's answer on the member could not be read.
    MemberUnreadable,
    /// The service refused the new badges.
    UpdateRejected,
    /// The service's answer on the new badges could not be read.
    UpdateUnreadable,
}

/// How a request fails.
#[derive(Clone, Copy, Debug, PartialEq, Eq, Structural)]
pub enum Failure {
    /// No token could be derived: the service is misconfigured.
    TokenDerivation(TokenDerivationError),
    /// The store holds no record for the token: the account is not linked.
    NotLinked,
    /// The store failed.
    Store(StoreFault),
    /// The membership service failed.
    Membership(MembershipFault),
    /// The update was malformed.
    Validation,
}

pub const NOT_LINKED_REASON: &'static str =
    "Failed at retrieving existing data, you may not have your account linked yet";

pub const STORE_REASON: &'static str = "The request has unfortunately failed the update";

pub const MEMBERSHIP_REASON: &'static str = "The role-handling process has failed";

pub const TOKEN_REASON: &'static str = "The request has failed on the server's side";

pub const VALIDATION_REASON: &'static str = "The update is malformed";

pub const SECRET_ABSENT_DETAIL: &'static str = "the server holds no secret to derive tokens with";

pub const FETCH_FAILED_DETAIL: &'static str = "failed at retrieving the existing data";

pub const WRITE_FAILED_DETAIL: &'static str = "failed at writing the update";

pub const IDENTITY_UNREADABLE_DETAIL: &'static str = "parsing discord id failed";

pub const IDENTITY_INVALID_DETAIL: &'static str = "failed UserId struct";

pub const MEMBER_UNAVAILABLE_DETAIL: &'static str =
    "failed retrieving member data (this usually occurs when you're not in the Discord server)";

pub const MEMBER_UNREADABLE_DETAIL: &'static str =
    "failed at parsing the member data to a Member struct";

pub const UPDATE_REJECTED_DETAIL: &'static str = "failed at updating member roles";

pub const UPDATE_UNREADABLE_DETAIL: &'static str = "failed at parsing member data model";

impl MembershipFault {
    /// What is logged of the fault.
    pub open spec fn spec_detail(self) -> &'static str {
        match self {
            MembershipFault::IdentityUnreadable => IDENTITY_UNREADABLE_DETAIL,
            MembershipFault::IdentityInvalid => IDENTITY_INVALID_DETAIL,
            MembershipFault::MemberUnavailable => MEMBER_UNAVAILABLE_DETAIL,
            MembershipFault::MemberUnreadable => MEMBER_UNREADABLE_DETAIL,
            MembershipFault::UpdateRejected => UPDATE_REJECTED_DETAIL,
            MembershipFault::UpdateUnreadable => UPDATE_UNREADABLE_DETAIL,
        }
    }

    #[verifier::when_used_as_spec(spec_detail)]
    pub fn detail(self) -> (detail: &'static str)
        ensures
            detail == self.spec_detail(),
    {
        match self {
            MembershipFault::IdentityUnreadable => IDENTITY_UNREADABLE_DETAIL,
            MembershipFault::IdentityInvalid => IDENTITY_INVALID_DETAIL,
            MembershipFault::MemberUnavailable => MEMBER_UNAVAILABLE_DETAIL,
            MembershipFault::MemberUnreadable => MEMBER_UNREADABLE_DETAIL,
            MembershipFault::UpdateRejected => UPDATE_REJECTED_DETAIL,
            MembershipFault::UpdateUnreadable => UPDATE_UNREADABLE_DETAIL,
        }
    }
}

impl Failure {
    /// What the caller is told. A missing link and a malformed update are
    /// told as they are; every other failure is told as a failure of the
    /// step, without its cause.
    pub open spec fn spec_response(self) -> MyError {
        match self {
            Failure::TokenDerivation(_) => MyError::InternalError(TOKEN_REASON),
            Failure::NotLinked => MyError::InternalError(NOT_LINKED_REASON),
            Failure::Store(_) => MyError::InternalError(STORE_REASON),
            Failure::Membership(_) => MyError::InternalError(MEMBERSHIP_REASON),
            Failure::Validation => MyError::BadRequest(VALIDATION_REASON),
        }
    }

    /// What the operators are told: the failure with its cause.
    pub open spec fn spec_detail(self) -> MyError {
        match self {
            Failure::TokenDerivation(TokenDerivationError::SecretAbsent) => MyError::InternalError(
                SECRET_ABSENT_DETAIL,
            ),
            Failure::NotLinked => MyError::InternalError(NOT_LINKED_REASON),
            Failure::Store(StoreFault::FetchFailed) => MyError::InternalError(FETCH_FAILED_DETAIL),
            Failure::Store(StoreFault::WriteFailed) => MyError::InternalError(WRITE_FAILED_DETAIL),
            Failure::Membership(fault) => MyError::InternalError(fault.spec_detail()),
            Failure::Validation => MyError::BadRequest(VALIDATION_REASON),
        }
    }

    #[verifier::when_used_as_spec(spec_response)]
    pub fn response(self) -> (error: MyError)
        ensures
            error == self.spec_response(),
    {
        match self {
            Failure::TokenDerivation(_) => MyError::InternalError(TOKEN_REASON),
            Failure::NotLinked => MyError::InternalError(NOT_LINKED_REASON),
            Failure::Store(_) => MyError::InternalError(STORE_REASON),
            Failure::Membership(_) => MyError::InternalError(MEMBERSHIP_REASON),
            Failure::Validation => MyError::BadRequest(VALIDATION_REASON),
        }
    }

    #[verifier::when_used_as_spec(spec_detail)]
    pub fn detail(self) -> (error: MyError)
        ensures
            error == self.spec_detail(),
    {
        match self {
            Failure::TokenDerivation(TokenDerivationError::SecretAbsent) => MyError::InternalError(
                SECRET_ABSENT_DETAIL,
            ),
            Failure::NotLinked => MyError::InternalError(NOT_LINKED_REASON),
            Failure::Store(StoreFault::FetchFailed) => MyError::InternalError(FETCH_FAILED_DETAIL),
            Failure::Store(StoreFault::WriteFailed) => MyError::InternalError(WRITE_FAILED_DETAIL),
            Failure::Membership(fault) => MyError::InternalError(fault.detail()),
            Failure::Validation => MyError::BadRequest(VALIDATION_REASON),
        }
    }
}

/// One operational log line.
#[derive(Clone, Debug)]
pub struct LogEntry {
    pub content: String,
    pub kind: LOG,
}

pub const USER_ERROR_HEAD: &'static str = "Error with a user\n\ntoken: ";

pub const USER_ERROR_GAP: &'static str = "\n\n";

/// The token of the user whom a logged failure concerns, if it concerns
/// one.
pub open spec fn concerned_token(error_type: ErrorLogType) -> Option<Seq<char>> {
    match error_type {
        ErrorLogType::USER(token) => Some(token@),
        ErrorLogType::INTERNAL => None,
    }
}

/// The line that is logged of an error: the error's text, after the token
/// of the user whom it concerns, where it concerns one.
pub open spec fn error_log_text(error: MyError, token: Option<Seq<char>>) -> Seq<char> {
    match token {
        Some(token) => USER_ERROR_HEAD@ + token + USER_ERROR_GAP@ + error.spec_message(),
        None => error.spec_message(),
    }
}

/// Builds the line that is logged of an error.
pub fn make_log(error: &MyError, error_type: &ErrorLogType) -> (entry: LogEntry)
    ensures
        entry.kind == LOG::FAILURE,
        entry.content@ == error_log_text(*error, concerned_token(*error_type)),
{
    let mut content: String = String::new();
    match error_type {
        ErrorLogType::USER(token) => {
            push_text(&mut content, USER_ERROR_HEAD);
            push_text(&mut content, token.as_str());
            push_text(&mut content, USER_ERROR_GAP);
        },
        ErrorLogType::INTERNAL => {},
    }
    let message: String = error.message();
    push_text(&mut content, message.as_str());
    LogEntry { content, kind: LOG::FAILURE }
}

/// How a request ended: what the caller is answered and what is logged.
#[derive(Debug)]
pub struct Outcome {
    pub response: Result<MessageResponse, Failure>,
    pub log: Option<LogEntry>,
}

impl Outcome {
    /// The request failed with `failure`, which was logged with its cause
    /// and, where one was derived, the token.
    pub open spec fn fails_with(self, failure: Failure, token: Option<Seq<char>>) -> bool {
        &&& self.response == Err::<MessageResponse, Failure>(failure)
        &&& self.log is Some
        &&& self.log->0.kind == LOG::FAILURE
        &&& self.log->0.content@ == error_log_text(failure.spec_detail(), token)
    }

    /// The request succeeded with `message`; `logged` was logged, if
    /// anything was.
    pub open spec fn succeeds_with(self, message: Seq<char>, logged: Option<Seq<char>>) -> bool {
        &&& self.response is Ok
        &&& self.response->Ok_0.message@ == message
        &&& match logged {
            Some(line) => self.log is Some && self.log->0.kind == LOG::INFORMATIONAL
                && self.log->0.content@ == line,
            None => self.log is None,
        }
    }
}

fn failed(failure: Failure, error_type: ErrorLogType) -> (outcome: Outcome)
    ensures
        outcome.fails_with(failure, concerned_token(error_type)),
{
    let detail: MyError = failure.detail();
    Outcome { response: Err(failure), log: Some(make_log(&detail, &error_type)) }
}

/// What a request asks for.
#[derive(Clone, Debug)]
pub enum Operation {
    /// Write the progression fields and reconcile the badges.
    Update { beta_tester: bool, update: UpdateUserData },
    /// Link an account. Only the existing link is looked up so far.
    Create,
    /// Unlink an account. Nothing is looked up so far.
    Delete,
}

/// A request as the pipeline takes it.
#[derive(Clone, Debug)]
pub struct Request {
    /// The server's secret, if it holds one.
    pub secret: Option<String>,
    /// The caller's identifiers, in the order in which they are
    /// authenticated.
    pub parts: Vec<String>,
    pub operation: Operation,
}

impl Request {
    /// The secret and the identifiers are short enough for a token to be
    /// derived.
    pub open spec fn spec_fits(self) -> bool {
        self.secret is Some ==> token_input_fits(self.secret->0@, texts_of(self.parts@))
    }

    /// The token of the request.
    pub open spec fn token(self) -> Seq<char> {
        token_text(self.secret->0@, texts_of(self.parts@))
    }

    /// Whether the secret and the identifiers are short enough for a token
    /// to be derived.
    pub fn fits(&self) -> (fits: bool)
        ensures
            fits == self.spec_fits(),
    {
        match &self.secret {
            Some(secret) => {
                let message: Vec<u8> = message_of(&self.parts);
                fits_mac(secret.as_str(), &message)
            },
            None => true,
        }
    }
}

/// The store is to be asked for the record of `token`.
#[derive(Clone, Debug)]
pub struct PendingFetch {
    pub token: String,
    pub operation: Operation,
}

/// The store is to write `update`, with `metabits` for its count of
/// metabits, and `beta_tester` to the record of `token`.
#[derive(Clone, Debug)]
pub struct PendingWrite {
    pub token: String,
    pub beta_tester: bool,
    /// The update's count of metabits, cut to the whole number that the
    /// store keeps.
    pub metabits: i64,
    pub update: UpdateUserData,
}

/// The membership service is to be asked for the badges of member `user`
/// of `guild`.
#[derive(Clone, Debug)]
pub struct PendingMember {
    pub token: String,
    pub guild: u64,
    pub user: u64,
    pub record: UserData,
}

/// The membership service is to replace the badges of member `user` of
/// `guild` with `roles`.
#[derive(Clone, Debug)]
pub struct PendingReplace {
    pub token: String,
    pub guild: u64,
    pub user: u64,
    pub roles: Vec<u64>,
    pub discord_id: String,
    pub gained_roles: Vec<&'static str>,
}

/// Where a request stands: what is to be asked of a collaborator next, or
/// how the request ended.
#[derive(Debug)]
pub enum Progress {
    Fetch(PendingFetch),
    Write(PendingWrite),
    ReadMember(PendingMember),
    ReplaceMember(PendingReplace),
    Done(Outcome),
}

/// What the store answers to a fetch.
#[derive(Clone, Debug)]
pub enum FetchReply {
    Found(UserData),
    Missing,
    Failed,
}

/// What the store answers to a write: the record as written, or a failure.
#[derive(Clone, Debug)]
pub enum WriteReply {
    Written(UserData),
    Failed,
}

/// What the membership service answers when asked for a member's badges.
#[derive(Clone, Debug)]
pub enum MemberReply {
    Roles(Vec<u64>),
    Failed(MembershipFault),
}

/// What the membership service answers when told to replace a member's
/// badges.
#[derive(Clone, Copy, Debug, PartialEq, Eq, Structural)]
pub enum ReplaceReply {
    Replaced,
    Failed(MembershipFault),
}

pub const CREATED_MESSAGE: &'static str = "The request was successful (WIP POST route)";

pub const DELETED_MESSAGE: &'static str = "The request was successful (WIP DELETE route)";

pub const NOTHING_GAINED_MESSAGE: &'static str =
    "The request was successful, but you've already gained all of the possible roles with your current progress";

pub const GAINED_MESSAGE_HEAD: &'static str =
    "The request was successful, you've gained the following roles: ";

pub const LOG_HEAD: &'static str = "user with ID ";

pub const NOTHING_GAINED_LOG_TAIL: &'static str = " had a successful request but gained no roles";

pub const GAINED_LOG_MIDDLE: &'static str = " gained the following roles: ";

pub const NAME_SEPARATOR: &'static str = ", ";

/// Names in a row, with a comma and a space between neighbours.
pub open spec fn joined(names: Seq<Seq<char>>) -> Seq<char>
    decreases names.len(),
{
    if names.len() == 0 {
        Seq::empty()
    } else if names.len() == 1 {
        names[0]
    } else {
        joined(names.drop_last()) + NAME_SEPARATOR@ + names.last()
    }
}

/// What the caller is told after a reconciliation that gained `names`.
pub open spec fn summary_message(names: Seq<Seq<char>>) -> Seq<char> {
    if names.len() == 0 {
        NOTHING_GAINED_MESSAGE@
    } else {
        GAINED_MESSAGE_HEAD@ + joined(names)
    }
}

/// What is logged after a reconciliation that gained `names` for the member
/// `discord_id`.
pub open spec fn summary_log(discord_id: Seq<char>, names: Seq<Seq<char>>) -> Seq<char> {
    if names.len() == 0 {
        LOG_HEAD@ + discord_id + NOTHING_GAINED_LOG_TAIL@
    } else {
        LOG_HEAD@ + discord_id + GAINED_LOG_MIDDLE@ + joined(names)
    }
}

/// Writes names in a row, with a comma and a space between neighbours.
pub fn join_names(names: &Vec<&'static str>) -> (text: String)
    ensures
        text@ == joined(names_of(names@)),
{
    let mut text: String = String::new();
    let mut next: usize = 0;
    let ghost texts = names_of(names@);
    while next < names.len()
        invariant
            next <= names.len(),
            texts == names_of(names@),
            text@ == joined(texts.take(next as int)),
        decreases names.len() - next,
    {
        if next > 0 {
            push_text(&mut text, NAME_SEPARATOR);
        }
        push_text(&mut text, names[next]);
        proof {
            let upto = texts.take(next + 1);
            assert(upto.drop_last() == texts.take(next as int));
            assert(upto.last() == names@[next as int]@);
        }
        next = next + 1;
    }
    assert(texts.take(next as int) == texts);
    text
}

/// The member that a record names: its identifier read as a number that is
/// not zero.
pub open spec fn identity_of(discord_id: Seq<char>) -> Result<u64, MembershipFault> {
    match parsed_u64(discord_id) {
        None => Err(MembershipFault::IdentityUnreadable),
        Some(user) => if user == 0 {
            Err(MembershipFault::IdentityInvalid)
        } else {
            Ok(user)
        },
    }
}

/// Reads a parsed identifier as the member it names.
pub fn check_identity(parsed: Option<u64>) -> (identity: Result<u64, MembershipFault>)
    ensures
        identity == match parsed {
            None => Err::<u64, MembershipFault>(MembershipFault::IdentityUnreadable),
            Some(user) => if user == 0 {
                Err(MembershipFault::IdentityInvalid)
            } else {
                Ok(user)
            },
        },
{
    match parsed {
        None => Err(MembershipFault::IdentityUnreadable),
        Some(user) => if user == 0 {
            Err(MembershipFault::IdentityInvalid)
        } else {
            Ok(user)
        },
    }
}

/// Reads the member that a record names.
pub fn parse_identity(discord_id: &str) -> (identity: Result<u64, MembershipFault>)
    ensures
        identity == identity_of(discord_id@),
{
    check_identity(parse_u64(discord_id))
}

/// Starts a request: derives its token from the secret and the caller's
/// identifiers, and says what comes first.
///
/// Without a secret the request fails at once. An unlinking ends at once. A
/// linking and an update first fetch the record of the token.
pub fn begin(request: Request) -> (progress: Progress)
    requires
        request.spec_fits(),
    ensures
        request.secret is None ==> progress is Done && progress->Done_0.fails_with(
            Failure::TokenDerivation(TokenDerivationError::SecretAbsent),
            None,
        ),
        request.secret is Some && request.operation is Delete ==> progress is Done
            && progress->Done_0.succeeds_with(DELETED_MESSAGE@, None),
        request.secret is Some && !(request.operation is Delete) ==> progress is Fetch
            && progress->Fetch_0.token@ == request.token() && progress->Fetch_0.operation
            == request.operation,
{
    let derived: Result<String, TokenDerivationError> = match &request.secret {
        Some(secret) => derive_token(Some(secret.as_str()), &request.parts),
        None => derive_token(None, &request.parts),
    };
    match derived {
        Err(error) => Progress::Done(failed(Failure::TokenDerivation(error), ErrorLogType::INTERNAL)),
        Ok(token) => match request.operation {
            Operation::Delete => Progress::Done(
                Outcome { response: Ok(message_response(DELETED_MESSAGE)), log: None },
            ),
            operation => Progress::Fetch(PendingFetch { token, operation }),
        },
    }
}

fn message_response(message: &str) -> (response: MessageResponse)
    ensures
        response.message@ == message@,
{
    let mut text: String = String::new();
    push_text(&mut text, message);
    MessageResponse { message: text }
}

/// Takes the store's answer to a fetch.
///
/// A missing record ends the request as not linked, another failure as a
/// failure of the store; in either case nothing is written and the
/// membership service is not called. A record that is found ends a linking,
/// and lets an update write, for the token that was fetched.
pub fn on_fetched(pending: PendingFetch, reply: FetchReply) -> (progress: Progress)
    ensures
        reply is Missing ==> progress is Done && progress->Done_0.fails_with(
            Failure::NotLinked,
            Some(pending.token@),
        ),
        reply is Failed ==> progress is Done && progress->Done_0.fails_with(
            Failure::Store(StoreFault::FetchFailed),
            Some(pending.token@),
        ),
        reply is Found && pending.operation is Update ==> progress is Write
            && progress->Write_0.token == pending.token && progress->Write_0.beta_tester
            == pending.operation->beta_tester && progress->Write_0.update
            == pending.operation->update && progress->Write_0.metabits
            == pending.operation->update.metabits.spec_truncated(),
        reply is Found && !(pending.operation is Update) ==> progress is Done
            && progress->Done_0.succeeds_with(CREATED_MESSAGE@, None),
{
    match reply {
        FetchReply::Missing => Progress::Done(
            failed(Failure::NotLinked, ErrorLogType::USER(pending.token)),
        ),
        FetchReply::Failed => Progress::Done(
            failed(Failure::Store(StoreFault::FetchFailed), ErrorLogType::USER(pending.token)),
        ),
        FetchReply::Found(_) => match pending.operation {
            Operation::Update { beta_tester, update } => Progress::Write(
                PendingWrite {
                    token: pending.token,
                    beta_tester,
                    metabits: update.metabits.truncated(),
                    update,
                },
            ),
            _ => Progress::Done(
                Outcome { response: Ok(message_response(CREATED_MESSAGE)), log: None },
            ),
        },
    }
}

/// Takes the store's answer to a write.
///
/// A failed write ends the request. The written record names the member
/// whose badges are read next; a record that names none ends the request as
/// a failure of the membership step.
pub fn on_written(pending: PendingWrite, reply: WriteReply) -> (progress: Progress)
    ensures
        reply is Failed ==> progress is Done && progress->Done_0.fails_with(
            Failure::Store(StoreFault::WriteFailed),
            Some(pending.token@),
        ),
        reply matches WriteReply::Written(record) ==> match identity_of(record.discord_id@) {
            Err(fault) => progress is Done && progress->Done_0.fails_with(
                Failure::Membership(fault),
                Some(pending.token@),
            ),
            Ok(user) => progress is ReadMember && progress->ReadMember_0.token == pending.token
                && progress->ReadMember_0.guild == C2SGUILD && progress->ReadMember_0.user == user
                && progress->ReadMember_0.record == record,
        },
{
    match reply {
        WriteReply::Failed => Progress::Done(
            failed(Failure::Store(StoreFault::WriteFailed), ErrorLogType::USER(pending.token)),
        ),
        WriteReply::Written(record) => match parse_identity(record.discord_id.as_str()) {
            Err(fault) => Progress::Done(
                failed(Failure::Membership(fault), ErrorLogType::USER(pending.token)),
            ),
            Ok(user) => Progress::ReadMember(
                PendingMember { token: pending.token, guild: C2SGUILD, user, record },
            ),
        },
    }
}

/// Takes the membership service's answer on the member's badges.
///
/// A failure ends the request. Otherwise the badges of the written record
/// are resolved and reconciled with the member's, and the member's badges
/// are to be replaced by the result.
pub fn on_member_read(pending: PendingMember, reply: MemberReply) -> (progress: Progress)
    ensures
        reply matches MemberReply::Failed(fault) ==> progress is Done
            && progress->Done_0.fails_with(Failure::Membership(fault), Some(pending.token@)),
        reply matches MemberReply::Roles(current) ==> progress is ReplaceMember && {
            let next = progress->ReplaceMember_0;
            &&& next.token == pending.token
            &&& next.guild == pending.guild
            &&& next.user == pending.user
            &&& next.discord_id == pending.record.discord_id
            &&& next.roles@ == target(current@, computed_badges(pending.record), PERSISTENT_ROLES@)
            &&& names_of(next.gained_roles@) == badge_names(
                gained(current@, computed_badges(pending.record)),
            )
        },
{
    match reply {
        MemberReply::Failed(fault) => Progress::Done(
            failed(Failure::Membership(fault), ErrorLogType::USER(pending.token)),
        ),
        MemberReply::Roles(current) => {
            let persistent: Vec<u64> = persistent_roles();
            let result: ReconciliationResult = handle_roles(&pending.record, &current, &persistent);
            Progress::ReplaceMember(
                PendingReplace {
                    token: pending.token,
                    guild: pending.guild,
                    user: pending.user,
                    roles: result.target_badges,
                    discord_id: pending.record.discord_id,
                    gained_roles: result.newly_gained,
                },
            )
        },
    }
}

/// Takes the membership service's answer to the replacement and ends the
/// request.
///
/// After a replacement the caller is told which badges were gained, in the
/// order in which they were gained, or that none was; the same is logged
/// with the member's identifier.
pub fn on_member_replaced(pending: PendingReplace, reply: ReplaceReply) -> (outcome: Outcome)
    ensures
        reply matches ReplaceReply::Failed(fault) ==> outcome.fails_with(
            Failure::Membership(fault),
            Some(pending.token@),
        ),
        reply is Replaced ==> outcome.succeeds_with(
            summary_message(names_of(pending.gained_roles@)),
            Some(summary_log(pending.discord_id@, names_of(pending.gained_roles@))),
        ),
{
    match reply {
        ReplaceReply::Failed(fault) => failed(
            Failure::Membership(fault),
            ErrorLogType::USER(pending.token),
        ),
        ReplaceReply::Replaced => {
            let mut message: String = String::new();
            let mut line: String = String::new();
            push_text(&mut line, LOG_HEAD);
            push_text(&mut line, pending.discord_id.as_str());
            if pending.gained_roles.len() == 0 {
                push_text(&mut message, NOTHING_GAINED_MESSAGE);
                push_text(&mut line, NOTHING_GAINED_LOG_TAIL);
            } else {
                let names: String = join_names(&pending.gained_roles);
                push_text(&mut message, GAINED_MESSAGE_HEAD);
                push_text(&mut message, names.as_str());
                push_text(&mut line, GAINED_LOG_MIDDLE);
                push_text(&mut line, names.as_str());
            }
            Outcome {
                response: Ok(MessageResponse { message }),
                log: Some(LogEntry { content: line, kind: LOG::INFORMATIONAL }),
            }
        },
    }
}

/// The request of a client that names its player in the query and sends
/// the player token with the progression fields: the token is derived from
/// the player identifier, then the player token.
pub fn og_update_user(secret: Option<String>, query: PlayerData, received_user: OGUpdateUserData) -> (request:
    Request)
    ensures
        request.secret == secret,
        texts_of(request.parts@) == seq![query.player_id@, received_user.player_token@],
        request.operation == (Operation::Update {
            beta_tester: received_user.beta_tester,
            update: UpdateUserData::of(received_user),
        }),
{
    let mut parts: Vec<String> = Vec::new();
    parts.push(query.player_id);
    parts.push(received_user.player_token.clone());
    assert(texts_of(parts@) == seq![query.player_id@, received_user.player_token@]);
    let beta_tester: bool = received_user.beta_tester;
    let update: UpdateUserData = UpdateUserData::from(received_user);
    Request { secret, parts, operation: Operation::Update { beta_tester, update } }
}

/// The request of a player whose credentials were checked on the way in:
/// the token is derived from the player's email, then the player's token,
/// and the client's channel tells whether it is a beta tester's.
pub fn update_user(
    secret: Option<String>,
    auth: AuthData,
    distribution_channel: DistributionChannel,
    received_user: UpdateUserData,
) -> (request: Request)
    ensures
        request.secret == secret,
        texts_of(request.parts@) == seq![auth.email@, auth.token@],
        request.operation == (Operation::Update {
            beta_tester: distribution_channel.0@ == BETA_CHANNEL@,
            update: received_user,
        }),
{
    let beta_tester: bool = distribution_channel.is_beta();
    Request {
        secret,
        parts: credential_parts(auth),
        operation: Operation::Update { beta_tester, update: received_user },
    }
}

/// The request that links the account of a player: the token is derived
/// from the player's email, then the player's token.
pub fn create_user(secret: Option<String>, auth: AuthData) -> (request: Request)
    ensures
        request.secret == secret,
        texts_of(request.parts@) == seq![auth.email@, auth.token@],
        request.operation is Create,
{
    Request { secret, parts: credential_parts(auth), operation: Operation::Create }
}

/// The request that unlinks the account of a player: the token is derived
/// from the player's email, then the player's token.
pub fn delete_user(secret: Option<String>, auth: AuthData) -> (request: Request)
    ensures
        request.secret == secret,
        texts_of(request.parts@) == seq![auth.email@, auth.token@],
        request.operation is Delete,
{
    Request { secret, parts: credential_parts(auth), operation: Operation::Delete }
}

/// The identifiers that a player's token is derived from: the email, then
/// the token.
fn credential_parts(auth: AuthData) -> (parts: Vec<String>)
    ensures
        texts_of(parts@) == seq![auth.email@, auth.token@],
{
    let mut parts: Vec<String> = Vec::new();
    parts.push(auth.email);
    parts.push(auth.token);
    assert(texts_of(parts@) == seq![auth.email@, auth.token@]);
    parts
}

/// Requests of players with different credentials are for different
/// messages under the secret: a player whose email or token differs from
/// another's, and differs alone, has a token of their own, unless the
/// codes of the two messages are the same.
pub proof fn lemma_players_have_their_own_tokens(
    secret: Seq<char>,
    first: (Seq<char>, Seq<char>),
    second: (Seq<char>, Seq<char>),
)
    requires
        (first.0 != second.0 && first.1 == second.1) || (first.0 == second.0 && first.1
            != second.1),
    ensures
        token_message(seq![first.0, first.1]) != token_message(seq![second.0, second.1]),
        token_text(secret, seq![first.0, first.1]) == token_text(secret, seq![second.0, second.1])
            <==> hmac_sha1(encode_utf8(secret), token_message(seq![first.0, first.1]))
            == hmac_sha1(encode_utf8(secret), token_message(seq![second.0, second.1])),
{
    let changed: int = if first.0 != second.0 {
        0
    } else {
        1
    };
    lemma_changed_part_changes_message(
        seq![first.0, first.1],
        seq![second.0, second.1],
        changed,
    );
    lemma_tokens_differ_as_codes_do(secret, seq![first.0, first.1], seq![second.0, second.1]);
}

} // verus!
