//! The decision: may the bearer of a credential perform an operation on a
//! resource? Identity first, then the resource, then the grants.

use crate::key::{
    credential_subject, gettoken_to_user_no_time, signed_outcome, signed_token_to_user_at,
    subject_of, verify_credential_at, Credential, InvalidCredential, Key,
};
use crate::operation::Operation;
use crate::sql_acl::{get_acl, get_resource_id, AclStore, StorageError, Tables};
use vstd::prelude::*;

verus! {

/// Why access was refused. None of the three is worth a retry.
#[derive(Debug, Clone, Copy, PartialEq, Eq, Structural)]
pub enum AclError {
    /// The resource is not there, or its grants could not be read.
    NotFound,
    /// Caller and resource are known, and the operation is not granted.
    InvalidPermission,
    /// The credential is malformed, wrongly signed or expired.
    ExpiredVerification,
}

impl AclError {
    /// The message that goes with the reason.
    pub open spec fn message(self) -> Seq<char> {
        match self {
            AclError::NotFound => "Not Found"@,
            AclError::InvalidPermission => "Invalid Permission"@,
            AclError::ExpiredVerification => "Expired Verification"@,
        }
    }

    /// The status code that goes with the reason.
    pub open spec fn status(self) -> u16 {
        match self {
            AclError::NotFound => 404,
            AclError::InvalidPermission => 403,
            AclError::ExpiredVerification => 401,
        }
    }

    pub fn code(&self) -> (code: u16)
        ensures
            code == self.status(),
    {
        match self {
            AclError::NotFound => 404,
            AclError::InvalidPermission => 403,
            AclError::ExpiredVerification => 401,
        }
    }

    pub fn to_string(&self) -> (text: String)
        ensures
            text@ == self.message(),
    {
        match self {
            AclError::NotFound => "Not Found".to_owned(),
            AclError::InvalidPermission => "Invalid Permission".to_owned(),
            AclError::ExpiredVerification => "Expired Verification".to_owned(),
        }
    }
}

/// Whether a set of granted operations permits the requested one: it is a
/// real operation, and it is among them.
pub open spec fn permitted(granted: Seq<Operation>, requested: Operation) -> bool {
    requested.is_real() && granted.contains(requested)
}

/// The decision for a caller who holds `granted` on the resource and asks
/// for the operation that `operation` names.
pub open spec fn decision(granted: Seq<Operation>, operation: Seq<char>) -> Result<(), AclError> {
    if permitted(granted, Operation::parse(operation)) {
        Ok(())
    } else {
        Err(AclError::InvalidPermission)
    }
}

/// The outcome of a check against the tables, for a credential that was
/// resolved to `identity`.
pub open spec fn access_outcome(
    tables: Tables,
    identity: Result<u64, InvalidCredential>,
    resource: Seq<char>,
    operation: Seq<char>,
) -> Result<(), AclError> {
    match identity {
        Err(_) => Err(AclError::ExpiredVerification),
        Ok(uid) => match tables.resource_id(resource) {
            None => Err(AclError::NotFound),
            Some(id) => decision(tables.operations(uid as int, id), operation),
        },
    }
}

/// Where a check stands.
#[derive(Debug, Clone, Copy, PartialEq, Eq, Structural)]
pub enum CheckState {
    /// The credential has to be resolved to a user.
    ResolveIdentity,
    /// The resource name has to be resolved to an id.
    ResolveResource { uid: u64 },
    /// The user's grants on the resource have to be read.
    FetchGrants { uid: u64, resource_id: i64 },
    /// Decided: the operation is allowed.
    Allow,
    /// Decided: the operation is refused, for this reason.
    Deny(AclError),
}

/// What the surroundings report back to a check.
#[derive(Debug)]
pub enum CheckEvent {
    /// The credential was checked.
    Identity(Result<u64, InvalidCredential>),
    /// The resource name was looked up.
    ResourceId(Result<i64, StorageError>),
    /// The grants were read.
    Grants(Result<Vec<Operation>, StorageError>),
}

/// What a check asks of its surroundings next.
#[derive(Debug, Clone, Copy, PartialEq, Eq)]
pub enum CheckAction {
    /// Check the credential and report the identity.
    VerifyCredential,
    /// Look the resource name up and report its id.
    LookupResource,
    /// Read the grants of `uid` on `resource_id` and report them.
    FetchGrants { uid: u64, resource_id: i64 },
    /// Nothing more: the check has ended with this result.
    Finish(Result<(), AclError>),
}

impl CheckState {
    /// What the state asks for.
    pub open spec fn pending(self) -> CheckAction {
        match self {
            CheckState::ResolveIdentity => CheckAction::VerifyCredential,
            CheckState::ResolveResource { uid } => CheckAction::LookupResource,
            CheckState::FetchGrants { uid, resource_id } => CheckAction::FetchGrants {
                uid,
                resource_id,
            },
            CheckState::Allow => CheckAction::Finish(Ok(())),
            CheckState::Deny(reason) => CheckAction::Finish(Err(reason)),
        }
    }

    /// The state after `event`, for a check of the operation that
    /// `operation` names. A failed credential ends the check as expired; a
    /// resource that is not found, or grants that cannot be read, end it as
    /// not found; the grants decide. An event that does not answer what the
    /// state asks for changes nothing.
    pub open spec fn after(self, event: CheckEvent, operation: Seq<char>) -> CheckState {
        match (self, event) {
            (CheckState::ResolveIdentity, CheckEvent::Identity(Ok(uid))) => {
                CheckState::ResolveResource { uid }
            },
            (CheckState::ResolveIdentity, CheckEvent::Identity(Err(_))) => CheckState::Deny(
                AclError::ExpiredVerification,
            ),
            (CheckState::ResolveResource { uid }, CheckEvent::ResourceId(Ok(id))) => {
                CheckState::FetchGrants { uid, resource_id: id }
            },
            (CheckState::ResolveResource { uid }, CheckEvent::ResourceId(Err(_))) => {
                CheckState::Deny(AclError::NotFound)
            },
            (CheckState::FetchGrants { uid, resource_id }, CheckEvent::Grants(Ok(granted))) => {
                if permitted(granted@, Operation::parse(operation)) {
                    CheckState::Allow
                } else {
                    CheckState::Deny(AclError::InvalidPermission)
                }
            },
            (CheckState::FetchGrants { uid, resource_id }, CheckEvent::Grants(Err(_))) => {
                CheckState::Deny(AclError::NotFound)
            },
            _ => self,
        }
    }

    /// A check before anything is known.
    pub fn start() -> (state: CheckState)
        ensures
            state == CheckState::ResolveIdentity,
    {
        CheckState::ResolveIdentity
    }

    /// What to do next.
    pub fn action(&self) -> (action: CheckAction)
        ensures
            action == self.pending(),
    {
        match self {
            CheckState::ResolveIdentity => CheckAction::VerifyCredential,
            CheckState::ResolveResource { uid } => CheckAction::LookupResource,
            CheckState::FetchGrants { uid, resource_id } => CheckAction::FetchGrants {
                uid: *uid,
                resource_id: *resource_id,
            },
            CheckState::Allow => CheckAction::Finish(Ok(())),
            CheckState::Deny(reason) => CheckAction::Finish(Err(*reason)),
        }
    }

    /// Takes `event` in.
    pub fn step(self, event: CheckEvent, operation_str: &str) -> (next: CheckState)
        ensures
            next == self.after(event, operation_str@),
    {
        match self {
            CheckState::ResolveIdentity => match event {
                CheckEvent::Identity(Ok(uid)) => CheckState::ResolveResource { uid },
                CheckEvent::Identity(Err(_)) => CheckState::Deny(AclError::ExpiredVerification),
                _ => self,
            },
            CheckState::ResolveResource { uid } => match event {
                CheckEvent::ResourceId(Ok(id)) => CheckState::FetchGrants { uid, resource_id: id },
                CheckEvent::ResourceId(Err(_)) => CheckState::Deny(AclError::NotFound),
                _ => self,
            },
            CheckState::FetchGrants { uid, resource_id } => match event {
                CheckEvent::Grants(Ok(granted)) => match decide(granted, operation_str) {
                    Ok(_) => CheckState::Allow,
                    Err(reason) => CheckState::Deny(reason),
                },
                CheckEvent::Grants(Err(_)) => CheckState::Deny(AclError::NotFound),
                _ => self,
            },
            _ => self,
        }
    }
}

/// Decides for a caller who holds `granted` on the resource: the operation
/// that the text names is allowed if it is a real one and among them, and
/// refused for want of permission otherwise.
pub fn decide(granted: Vec<Operation>, operation_str: &str) -> (verdict: Result<(), AclError>)
    ensures
        verdict == decision(granted@, operation_str@),
{
    let requested = Operation::from_string(operation_str);
    if requested != Operation::Unknown && Operation::get_operation(granted, &requested) {
        Ok(())
    } else {
        Err(AclError::InvalidPermission)
    }
}

/// Runs a check against the store for a credential that was resolved to
/// `identity`: each thing the check asks for is answered from the tables.
pub fn check_acl_as(
    conn: &AclStore,
    identity: Result<u64, InvalidCredential>,
    resource_name: &str,
    operation_str: &str,
) -> (verdict: Result<(), AclError>)
    ensures
        verdict == access_outcome(conn@, identity, resource_name@, operation_str@),
{
    let mut state = CheckState::start();
    let mut event = CheckEvent::Identity(identity);
    let mut rounds: u8 = 0;
    loop
        invariant
            rounds <= 3,
            match state {
                CheckState::ResolveIdentity => rounds == 0 && event == CheckEvent::Identity(
                    identity,
                ),
                CheckState::ResolveResource { uid } => {
                    &&& rounds == 1
                    &&& identity == Ok::<u64, InvalidCredential>(uid)
                    &&& event == CheckEvent::ResourceId(
                        match conn@.resource_id(resource_name@) {
                            Some(id) => Ok(id),
                            None => Err(StorageError::NotFound),
                        },
                    )
                },
                CheckState::FetchGrants { uid, resource_id } => {
                    &&& rounds == 2
                    &&& identity == Ok::<u64, InvalidCredential>(uid)
                    &&& conn@.resource_id(resource_name@) == Some(resource_id)
                    &&& event matches CheckEvent::Grants(Ok(granted)) && granted@
                        == conn@.operations(uid as int, resource_id)
                },
                CheckState::Allow => access_outcome(
                    conn@,
                    identity,
                    resource_name@,
                    operation_str@,
                ) == Ok::<(), AclError>(()),
                CheckState::Deny(reason) => access_outcome(
                    conn@,
                    identity,
                    resource_name@,
                    operation_str@,
                ) == Err::<(), AclError>(reason),
            },
        decreases 3 - rounds,
    {
        state = state.step(event, operation_str);
        match state.action() {
            CheckAction::Finish(verdict) => {
                return verdict;
            },
            CheckAction::VerifyCredential => {
                return Err(AclError::ExpiredVerification);
            },
            CheckAction::LookupResource => {
                event = CheckEvent::ResourceId(get_resource_id(conn, resource_name));
            },
            CheckAction::FetchGrants { uid, resource_id } => {
                event = CheckEvent::Grants(Ok(get_acl(conn, uid, resource_id)));
            },
        }
        rounds += 1;
    }
}

/// Checks at the second `now` whether the bearer of the signed token may
/// perform the operation that `operation_str` names on the resource
/// `resource_name`.
pub fn check_acl_at(
    conn: &AclStore,
    token: &str,
    resource_name: &str,
    operation_str: &str,
    now: i64,
) -> (verdict: Result<(), AclError>)
    ensures
        verdict == access_outcome(
            conn@,
            subject_of(signed_outcome(token@, now)),
            resource_name@,
            operation_str@,
        ),
{
    let identity = match signed_token_to_user_at(token, now) {
        Ok(user) => Ok(user.uid),
        Err(e) => Err(e),
    };
    check_acl_as(conn, identity, resource_name, operation_str)
}

/// Checks at the present moment whether the bearer of the signed token may
/// perform the operation that `operation_str` names on the resource
/// `resource_name`. Whatever the clock says, the verdict is the one that
/// belongs to some moment.
pub fn check_acl(
    conn: &AclStore,
    token: &str,
    resource_name: &str,
    operation_str: &str,
) -> (verdict: Result<(), AclError>)
    ensures
        exists|now: i64|
            verdict == access_outcome(
                conn@,
                subject_of(#[trigger] signed_outcome(token@, now)),
                resource_name@,
                operation_str@,
            ),
{
    let identity = match gettoken_to_user_no_time(token) {
        Ok(user) => Ok(user.uid),
        Err(e) => Err(e),
    };
    check_acl_as(conn, identity, resource_name, operation_str)
}

/// Checks at `now`, in milliseconds since the epoch, whether the bearer of
/// a credential of either kind may perform the operation that
/// `operation_str` names on the resource `resource_name`.
pub fn check_credential_at(
    conn: &AclStore,
    key: &Key,
    credential: &Credential,
    resource_name: &str,
    operation_str: &str,
    now: u64,
) -> (verdict: Result<(), AclError>)
    ensures
        verdict == access_outcome(
            conn@,
            credential_subject(*key, *credential, now),
            resource_name@,
            operation_str@,
        ),
{
    let identity = verify_credential_at(key, credential, now);
    check_acl_as(conn, identity, resource_name, operation_str)
}

} // verus!
