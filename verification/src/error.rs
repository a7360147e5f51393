//! Why operations fail, and what the user is told.
use vstd::prelude::*;
use crate::text::{decimal, join, push_decimal, push_joined};

verus! {

/// Why an operation failed. `E` is the type of the database's own errors.
#[derive(Debug, PartialEq, Eq)]
pub enum VaultError<E> {
    /// The vault has no sync server.
    SyncDisabled,
    /// The sync server could not be synced with.
    SyncFailed { cause: E },
    /// The synced database could not be opened.
    OpenSyncedFailed { path: String, url: String, cause: E },
    /// The local database could not be opened.
    OpenLocalFailed { path: String, cause: E },
    /// A request failed.
    Database { cause: E },
    /// A query that must have a row had none.
    NoRows,
    /// A row of a reply does not have the columns that were asked for.
    MalformedRow,
    /// No session's identifier starts with the prefix.
    NoSession { prefix: String },
    /// The identifiers of `count` sessions start with the prefix.
    AmbiguousPrefix { prefix: String, count: usize, previews: Vec<String> },
    /// There are fewer than `position` sessions.
    NoSessionAt { position: u128 },
    /// The archive is not consistent.
    VerificationFailed,
}

/// The model of a [`VaultError`].
#[verifier::ext_equal]
pub enum ErrorModel<E> {
    SyncDisabled,
    SyncFailed { cause: E },
    OpenSyncedFailed { path: Seq<char>, url: Seq<char>, cause: E },
    OpenLocalFailed { path: Seq<char>, cause: E },
    Database { cause: E },
    NoRows,
    MalformedRow,
    NoSession { prefix: Seq<char> },
    AmbiguousPrefix { prefix: Seq<char>, count: nat, previews: Seq<Seq<char>> },
    NoSessionAt { position: nat },
    VerificationFailed,
}

impl<E> DeepView for VaultError<E> {
    type V = ErrorModel<E>;

    open spec fn deep_view(&self) -> ErrorModel<E> {
        match self {
            VaultError::SyncDisabled => ErrorModel::SyncDisabled,
            VaultError::SyncFailed { cause } => ErrorModel::SyncFailed { cause: *cause },
            VaultError::OpenSyncedFailed { path, url, cause } => ErrorModel::OpenSyncedFailed {
                path: path@,
                url: url@,
                cause: *cause,
            },
            VaultError::OpenLocalFailed { path, cause } => ErrorModel::OpenLocalFailed {
                path: path@,
                cause: *cause,
            },
            VaultError::Database { cause } => ErrorModel::Database { cause: *cause },
            VaultError::NoRows => ErrorModel::NoRows,
            VaultError::MalformedRow => ErrorModel::MalformedRow,
            VaultError::NoSession { prefix } => ErrorModel::NoSession { prefix: prefix@ },
            VaultError::AmbiguousPrefix { prefix, count, previews } => ErrorModel::AmbiguousPrefix {
                prefix: prefix@,
                count: *count as nat,
                previews: previews.deep_view(),
            },
            VaultError::NoSessionAt { position } => ErrorModel::NoSessionAt {
                position: *position as nat,
            },
            VaultError::VerificationFailed => ErrorModel::VerificationFailed,
        }
    }
}

/// What the user is told, where it is not what the database itself says.
pub open spec fn error_message<E>(error: ErrorModel<E>) -> Option<Seq<char>> {
    match error {
        ErrorModel::SyncDisabled => Some(
            "Sync is not enabled. Pass --sync-url (or set CLAUDE_VAULT_SYNC_URL) to use a synced database."@,
        ),
        ErrorModel::SyncFailed { .. } => Some("Failed to sync with the remote database"@),
        ErrorModel::OpenSyncedFailed { path, url, .. } => Some(
            "Failed to open synced database "@ + path + " (sync URL: "@ + url + ")"@,
        ),
        ErrorModel::OpenLocalFailed { path, .. } => Some("Failed to open database: "@ + path),
        ErrorModel::Database { .. } => None,
        ErrorModel::NoRows => Some("Query returned no rows"@),
        ErrorModel::MalformedRow => Some("A row lacks a column that was asked for"@),
        ErrorModel::NoSession { prefix } => Some("No session found matching: "@ + prefix),
        ErrorModel::AmbiguousPrefix { prefix, count, previews } => Some(
            "Ambiguous prefix '"@ + prefix + "' matches "@ + decimal(count) + " sessions:\n  "@
                + join(previews, "\n  "@),
        ),
        ErrorModel::NoSessionAt { position } => Some(
            "No session found at position "@ + decimal(position),
        ),
        ErrorModel::VerificationFailed => Some("Verification failed"@),
    }
}

impl<E> VaultError<E> {
    /// What the user is told; `None` where the database's own error says it.
    pub fn message(&self) -> (message: Option<String>)
        ensures
            message.deep_view() == error_message(self.deep_view()),
    {
        let mut message = String::new();
        match self {
            VaultError::SyncDisabled => {
                message.append(
                    "Sync is not enabled. Pass --sync-url (or set CLAUDE_VAULT_SYNC_URL) to use a synced database.",
                );
            },
            VaultError::SyncFailed { .. } => {
                message.append("Failed to sync with the remote database");
            },
            VaultError::OpenSyncedFailed { path, url, .. } => {
                message.append("Failed to open synced database ");
                message.append(path.as_str());
                message.append(" (sync URL: ");
                message.append(url.as_str());
                message.append(")");
            },
            VaultError::OpenLocalFailed { path, .. } => {
                message.append("Failed to open database: ");
                message.append(path.as_str());
            },
            VaultError::Database { .. } => {
                return None;
            },
            VaultError::NoRows => {
                message.append("Query returned no rows");
            },
            VaultError::MalformedRow => {
                message.append("A row lacks a column that was asked for");
            },
            VaultError::NoSession { prefix } => {
                message.append("No session found matching: ");
                message.append(prefix.as_str());
            },
            VaultError::AmbiguousPrefix { prefix, count, previews } => {
                message.append("Ambiguous prefix '");
                message.append(prefix.as_str());
                message.append("' matches ");
                push_decimal(&mut message, *count as u128);
                message.append(" sessions:\n  ");
                push_joined(&mut message, previews, "\n  ");
            },
            VaultError::NoSessionAt { position } => {
                message.append("No session found at position ");
                push_decimal(&mut message, *position);
            },
            VaultError::VerificationFailed => {
                message.append("Verification failed");
            },
        }
        proof {
            assert(message@ =~= error_message(self.deep_view())->0);
        }
        Some(message)
    }
}

} // verus!
