//! What the requester of a deletion is told.

use vstd::prelude::*;
use crate::bulkdel::error::BulkDeleteError;
use crate::bulkdel::orchestrator::Action;
use crate::bulkdel::workflow::ActionView;
use crate::text::{build, built, decimal, decimal_text, new_builder, push_text};

verus! {

/// The notice that a request is being worked on. `author` is the mention of
/// the requester.
pub open spec fn acknowledged(author: Seq<char>) -> Seq<char> {
    author + ", we are working on your bulk deletion request, please hold on..."@
}

/// Why a request was given up, in words.
pub open spec fn reason(error: BulkDeleteError) -> Seq<char> {
    match error {
        BulkDeleteError::Unauthorized => "the permission to manage messages is missing"@,
        BulkDeleteError::BadRange => "the two messages were not found in this channel"@,
        BulkDeleteError::NotFound => "a message was not found"@,
        BulkDeleteError::RateLimited => "the platform asked to slow down"@,
        BulkDeleteError::TransportError => "the platform could not be reached"@,
        BulkDeleteError::Forbidden => "the platform refused a deletion"@,
        BulkDeleteError::AlreadyDeleted => "a message was gone already"@,
        BulkDeleteError::NoProgress => "the history went no further"@,
        BulkDeleteError::PartialFailure => "some messages could not be deleted"@,
        BulkDeleteError::UnexpectedEvent => "the workflow was disturbed"@,
    }
}

/// What the requester is told at the end of a request, by the action that
/// ended it. A requester who lacks the permission is told so; any other
/// failure is told with its reason and the count of what was deleted before
/// it; the end of the range is told with the count, and with the number of
/// messages that could not be deleted if there are any. An action that ends
/// nothing has no report.
pub open spec fn reported(author: Seq<char>, last: ActionView) -> Option<Seq<char>> {
    match last {
        ActionView::Abort { error, deleted_count } => if error == BulkDeleteError::Unauthorized {
            Some(author + " lacks permissions."@)
        } else {
            Some(
                "Request failed: "@ + reason(error) + ". Deleted "@ + decimal(deleted_count as nat)
                    + " messages. Cleaning up..."@,
            )
        },
        ActionView::Complete { deleted_count, failed_count } => if failed_count == 0 {
            Some(
                "Request processed. Deleted "@ + decimal(deleted_count as nat)
                    + " messages. Cleaning up..."@,
            )
        } else {
            Some(
                "Request processed. Deleted "@ + decimal(deleted_count as nat) + " messages, "@
                    + decimal(failed_count as nat) + " could not be deleted. Cleaning up..."@,
            )
        },
        _ => None,
    }
}

/// Why a request was given up, in words ([`reason`]).
pub fn describe(error: BulkDeleteError) -> (words: &'static str)
    ensures
        words@ == reason(error),
{
    match error {
        BulkDeleteError::Unauthorized => "the permission to manage messages is missing",
        BulkDeleteError::BadRange => "the two messages were not found in this channel",
        BulkDeleteError::NotFound => "a message was not found",
        BulkDeleteError::RateLimited => "the platform asked to slow down",
        BulkDeleteError::TransportError => "the platform could not be reached",
        BulkDeleteError::Forbidden => "the platform refused a deletion",
        BulkDeleteError::AlreadyDeleted => "a message was gone already",
        BulkDeleteError::NoProgress => "the history went no further",
        BulkDeleteError::PartialFailure => "some messages could not be deleted",
        BulkDeleteError::UnexpectedEvent => "the workflow was disturbed",
    }
}

/// The notice that a request is being worked on ([`acknowledged`]).
pub fn acknowledgment(author: &str) -> (text: String)
    ensures
        text@ == acknowledged(author@),
{
    let mut builder = new_builder();
    push_text(&mut builder, author);
    assert(built(builder) =~= author@);
    push_text(&mut builder, ", we are working on your bulk deletion request, please hold on...");
    build(builder)
}

/// What the requester is told at the end of a request ([`reported`]).
pub fn report(author: &str, last: &Action) -> (text: Option<String>)
    ensures
        match reported(author@, last@) {
            Some(told) => text matches Some(t) && t@ == told,
            None => text is None,
        },
{
    let mut builder = new_builder();
    match last {
        Action::Abort { error, deleted_count } => {
            match error {
                BulkDeleteError::Unauthorized => {
                    push_text(&mut builder, author);
                    assert(built(builder) =~= author@);
                    push_text(&mut builder, " lacks permissions.");
                },
                _ => {
                    let count = decimal_text(*deleted_count);
                    push_text(&mut builder, "Request failed: ");
                    assert(built(builder) =~= "Request failed: "@);
                    push_text(&mut builder, describe(*error));
                    push_text(&mut builder, ". Deleted ");
                    push_text(&mut builder, count.as_str());
                    push_text(&mut builder, " messages. Cleaning up...");
                },
            }
            Some(build(builder))
        },
        Action::Complete { deleted_count, failed_count } => {
            let count = decimal_text(*deleted_count);
            push_text(&mut builder, "Request processed. Deleted ");
            assert(built(builder) =~= "Request processed. Deleted "@);
            push_text(&mut builder, count.as_str());
            if *failed_count == 0 {
                push_text(&mut builder, " messages. Cleaning up...");
            } else {
                let failed = decimal_text(*failed_count);
                push_text(&mut builder, " messages, ");
                push_text(&mut builder, failed.as_str());
                push_text(&mut builder, " could not be deleted. Cleaning up...");
            }
            Some(build(builder))
        },
        _ => None,
    }
}

} // verus!
