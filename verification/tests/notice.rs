use ajisen::bulkdel::error::BulkDeleteError;
use ajisen::bulkdel::message::MessageRef;
use ajisen::bulkdel::notice::{acknowledgment, describe, report};
use ajisen::bulkdel::orchestrator::Action;

#[test]
fn the_acknowledgment_names_the_requester() {
    assert_eq!(
        acknowledgment("<@42>"),
        "<@42>, we are working on your bulk deletion request, please hold on..."
    );
}

#[test]
fn a_requester_without_the_permission_is_told_so() {
    let last = Action::Abort {
        error: BulkDeleteError::Unauthorized,
        deleted_count: 0,
    };
    assert_eq!(report("<@42>", &last), Some(String::from("<@42> lacks permissions.")));
}

#[test]
fn the_end_of_a_range_is_told_with_the_count() {
    let last = Action::Complete {
        deleted_count: 250,
        failed_count: 0,
    };
    assert_eq!(
        report("<@42>", &last),
        Some(String::from("Request processed. Deleted 250 messages. Cleaning up..."))
    );
    let last = Action::Complete {
        deleted_count: 0,
        failed_count: 0,
    };
    assert_eq!(
        report("<@42>", &last),
        Some(String::from("Request processed. Deleted 0 messages. Cleaning up..."))
    );
    let last = Action::Complete {
        deleted_count: u64::MAX,
        failed_count: 0,
    };
    assert_eq!(
        report("<@42>", &last),
        Some(String::from(
            "Request processed. Deleted 18446744073709551615 messages. Cleaning up..."
        ))
    );
}

#[test]
fn messages_that_were_passed_over_are_told() {
    let last = Action::Complete {
        deleted_count: 4,
        failed_count: 1,
    };
    assert_eq!(
        report("<@42>", &last),
        Some(String::from(
            "Request processed. Deleted 4 messages, 1 could not be deleted. Cleaning up..."
        ))
    );
}

#[test]
fn a_failure_is_told_with_its_reason_and_the_count() {
    let last = Action::Abort {
        error: BulkDeleteError::RateLimited,
        deleted_count: 100,
    };
    assert_eq!(
        report("<@42>", &last),
        Some(String::from(
            "Request failed: the platform asked to slow down. Deleted 100 messages. Cleaning up..."
        ))
    );
    let last = Action::Abort {
        error: BulkDeleteError::NoProgress,
        deleted_count: 0,
    };
    assert_eq!(
        report("<@42>", &last),
        Some(String::from(
            "Request failed: the history went no further. Deleted 0 messages. Cleaning up..."
        ))
    );
}

#[test]
fn an_action_that_ends_nothing_has_no_report() {
    assert_eq!(report("<@42>", &Action::ResolveRoles), None);
    assert_eq!(report("<@42>", &Action::Halt), None);
    let message = MessageRef {
        id: 1,
        channel: 7,
        timestamp: 100,
    };
    assert_eq!(report("<@42>", &Action::DeleteIndividual { channel: 7, message }), None);
    assert_eq!(
        report(
            "<@42>",
            &Action::DeleteBulk {
                channel: 7,
                messages: vec![message, message]
            }
        ),
        None
    );
}

#[test]
fn every_failure_has_its_words() {
    let all = [
        BulkDeleteError::Unauthorized,
        BulkDeleteError::BadRange,
        BulkDeleteError::NotFound,
        BulkDeleteError::RateLimited,
        BulkDeleteError::TransportError,
        BulkDeleteError::Forbidden,
        BulkDeleteError::AlreadyDeleted,
        BulkDeleteError::NoProgress,
        BulkDeleteError::PartialFailure,
        BulkDeleteError::UnexpectedEvent,
    ];
    for (i, a) in all.iter().enumerate() {
        assert!(!describe(*a).is_empty());
        for b in &all[i + 1..] {
            assert_ne!(describe(*a), describe(*b));
        }
    }
    assert_eq!(describe(BulkDeleteError::BadRange), "the two messages were not found in this channel");
}
