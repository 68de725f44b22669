use ajisen::bulkdel::clock::{age_threshold, two_weeks_ago, BULK_AGE_LIMIT_MS};
use ajisen::bulkdel::error::BulkDeleteError;
use ajisen::bulkdel::executor::{
    bulk_outcome, include_bookend, individual_outcome, schedule, BULK_MAX, BULK_MIN,
};
use ajisen::bulkdel::message::{DeletionRange, MessageRef};
use ajisen::bulkdel::paginator::{normalize, page_after, request_limit, PAGE_MAX};
use ajisen::bulkdel::partitioner::{partition, DeletionBatch};
use ajisen::bulkdel::permission::{authorize, Actor, MANAGE_MESSAGES};
use ajisen::bulkdel::resolver::resolve;
use ajisen::bulkdel::workflow::DeletionOutcome;

const CHANNEL: u64 = 7;

fn message(id: u64, timestamp: i64) -> MessageRef {
    MessageRef {
        id,
        channel: CHANNEL,
        timestamp,
    }
}

fn ids(list: &Vec<MessageRef>) -> Vec<u64> {
    list.iter().map(|m| m.id).collect()
}

#[test]
fn resolve_orders_the_bookends_whichever_comes_first() {
    let a = message(1, 100);
    let b = message(2, 200);
    let forth = resolve(CHANNEL, Some(1), Some(2), Some(a), Some(b)).unwrap();
    let back = resolve(CHANNEL, Some(2), Some(1), Some(b), Some(a)).unwrap();
    assert_eq!(forth.earlier(), a);
    assert_eq!(forth.later(), b);
    assert_eq!(back.earlier(), a);
    assert_eq!(back.later(), b);
    assert!(forth.earlier().timestamp <= forth.later().timestamp);
}

#[test]
fn resolve_keeps_the_given_order_on_equal_timestamps() {
    let a = message(1, 100);
    let b = message(2, 100);
    let range = resolve(CHANNEL, Some(1), Some(2), Some(a), Some(b)).unwrap();
    assert_eq!((range.earlier(), range.later()), (a, b));
    let range = resolve(CHANNEL, Some(2), Some(1), Some(b), Some(a)).unwrap();
    assert_eq!((range.earlier(), range.later()), (b, a));
}

#[test]
fn resolve_takes_one_message_named_twice() {
    let a = message(1, 100);
    let range = resolve(CHANNEL, Some(1), Some(1), Some(a), Some(a)).unwrap();
    assert_eq!((range.earlier(), range.later()), (a, a));
}

#[test]
fn resolve_fails_when_a_lookup_failed() {
    let a = message(1, 100);
    assert_eq!(resolve(CHANNEL, Some(1), Some(2), Some(a), None).err(), Some(BulkDeleteError::NotFound));
    assert_eq!(resolve(CHANNEL, Some(1), Some(2), None, Some(a)).err(), Some(BulkDeleteError::NotFound));
    assert_eq!(resolve(CHANNEL, Some(1), Some(2), None, None).err(), Some(BulkDeleteError::NotFound));
}

#[test]
fn resolve_fails_on_a_message_of_another_channel_or_name() {
    let a = message(1, 100);
    let elsewhere = MessageRef {
        id: 2,
        channel: CHANNEL + 1,
        timestamp: 200,
    };
    assert_eq!(
        resolve(CHANNEL, Some(1), Some(2), Some(a), Some(elsewhere)).err(),
        Some(BulkDeleteError::NotFound)
    );
    assert_eq!(
        resolve(CHANNEL, Some(1), Some(2), Some(a), Some(message(3, 200))).err(),
        Some(BulkDeleteError::NotFound)
    );
}

#[test]
fn resolve_fails_on_a_malformed_identifier() {
    let a = message(1, 100);
    let b = message(2, 200);
    assert_eq!(resolve(CHANNEL, None, Some(2), Some(a), Some(b)).err(), Some(BulkDeleteError::NotFound));
    assert_eq!(resolve(CHANNEL, Some(1), None, Some(a), Some(b)).err(), Some(BulkDeleteError::NotFound));
    assert_eq!(resolve(CHANNEL, None, None, None, None).err(), Some(BulkDeleteError::NotFound));
}

#[test]
fn a_range_is_ordered_by_timestamp_alone() {
    let range = DeletionRange::new(message(9, 50), message(1, 40));
    assert_eq!(range.earlier(), message(1, 40));
    assert_eq!(range.later(), message(9, 50));
}

#[test]
fn the_threshold_lies_fourteen_days_back() {
    assert_eq!(BULK_AGE_LIMIT_MS, 14 * 24 * 60 * 60 * 1000);
    assert_eq!(age_threshold(1_700_000_000_000), 1_698_790_400_000);
    assert_eq!(age_threshold(0), -1_209_600_000);
    assert_eq!(age_threshold(i64::MAX), i64::MAX - 1_209_600_000);
}

#[test]
fn the_threshold_stops_at_the_earliest_instant() {
    assert_eq!(age_threshold(i64::MIN), i64::MIN);
    assert_eq!(age_threshold(i64::MIN + 1_209_599_999), i64::MIN);
    assert_eq!(age_threshold(i64::MIN + 1_209_600_000), i64::MIN);
    assert_eq!(age_threshold(i64::MIN + 1_209_600_001), i64::MIN + 1);
}

#[test]
fn two_weeks_ago_follows_the_clock() {
    let before = std::time::SystemTime::now()
        .duration_since(std::time::UNIX_EPOCH)
        .unwrap()
        .as_millis() as i64;
    let threshold = two_weeks_ago();
    let after = std::time::SystemTime::now()
        .duration_since(std::time::UNIX_EPOCH)
        .unwrap()
        .as_millis() as i64;
    assert!(before - BULK_AGE_LIMIT_MS <= threshold);
    assert!(threshold <= after - BULK_AGE_LIMIT_MS);
}

#[test]
fn authorize_asks_for_one_role_that_grants() {
    let actor = Actor {
        roles: vec![Some(0), Some(0x1000), Some(MANAGE_MESSAGES | 0x8)],
    };
    assert!(authorize(&actor, MANAGE_MESSAGES));
    let actor = Actor {
        roles: vec![Some(0), Some(0x1000 | 0x4000)],
    };
    assert!(!authorize(&actor, MANAGE_MESSAGES));
}

#[test]
fn authorize_treats_a_failed_lookup_as_no_grant() {
    assert!(!authorize(&Actor { roles: vec![None, None] }, MANAGE_MESSAGES));
    assert!(!authorize(&Actor { roles: vec![] }, MANAGE_MESSAGES));
    assert!(authorize(
        &Actor {
            roles: vec![None, Some(u64::MAX)]
        },
        MANAGE_MESSAGES
    ));
}

#[test]
fn authorize_wants_every_bit_of_the_capability() {
    let both = MANAGE_MESSAGES | 0x1;
    assert!(!authorize(&Actor { roles: vec![Some(MANAGE_MESSAGES), Some(0x1)] }, both));
    assert!(authorize(&Actor { roles: vec![Some(both)] }, both));
    assert_eq!(MANAGE_MESSAGES, 1 << 13);
}

#[test]
fn request_limit_is_capped_at_the_page_size() {
    assert_eq!(PAGE_MAX, 100);
    assert_eq!(request_limit(0), 0);
    assert_eq!(request_limit(99), 99);
    assert_eq!(request_limit(100), 100);
    assert_eq!(request_limit(101), 100);
    assert_eq!(request_limit(usize::MAX), 100);
}

#[test]
fn normalize_sorts_by_timestamp() {
    let raw = vec![message(5, 50), message(3, 30), message(4, 40), message(1, 10), message(2, 20)];
    assert_eq!(ids(&normalize(&raw)), vec![1, 2, 3, 4, 5]);
    assert_eq!(normalize(&vec![]), vec![]);
}

#[test]
fn normalize_keeps_the_order_of_equal_timestamps() {
    let raw = vec![message(1, 20), message(2, 10), message(3, 20), message(4, 10), message(5, 20)];
    assert_eq!(ids(&normalize(&raw)), vec![2, 4, 1, 3, 5]);
}

#[test]
fn normalize_keeps_what_is_in_order_and_every_message() {
    let sorted = vec![message(1, 1), message(2, 2), message(3, 2), message(4, 9)];
    assert_eq!(normalize(&sorted), sorted);
    let raw = vec![message(1, 3), message(1, 3), message(2, 1)];
    assert_eq!(ids(&normalize(&raw)), vec![2, 1, 1]);
}

#[test]
fn page_after_hands_on_the_earliest_messages_in_order() {
    let raw = vec![message(4, 40), message(3, 30), message(2, 20), message(1, 10)];
    assert_eq!(ids(&page_after(3, Ok(raw.clone())).unwrap()), vec![1, 2, 3]);
    assert_eq!(ids(&page_after(4, Ok(raw.clone())).unwrap()), vec![1, 2, 3, 4]);
    assert_eq!(ids(&page_after(100, Ok(raw.clone())).unwrap()), vec![1, 2, 3, 4]);
    assert_eq!(ids(&page_after(0, Ok(raw)).unwrap()), Vec::<u64>::new());
}

#[test]
fn page_after_never_hands_on_more_than_a_page() {
    let raw: Vec<MessageRef> = (0..150).rev().map(|i| message(i, i as i64)).collect();
    let page = page_after(1000, Ok(raw)).unwrap();
    assert_eq!(page.len(), 100);
    assert_eq!(page[0].id, 0);
    assert_eq!(page[99].id, 99);
}

#[test]
fn page_after_hands_on_a_failure() {
    assert_eq!(page_after(100, Err(BulkDeleteError::RateLimited)), Err(BulkDeleteError::RateLimited));
    assert_eq!(
        page_after(100, Err(BulkDeleteError::TransportError)),
        Err(BulkDeleteError::TransportError)
    );
}

fn range(earlier: MessageRef, later: MessageRef) -> DeletionRange {
    resolve(CHANNEL, Some(earlier.id), Some(later.id), Some(earlier), Some(later)).unwrap()
}

#[test]
fn partition_routes_by_age() {
    let r = range(message(1, 100), message(9, 900));
    let page = vec![message(2, 200), message(3, 300), message(4, 400), message(5, 500)];
    let (batch, next, exhausted) = partition(&page, &r, 400);
    assert_eq!(ids(&batch.individual_candidates), vec![2, 3]);
    assert_eq!(ids(&batch.bulk_candidates), vec![4, 5]);
    assert_eq!(next, Some(message(5, 500)));
    assert!(!exhausted);
}

#[test]
fn a_message_at_the_threshold_is_recent() {
    let r = range(message(1, 100), message(9, 900));
    let page = vec![message(2, 399), message(3, 400), message(4, 401)];
    let (batch, _, _) = partition(&page, &r, 400);
    assert_eq!(ids(&batch.individual_candidates), vec![2]);
    assert_eq!(ids(&batch.bulk_candidates), vec![3, 4]);
}

#[test]
fn partition_drops_what_lies_outside_the_range() {
    let r = range(message(1, 100), message(9, 900));
    let page = vec![
        message(20, 50),
        message(21, 100),
        message(2, 101),
        message(3, 900),
        message(9, 900),
        message(22, 901),
    ];
    let (batch, next, exhausted) = partition(&page, &r, 0);
    assert_eq!(ids(&batch.bulk_candidates), vec![2, 3, 9]);
    assert!(batch.individual_candidates.is_empty());
    assert_eq!(next, None);
    assert!(exhausted);
}

#[test]
fn partition_leaves_the_earlier_end_to_the_workflow() {
    let r = range(message(1, 100), message(9, 900));
    let page = vec![message(1, 100), message(1, 150), message(2, 200)];
    let (batch, _, _) = partition(&page, &r, 0);
    assert_eq!(ids(&batch.bulk_candidates), vec![2]);
}

#[test]
fn partition_takes_the_later_end_on_equal_timestamps() {
    let r = range(message(1, 100), message(2, 100));
    let page = vec![message(3, 100), message(2, 100)];
    let (batch, next, exhausted) = partition(&page, &r, 0);
    assert_eq!(ids(&batch.bulk_candidates), vec![2]);
    assert_eq!(next, None);
    assert!(exhausted);
}

#[test]
fn partition_takes_each_message_once() {
    let r = range(message(1, 100), message(9, 900));
    let page = vec![message(2, 200), message(3, 300), message(2, 200), message(3, 350), message(4, 400)];
    let (batch, _, _) = partition(&page, &r, 300);
    assert_eq!(ids(&batch.individual_candidates), vec![2]);
    assert_eq!(ids(&batch.bulk_candidates), vec![3, 4]);
}

#[test]
fn partition_anchors_the_next_page_at_the_latest_message() {
    let r = range(message(1, 100), message(9, 900));
    let page = vec![message(4, 400), message(2, 200), message(5, 400), message(3, 300)];
    let (_, next, exhausted) = partition(&page, &r, 0);
    assert_eq!(next, Some(message(5, 400)));
    assert!(!exhausted);
}

#[test]
fn partition_ends_with_the_page_that_holds_or_passes_the_later_end() {
    let r = range(message(1, 100), message(9, 900));
    let (_, next, exhausted) = partition(&vec![message(2, 200), message(9, 900)], &r, 0);
    assert_eq!((next, exhausted), (None, true));
    let (batch, next, exhausted) = partition(&vec![message(2, 200), message(30, 950)], &r, 0);
    assert_eq!(ids(&batch.bulk_candidates), vec![2]);
    assert_eq!((next, exhausted), (None, true));
}

#[test]
fn partition_has_no_anchor_where_nothing_new_came() {
    let r = range(message(1, 100), message(9, 900));
    let (batch, next, exhausted) = partition(&vec![], &r, 0);
    assert!(batch.bulk_candidates.is_empty() && batch.individual_candidates.is_empty());
    assert_eq!((next, exhausted), (None, false));
    let (batch, next, exhausted) = partition(&vec![message(20, 100), message(21, 90)], &r, 0);
    assert!(batch.bulk_candidates.is_empty() && batch.individual_candidates.is_empty());
    assert_eq!((next, exhausted), (None, false));
}

#[test]
fn partition_of_a_single_message_range_takes_nothing() {
    let only = message(1, 100);
    let r = range(only, only);
    let (batch, next, exhausted) = partition(&vec![only, message(2, 100), message(3, 101)], &r, 0);
    assert!(batch.bulk_candidates.is_empty() && batch.individual_candidates.is_empty());
    assert_eq!((next, exhausted), (None, true));
}

#[test]
fn partition_sorts_every_message_around_the_threshold() {
    let threshold: i64 = 1_000_000;
    let earlier = message(1, threshold - 5_000);
    let later = message(2, threshold + 5_000);
    let r = range(earlier, later);
    let mut state: u64 = 0x9E3779B97F4A7C15;
    let mut page = Vec::new();
    for i in 0..100u64 {
        state ^= state << 13;
        state ^= state >> 7;
        state ^= state << 17;
        let offset = (state % 12_001) as i64 - 6_000;
        page.push(message(100 + i, threshold + offset));
    }
    let (batch, _, _) = partition(&page, &r, threshold);
    for m in &page {
        let inside = earlier.timestamp < m.timestamp && m.timestamp <= later.timestamp;
        let is_aged = batch.individual_candidates.contains(m);
        let recent = batch.bulk_candidates.contains(m);
        assert_eq!(is_aged, inside && m.timestamp < threshold);
        assert_eq!(recent, inside && m.timestamp >= threshold);
    }
    assert!(batch.individual_candidates.iter().all(|m| page.contains(m)));
    assert!(batch.bulk_candidates.iter().all(|m| page.contains(m)));
    let taken = batch.individual_candidates.len() + batch.bulk_candidates.len();
    let inside = page
        .iter()
        .filter(|m| earlier.timestamp < m.timestamp && m.timestamp <= later.timestamp)
        .count();
    assert_eq!(taken, inside);
    assert!(0 < batch.individual_candidates.len() && 0 < batch.bulk_candidates.len());
}

#[test]
fn the_bookend_goes_in_front_of_the_list_for_its_age() {
    let batch = DeletionBatch {
        bulk_candidates: vec![message(3, 300)],
        individual_candidates: vec![message(2, 200)],
    };
    let out = include_bookend(batch, message(1, 100), 250);
    assert_eq!(ids(&out.individual_candidates), vec![1, 2]);
    assert_eq!(ids(&out.bulk_candidates), vec![3]);
    let out = include_bookend(out, message(0, 250), 250);
    assert_eq!(ids(&out.individual_candidates), vec![1, 2]);
    assert_eq!(ids(&out.bulk_candidates), vec![0, 3]);
}

#[test]
fn a_single_bulk_candidate_is_deleted_by_itself() {
    let plan = schedule(DeletionBatch {
        bulk_candidates: vec![message(3, 300)],
        individual_candidates: vec![message(1, 100), message(2, 200)],
    });
    assert_eq!(ids(&plan.singles), vec![1, 2, 3]);
    assert!(plan.bulk.is_empty());
}

#[test]
fn two_bulk_candidates_make_a_bulk_call() {
    assert_eq!((BULK_MIN, BULK_MAX), (2, 100));
    let plan = schedule(DeletionBatch {
        bulk_candidates: vec![message(3, 300), message(4, 400)],
        individual_candidates: vec![message(1, 100)],
    });
    assert_eq!(ids(&plan.singles), vec![1]);
    assert_eq!(ids(&plan.bulk), vec![3, 4]);
    let plan = schedule(DeletionBatch {
        bulk_candidates: vec![],
        individual_candidates: vec![],
    });
    assert!(plan.singles.is_empty() && plan.bulk.is_empty());
}

#[test]
fn a_message_that_was_gone_counts_as_deleted() {
    assert_eq!(individual_outcome(Ok(())), Ok(()));
    assert_eq!(individual_outcome(Err(BulkDeleteError::AlreadyDeleted)), Ok(()));
    assert_eq!(bulk_outcome(42, Ok(())), Ok(42));
    assert_eq!(bulk_outcome(42, Err(BulkDeleteError::AlreadyDeleted)), Ok(42));
    assert_eq!(bulk_outcome(0, Ok(())), Ok(0));
    assert_eq!(bulk_outcome(0, Err(BulkDeleteError::TransportError)), Ok(0));
}

#[test]
fn any_other_failure_of_a_delete_call_stands() {
    assert_eq!(individual_outcome(Err(BulkDeleteError::Forbidden)), Err(BulkDeleteError::Forbidden));
    assert_eq!(
        individual_outcome(Err(BulkDeleteError::TransportError)),
        Err(BulkDeleteError::TransportError)
    );
    assert_eq!(bulk_outcome(42, Err(BulkDeleteError::Forbidden)), Err(BulkDeleteError::Forbidden));
    assert_eq!(bulk_outcome(42, Err(BulkDeleteError::RateLimited)), Err(BulkDeleteError::RateLimited));
}

#[test]
fn the_outcome_of_a_page_says_where_to_go_on() {
    let r = range(message(1, 100), message(9, 900));
    assert_eq!(
        DeletionOutcome::after_page(12, &r, Some(message(5, 500))),
        DeletionOutcome {
            deleted_count: 12,
            last_message_processed: message(5, 500),
            exhausted: false,
        }
    );
    assert_eq!(
        DeletionOutcome::after_page(40, &r, None),
        DeletionOutcome {
            deleted_count: 40,
            last_message_processed: message(9, 900),
            exhausted: true,
        }
    );
}

#[test]
fn a_refusal_is_told_by_its_status() {
    let gone = BulkDeleteError::AlreadyDeleted;
    assert_eq!(BulkDeleteError::from_status(Some(403), gone), BulkDeleteError::Forbidden);
    assert_eq!(BulkDeleteError::from_status(Some(404), gone), BulkDeleteError::AlreadyDeleted);
    assert_eq!(
        BulkDeleteError::from_status(Some(404), BulkDeleteError::NotFound),
        BulkDeleteError::NotFound
    );
    assert_eq!(BulkDeleteError::from_status(Some(429), gone), BulkDeleteError::RateLimited);
    assert_eq!(BulkDeleteError::from_status(Some(500), gone), BulkDeleteError::TransportError);
    assert_eq!(BulkDeleteError::from_status(Some(200), gone), BulkDeleteError::TransportError);
    assert_eq!(BulkDeleteError::from_status(None, gone), BulkDeleteError::TransportError);
}
