use photo::persist_queue::{
    bake_has_nothing_new, bake_record_change, loaded_bake_absorbed_session_state,
    owed_bake_action, owed_bake_registration, wants_persist_request, BakeOutcome,
    BakeRecordChange, OwedBakeAction, OwedRegistration, PersistQueue, PersistRequest,
};
use photo::session_cache::BaseImageSource;
use photo::session_cache::BaseImageSource::{Original, PersistedLocalEdit};

fn request(id: u64, path: &str, payload: u32) -> PersistRequest<u32> {
    PersistRequest { request_id: id, path: path.to_string(), payload }
}

fn waiting(q: &PersistQueue<u32>) -> Vec<(u64, String, u32)> {
    q.pending.iter().map(|r| (r.request_id, r.path.clone(), r.payload)).collect()
}

#[test]
fn first_request_runs_at_once() {
    let mut q: PersistQueue<u32> = PersistQueue::new();
    assert_eq!(q.next_request_id(), 1);
    assert!(q.enqueue(request(1, "/a.jpg", 10)));
    assert!(q.is_busy());
    assert_eq!(q.waiting(), 0);
    assert_eq!(q.in_flight.as_ref().map(|r| r.request_id), Some(1));
}

#[test]
fn later_requests_wait_one_per_image() {
    let mut q: PersistQueue<u32> = PersistQueue::new();
    q.enqueue(request(1, "/a.jpg", 10));
    assert!(!q.enqueue(request(2, "/b.jpg", 20)));
    assert!(!q.enqueue(request(3, "/c.jpg", 30)));
    assert!(!q.enqueue(request(4, "/b.jpg", 21)));
    assert_eq!(
        waiting(&q),
        vec![(3, "/c.jpg".to_string(), 30), (4, "/b.jpg".to_string(), 21)]
    );
    assert_eq!(q.in_flight.as_ref().map(|r| r.request_id), Some(1));
}

#[test]
fn next_request_id_exceeds_running_and_waiting() {
    let mut q: PersistQueue<u32> = PersistQueue::new();
    q.enqueue(request(7, "/a.jpg", 0));
    assert_eq!(q.next_request_id(), 8);
    q.enqueue(request(8, "/b.jpg", 0));
    q.enqueue(request(9, "/c.jpg", 0));
    assert_eq!(q.next_request_id(), 10);
}

#[test]
fn completion_of_the_running_request_frees_the_queue_in_order() {
    let mut q: PersistQueue<u32> = PersistQueue::new();
    q.enqueue(request(1, "/a.jpg", 10));
    q.enqueue(request(2, "/b.jpg", 20));
    q.enqueue(request(3, "/c.jpg", 30));
    assert!(q.take_completed("/a.jpg", 2).is_none());
    assert!(q.take_completed("/b.jpg", 1).is_none());
    assert!(q.is_busy());
    let done = q.take_completed("/a.jpg", 1).expect("running request");
    assert_eq!((done.request_id, done.payload), (1, 10));
    assert!(!q.is_busy());
    assert!(q.start_next_if_idle());
    assert_eq!(q.in_flight.as_ref().map(|r| r.request_id), Some(2));
    assert!(!q.start_next_if_idle());
    assert_eq!(waiting(&q), vec![(3, "/c.jpg".to_string(), 30)]);
}

#[test]
fn start_next_on_an_empty_idle_queue_does_nothing() {
    let mut q: PersistQueue<u32> = PersistQueue::new();
    assert!(!q.start_next_if_idle());
    assert!(!q.is_busy());
}

#[test]
fn newest_pending_prefers_waiting_over_running() {
    let mut q: PersistQueue<u32> = PersistQueue::new();
    q.enqueue(request(1, "/a.jpg", 10));
    assert_eq!(q.newest_pending_for_path("/a.jpg").map(|r| r.request_id), Some(1));
    assert!(q.newest_pending_for_path("/b.jpg").is_none());
    q.enqueue(request(2, "/a.jpg", 11));
    assert_eq!(q.newest_pending_for_path("/a.jpg").map(|r| r.payload), Some(11));
}

#[test]
fn nothing_new_cases() {
    assert!(!bake_has_nothing_new(false, Original, false, false, None, None));
    assert!(bake_has_nothing_new(true, Original, false, false, None, None));
    assert!(!bake_has_nothing_new(true, Original, true, false, None, None));
    assert!(!bake_has_nothing_new(true, PersistedLocalEdit, true, true, None, None));
    assert!(bake_has_nothing_new(true, PersistedLocalEdit, true, false, None, None));
    assert!(bake_has_nothing_new(true, PersistedLocalEdit, true, false, Some(4), Some(4)));
    assert!(!bake_has_nothing_new(true, PersistedLocalEdit, true, false, Some(4), Some(3)));
    assert!(!bake_has_nothing_new(true, PersistedLocalEdit, true, false, Some(4), None));
}

#[test]
fn absorbed_only_for_the_session_bake() {
    assert!(loaded_bake_absorbed_session_state(PersistedLocalEdit, Some(5), Some(5)));
    assert!(!loaded_bake_absorbed_session_state(PersistedLocalEdit, Some(5), Some(6)));
    assert!(!loaded_bake_absorbed_session_state(PersistedLocalEdit, None, None));
    assert!(!loaded_bake_absorbed_session_state(Original, Some(5), Some(5)));
}

#[test]
fn persist_request_wanted_only_when_nothing_blocks() {
    assert!(wants_persist_request(false, true, false, false));
    assert!(!wants_persist_request(true, true, false, false));
    assert!(!wants_persist_request(false, false, false, false));
    assert!(!wants_persist_request(false, true, true, false));
    assert!(!wants_persist_request(false, true, false, true));
}

#[test]
fn owed_bake_registration_cases() {
    assert_eq!(owed_bake_registration(false, true, false, false, false), OwedRegistration::NoImage);
    assert_eq!(
        owed_bake_registration(true, false, false, true, false),
        OwedRegistration::CommitWaitsForMetadata
    );
    assert_eq!(owed_bake_registration(true, false, true, true, false), OwedRegistration::NothingOwed);
    assert_eq!(owed_bake_registration(true, true, false, false, true), OwedRegistration::NothingOwed);
    assert_eq!(owed_bake_registration(true, true, false, false, false), OwedRegistration::Register);
}

#[test]
fn owed_bake_action_cases() {
    assert_eq!(owed_bake_action(false, true, None, false, false, Original, false, false), OwedBakeAction::NotOwed);
    assert_eq!(owed_bake_action(true, false, None, false, false, Original, false, false), OwedBakeAction::DropFailedLoad);
    assert_eq!(
        owed_bake_action(true, true, Some(true), true, true, Original, false, false),
        OwedBakeAction::RacingPersistCarriesState
    );
    assert_eq!(
        owed_bake_action(true, true, Some(false), true, true, Original, false, false),
        OwedBakeAction::BakeOnRacingBase
    );
    assert_eq!(
        owed_bake_action(true, true, None, true, true, PersistedLocalEdit, true, true),
        OwedBakeAction::ResetAbsorbedState
    );
    assert_eq!(owed_bake_action(true, true, None, false, true, Original, false, true), OwedBakeAction::NothingNew);
    assert_eq!(owed_bake_action(true, true, None, false, true, Original, true, false), OwedBakeAction::BakeOnLoadedBase);
    assert_eq!(
        owed_bake_action(true, true, None, false, true, PersistedLocalEdit, true, false),
        OwedBakeAction::NothingNew
    );
    assert_eq!(
        owed_bake_action(true, true, None, false, true, PersistedLocalEdit, true, true),
        OwedBakeAction::BakeOnLoadedBase
    );
    assert_eq!(
        owed_bake_action(true, true, None, false, false, Original, false, false),
        OwedBakeAction::BakeOnLoadedBase
    );
}

#[test]
fn bake_record_changes() {
    assert_eq!(bake_record_change(true, BakeOutcome::Written { generation_id: Some(9) }), BakeRecordChange::Record(9));
    assert_eq!(bake_record_change(false, BakeOutcome::Written { generation_id: Some(9) }), BakeRecordChange::Keep);
    assert_eq!(bake_record_change(true, BakeOutcome::Written { generation_id: None }), BakeRecordChange::Keep);
    assert_eq!(bake_record_change(false, BakeOutcome::Removed), BakeRecordChange::Forget);
    assert_eq!(bake_record_change(true, BakeOutcome::Failed), BakeRecordChange::Keep);
}

#[test]
fn recorded_bake_reloaded_is_absorbed() {
    let g = 42;
    assert_eq!(bake_record_change(true, BakeOutcome::Written { generation_id: Some(g) }), BakeRecordChange::Record(g));
    let absorbed = loaded_bake_absorbed_session_state(BaseImageSource::PersistedLocalEdit, Some(g), Some(g));
    assert!(absorbed);
    assert_eq!(
        owed_bake_action(true, true, None, absorbed, false, BaseImageSource::PersistedLocalEdit, true, true),
        OwedBakeAction::ResetAbsorbedState
    );
    assert!(bake_has_nothing_new(true, BaseImageSource::PersistedLocalEdit, true, false, Some(g), Some(g)));
}
