use tracker::cache::{decode_elements, CacheRecord};
use tracker::group::{GroupConfig, SatelliteGroupsConfig};
use tracker::pipeline::{
    DeselectAction, SatelliteGroupsState, SelectAction, ToggleAction, UpdateOutcome,
};
use tracker::selection::ObjectSelection;

const ISS_OMM: &str = r#"[{
    "OBJECT_NAME": "ISS (ZARYA)",
    "OBJECT_ID": "1998-067A",
    "EPOCH": "2020-07-12T01:19:07.402656",
    "MEAN_MOTION": 15.49560532,
    "ECCENTRICITY": 0.0001771,
    "INCLINATION": 51.6435,
    "RA_OF_ASC_NODE": 225.4004,
    "ARG_OF_PERICENTER": 44.9625,
    "MEAN_ANOMALY": 5.1087,
    "EPHEMERIS_TYPE": 0,
    "CLASSIFICATION_TYPE": "U",
    "NORAD_CAT_ID": 25544,
    "ELEMENT_SET_NO": 999,
    "REV_AT_EPOCH": 23587,
    "BSTAR": 0.0049645,
    "MEAN_MOTION_DOT": 0.00289036,
    "MEAN_MOTION_DDOT": 0
}]"#;

const NOW_MS: i64 = 1_700_000_000_000;

fn two_group_state() -> SatelliteGroupsState {
    let config = SatelliteGroupsConfig {
        cache_lifetime_min: 120,
        groups: vec![
            GroupConfig::with_id("ISS".to_owned(), "1998-067A".to_owned()),
            GroupConfig::with_group("Weather".to_owned(), "weather".to_owned()),
        ],
    };
    SatelliteGroupsState::with_config(config, NOW_MS)
}

fn fresh_iss_record() -> CacheRecord {
    CacheRecord {
        written_at_ms: NOW_MS,
        elements: decode_elements(ISS_OMM).expect("the sample response parses"),
    }
}

#[test]
fn with_config_builds_unselected_entries() {
    let state = two_group_state();
    assert_eq!(state.entries_len(), 2);
    assert_eq!(state.objects.len(), 0);
    assert_eq!(state.entry(0).group().label(), "ISS");
    assert_eq!(state.entry(1).group().label(), "Weather");
    assert!(!state.entry(0).selected());
    assert!(!state.entry(0).loading());
}

#[test]
fn select_with_valid_cache_materializes_without_fetch() {
    // A pre-populated, non-expired cache record with one element set:
    // selecting yields exactly one tracked object and asks for no network
    // fetch.
    let mut state = two_group_state();
    let action = state.select(0, Some(fresh_iss_record()), NOW_MS + 1000);
    assert_eq!(action, SelectAction::UsedCache);
    assert_eq!(state.objects.len(), 1);
    assert_eq!(state.objects[0].name().as_deref(), Some("ISS (ZARYA)"));
    assert!(state.entry(0).selected());
    assert!(!state.entry(0).loading());
}

#[test]
fn select_with_expired_cache_starts_fetch() {
    let mut state = two_group_state();
    let stale = CacheRecord {
        written_at_ms: NOW_MS - 121 * 60_000,
        elements: decode_elements(ISS_OMM).unwrap(),
    };
    let action = state.select(0, Some(stale), NOW_MS);
    assert_eq!(action, SelectAction::StartFetch);
    assert_eq!(state.objects.len(), 0);
    assert!(state.entry(0).selected());
    assert!(state.entry(0).loading());
}

#[test]
fn select_without_cache_starts_fetch() {
    let mut state = two_group_state();
    let action = state.select(1, None, NOW_MS);
    assert_eq!(action, SelectAction::StartFetch);
    assert!(state.entry(1).loading());
}

#[test]
fn selecting_a_selected_entry_is_a_no_op() {
    // Group selection idempotence: a second select neither spawns nor
    // cancels anything and leaves the state as it was.
    let mut state = two_group_state();
    assert_eq!(state.select(0, Some(fresh_iss_record()), NOW_MS), SelectAction::UsedCache);
    let objects_before = state.objects.len();
    let action = state.select(0, None, NOW_MS);
    assert_eq!(action, SelectAction::Ignored);
    assert_eq!(state.objects.len(), objects_before);
    assert!(state.entry(0).selected());
    assert!(!state.entry(0).loading());
}

#[test]
fn deselecting_an_unselected_entry_is_a_no_op() {
    let mut state = two_group_state();
    let action = state.deselect(0);
    assert_eq!(action, DeselectAction::Ignored);
    assert!(!state.entry(0).selected());
    assert!(!state.entry(0).loading());
    assert_eq!(state.objects.len(), 0);
}

#[test]
fn deselect_while_loading_cancels() {
    let mut state = two_group_state();
    assert_eq!(state.select(0, None, NOW_MS), SelectAction::StartFetch);
    let action = state.deselect(0);
    assert_eq!(action, DeselectAction::Cancelled);
    assert!(!state.entry(0).selected());
    assert!(!state.entry(0).loading());
}

#[test]
fn fetch_success_extends_the_roster() {
    let mut state = two_group_state();
    assert_eq!(state.select(0, None, NOW_MS), SelectAction::StartFetch);
    let elements = decode_elements(ISS_OMM).unwrap();
    let outcome = state.handle_update(0, Some(elements));
    assert_eq!(outcome, UpdateOutcome::Applied);
    assert_eq!(state.objects.len(), 1);
    assert!(state.entry(0).selected());
    assert!(!state.entry(0).loading());
}

#[test]
fn fetch_failure_forces_entry_back_to_unselected() {
    let mut state = two_group_state();
    assert_eq!(state.select(0, None, NOW_MS), SelectAction::StartFetch);
    let outcome = state.handle_update(0, None);
    assert_eq!(outcome, UpdateOutcome::Failed);
    assert!(!state.entry(0).selected());
    assert!(!state.entry(0).loading());
    assert_eq!(state.objects.len(), 0);
}

#[test]
fn late_result_for_cancelled_fetch_is_discarded() {
    // The task passed its network call, the user deselected meanwhile: the
    // result must be dropped, not applied, and no spurious selection may
    // appear.
    let mut state = two_group_state();
    assert_eq!(state.select(0, None, NOW_MS), SelectAction::StartFetch);
    assert_eq!(state.deselect(0), DeselectAction::Cancelled);
    let elements = decode_elements(ISS_OMM).unwrap();
    let outcome = state.handle_update(0, Some(elements));
    assert_eq!(outcome, UpdateOutcome::Discarded);
    assert!(!state.entry(0).selected());
    assert_eq!(state.objects.len(), 0);
}

#[test]
fn result_for_unknown_index_is_discarded() {
    let mut state = two_group_state();
    let outcome = state.handle_update(7, None);
    assert_eq!(outcome, UpdateOutcome::Discarded);
}

#[test]
fn toggle_off_rebuilds_roster_and_invalidates_selection() {
    let mut state = two_group_state();
    let mut selection = ObjectSelection::default();
    assert_eq!(state.select(0, Some(fresh_iss_record()), NOW_MS), SelectAction::UsedCache);
    assert_eq!(state.select(1, Some(fresh_iss_record()), NOW_MS), SelectAction::UsedCache);
    selection.set_selected(Some(0));
    // Toggling entry 1 off clears the roster and asks for a reload of the
    // still-selected entry 0 alone.
    let action = state.toggle_entry(1, None, NOW_MS, &mut selection);
    match action {
        ToggleAction::Reload(fetches) => assert_eq!(fetches, vec![0]),
        other => panic!("expected a reload, got {:?}", other),
    }
    assert_eq!(state.objects.len(), 0);
    assert!(!state.entry(1).selected());
    assert!(state.entry(0).selected());
    assert!(state.entry(0).loading());
    assert!(selection.selected_object(&state.objects).is_none());
}

#[test]
fn toggle_on_uses_cache() {
    let mut state = two_group_state();
    let mut selection = ObjectSelection::default();
    let action = state.toggle_entry(0, Some(fresh_iss_record()), NOW_MS, &mut selection);
    assert!(matches!(action, ToggleAction::UsedCache));
    assert_eq!(state.objects.len(), 1);
}

#[test]
fn cancelling_twice_is_safe_and_changes_nothing_more() {
    let mut state = two_group_state();
    assert_eq!(state.select(0, None, NOW_MS), SelectAction::StartFetch);
    state.cancel_entry_loading(0);
    assert!(state.entry(0).selected());
    assert!(!state.entry(0).loading());
    // A second cancellation finds nothing in flight and is a no-op.
    state.cancel_entry_loading(0);
    assert!(state.entry(0).selected());
    assert!(!state.entry(0).loading());
}

#[test]
fn deselect_aborts_the_attached_task() {
    let runtime = tokio::runtime::Runtime::new().expect("a runtime starts");
    runtime.block_on(async {
        let mut state = two_group_state();
        assert_eq!(state.select(0, None, NOW_MS), SelectAction::StartFetch);
        let handle = tokio::spawn(async {
            tokio::time::sleep(std::time::Duration::from_secs(60)).await;
        });
        assert!(!state.entry(0).has_fetch_task());
        state.attach_fetch_task(0, handle.abort_handle());
        assert!(state.entry(0).has_fetch_task());
        assert_eq!(state.deselect(0), DeselectAction::Cancelled);
        assert!(!state.entry(0).has_fetch_task());
        // The fetch task really was aborted: awaiting it reports
        // cancellation instead of sleeping the full minute out.
        let result = handle.await;
        assert!(result.expect_err("the task was cancelled").is_cancelled());
    });
}

#[test]
fn periodic_refresh_due_after_lifetime() {
    let mut state = two_group_state();
    let lifetime_ms: i64 = 120 * 60_000;
    assert!(!state.should_refresh(NOW_MS + lifetime_ms - 1));
    assert!(state.should_refresh(NOW_MS + lifetime_ms));
    state.mark_refreshed(NOW_MS + lifetime_ms);
    assert!(!state.should_refresh(NOW_MS + lifetime_ms + 1));
}

#[test]
fn update_event_reloads_only_when_due() {
    let mut state = two_group_state();
    let mut selection = ObjectSelection::default();
    assert_eq!(state.select(0, Some(fresh_iss_record()), NOW_MS), SelectAction::UsedCache);
    selection.set_selected(Some(0));
    let lifetime_ms: i64 = 120 * 60_000;

    // Not due yet: nothing changes.
    assert!(state.handle_update_event(NOW_MS + lifetime_ms - 1, &mut selection).is_none());
    assert_eq!(state.objects.len(), 1);
    assert!(selection.selected_object(&state.objects).is_some());

    // Due: the roster is rebuilt, the selected entry reloads, indices drop.
    let fetches = state
        .handle_update_event(NOW_MS + lifetime_ms, &mut selection)
        .expect("a refresh is due");
    assert_eq!(fetches, vec![0]);
    assert_eq!(state.objects.len(), 0);
    assert!(state.entry(0).loading());
    assert!(selection.selected_object(&state.objects).is_none());
    // The refresh clock restarted: not due again immediately.
    assert!(state.handle_update_event(NOW_MS + lifetime_ms + 1, &mut selection).is_none());
}

#[test]
fn scrolling_stays_within_bounds() {
    let mut state = two_group_state();
    assert_eq!(state.offset(), 0);
    state.scroll_up();
    assert_eq!(state.offset(), 0);
    assert_eq!(state.max_offset(1), 1);
    state.scroll_down(1);
    assert_eq!(state.offset(), 1);
    state.scroll_down(1);
    assert_eq!(state.offset(), 1);
    state.scroll_up();
    assert_eq!(state.offset(), 0);
    assert_eq!(state.max_offset(5), 0);
}
