use vstd::prelude::*;
use crate::cache::{record_valid_at, CacheRecord};
use crate::group::{Group, Identifier, SatelliteGroupsConfig};
use crate::object::{accepted_elements, materialize_objects, roster_elements, Object};
use crate::selection::ObjectSelection;

verus! {

#[verifier::external_type_specification]
#[verifier::external_body]
pub struct ExAbortHandle(tokio::task::AbortHandle);

/// Relies on tokio's AbortHandle::abort: cancels the associated task; a
/// second call, or a call after the task finished, does nothing.
pub assume_specification[ tokio::task::AbortHandle::abort ](handle: &tokio::task::AbortHandle);

/// One satellite group entry in the roster list: the group, its selection
/// and loading flags, and — while a fetch is in flight — the handle that can
/// cancel it.
pub struct Entry {
    group: Group,
    selected: bool,
    loading: bool,
    abort_handle: Option<tokio::task::AbortHandle>,
}

impl Entry {
    /// The satellite group.
    pub closed spec fn spec_group(&self) -> Group {
        self.group
    }

    /// Whether this entry is selected.
    pub closed spec fn is_selected(&self) -> bool {
        self.selected
    }

    /// Whether this entry is currently loading data.
    pub closed spec fn is_loading(&self) -> bool {
        self.loading
    }

    /// Whether a fetch task is attached to this entry.
    pub closed spec fn has_task(&self) -> bool {
        self.abort_handle is Some
    }

    /// A task exists only while the entry is loading, and an entry loads
    /// only while it is selected. Together with `attach_fetch_task`'s
    /// precondition this keeps at most one fetch in flight per entry.
    pub open spec fn wf(&self) -> bool {
        &&& self.has_task() ==> self.is_loading()
        &&& self.is_loading() ==> self.is_selected()
    }

    /// Returns the group.
    pub fn group(&self) -> (g: &Group)
        ensures
            *g == self.spec_group(),
    {
        &self.group
    }

    /// Returns the selection flag.
    pub fn selected(&self) -> (r: bool)
        ensures
            r == self.is_selected(),
    {
        self.selected
    }

    /// Returns the loading flag.
    pub fn loading(&self) -> (r: bool)
        ensures
            r == self.is_loading(),
    {
        self.loading
    }

    /// Returns whether a fetch task is attached.
    pub fn has_fetch_task(&self) -> (r: bool)
        ensures
            r == self.has_task(),
    {
        self.abort_handle.is_some()
    }

    /// A fresh, unselected entry for the group.
    pub fn from_group(group: Group) -> (e: Entry)
        ensures
            e.spec_group() == group,
            !e.is_selected(),
            !e.is_loading(),
            !e.has_task(),
            e.wf(),
    {
        Entry { group, selected: false, loading: false, abort_handle: None }
    }
}

/// What a `select` call asks of its caller.
#[derive(Clone, Copy, Debug, PartialEq, Eq, Structural)]
pub enum SelectAction {
    /// The entry was already selected; nothing happened.
    Ignored,
    /// A valid cache record was materialized; no fetch is needed.
    UsedCache,
    /// The entry is loading; the caller must start a fetch task for it and
    /// attach the task's handle.
    StartFetch,
}

/// What a `deselect` call did.
#[derive(Clone, Copy, Debug, PartialEq, Eq, Structural)]
pub enum DeselectAction {
    /// The entry was already unselected; nothing happened.
    Ignored,
    /// The entry returned to unselected; any in-flight fetch was cancelled.
    Cancelled,
}

/// What a toggle click asks of its caller.
#[derive(Debug)]
pub enum ToggleAction {
    /// The entry was deselected and the roster rebuilt; start a fetch task
    /// for each listed entry index.
    Reload(Vec<usize>),
    /// The entry was selected from a valid cache record; nothing to do.
    UsedCache,
    /// The entry was selected and is loading; start a fetch task for it.
    StartFetch,
}

/// How a fetch result was handled.
#[derive(Clone, Copy, Debug, PartialEq, Eq, Structural)]
pub enum UpdateOutcome {
    /// The result arrived for an entry that is no longer loading (it was
    /// deselected or cancelled meanwhile); the result was dropped.
    Discarded,
    /// The fetched elements were materialized into the roster.
    Applied,
    /// The fetch failed; the entry was forced back to unselected, which is
    /// how the failure is surfaced.
    Failed,
}

/// Every selected entry other than `skip` has its index somewhere in the
/// fetch list: no selected group is left without a fetch after a rebuild.
pub open spec fn fetch_list_covers(entries: Seq<Entry>, skip: int, fetches: Seq<usize>) -> bool {
    forall|j: int|
        0 <= j < entries.len() && j != skip && entries[j].is_selected() ==> exists|k: int|
            0 <= k < fetches.len() && #[trigger] fetches[k] == j
}

/// Whether a cache record exists and is still valid, so that selecting can
/// use it instead of the network.
pub open spec fn cache_usable(cached: Option<CacheRecord>, now_ms: int, lifetime_ms: int) -> bool {
    cached matches Some(rec) && record_valid_at(rec.written_at_ms as int, now_ms, lifetime_ms)
}

/// The roster of satellite groups and the objects materialized from the
/// selected ones. All decisions of the fetch pipeline live here; the caller
/// performs the actual network and file work and reports back through
/// `handle_update`.
pub struct SatelliteGroupsState {
    /// Satellite objects loaded from the selected satellite groups.
    pub objects: Vec<Object>,
    list_entries: Vec<Entry>,
    cache_lifetime_min: u64,
    last_update_ms: i64,
    list_offset: usize,
}

impl SatelliteGroupsState {
    /// The group entries.
    pub closed spec fn spec_entries(&self) -> Seq<Entry> {
        self.list_entries@
    }

    /// The object roster.
    pub closed spec fn spec_objects(&self) -> Seq<Object> {
        self.objects@
    }

    /// The configured cache lifetime, in minutes.
    pub closed spec fn spec_cache_lifetime_min(&self) -> u64 {
        self.cache_lifetime_min
    }

    /// When the roster was last refreshed, in milliseconds since the Unix
    /// epoch.
    pub closed spec fn spec_last_update_ms(&self) -> i64 {
        self.last_update_ms
    }

    /// The list widget's scroll offset.
    pub closed spec fn spec_offset(&self) -> usize {
        self.list_offset
    }

    /// The configured cache lifetime, in milliseconds.
    pub open spec fn spec_lifetime_ms(&self) -> int {
        self.spec_cache_lifetime_min() * 60000
    }

    /// Every entry is well-formed and the scroll offset stays within the
    /// list.
    pub open spec fn wf(&self) -> bool {
        &&& forall|i: int| 0 <= i < self.spec_entries().len() ==> (#[trigger] self.spec_entries()[i]).wf()
        &&& self.spec_offset() <= self.spec_entries().len()
    }

    /// The configuration fields and scroll state are unchanged between two
    /// states.
    pub open spec fn same_config(&self, other: &Self) -> bool {
        &&& self.spec_cache_lifetime_min() == other.spec_cache_lifetime_min()
        &&& self.spec_last_update_ms() == other.spec_last_update_ms()
        &&& self.spec_offset() == other.spec_offset()
    }

    /// Nothing observable differs between two states: same entries, same
    /// objects, same configuration.
    pub open spec fn same_state(&self, other: &Self) -> bool {
        &&& self.spec_entries() == other.spec_entries()
        &&& self.spec_objects() == other.spec_objects()
        &&& self.same_config(other)
    }

    /// All entries except `index` are unchanged between two states.
    pub open spec fn entries_unchanged_except(&self, other: &Self, index: int) -> bool {
        &&& self.spec_entries().len() == other.spec_entries().len()
        &&& forall|j: int|
            0 <= j < self.spec_entries().len() && j != index ==> self.spec_entries()[j]
                == #[trigger] other.spec_entries()[j]
    }

    /// Builds the roster from its configuration: one unselected entry per
    /// configured group, an empty object list, and the refresh clock started
    /// at `now_ms`.
    pub fn with_config(config: SatelliteGroupsConfig, now_ms: i64) -> (s: Self)
        requires
            forall|i: int| 0 <= i < config.groups.len() ==> (#[trigger] config.groups[i]).wf(),
        ensures
            s.wf(),
            s.spec_objects().len() == 0,
            s.spec_entries().len() == config.groups.len(),
            forall|i: int|
                0 <= i < config.groups.len() ==> {
                    let e = #[trigger] s.spec_entries()[i];
                    &&& !e.is_selected()
                    &&& !e.is_loading()
                    &&& !e.has_task()
                    &&& e.spec_group().spec_label() == config.groups[i].label@
                    &&& (config.groups[i].id matches Some(t) ==> (e.spec_group().spec_identifier()
                        matches Identifier::Id(v) && v@ == t@))
                    &&& (config.groups[i].id is None ==> (config.groups[i].group matches Some(t) && (
                    e.spec_group().spec_identifier() matches Identifier::Group(v) && v@ == t@)))
                },
            s.spec_cache_lifetime_min() == config.cache_lifetime_min,
            s.spec_last_update_ms() == now_ms,
            s.spec_offset() == 0,
    {
        let SatelliteGroupsConfig { cache_lifetime_min, groups } = config;
        let ghost all = groups@;
        let mut remaining = groups;
        let mut list_entries: Vec<Entry> = Vec::new();
        let ghost k: int = 0;
        while remaining.len() > 0
            invariant
                remaining@ =~= all.skip(k),
                0 <= k <= all.len(),
                list_entries@.len() == k,
                forall|i: int| 0 <= i < all.len() ==> (#[trigger] all[i]).wf(),
                forall|i: int|
                    0 <= i < k ==> {
                        let e = #[trigger] list_entries@[i];
                        &&& !e.is_selected()
                        &&& !e.is_loading()
                        &&& !e.has_task()
                        &&& e.wf()
                        &&& e.spec_group().spec_label() == all[i].label@
                        &&& (all[i].id matches Some(t) ==> (e.spec_group().spec_identifier()
                            matches Identifier::Id(v) && v@ == t@))
                        &&& (all[i].id is None ==> (all[i].group matches Some(t) && (
                        e.spec_group().spec_identifier() matches Identifier::Group(v) && v@
                            == t@)))
                    },
            decreases remaining.len(),
        {
            let group_config = remaining.remove(0);
            proof {
                assert(group_config == all[k]);
            }
            let group = Group::from_config(group_config);
            list_entries.push(Entry::from_group(group));
            proof {
                k = k + 1;
                assert(remaining@ =~= all.skip(k));
            }
        }
        SatelliteGroupsState {
            objects: Vec::new(),
            list_entries,
            cache_lifetime_min,
            last_update_ms: now_ms,
            list_offset: 0,
        }
    }

    /// The number of entries in the roster.
    pub fn entries_len(&self) -> (n: usize)
        ensures
            n == self.spec_entries().len(),
    {
        self.list_entries.len()
    }

    /// Returns the entry at `index`.
    pub fn entry(&self, index: usize) -> (e: &Entry)
        requires
            index < self.spec_entries().len(),
        ensures
            *e == self.spec_entries()[index as int],
    {
        &self.list_entries[index]
    }

    /// Cancels the entry's loading task, if one is in flight, and clears the
    /// loading flag. Safe to call again: the second call finds nothing to
    /// cancel and changes nothing.
    pub fn cancel_entry_loading(&mut self, index: usize)
        requires
            index < old(self).spec_entries().len(),
            old(self).wf(),
        ensures
            final(self).wf(),
            final(self).entries_unchanged_except(old(self), index as int),
            final(self).same_config(old(self)),
            final(self).spec_objects() == old(self).spec_objects(),
            ({
                let e = final(self).spec_entries()[index as int];
                &&& e.spec_group() == old(self).spec_entries()[index as int].spec_group()
                &&& e.is_selected() == old(self).spec_entries()[index as int].is_selected()
                &&& !e.is_loading()
                &&& !e.has_task()
            }),
    {
        let entry = self.list_entries.remove(index);
        let Entry { group, selected, loading: _, abort_handle } = entry;
        match abort_handle {
            Some(handle) => handle.abort(),
            None => (),
        }
        let replaced = Entry { group, selected, loading: false, abort_handle: None };
        self.list_entries.insert(index, replaced);
        proof {
            assert(self.list_entries@ =~= old(self).spec_entries().update(index as int, replaced));
        }
    }

    /// Marks the entry as loading so the caller can start a fetch task for
    /// it. Any task still attached is cancelled first, which keeps at most
    /// one fetch in flight per entry.
    pub fn load_entry(&mut self, index: usize)
        requires
            index < old(self).spec_entries().len(),
            old(self).wf(),
            old(self).spec_entries()[index as int].is_selected(),
        ensures
            final(self).wf(),
            final(self).entries_unchanged_except(old(self), index as int),
            final(self).same_config(old(self)),
            final(self).spec_objects() == old(self).spec_objects(),
            ({
                let e = final(self).spec_entries()[index as int];
                &&& e.spec_group() == old(self).spec_entries()[index as int].spec_group()
                &&& e.is_selected()
                &&& e.is_loading()
                &&& !e.has_task()
            }),
    {
        let entry = self.list_entries.remove(index);
        let Entry { group, selected, loading: _, abort_handle } = entry;
        match abort_handle {
            Some(handle) => handle.abort(),
            None => (),
        }
        let replaced = Entry { group, selected, loading: true, abort_handle: None };
        self.list_entries.insert(index, replaced);
        proof {
            assert(self.list_entries@ =~= old(self).spec_entries().update(index as int, replaced));
        }
    }

    /// Attaches the handle of the fetch task the caller just spawned for
    /// this entry. The entry must be loading and without a task, so no entry
    /// ever carries two.
    pub fn attach_fetch_task(&mut self, index: usize, handle: tokio::task::AbortHandle)
        requires
            index < old(self).spec_entries().len(),
            old(self).wf(),
            old(self).spec_entries()[index as int].is_loading(),
            !old(self).spec_entries()[index as int].has_task(),
        ensures
            final(self).wf(),
            final(self).entries_unchanged_except(old(self), index as int),
            final(self).same_config(old(self)),
            final(self).spec_objects() == old(self).spec_objects(),
            ({
                let e = final(self).spec_entries()[index as int];
                &&& e.spec_group() == old(self).spec_entries()[index as int].spec_group()
                &&& e.is_selected() == old(self).spec_entries()[index as int].is_selected()
                &&& e.is_loading()
                &&& e.has_task()
            }),
    {
        let entry = self.list_entries.remove(index);
        let Entry { group, selected, loading, abort_handle: _ } = entry;
        let replaced = Entry { group, selected, loading, abort_handle: Some(handle) };
        self.list_entries.insert(index, replaced);
        proof {
            assert(self.list_entries@ =~= old(self).spec_entries().update(index as int, replaced));
        }
    }

    /// Selects the entry at `index`. Selecting an already-selected entry is
    /// a no-op. Otherwise, when a still-valid cache record is handed in, its
    /// elements are materialized straight into the roster and the entry is
    /// selected with no fetch; without one the entry starts loading and the
    /// caller must start a fetch task.
    pub fn select(&mut self, index: usize, cached: Option<CacheRecord>, now_ms: i64) -> (r:
        SelectAction)
        requires
            index < old(self).spec_entries().len(),
            old(self).wf(),
        ensures
            final(self).wf(),
            final(self).entries_unchanged_except(old(self), index as int),
            final(self).same_config(old(self)),
            old(self).spec_entries()[index as int].is_selected() ==> (final(self).same_state(
                old(self),
            ) && r == SelectAction::Ignored),
            !old(self).spec_entries()[index as int].is_selected() ==> {
                let e = final(self).spec_entries()[index as int];
                &&& e.spec_group() == old(self).spec_entries()[index as int].spec_group()
                &&& e.is_selected()
                &&& !e.has_task()
                &&& if cache_usable(cached, now_ms as int, old(self).spec_lifetime_ms()) {
                    &&& r == SelectAction::UsedCache
                    &&& !e.is_loading()
                    &&& old(self).spec_objects().is_prefix_of(final(self).spec_objects())
                    &&& roster_elements(final(self).spec_objects()) == roster_elements(
                        old(self).spec_objects(),
                    ) + accepted_elements(cached.unwrap().elements@)
                } else {
                    &&& r == SelectAction::StartFetch
                    &&& e.is_loading()
                    &&& final(self).spec_objects() == old(self).spec_objects()
                }
            },
    {
        let entry = self.list_entries.remove(index);
        if entry.selected {
            self.list_entries.insert(index, entry);
            proof {
                assert(self.list_entries@ =~= old(self).spec_entries());
            }
            return SelectAction::Ignored;
        }
        let Entry { group, selected: _, loading: _, abort_handle: _ } = entry;
        let usable = match &cached {
            Some(rec) => (now_ms as i128 - rec.written_at_ms as i128) <= (self.cache_lifetime_min
                as i128) * 60000,
            None => false,
        };
        if usable {
            let rec = cached.unwrap();
            let ghost record_elements = rec.elements@;
            let mut materialized = materialize_objects(rec.elements);
            let ghost added = materialized@;
            self.objects.append(&mut materialized);
            let replaced = Entry { group, selected: true, loading: false, abort_handle: None };
            self.list_entries.insert(index, replaced);
            proof {
                assert(self.list_entries@ =~= old(self).spec_entries().update(
                    index as int,
                    replaced,
                ));
                assert(self.objects@ == old(self).objects@ + added);
                assert(roster_elements(old(self).objects@ + added) =~= roster_elements(
                    old(self).objects@,
                ) + roster_elements(added));
            }
            SelectAction::UsedCache
        } else {
            let replaced = Entry { group, selected: true, loading: true, abort_handle: None };
            self.list_entries.insert(index, replaced);
            proof {
                assert(self.list_entries@ =~= old(self).spec_entries().update(
                    index as int,
                    replaced,
                ));
            }
            SelectAction::StartFetch
        }
    }

    /// Deselects the entry at `index`. Deselecting an already-unselected
    /// entry is a no-op. A loading entry has its fetch cancelled; its late
    /// result, if any, is discarded by `handle_update`. The objects the
    /// entry contributed leave the roster when the caller rebuilds it, as
    /// `toggle_entry` does.
    pub fn deselect(&mut self, index: usize) -> (r: DeselectAction)
        requires
            index < old(self).spec_entries().len(),
            old(self).wf(),
        ensures
            final(self).wf(),
            final(self).entries_unchanged_except(old(self), index as int),
            final(self).same_config(old(self)),
            final(self).spec_objects() == old(self).spec_objects(),
            !old(self).spec_entries()[index as int].is_selected() ==> (final(self).same_state(
                old(self),
            ) && r == DeselectAction::Ignored),
            old(self).spec_entries()[index as int].is_selected() ==> {
                let e = final(self).spec_entries()[index as int];
                &&& r == DeselectAction::Cancelled
                &&& e.spec_group() == old(self).spec_entries()[index as int].spec_group()
                &&& !e.is_selected()
                &&& !e.is_loading()
                &&& !e.has_task()
            },
    {
        let entry = self.list_entries.remove(index);
        if !entry.selected {
            self.list_entries.insert(index, entry);
            proof {
                assert(self.list_entries@ =~= old(self).spec_entries());
            }
            return DeselectAction::Ignored;
        }
        let Entry { group, selected: _, loading: _, abort_handle } = entry;
        match abort_handle {
            Some(handle) => handle.abort(),
            None => (),
        }
        let replaced = Entry { group, selected: false, loading: false, abort_handle: None };
        self.list_entries.insert(index, replaced);
        proof {
            assert(self.list_entries@ =~= old(self).spec_entries().update(index as int, replaced));
        }
        DeselectAction::Cancelled
    }

    /// Rebuilds the roster: clears the objects, marks every selected entry
    /// as loading again (cancelling any task it still had), and invalidates
    /// the index-based object selection, since roster indices do not survive
    /// a rebuild. Returns the indices the caller must start fetch tasks for:
    /// exactly the selected entries, in order.
    pub fn reload_selected_entries(&mut self, selection: &mut ObjectSelection) -> (fetches: Vec<
        usize,
    >)
        requires
            old(self).wf(),
        ensures
            final(self).wf(),
            final(self).same_config(old(self)),
            final(self).spec_objects().len() == 0,
            final(self).spec_entries().len() == old(self).spec_entries().len(),
            final(selection).spec_selected() is None,
            final(selection).spec_hovered() is None,
            forall|j: int|
                0 <= j < old(self).spec_entries().len() && !old(self).spec_entries()[j].is_selected()
                    ==> final(self).spec_entries()[j] == #[trigger] old(self).spec_entries()[j],
            forall|j: int|
                0 <= j < old(self).spec_entries().len() && old(self).spec_entries()[j].is_selected()
                    ==> {
                    let e = #[trigger] final(self).spec_entries()[j];
                    &&& e.spec_group() == old(self).spec_entries()[j].spec_group()
                    &&& e.is_selected()
                    &&& e.is_loading()
                    &&& !e.has_task()
                },
            forall|k: int|
                0 <= k < fetches@.len() ==> #[trigger] fetches@[k] < old(
                    self,
                ).spec_entries().len() && old(self).spec_entries()[fetches@[k] as int].is_selected(),
            fetch_list_covers(old(self).spec_entries(), -1, fetches@),
    {
        self.objects.clear();
        selection.invalidate();
        let ghost orig = self.spec_entries();
        let ghost lifetime0 = self.spec_cache_lifetime_min();
        let ghost last0 = self.spec_last_update_ms();
        let ghost offset0 = self.spec_offset();
        let mut fetches: Vec<usize> = Vec::new();
        let mut index: usize = 0;
        while index < self.list_entries.len()
            invariant
                self.wf(),
                self.spec_entries().len() == orig.len(),
                0 <= index <= orig.len(),
                self.objects.len() == 0,
                self.spec_cache_lifetime_min() == lifetime0,
                self.spec_last_update_ms() == last0,
                self.spec_offset() == offset0,
                forall|j: int|
                    index <= j < orig.len() ==> #[trigger] self.spec_entries()[j] == orig[j],
                forall|j: int|
                    0 <= j < index && !orig[j].is_selected() ==> #[trigger] self.spec_entries()[j]
                        == orig[j],
                forall|j: int|
                    0 <= j < index && orig[j].is_selected() ==> {
                        let e = #[trigger] self.spec_entries()[j];
                        &&& e.spec_group() == orig[j].spec_group()
                        &&& e.is_selected()
                        &&& e.is_loading()
                        &&& !e.has_task()
                    },
                forall|k: int|
                    0 <= k < fetches@.len() ==> #[trigger] fetches@[k] < index && orig[fetches@[k]
                        as int].is_selected(),
                forall|j: int|
                    0 <= j < index && orig[j].is_selected() ==> exists|k: int|
                        0 <= k < fetches@.len() && #[trigger] fetches@[k] == j,
            decreases orig.len() - index,
        {
            let ghost before = self.spec_entries();
            let ghost fetches_before = fetches@;
            if self.list_entries[index].selected {
                self.load_entry(index);
                fetches.push(index);
                proof {
                    assert(fetches@[fetches@.len() - 1] == index);
                }
            }
            proof {
                assert(before[index as int] == orig[index as int]);
                assert forall|j: int|
                    index + 1 <= j < orig.len() implies self.spec_entries()[j] == orig[j] by {
                    assert(self.spec_entries()[j] == before[j]);
                    assert(before[j] == orig[j]);
                }
                assert forall|j: int|
                    0 <= j < index + 1 && !orig[j].is_selected() implies self.spec_entries()[j]
                    == orig[j] by {
                    if j != index as int {
                        assert(self.spec_entries()[j] == before[j]);
                        assert(before[j] == orig[j]);
                    }
                }
                assert forall|j: int|
                    0 <= j < index + 1 && orig[j].is_selected() implies {
                    let e = self.spec_entries()[j];
                    &&& e.spec_group() == orig[j].spec_group()
                    &&& e.is_selected()
                    &&& e.is_loading()
                    &&& !e.has_task()
                } by {
                    if j != index as int {
                        assert(self.spec_entries()[j] == before[j]);
                    }
                }
                assert forall|j: int|
                    0 <= j < index + 1 && orig[j].is_selected() implies exists|k: int|
                    0 <= k < fetches@.len() && #[trigger] fetches@[k] == j by {
                    if j < index {
                        let k = choose|k: int|
                            0 <= k < fetches_before.len() && fetches_before[k] == j;
                        assert(fetches@[k] == j);
                    } else {
                        assert(fetches@[fetches@.len() - 1] == j);
                    }
                }
            }
            index = index + 1;
        }
        proof {
            assert(orig == old(self).spec_entries());
            assert(fetch_list_covers(old(self).spec_entries(), -1, fetches@)) by {
                assert forall|j: int|
                    0 <= j < orig.len() && j != -1 && orig[j].is_selected() implies exists|k: int|
                    0 <= k < fetches@.len() && #[trigger] fetches@[k] == j by {
                    assert(exists|k: int| 0 <= k < fetches@.len() && #[trigger] fetches@[k] == j);
                }
            }
        }
        fetches
    }

    /// Handles a click on the entry at `index`, flipping its selection as
    /// the list widget does. Deselecting cancels any fetch of that entry and
    /// rebuilds the roster from the remaining selected entries; selecting
    /// uses the given cache record when it is still valid and otherwise
    /// starts loading. The index-based object selection is dropped either
    /// way, since the roster is about to change.
    #[verifier::rlimit(60)]
    pub fn toggle_entry(
        &mut self,
        index: usize,
        cached: Option<CacheRecord>,
        now_ms: i64,
        selection: &mut ObjectSelection,
    ) -> (r: ToggleAction)
        requires
            index < old(self).spec_entries().len(),
            old(self).wf(),
        ensures
            final(self).wf(),
            final(self).same_config(old(self)),
            final(self).spec_entries().len() == old(self).spec_entries().len(),
            final(selection).spec_selected() is None,
            old(self).spec_entries()[index as int].is_selected() ==> (r is Reload
                && final(self).spec_objects().len() == 0
                && final(selection).spec_hovered() is None),
            old(self).spec_entries()[index as int].is_selected() ==> {
                let e = final(self).spec_entries()[index as int];
                !e.is_selected() && !e.is_loading() && !e.has_task()
            },
            old(self).spec_entries()[index as int].is_selected() ==> forall|j: int|
                0 <= j < old(self).spec_entries().len() && j != index as int && !old(
                    self,
                ).spec_entries()[j].is_selected() ==> final(self).spec_entries()[j] == #[trigger] old(
                    self,
                ).spec_entries()[j],
            old(self).spec_entries()[index as int].is_selected() ==> forall|j: int|
                0 <= j < old(self).spec_entries().len() && j != index as int && old(
                    self,
                ).spec_entries()[j].is_selected() ==> {
                    let f = #[trigger] final(self).spec_entries()[j];
                    &&& f.spec_group() == old(self).spec_entries()[j].spec_group()
                    &&& f.is_selected()
                    &&& f.is_loading()
                    &&& !f.has_task()
                },
            old(self).spec_entries()[index as int].is_selected() ==> (r
                matches ToggleAction::Reload(fetches) ==> forall|k: int|
                0 <= k < fetches@.len() ==> #[trigger] fetches@[k] < old(
                    self,
                ).spec_entries().len() && fetches@[k] != index && old(self).spec_entries()[
                    fetches@[k] as int
                ].is_selected()),
            old(self).spec_entries()[index as int].is_selected() ==> (r
                matches ToggleAction::Reload(fetches) ==> fetch_list_covers(
                old(self).spec_entries(),
                index as int,
                fetches@,
            )),
            !old(self).spec_entries()[index as int].is_selected() ==> {
                let e = final(self).spec_entries()[index as int];
                &&& final(self).entries_unchanged_except(old(self), index as int)
                &&& e.spec_group() == old(self).spec_entries()[index as int].spec_group()
                &&& e.is_selected()
                &&& !e.has_task()
                &&& if cache_usable(cached, now_ms as int, old(self).spec_lifetime_ms()) {
                    &&& r is UsedCache
                    &&& !e.is_loading()
                    &&& old(self).spec_objects().is_prefix_of(final(self).spec_objects())
                    &&& roster_elements(final(self).spec_objects()) == roster_elements(
                        old(self).spec_objects(),
                    ) + accepted_elements(cached.unwrap().elements@)
                } else {
                    &&& r is StartFetch
                    &&& e.is_loading()
                    &&& final(self).spec_objects() == old(self).spec_objects()
                }
            },
    {
        selection.set_selected(None);
        let was_selected = self.list_entries[index].selected;
        if was_selected {
            let cancelled = self.deselect(index);
            proof {
                assert(cancelled == DeselectAction::Cancelled);
            }
            let ghost mid = *self;
            let fetches = self.reload_selected_entries(selection);
            proof {
                let o = old(self).spec_entries();
                assert forall|j: int|
                    0 <= j < o.len() && j != index as int implies mid.spec_entries()[j] == o[j] by {}
                assert forall|j: int|
                    0 <= j < o.len() && j != index as int && !o[j].is_selected() implies self.spec_entries()[j]
                    == #[trigger] o[j] by {
                    assert(mid.spec_entries()[j] == o[j]);
                    assert(!mid.spec_entries()[j].is_selected());
                }
                assert forall|j: int|
                    0 <= j < o.len() && j != index as int && o[j].is_selected() implies {
                    let f = self.spec_entries()[j];
                    &&& f.spec_group() == (#[trigger] o[j]).spec_group()
                    &&& f.is_selected()
                    &&& f.is_loading()
                    &&& !f.has_task()
                } by {
                    assert(mid.spec_entries()[j] == o[j]);
                    assert(mid.spec_entries()[j].is_selected());
                }
                assert forall|k: int|
                    0 <= k < fetches@.len() implies #[trigger] fetches@[k] < o.len() && fetches@[k]
                    != index && o[fetches@[k] as int].is_selected() by {
                    assert(mid.spec_entries()[fetches@[k] as int].is_selected());
                    if fetches@[k] == index {
                        assert(!mid.spec_entries()[index as int].is_selected());
                        assert(false);
                    }
                    assert(mid.spec_entries()[fetches@[k] as int] == o[fetches@[k] as int]);
                }
                assert(fetch_list_covers(o, index as int, fetches@)) by {
                    assert forall|j: int|
                        0 <= j < o.len() && j != index as int && o[j].is_selected() implies exists|
                        k: int,
                    |
                        0 <= k < fetches@.len() && #[trigger] fetches@[k] == j by {
                        assert(mid.spec_entries()[j] == o[j]);
                        assert(mid.spec_entries()[j].is_selected());
                        assert(exists|k: int|
                            0 <= k < fetches@.len() && #[trigger] fetches@[k] == j);
                    }
                }
            }
            ToggleAction::Reload(fetches)
        } else {
            match self.select(index, cached, now_ms) {
                SelectAction::UsedCache => ToggleAction::UsedCache,
                SelectAction::StartFetch => ToggleAction::StartFetch,
                SelectAction::Ignored => vstd::pervasive::unreached(),
            }
        }
    }

    /// Whether a periodic refresh is due: at least one cache lifetime has
    /// passed since the last one.
    pub fn should_refresh(&self, now_ms: i64) -> (r: bool)
        ensures
            r == (now_ms - self.spec_last_update_ms() >= self.spec_lifetime_ms()),
    {
        (now_ms as i128 - self.last_update_ms as i128) >= (self.cache_lifetime_min as i128) * 60000
    }

    /// Restarts the refresh clock at `now_ms`.
    pub fn mark_refreshed(&mut self, now_ms: i64)
        requires
            old(self).wf(),
        ensures
            final(self).wf(),
            final(self).spec_last_update_ms() == now_ms,
            final(self).spec_entries() == old(self).spec_entries(),
            final(self).spec_objects() == old(self).spec_objects(),
            final(self).spec_cache_lifetime_min() == old(self).spec_cache_lifetime_min(),
            final(self).spec_offset() == old(self).spec_offset(),
    {
        self.last_update_ms = now_ms;
    }

    /// Runs the periodic-refresh check: once a full cache lifetime has
    /// passed since the last refresh, every selected entry is reloaded (the
    /// same cache-then-network logic runs in the caller's fetch tasks), the
    /// roster is rebuilt from scratch, and the refresh clock restarts.
    /// Returns the entry indices to fetch when a refresh ran, and `None`
    /// when none was due.
    pub fn handle_update_event(&mut self, now_ms: i64, selection: &mut ObjectSelection) -> (r:
        Option<Vec<usize>>)
        requires
            old(self).wf(),
        ensures
            final(self).wf(),
            final(self).spec_entries().len() == old(self).spec_entries().len(),
            final(self).spec_cache_lifetime_min() == old(self).spec_cache_lifetime_min(),
            final(self).spec_offset() == old(self).spec_offset(),
            now_ms - old(self).spec_last_update_ms() < old(self).spec_lifetime_ms() ==> (final(self).same_state(old(self)) && r is None),
            now_ms - old(self).spec_last_update_ms() >= old(self).spec_lifetime_ms() ==> (r is Some
                && final(self).spec_objects().len() == 0 && final(self).spec_last_update_ms()
                == now_ms && final(selection).spec_selected() is None
                && final(selection).spec_hovered() is None),
            now_ms - old(self).spec_last_update_ms() >= old(self).spec_lifetime_ms() ==> forall|
                j: int,
            |
                0 <= j < old(self).spec_entries().len() && !old(self).spec_entries()[
                    j].is_selected() ==> final(self).spec_entries()[j] == #[trigger] old(
                    self,
                ).spec_entries()[j],
            now_ms - old(self).spec_last_update_ms() >= old(self).spec_lifetime_ms() ==> forall|
                j: int,
            |
                0 <= j < old(self).spec_entries().len() && old(self).spec_entries()[
                    j].is_selected() ==> {
                    let e = #[trigger] final(self).spec_entries()[j];
                    &&& e.spec_group() == old(self).spec_entries()[j].spec_group()
                    &&& e.is_selected()
                    &&& e.is_loading()
                    &&& !e.has_task()
                },
            r matches Some(fetches) ==> (forall|k: int|
                0 <= k < fetches@.len() ==> #[trigger] fetches@[k] < old(
                    self,
                ).spec_entries().len() && old(self).spec_entries()[
                    fetches@[k] as int
                ].is_selected()),
            r matches Some(fetches) ==> fetch_list_covers(
                old(self).spec_entries(),
                -1,
                fetches@,
            ),
    {
        if self.should_refresh(now_ms) {
            let fetches = self.reload_selected_entries(selection);
            self.mark_refreshed(now_ms);
            Some(fetches)
        } else {
            None
        }
    }

    /// Applies one fetch result reported by a background task. A result for
    /// an entry that is no longer loading — it was deselected or its fetch
    /// was cancelled after the task passed its network call — is discarded,
    /// never applied. A successful result extends the roster with the
    /// materialized objects; a failed fetch forces the entry back to
    /// unselected, and the returned outcome surfaces that.
    pub fn handle_update(&mut self, index: usize, elements: Option<Vec<sgp4::Elements>>) -> (r:
        UpdateOutcome)
        requires
            old(self).wf(),
        ensures
            final(self).wf(),
            final(self).same_config(old(self)),
            (index >= old(self).spec_entries().len() || !old(self).spec_entries()[
                index as int].is_loading()) ==> (final(self).same_state(old(self)) && r
                == UpdateOutcome::Discarded),
            (index < old(self).spec_entries().len() && old(self).spec_entries()[
                index as int].is_loading()) ==> {
                let e = final(self).spec_entries()[index as int];
                &&& final(self).entries_unchanged_except(old(self), index as int)
                &&& e.spec_group() == old(self).spec_entries()[index as int].spec_group()
                &&& !e.is_loading()
                &&& !e.has_task()
                &&& if elements is Some {
                    &&& r == UpdateOutcome::Applied
                    &&& e.is_selected()
                    &&& old(self).spec_objects().is_prefix_of(final(self).spec_objects())
                    &&& roster_elements(final(self).spec_objects()) == roster_elements(
                        old(self).spec_objects(),
                    ) + accepted_elements(elements.unwrap()@)
                } else {
                    &&& r == UpdateOutcome::Failed
                    &&& !e.is_selected()
                    &&& final(self).spec_objects() == old(self).spec_objects()
                }
            },
    {
        if index >= self.list_entries.len() {
            return UpdateOutcome::Discarded;
        }
        let entry = self.list_entries.remove(index);
        if !entry.loading {
            self.list_entries.insert(index, entry);
            proof {
                assert(self.list_entries@ =~= old(self).spec_entries());
            }
            return UpdateOutcome::Discarded;
        }
        let Entry { group, selected, loading: _, abort_handle: _ } = entry;
        match elements {
            Some(fetched) => {
                let ghost fetched_view = fetched@;
                let mut materialized = materialize_objects(fetched);
                let ghost added = materialized@;
                self.objects.append(&mut materialized);
                let replaced = Entry { group, selected, loading: false, abort_handle: None };
                self.list_entries.insert(index, replaced);
                proof {
                    assert(self.list_entries@ =~= old(self).spec_entries().update(
                        index as int,
                        replaced,
                    ));
                    assert(self.objects@ == old(self).objects@ + added);
                    assert(roster_elements(old(self).objects@ + added) =~= roster_elements(
                        old(self).objects@,
                    ) + roster_elements(added));
                }
                UpdateOutcome::Applied
            },
            None => {
                let replaced = Entry { group, selected: false, loading: false, abort_handle: None };
                self.list_entries.insert(index, replaced);
                proof {
                    assert(self.list_entries@ =~= old(self).spec_entries().update(
                        index as int,
                        replaced,
                    ));
                }
                UpdateOutcome::Failed
            },
        }
    }

    /// The largest scroll offset that still shows a full page: the entry
    /// count less the viewport height, floored at zero.
    pub fn max_offset(&self, viewport_height: usize) -> (r: usize)
        ensures
            r == if self.spec_entries().len() >= viewport_height {
                self.spec_entries().len() - viewport_height
            } else {
                0int
            },
    {
        if self.list_entries.len() >= viewport_height {
            self.list_entries.len() - viewport_height
        } else {
            0
        }
    }

    /// Scrolls the list up one row, stopping at the top.
    pub fn scroll_up(&mut self)
        requires
            old(self).wf(),
        ensures
            final(self).wf(),
            final(self).spec_offset() == if old(self).spec_offset() > 0 {
                old(self).spec_offset() - 1
            } else {
                0int
            },
            final(self).spec_entries() == old(self).spec_entries(),
            final(self).spec_objects() == old(self).spec_objects(),
            final(self).spec_cache_lifetime_min() == old(self).spec_cache_lifetime_min(),
            final(self).spec_last_update_ms() == old(self).spec_last_update_ms(),
    {
        if self.list_offset > 0 {
            self.list_offset = self.list_offset - 1;
        }
    }

    /// Scrolls the list down one row, stopping at the last full page. An
    /// offset already past that page (the viewport grew) moves back to it.
    pub fn scroll_down(&mut self, viewport_height: usize)
        requires
            old(self).wf(),
        ensures
            final(self).wf(),
            ({
                let max = if old(self).spec_entries().len() >= viewport_height {
                    old(self).spec_entries().len() - viewport_height
                } else {
                    0int
                };
                final(self).spec_offset() == if old(self).spec_offset() < max {
                    old(self).spec_offset() + 1
                } else {
                    max
                }
            }),
            final(self).spec_entries() == old(self).spec_entries(),
            final(self).spec_objects() == old(self).spec_objects(),
            final(self).spec_cache_lifetime_min() == old(self).spec_cache_lifetime_min(),
            final(self).spec_last_update_ms() == old(self).spec_last_update_ms(),
    {
        let max = self.max_offset(viewport_height);
        if self.list_offset < max {
            self.list_offset = self.list_offset + 1;
        } else {
            self.list_offset = max;
        }
    }

    /// Returns the scroll offset.
    pub fn offset(&self) -> (r: usize)
        ensures
            r == self.spec_offset(),
    {
        self.list_offset
    }
}

} // verus!
