//! One poll cycle: every subscription is evaluated against freshly predicted
//! passes, and what was delivered is written into the store at the end.
//!
//! The cycle neither fetches nor delivers. It says what is to be done next
//! and is told how that went.

use crate::commands::upcoming::{max_elevation_text, printable};
use crate::database::{
    copy_history, first_location, has_location, DatabaseContents, DatabaseContentsView,
    LocationName, LocationView, Snowflake, WatchKey, WatchedSatellite, WatchedSatelliteView,
};
use crate::n2yo::{PassRequest, SatellitePass, SatellitePasses};
use crate::policy::{
    fresh_passes, lemma_recorded_passes_are_not_repeated, lemma_unrecorded_pass_stays_fresh,
    meets_threshold, new_passes, pass_windows, prune, pruned, safely_remembered, windows_of,
};
use crate::util::{current_utc, degrees_to_string, format_pass_time, pass_time_text};
use vstd::prelude::*;
use vstd::string::*;

verus! {

/// How many days ahead a cycle asks the prediction source to look.
pub const CYCLE_DAYS: usize = 1;

/// Where a cycle stands.
#[derive(Debug, Clone, Copy, PartialEq, Eq, Structural)]
pub enum CyclePhase {
    /// The passes of the subscription under the cursor are being fetched.
    Fetching,
    /// The batch of the subscription under the cursor is being delivered.
    Delivering,
    /// Every subscription has been evaluated; the histories wait to be written.
    Committing,
}

/// Why a subscription was passed over in a cycle.
#[derive(Debug, Clone, Copy, PartialEq, Eq, Structural)]
pub enum FailureKind {
    /// No location has the name that the subscription refers to.
    MissingLocation,
    /// The prediction source gave no answer.
    Fetch,
    /// The notification sink did not take the batch.
    Delivery,
}

/// A subscription that a cycle passed over, by its place in the snapshot.
#[derive(Debug, Clone, Copy, PartialEq, Eq, Structural)]
pub struct CycleFailure {
    pub subscription: usize,
    pub kind: FailureKind,
}

/// The passes of one subscription that are to be notified together.
#[derive(Debug, PartialEq, Eq)]
pub struct NotificationBatch {
    pub channel: Snowflake,
    pub locale: String,
    /// The satellite's name as the prediction source gave it in this cycle.
    pub satellite_name: String,
    pub location: LocationName,
    /// The passes to notify, in ascending order of start.
    pub passes: Vec<SatellitePass>,
}

/// What a `NotificationBatch` is, as mathematics.
pub struct NotificationBatchView {
    pub channel: u64,
    pub locale: Seq<char>,
    pub satellite_name: Seq<char>,
    pub location: Seq<char>,
    pub passes: Seq<SatellitePass>,
}

impl View for NotificationBatch {
    type V = NotificationBatchView;

    open spec fn view(&self) -> NotificationBatchView {
        NotificationBatchView {
            channel: self.channel.0,
            locale: self.locale@,
            satellite_name: self.satellite_name@,
            location: self.location@,
            passes: self.passes@,
        }
    }
}

/// One pass as it is announced: a heading, and the time span with the
/// highest elevation beneath it.
#[derive(Debug, PartialEq, Eq)]
pub struct PassNotice {
    pub title: String,
    pub description: String,
}

/// The heading under which a pass of `satellite_name` over `location` is announced.
pub open spec fn notice_title(satellite_name: Seq<char>, location: Seq<char>) -> Seq<char> {
    "Upcoming pass for "@ + satellite_name + " at "@ + location
}

/// What is announced of a pass: its time span, and how high it rises on the
/// next line.
pub open spec fn notice_description(pass: SatellitePass) -> Seq<char> {
    pass_time_text(pass.start_utc as int, pass.end_utc as int) + "\n"@ + max_elevation_text(
        pass.max_elevation,
    )
}

/// The passes of a batch as they are announced, one notice for each pass in
/// the order of the batch.
pub fn notices(batch: &NotificationBatch) -> (notices: Vec<PassNotice>)
    requires
        forall|i: int| 0 <= i < batch.passes.len() ==> printable(#[trigger] batch.passes[i]),
    ensures
        notices.len() == batch.passes.len(),
        forall|i: int|
            0 <= i < batch.passes.len() ==> (#[trigger] notices[i]).title@ == notice_title(
                batch@.satellite_name,
                batch@.location,
            ) && notices[i].description@ == notice_description(batch.passes[i]),
{
    let mut notices: Vec<PassNotice> = Vec::new();
    let mut i: usize = 0;
    while i < batch.passes.len()
        invariant
            i <= batch.passes.len(),
            notices.len() == i,
            forall|j: int| 0 <= j < batch.passes.len() ==> printable(#[trigger] batch.passes[j]),
            forall|j: int|
                0 <= j < i ==> (#[trigger] notices[j]).title@ == notice_title(
                    batch@.satellite_name,
                    batch@.location,
                ) && notices[j].description@ == notice_description(batch.passes[j]),
        decreases batch.passes.len() - i,
    {
        let pass = batch.passes[i];
        let mut title = String::from_str("Upcoming pass for ");
        title.append(batch.satellite_name.as_str());
        title.append(" at ");
        title.append(batch.location.0.as_str());
        let mut description = format_pass_time(pass.start_utc as i64, pass.end_utc as i64);
        description.append("\n");
        description.append("Max Elevation: ");
        description.append(degrees_to_string(pass.max_elevation as i64).as_str());
        description.append("°");
        notices.push(PassNotice { title, description });
        i += 1;
    }
    notices
}

/// What a cycle wants done next.
#[derive(Debug, PartialEq, Eq)]
pub enum CycleAction {
    /// Ask the prediction source, then report `Fetched` or `FetchFailed`.
    Fetch(PassRequest),
    /// Hand the batch to the notification sink, then report `Delivered` or
    /// `DeliveryFailed`.
    Deliver(NotificationBatch),
    /// Write the histories into the store.
    Commit,
}

/// What a `CycleAction` is, as mathematics.
pub enum CycleActionView {
    Fetch(PassRequest),
    Deliver(NotificationBatchView),
    Commit,
}

impl View for CycleAction {
    type V = CycleActionView;

    open spec fn view(&self) -> CycleActionView {
        match self {
            CycleAction::Fetch(request) => CycleActionView::Fetch(*request),
            CycleAction::Deliver(batch) => CycleActionView::Deliver(batch@),
            CycleAction::Commit => CycleActionView::Commit,
        }
    }
}

/// How the action that a cycle asked for went.
#[derive(Debug, PartialEq, Eq)]
pub enum CycleEvent {
    Fetched(SatellitePasses),
    FetchFailed,
    Delivered,
    DeliveryFailed,
}

/// What a `CycleEvent` is, as mathematics.
pub enum CycleEventView {
    Fetched { satellite_name: Seq<char>, passes: Seq<SatellitePass> },
    FetchFailed,
    Delivered,
    DeliveryFailed,
}

impl View for CycleEvent {
    type V = CycleEventView;

    open spec fn view(&self) -> CycleEventView {
        match self {
            CycleEvent::Fetched(answer) => CycleEventView::Fetched {
                satellite_name: answer.info.name@,
                passes: answer.passes@,
            },
            CycleEvent::FetchFailed => CycleEventView::FetchFailed,
            CycleEvent::Delivered => CycleEventView::Delivered,
            CycleEvent::DeliveryFailed => CycleEventView::DeliveryFailed,
        }
    }
}

/// The windows of one batch that was delivered, under the key of its subscription.
#[derive(Debug, PartialEq, Eq)]
pub struct DeliveredBatch {
    pub satellite_id: usize,
    pub location: LocationName,
    pub min_max_elevation: u32,
    pub channel: u64,
    pub windows: Vec<(usize, usize)>,
}

/// What a `DeliveredBatch` is, as mathematics.
pub struct DeliveredBatchView {
    pub key: WatchKey,
    pub windows: Seq<(usize, usize)>,
}

impl View for DeliveredBatch {
    type V = DeliveredBatchView;

    open spec fn view(&self) -> DeliveredBatchView {
        DeliveredBatchView {
            key: WatchKey {
                satellite_id: self.satellite_id,
                location: self.location@,
                min_max_elevation: self.min_max_elevation,
                channel: self.channel,
            },
            windows: self.windows@,
        }
    }
}

/// The delivered batches, each as mathematics.
pub open spec fn delivered_views(delivered: Seq<DeliveredBatch>) -> Seq<DeliveredBatchView> {
    delivered.map_values(|batch: DeliveredBatch| batch@)
}

/// What a `PollCycle` is, as mathematics.
pub struct PollCycleView {
    /// When the cycle started.
    pub now: int,
    /// The locations as they were when the cycle started.
    pub locations: Seq<LocationView>,
    /// The subscriptions as they were when the cycle started.
    pub watched: Seq<WatchedSatelliteView>,
    /// The subscription under evaluation; the number of subscriptions once
    /// all are evaluated.
    pub cursor: int,
    pub phase: CyclePhase,
    /// The windows of the batch that is being delivered.
    pub staged: Seq<(usize, usize)>,
    /// The batches that were delivered.
    pub delivered: Seq<DeliveredBatchView>,
    /// The subscriptions that were passed over.
    pub failures: Seq<CycleFailure>,
}

/// The first subscription at `from` or behind it whose location exists; the
/// number of subscriptions if there is none.
pub open spec fn skipped_to(
    locations: Seq<LocationView>,
    watched: Seq<WatchedSatelliteView>,
    from: int,
) -> int
    decreases watched.len() - from,
{
    if from < 0 || from >= watched.len() {
        watched.len() as int
    } else if has_location(locations, watched[from].location) {
        from
    } else {
        skipped_to(locations, watched, from + 1)
    }
}

/// One failure for a missing location for each subscription from `from` up to `to`.
pub open spec fn missing_locations(from: int, to: int) -> Seq<CycleFailure> {
    Seq::new(
        (to - from) as nat,
        |k: int| CycleFailure { subscription: (from + k) as usize, kind: FailureKind::MissingLocation },
    )
}

/// What the prediction source is asked for a subscription: its satellite
/// over the first location of that name, one day ahead, from its threshold up.
pub open spec fn request_for(locations: Seq<LocationView>, watch: WatchedSatelliteView) -> PassRequest
    recommends
        has_location(locations, watch.location),
{
    let place = locations[first_location(locations, watch.location)];
    PassRequest {
        satellite_id: watch.satellite_id,
        latitude: place.latitude,
        longitude: place.longitude,
        altitude: place.altitude,
        days: CYCLE_DAYS,
        min_max_elevation: watch.min_max_elevation,
    }
}

/// The cycle moved on to the first subscription at `from` or behind it whose
/// location exists: those without one are passed over, each with a failure.
/// With no subscription left the cycle is ready to be written.
pub open spec fn advanced(state: PollCycleView, from: int) -> (PollCycleView, CycleActionView) {
    let cursor = skipped_to(state.locations, state.watched, from);
    let failures = state.failures + missing_locations(from, cursor);
    if cursor >= state.watched.len() {
        (
            PollCycleView {
                cursor,
                phase: CyclePhase::Committing,
                staged: Seq::empty(),
                failures,
                ..state
            },
            CycleActionView::Commit,
        )
    } else {
        (
            PollCycleView { cursor, phase: CyclePhase::Fetching, staged: Seq::empty(), failures, ..state },
            CycleActionView::Fetch(request_for(state.locations, state.watched[cursor])),
        )
    }
}

/// A cycle over the snapshot `contents` that starts at `now`, with its first action.
pub open spec fn started(contents: DatabaseContentsView, now: int) -> (
    PollCycleView,
    CycleActionView,
) {
    advanced(
        PollCycleView {
            now,
            locations: contents.locations,
            watched: contents.watched_satellites,
            cursor: 0,
            phase: CyclePhase::Fetching,
            staged: Seq::empty(),
            delivered: Seq::empty(),
            failures: Seq::empty(),
        },
        0,
    )
}

/// Whether `event` answers the action that the cycle is waiting on.
pub open spec fn accepts(state: PollCycleView, event: CycleEventView) -> bool {
    match event {
        CycleEventView::Fetched { .. } | CycleEventView::FetchFailed => state.phase
            == CyclePhase::Fetching,
        CycleEventView::Delivered | CycleEventView::DeliveryFailed => state.phase
            == CyclePhase::Delivering,
    }
}

/// The cycle after an event that it accepts, with its next action.
///
/// An answer with fresh passes stages their windows and asks for the batch
/// to be delivered; one without moves on. A delivered batch is recorded under
/// the key of its subscription; a batch that was not delivered is dropped.
/// A failed fetch and a failed delivery each leave a failure behind.
pub open spec fn stepped(state: PollCycleView, event: CycleEventView) -> (
    PollCycleView,
    CycleActionView,
)
    recommends
        accepts(state, event),
        0 <= state.cursor < state.watched.len(),
{
    let watch = state.watched[state.cursor];
    match event {
        CycleEventView::Fetched { satellite_name, passes } => {
            let fresh = fresh_passes(watch.previous_notifications, watch.min_max_elevation, passes);
            if fresh.len() == 0 {
                advanced(state, state.cursor + 1)
            } else {
                (
                    PollCycleView { phase: CyclePhase::Delivering, staged: windows_of(fresh), ..state },
                    CycleActionView::Deliver(
                        NotificationBatchView {
                            channel: watch.channel,
                            locale: watch.locale,
                            satellite_name,
                            location: watch.location,
                            passes: fresh,
                        },
                    ),
                )
            }
        },
        CycleEventView::FetchFailed => advanced(
            PollCycleView {
                failures: state.failures.push(
                    CycleFailure { subscription: state.cursor as usize, kind: FailureKind::Fetch },
                ),
                ..state
            },
            state.cursor + 1,
        ),
        CycleEventView::Delivered => advanced(
            PollCycleView {
                delivered: state.delivered.push(
                    DeliveredBatchView { key: watch.key(), windows: state.staged },
                ),
                ..state
            },
            state.cursor + 1,
        ),
        CycleEventView::DeliveryFailed => advanced(
            PollCycleView {
                failures: state.failures.push(
                    CycleFailure { subscription: state.cursor as usize, kind: FailureKind::Delivery },
                ),
                ..state
            },
            state.cursor + 1,
        ),
    }
}

/// The windows of the batches delivered under `key`, in the order of delivery.
pub open spec fn recorded_windows(delivered: Seq<DeliveredBatchView>, key: WatchKey) -> Seq<
    (usize, usize),
>
    decreases delivered.len(),
{
    if delivered.len() == 0 {
        Seq::empty()
    } else {
        let earlier = recorded_windows(delivered.drop_last(), key);
        if delivered.last().key == key {
            earlier + delivered.last().windows
        } else {
            earlier
        }
    }
}

/// A subscription after a cycle was written: the windows delivered under its
/// key are appended to its history, and what is no longer remembered at
/// `now` is forgotten. Nothing else of it changes.
pub open spec fn committed_watch(
    watch: WatchedSatelliteView,
    delivered: Seq<DeliveredBatchView>,
    now: int,
) -> WatchedSatelliteView {
    watch.with_history(
        pruned(watch.previous_notifications + recorded_windows(delivered, watch.key()), now),
    )
}

/// A store after a cycle was written: every subscription is written, and
/// the locations are as before.
pub open spec fn committed(
    contents: DatabaseContentsView,
    delivered: Seq<DeliveredBatchView>,
    now: int,
) -> DatabaseContentsView {
    DatabaseContentsView {
        locations: contents.locations,
        watched_satellites: contents.watched_satellites.map_values(
            |watch: WatchedSatelliteView| committed_watch(watch, delivered, now),
        ),
    }
}

/// Writing a cycle keeps a well formed store well formed: only histories change.
pub proof fn lemma_committed_keeps_well_formed(
    contents: DatabaseContentsView,
    delivered: Seq<DeliveredBatchView>,
    now: int,
)
    requires
        contents.well_formed(),
    ensures
        committed(contents, delivered, now).well_formed(),
{
    // Neither key nor threshold of any subscription changes.
    let after = committed(contents, delivered, now).watched_satellites;
    assert forall|i: int, j: int| 0 <= i < j < after.len() implies (#[trigger] after[i]).key() != (
    #[trigger] after[j]).key() by {
        assert(after[i].key() == contents.watched_satellites[i].key());
        assert(after[j].key() == contents.watched_satellites[j].key());
    }
    assert forall|i: int| 0 <= i < after.len() implies crate::database::valid_elevation(
        (#[trigger] after[i]).min_max_elevation,
    ) by {
        assert(after[i].min_max_elevation == contents.watched_satellites[i].min_max_elevation);
    }
}

/// Why a cycle did not do what it was asked.
#[derive(Debug, Clone, Copy, PartialEq, Eq, Structural)]
pub enum CycleError {
    /// The event does not answer the action that the cycle is waiting on.
    UnexpectedEvent,
    /// Not every subscription has been evaluated yet.
    Unfinished,
}

/// Appends `windows` to `history`.
fn append_windows(history: &mut Vec<(usize, usize)>, windows: &Vec<(usize, usize)>)
    ensures
        final(history)@ == old(history)@ + windows@,
{
    let mut k: usize = 0;
    while k < windows.len()
        invariant
            k <= windows.len(),
            history@ == old(history)@ + windows@.take(k as int),
        decreases windows.len() - k,
    {
        history.push(windows[k]);
        k += 1;
    }
}

/// The history of `watch` with the windows delivered under its key appended.
fn history_with_delivered(watch: &WatchedSatellite, delivered: &Vec<DeliveredBatch>) -> (history: Vec<
    (usize, usize),
>)
    ensures
        history@ == watch@.previous_notifications + recorded_windows(
            delivered_views(delivered@),
            watch@.key(),
        ),
{
    let mut history = copy_history(&watch.previous_notifications);
    let mut j: usize = 0;
    while j < delivered.len()
        invariant
            j <= delivered.len(),
            history@ == watch@.previous_notifications + recorded_windows(
                delivered_views(delivered@.take(j as int)),
                watch@.key(),
            ),
        decreases delivered.len() - j,
    {
        let batch = &delivered[j];
        proof {
            let views = delivered_views(delivered@.take(j + 1));
            assert(views.drop_last() =~= delivered_views(delivered@.take(j as int)));
        }
        if batch.satellite_id == watch.satellite_id.0 && batch.location.0 == watch.location.0
            && batch.min_max_elevation == watch.min_max_elevation && batch.channel
            == watch.channel.0 {
            append_windows(&mut history, &batch.windows);
        }
        j += 1;
    }
    assert(delivered@.take(delivered.len() as int) == delivered@);
    history
}

/// Writes a cycle into the store: appends to each subscription's history the
/// windows delivered under its key, then forgets in every history what is no
/// longer remembered at `now`.
pub fn write_histories(contents: &mut DatabaseContents, delivered: &Vec<DeliveredBatch>, now: i64)
    ensures
        final(contents)@ == committed(old(contents)@, delivered_views(delivered@), now as int),
        old(contents)@.well_formed() ==> final(contents)@.well_formed(),
{
    let ghost before = contents@;
    proof {
        if before.well_formed() {
            lemma_committed_keeps_well_formed(before, delivered_views(delivered@), now as int);
        }
    }
    let mut i: usize = 0;
    while i < contents.watched_satellites.len()
        invariant
            i <= contents.watched_satellites.len(),
            before == old(contents)@,
            contents@.locations == before.locations,
            contents@.watched_satellites.len() == before.watched_satellites.len(),
            forall|j: int|
                0 <= j < i ==> #[trigger] contents@.watched_satellites[j] == committed_watch(
                    before.watched_satellites[j],
                    delivered_views(delivered@),
                    now as int,
                ),
            forall|j: int|
                i <= j < contents.watched_satellites.len() ==> #[trigger] contents@.watched_satellites[j]
                    == before.watched_satellites[j],
        decreases contents.watched_satellites.len() - i,
    {
        let history = history_with_delivered(&contents.watched_satellites[i], delivered);
        let kept = prune(&history, now);
        let ghost prior = contents@.watched_satellites;
        contents.watched_satellites[i].previous_notifications = kept;
        proof {
            let after = contents@.watched_satellites;
            assert(after[i as int] == committed_watch(
                prior[i as int],
                delivered_views(delivered@),
                now as int,
            ));
            assert forall|j: int| 0 <= j < after.len() && j != i implies #[trigger] after[j]
                == prior[j] by {}
        }
        i += 1;
    }
    assert(contents@.watched_satellites =~= committed(
        before,
        delivered_views(delivered@),
        now as int,
    ).watched_satellites);
}

/// A batch that the sink did not take is not recorded: nothing is delivered
/// under any key that was not delivered before.
pub proof fn lemma_failed_delivery_records_nothing(state: PollCycleView, key: WatchKey)
    requires
        state.well_formed(),
        state.phase == CyclePhase::Delivering,
    ensures
        stepped(state, CycleEventView::DeliveryFailed).0.delivered == state.delivered,
        recorded_windows(stepped(state, CycleEventView::DeliveryFailed).0.delivered, key)
            == recorded_windows(state.delivered, key),
{
}

/// A batch that the sink took is recorded under the key of its subscription:
/// the windows of the passes of the batch, behind what was recorded before.
pub proof fn lemma_delivery_records_the_batch(state: PollCycleView)
    requires
        state.well_formed(),
        state.phase == CyclePhase::Delivering,
    ensures
        recorded_windows(
            stepped(state, CycleEventView::Delivered).0.delivered,
            state.watched[state.cursor].key(),
        ) == recorded_windows(state.delivered, state.watched[state.cursor].key()) + state.staged,
{
    let key = state.watched[state.cursor].key();
    let batch = DeliveredBatchView { key, windows: state.staged };
    assert(state.delivered.push(batch).drop_last() == state.delivered);
}

/// What a cycle delivers it records: from a subscription under whose key
/// nothing is recorded yet, an answer with fresh passes and then the
/// delivery of the batch leave exactly the windows of those passes recorded
/// under its key.
pub proof fn lemma_delivered_batch_is_recorded(
    state: PollCycleView,
    satellite_name: Seq<char>,
    passes: Seq<SatellitePass>,
)
    requires
        state.well_formed(),
        state.phase == CyclePhase::Fetching,
        recorded_windows(state.delivered, state.watched[state.cursor].key()) == Seq::<
            (usize, usize),
        >::empty(),
        fresh_passes(
            state.watched[state.cursor].previous_notifications,
            state.watched[state.cursor].min_max_elevation,
            passes,
        ).len() > 0,
    ensures
        stepped(state, CycleEventView::Fetched { satellite_name, passes }).0.phase
            == CyclePhase::Delivering,
        recorded_windows(
            stepped(
                stepped(state, CycleEventView::Fetched { satellite_name, passes }).0,
                CycleEventView::Delivered,
            ).0.delivered,
            state.watched[state.cursor].key(),
        ) == windows_of(
            fresh_passes(
                state.watched[state.cursor].previous_notifications,
                state.watched[state.cursor].min_max_elevation,
                passes,
            ),
        ),
{
    let delivering = stepped(state, CycleEventView::Fetched { satellite_name, passes }).0;
    lemma_delivery_records_the_batch(delivering);
}

/// How many events a cycle can still take: two for each subscription from
/// the cursor on, less one while a batch is being delivered.
pub open spec fn events_left(state: PollCycleView) -> int {
    2 * (state.watched.len() - state.cursor) - if state.phase == CyclePhase::Delivering {
        1int
    } else {
        0int
    }
}

/// The cursor never moves back and never leaves the subscriptions.
pub proof fn lemma_skipped_to_bounds(
    locations: Seq<LocationView>,
    watched: Seq<WatchedSatelliteView>,
    from: int,
)
    requires
        0 <= from <= watched.len(),
    ensures
        from <= skipped_to(locations, watched, from) <= watched.len(),
    decreases watched.len() - from,
{
    if from < watched.len() && !has_location(locations, watched[from].location) {
        lemma_skipped_to_bounds(locations, watched, from + 1);
    }
}

/// A cycle comes to its end: every event that it accepts leaves a well
/// formed cycle that can take fewer events than before, and a cycle that
/// can take none waits to be written.
pub proof fn lemma_every_event_makes_progress(state: PollCycleView, event: CycleEventView)
    requires
        state.well_formed(),
        accepts(state, event),
    ensures
        stepped(state, event).0.well_formed(),
        0 <= events_left(stepped(state, event).0) < events_left(state),
        events_left(stepped(state, event).0) == 0 <==> stepped(state, event).0.phase
            == CyclePhase::Committing,
        stepped(state, event).1 is Commit <==> stepped(state, event).0.phase
            == CyclePhase::Committing,
{
    lemma_skipped_to_bounds(state.locations, state.watched, state.cursor + 1);
}

/// At least once: where nothing was delivered under the key of a
/// subscription, every pass that was to be notified is to be notified again
/// after the cycle is written.
pub proof fn lemma_undelivered_passes_are_retried(
    watch: WatchedSatelliteView,
    delivered: Seq<DeliveredBatchView>,
    now: int,
    passes: Seq<SatellitePass>,
    pass: SatellitePass,
)
    requires
        recorded_windows(delivered, watch.key()) == Seq::<(usize, usize)>::empty(),
        fresh_passes(watch.previous_notifications, watch.min_max_elevation, passes).contains(pass),
    ensures
        committed_watch(watch, delivered, now).previous_notifications == pruned(
            watch.previous_notifications,
            now,
        ),
        fresh_passes(
            committed_watch(watch, delivered, now).previous_notifications,
            watch.min_max_elevation,
            passes,
        ).contains(pass),
{
    lemma_unrecorded_pass_stays_fresh(
        watch.previous_notifications,
        watch.min_max_elevation,
        passes,
        now,
        pass,
    );
}

/// Once only: where the windows delivered under the key of a subscription
/// are those of the passes that were to be notified, the same answer of the
/// prediction source leaves nothing to notify after the cycle is written.
/// This holds of passes that meet the threshold only while they are not
/// within a tolerance of being forgotten at `now`.
pub proof fn lemma_delivered_passes_are_not_repeated(
    watch: WatchedSatelliteView,
    delivered: Seq<DeliveredBatchView>,
    now: int,
    passes: Seq<SatellitePass>,
)
    requires
        recorded_windows(delivered, watch.key()) == windows_of(
            fresh_passes(watch.previous_notifications, watch.min_max_elevation, passes),
        ),
        forall|i: int|
            0 <= i < passes.len() && meets_threshold(
                (#[trigger] passes[i]).max_elevation,
                watch.min_max_elevation,
            ) ==> safely_remembered(passes[i].window(), now),
    ensures
        fresh_passes(
            committed_watch(watch, delivered, now).previous_notifications,
            watch.min_max_elevation,
            passes,
        ) == Seq::<SatellitePass>::empty(),
{
    lemma_recorded_passes_are_not_repeated(
        watch.previous_notifications,
        watch.min_max_elevation,
        passes,
        now,
    );
}

/// A poll cycle in progress.
pub struct PollCycle {
    now: i64,
    snapshot: DatabaseContents,
    cursor: usize,
    phase: CyclePhase,
    staged: Vec<(usize, usize)>,
    delivered: Vec<DeliveredBatch>,
    failures: Vec<CycleFailure>,
}

impl View for PollCycle {
    type V = PollCycleView;

    closed spec fn view(&self) -> PollCycleView {
        PollCycleView {
            now: self.now as int,
            locations: self.snapshot@.locations,
            watched: self.snapshot@.watched_satellites,
            cursor: self.cursor as int,
            phase: self.phase,
            staged: self.staged@,
            delivered: delivered_views(self.delivered@),
            failures: self.failures@,
        }
    }
}

impl PollCycleView {
    /// What holds of every cycle: the cursor stands on a subscription while
    /// one is being fetched or delivered, and behind the last one afterwards.
    pub open spec fn well_formed(self) -> bool {
        &&& 0 <= self.cursor <= self.watched.len()
        &&& self.phase == CyclePhase::Committing <==> self.cursor == self.watched.len()
    }
}

impl PollCycle {
    #[verifier::type_invariant]
    spec fn well_formed(self) -> bool {
        self@.well_formed()
    }

    /// Moves on to the first subscription at `from` or behind it whose
    /// location exists.
    fn advance(
        now: i64,
        snapshot: DatabaseContents,
        from: usize,
        delivered: Vec<DeliveredBatch>,
        earlier_failures: Vec<CycleFailure>,
    ) -> (next: (PollCycle, CycleAction))
        requires
            from <= snapshot.watched_satellites.len(),
        ensures
            (next.0@, next.1@) == advanced(
                PollCycleView {
                    now: now as int,
                    locations: snapshot@.locations,
                    watched: snapshot@.watched_satellites,
                    cursor: from as int,
                    phase: CyclePhase::Fetching,
                    staged: Seq::empty(),
                    delivered: delivered_views(delivered@),
                    failures: earlier_failures@,
                },
                from as int,
            ),
    {
        let ghost before = earlier_failures@;
        let ghost locations = snapshot@.locations;
        let ghost watched = snapshot@.watched_satellites;
        let mut failures = earlier_failures;
        let mut i: usize = from;
        while i < snapshot.watched_satellites.len()
            invariant
                from <= i <= snapshot.watched_satellites.len(),
                before == earlier_failures@,
                locations == snapshot@.locations,
                watched == snapshot@.watched_satellites,
                skipped_to(locations, watched, from as int) == skipped_to(locations, watched, i as int),
                failures@ == before + missing_locations(from as int, i as int),
            decreases snapshot.watched_satellites.len() - i,
        {
            let found = snapshot.find_location(&snapshot.watched_satellites[i].location.0);
            match found {
                Some(at) => {
                    let watch = &snapshot.watched_satellites[i];
                    let place = &snapshot.locations[at];
                    let request = PassRequest {
                        satellite_id: watch.satellite_id.0,
                        latitude: place.latitude,
                        longitude: place.longitude,
                        altitude: place.altitude,
                        days: CYCLE_DAYS,
                        min_max_elevation: watch.min_max_elevation,
                    };
                    let cycle = PollCycle {
                        now,
                        snapshot,
                        cursor: i,
                        phase: CyclePhase::Fetching,
                        staged: Vec::new(),
                        delivered,
                        failures,
                    };
                    return (cycle, CycleAction::Fetch(request));
                },
                None => {
                    failures.push(
                        CycleFailure { subscription: i, kind: FailureKind::MissingLocation },
                    );
                    i += 1;
                },
            }
        }
        let cursor: usize = snapshot.watched_satellites.len();
        let cycle = PollCycle {
            now,
            snapshot,
            cursor,
            phase: CyclePhase::Committing,
            staged: Vec::new(),
            delivered,
            failures,
        };
        (cycle, CycleAction::Commit)
    }

    /// Takes the answer to the action that the cycle is waiting on and says
    /// what to do next. An event that is no such answer changes nothing.
    pub fn step(self, event: CycleEvent) -> (next: (PollCycle, Result<CycleAction, CycleError>))
        ensures
            next.0@.well_formed(),
            accepts(self@, event@) ==> next.1 is Ok && (next.0@, next.1->Ok_0@) == stepped(
                self@,
                event@,
            ),
            !accepts(self@, event@) ==> next.1 == Err::<CycleAction, CycleError>(
                CycleError::UnexpectedEvent,
            ) && next.0@ == self@,
    {
        proof {
            use_type_invariant(&self);
        }
        let ghost state = self@;
        let PollCycle { now, snapshot, cursor, phase, staged, delivered, failures } = self;
        assert(cursor <= snapshot.watched_satellites.len());
        let next = match (phase, event) {
            (CyclePhase::Fetching, CycleEvent::Fetched(answer)) => {
                let SatellitePasses { info, passes } = answer;
                let watch = &snapshot.watched_satellites[cursor];
                let fresh = new_passes(&watch.previous_notifications, watch.min_max_elevation, &passes);
                if fresh.len() == 0 {
                    let (cycle, action) = PollCycle::advance(
                        now,
                        snapshot,
                        cursor + 1,
                        delivered,
                        failures,
                    );
                    (cycle, Ok(action))
                } else {
                    let windows = pass_windows(&fresh);
                    let batch = NotificationBatch {
                        channel: watch.channel,
                        locale: watch.locale.clone(),
                        satellite_name: info.name,
                        location: watch.location.clone(),
                        passes: fresh,
                    };
                    let cycle = PollCycle {
                        now,
                        snapshot,
                        cursor,
                        phase: CyclePhase::Delivering,
                        staged: windows,
                        delivered,
                        failures,
                    };
                    (cycle, Ok(CycleAction::Deliver(batch)))
                }
            },
            (CyclePhase::Fetching, CycleEvent::FetchFailed) => {
                let mut failures = failures;
                failures.push(CycleFailure { subscription: cursor, kind: FailureKind::Fetch });
                let (cycle, action) = PollCycle::advance(now, snapshot, cursor + 1, delivered, failures);
                (cycle, Ok(action))
            },
            (CyclePhase::Delivering, CycleEvent::Delivered) => {
                let watch = &snapshot.watched_satellites[cursor];
                let batch = DeliveredBatch {
                    satellite_id: watch.satellite_id.0,
                    location: watch.location.clone(),
                    min_max_elevation: watch.min_max_elevation,
                    channel: watch.channel.0,
                    windows: staged,
                };
                let mut delivered = delivered;
                let ghost earlier = delivered@;
                delivered.push(batch);
                assert(delivered_views(delivered@) =~= delivered_views(earlier).push(
                    DeliveredBatchView {
                        key: state.watched[state.cursor].key(),
                        windows: state.staged,
                    },
                ));
                let (cycle, action) = PollCycle::advance(now, snapshot, cursor + 1, delivered, failures);
                (cycle, Ok(action))
            },
            (CyclePhase::Delivering, CycleEvent::DeliveryFailed) => {
                let mut failures = failures;
                failures.push(CycleFailure { subscription: cursor, kind: FailureKind::Delivery });
                let (cycle, action) = PollCycle::advance(now, snapshot, cursor + 1, delivered, failures);
                (cycle, Ok(action))
            },
            (phase, _) => {
                let cycle = PollCycle { now, snapshot, cursor, phase, staged, delivered, failures };
                (cycle, Err(CycleError::UnexpectedEvent))
            },
        };
        proof {
            use_type_invariant(&next.0);
        }
        next
    }

    /// Writes the cycle into `contents`, the store as it is now, and hands
    /// back the failures of the cycle. A cycle in which a subscription is
    /// still to be evaluated writes nothing.
    pub fn commit(self, contents: &mut DatabaseContents) -> (report: Result<
        Vec<CycleFailure>,
        CycleError,
    >)
        ensures
            self@.phase == CyclePhase::Committing ==> report is Ok && report->Ok_0@
                == self@.failures && final(contents)@ == committed(
                old(contents)@,
                self@.delivered,
                self@.now,
            ),
            self@.phase != CyclePhase::Committing ==> report == Err::<Vec<CycleFailure>, CycleError>(
                CycleError::Unfinished,
            ) && final(contents)@ == old(contents)@,
            old(contents)@.well_formed() ==> final(contents)@.well_formed(),
    {
        let PollCycle { now, snapshot, cursor, phase, staged, delivered, failures } = self;
        match phase {
            CyclePhase::Committing => {
                write_histories(contents, &delivered, now);
                Ok(failures)
            },
            _ => Err(CycleError::Unfinished),
        }
    }

    /// Starts a cycle at the time that the machine's clock shows.
    pub fn begin_now(contents: &DatabaseContents) -> (first: (PollCycle, CycleAction))
        ensures
            (first.0@, first.1@) == started(contents@, first.0@.now),
            first.0@.well_formed(),
    {
        let now: i64 = current_utc();
        PollCycle::begin(contents, now)
    }

    /// When the cycle started.
    pub fn now(&self) -> (now: i64)
        ensures
            now == self@.now,
    {
        self.now
    }

    /// Where the cycle stands.
    pub fn phase(&self) -> (phase: CyclePhase)
        ensures
            phase == self@.phase,
    {
        self.phase
    }

    /// The place in the snapshot of the subscription under evaluation.
    pub fn cursor(&self) -> (cursor: usize)
        ensures
            cursor == self@.cursor,
    {
        self.cursor
    }

    /// Starts a cycle at `now` over a copy of `contents` and says what to do first.
    pub fn begin(contents: &DatabaseContents, now: i64) -> (first: (PollCycle, CycleAction))
        ensures
            (first.0@, first.1@) == started(contents@, now as int),
            first.0@.well_formed(),
    {
        let delivered: Vec<DeliveredBatch> = Vec::new();
        let failures: Vec<CycleFailure> = Vec::new();
        assert(delivered_views(delivered@) =~= Seq::empty());
        let first = PollCycle::advance(now, contents.clone(), 0, delivered, failures);
        proof {
            use_type_invariant(&first.0);
        }
        first
    }
}

} // verus!
