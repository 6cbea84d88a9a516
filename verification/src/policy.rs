//! Which predicted passes are new, and which notified windows may be forgotten.
//!
//! Nothing here holds state or reaches outside: every function is decided by
//! its arguments.

use crate::n2yo::SatellitePass;
use crate::util::{are_within_10_seconds, MAX_DELTA_SECONDS, TOLERANCE_SECONDS};
use vstd::prelude::*;

verus! {

/// How long a notified window is remembered, in seconds: 24 hours.
pub const RETENTION_SECONDS: i64 = 86_400;

/// Whether two instants lie less than the tolerance apart.
pub open spec fn within_tolerance(a: int, b: int) -> bool {
    -TOLERANCE_SECONDS < b - a < TOLERANCE_SECONDS
}

/// Whether `entry` and `window` are the same pass to the history: their
/// starts and their ends each lie less than the tolerance apart.
pub open spec fn same_window(entry: (usize, usize), window: (usize, usize)) -> bool {
    within_tolerance(entry.0 as int, window.0 as int) && within_tolerance(
        entry.1 as int,
        window.1 as int,
    )
}

/// Whether `history` holds an entry that is the same pass as `window`.
pub open spec fn is_duplicate_of(history: Seq<(usize, usize)>, window: (usize, usize)) -> bool {
    exists|i: int| 0 <= i < history.len() && same_window(#[trigger] history[i], window)
}

/// Whether `entry` is still remembered at `now`: neither its start nor its
/// end lies a retention period or more in the past.
pub open spec fn retained(entry: (usize, usize), now: int) -> bool {
    now - entry.0 < RETENTION_SECONDS && now - entry.1 < RETENTION_SECONDS
}

/// The history without the entries that are no longer remembered at `now`.
pub open spec fn pruned(history: Seq<(usize, usize)>, now: int) -> Seq<(usize, usize)> {
    history.filter(|entry: (usize, usize)| retained(entry, now))
}

/// Whether a pass that rises to `max_elevation` meets the threshold.
pub open spec fn meets_threshold(max_elevation: u32, min_max_elevation: u32) -> bool {
    max_elevation >= min_max_elevation
}

/// Whether `pass` is to be notified: it meets the threshold and the history
/// does not hold it yet.
pub open spec fn is_fresh(
    history: Seq<(usize, usize)>,
    min_max_elevation: u32,
    pass: SatellitePass,
) -> bool {
    meets_threshold(pass.max_elevation, min_max_elevation) && !is_duplicate_of(
        history,
        pass.window(),
    )
}

/// `sorted` with `pass` put behind the last pass that does not start later.
pub open spec fn insert_by_start(sorted: Seq<SatellitePass>, pass: SatellitePass) -> Seq<
    SatellitePass,
>
    decreases sorted.len(),
{
    if sorted.len() == 0 || sorted.last().start_utc <= pass.start_utc {
        sorted.push(pass)
    } else {
        insert_by_start(sorted.drop_last(), pass).push(sorted.last())
    }
}

/// The passes in ascending order of start; passes that start together keep
/// the order in which they came.
pub open spec fn sorted_by_start(passes: Seq<SatellitePass>) -> Seq<SatellitePass>
    decreases passes.len(),
{
    if passes.len() == 0 {
        Seq::empty()
    } else {
        insert_by_start(sorted_by_start(passes.drop_last()), passes.last())
    }
}

/// Whether the passes stand in ascending order of start.
pub open spec fn ascending_by_start(passes: Seq<SatellitePass>) -> bool {
    forall|i: int, j: int|
        0 <= i <= j < passes.len() ==> (#[trigger] passes[i]).start_utc <= (
        #[trigger] passes[j]).start_utc
}

/// The passes to notify for a subscription with this history and threshold:
/// the fresh ones among `passes`, in ascending order of start.
pub open spec fn fresh_passes(
    history: Seq<(usize, usize)>,
    min_max_elevation: u32,
    passes: Seq<SatellitePass>,
) -> Seq<SatellitePass> {
    sorted_by_start(passes.filter(|pass: SatellitePass| is_fresh(history, min_max_elevation, pass)))
}

/// The windows of the passes, in their order.
pub open spec fn windows_of(passes: Seq<SatellitePass>) -> Seq<(usize, usize)> {
    passes.map_values(|pass: SatellitePass| pass.window())
}

/// Whether two instants lie less than the tolerance apart.
pub fn timestamps_within_tolerance(a: usize, b: usize) -> (within: bool)
    ensures
        within == within_tolerance(a as int, b as int),
{
    let gap: usize = if a >= b {
        a - b
    } else {
        b - a
    };
    if gap as u64 > MAX_DELTA_SECONDS as u64 {
        false
    } else {
        are_within_10_seconds(0, gap as i64)
    }
}

/// Whether the history holds an entry that is the same pass as `window`.
pub fn is_duplicate(history: &Vec<(usize, usize)>, window: (usize, usize)) -> (duplicate: bool)
    ensures
        duplicate == is_duplicate_of(history@, window),
{
    let mut i: usize = 0;
    while i < history.len()
        invariant
            i <= history.len(),
            forall|j: int| 0 <= j < i ==> !same_window(#[trigger] history@[j], window),
        decreases history.len() - i,
    {
        let entry = history[i];
        if timestamps_within_tolerance(entry.0, window.0) && timestamps_within_tolerance(
            entry.1,
            window.1,
        ) {
            return true;
        }
        i += 1;
    }
    false
}

/// Whether a pass that rises to `max_elevation` meets the threshold.
pub fn qualifies(pass: &SatellitePass, min_max_elevation: u32) -> (meets: bool)
    ensures
        meets == meets_threshold(pass.max_elevation, min_max_elevation),
{
    pass.max_elevation >= min_max_elevation
}

/// Whether `entry` is still remembered at `now`.
pub fn is_retained(entry: (usize, usize), now: i64) -> (keep: bool)
    ensures
        keep == retained(entry, now as int),
{
    let now: i128 = now as i128;
    let retention: i128 = RETENTION_SECONDS as i128;
    now - (entry.0 as i128) < retention && now - (entry.1 as i128) < retention
}

/// The history without the entries that are no longer remembered at `now`;
/// the others keep their order.
pub fn prune(history: &Vec<(usize, usize)>, now: i64) -> (kept: Vec<(usize, usize)>)
    ensures
        kept@ == pruned(history@, now as int),
{
    let ghost keep = |entry: (usize, usize)| retained(entry, now as int);
    let mut kept: Vec<(usize, usize)> = Vec::new();
    let mut i: usize = 0;
    proof {
        reveal(Seq::filter);
    }
    while i < history.len()
        invariant
            i <= history.len(),
            keep == (|entry: (usize, usize)| retained(entry, now as int)),
            kept@ == history@.take(i as int).filter(keep),
        decreases history.len() - i,
    {
        let entry = history[i];
        proof {
            reveal(Seq::filter);
            assert(history@.take(i + 1).drop_last() == history@.take(i as int));
        }
        if is_retained(entry, now) {
            kept.push(entry);
        }
        i += 1;
    }
    assert(history@.take(history.len() as int) == history@);
    kept
}

/// Where `pass` goes into `sorted`: to the place `k` behind which every pass
/// starts later, and before which the last pass does not.
proof fn lemma_insert_position(sorted: Seq<SatellitePass>, pass: SatellitePass, k: int)
    requires
        0 <= k <= sorted.len(),
        forall|j: int| k <= j < sorted.len() ==> (#[trigger] sorted[j]).start_utc > pass.start_utc,
        k > 0 ==> sorted[k - 1].start_utc <= pass.start_utc,
    ensures
        insert_by_start(sorted, pass) == sorted.insert(k, pass),
    decreases sorted.len() - k,
{
    if k == sorted.len() {
        assert(sorted.insert(k, pass) =~= sorted.push(pass));
    } else {
        assert(sorted.last() == sorted[sorted.len() - 1]);
        lemma_insert_position(sorted.drop_last(), pass, k);
        assert(sorted.insert(k, pass) =~= sorted.drop_last().insert(k, pass).push(sorted.last()));
    }
}

/// Puts `pass` into passes that stand in ascending order of start, behind the
/// last one that does not start later.
fn insert_pass(sorted: &mut Vec<SatellitePass>, pass: SatellitePass)
    ensures
        final(sorted)@ == insert_by_start(old(sorted)@, pass),
{
    let mut k: usize = sorted.len();
    while k > 0 && sorted[k - 1].start_utc > pass.start_utc
        invariant
            k <= sorted.len(),
            forall|j: int| k <= j < sorted.len() ==> (#[trigger] sorted@[j]).start_utc > pass.start_utc,
        decreases k,
    {
        k -= 1;
    }
    proof {
        lemma_insert_position(sorted@, pass, k as int);
    }
    sorted.insert(k, pass);
}

/// The passes to notify for a subscription with this history and threshold:
/// those that meet the threshold and are no duplicates of the history, in
/// ascending order of start.
pub fn new_passes(
    history: &Vec<(usize, usize)>,
    min_max_elevation: u32,
    passes: &Vec<SatellitePass>,
) -> (fresh: Vec<SatellitePass>)
    ensures
        fresh@ == fresh_passes(history@, min_max_elevation, passes@),
{
    let ghost wanted = |pass: SatellitePass| is_fresh(history@, min_max_elevation, pass);
    let mut fresh: Vec<SatellitePass> = Vec::new();
    let mut i: usize = 0;
    proof {
        reveal(Seq::filter);
    }
    while i < passes.len()
        invariant
            i <= passes.len(),
            wanted == (|pass: SatellitePass| is_fresh(history@, min_max_elevation, pass)),
            fresh@ == sorted_by_start(passes@.take(i as int).filter(wanted)),
        decreases passes.len() - i,
    {
        let pass = passes[i];
        proof {
            reveal(Seq::filter);
            assert(passes@.take(i + 1).drop_last() == passes@.take(i as int));
        }
        if qualifies(&pass, min_max_elevation) && !is_duplicate(
            history,
            (pass.start_utc, pass.end_utc),
        ) {
            assert(passes@.take(i + 1).filter(wanted).drop_last() == passes@.take(i as int).filter(
                wanted,
            ));
            insert_pass(&mut fresh, pass);
        }
        i += 1;
    }
    assert(passes@.take(passes.len() as int) == passes@);
    fresh
}

/// The windows of the passes, in their order.
pub fn pass_windows(passes: &Vec<SatellitePass>) -> (windows: Vec<(usize, usize)>)
    ensures
        windows@ == windows_of(passes@),
{
    let mut windows: Vec<(usize, usize)> = Vec::new();
    let mut i: usize = 0;
    while i < passes.len()
        invariant
            i <= passes.len(),
            windows@ == windows_of(passes@.take(i as int)),
        decreases passes.len() - i,
    {
        windows.push((passes[i].start_utc, passes[i].end_utc));
        assert(windows@ == windows_of(passes@.take(i + 1)));
        i += 1;
    }
    assert(passes@.take(passes.len() as int) == passes@);
    windows
}

/// Putting a pass into an ascending sequence keeps it ascending and adds
/// that pass and nothing else.
pub proof fn lemma_insert_by_start(sorted: Seq<SatellitePass>, pass: SatellitePass)
    requires
        ascending_by_start(sorted),
    ensures
        ascending_by_start(insert_by_start(sorted, pass)),
        insert_by_start(sorted, pass).to_multiset() == sorted.to_multiset().insert(pass),
        insert_by_start(sorted, pass).len() == sorted.len() + 1,
    decreases sorted.len(),
{
    broadcast use vstd::seq_lib::group_to_multiset_ensures;

    if sorted.len() == 0 || sorted.last().start_utc <= pass.start_utc {
    } else {
        let rest = sorted.drop_last();
        lemma_insert_by_start(rest, pass);
        assert(sorted == rest.push(sorted.last()));
        let inner = insert_by_start(rest, pass);
        let out = inner.push(sorted.last());
        assert forall|i: int| 0 <= i < inner.len() implies (#[trigger] inner[i]).start_utc
            <= sorted.last().start_utc by {
            assert(inner.contains(inner[i]));
            assert(inner.to_multiset().count(inner[i]) > 0);
            if inner[i] != pass {
                assert(rest.to_multiset().count(inner[i]) > 0);
                assert(rest.contains(inner[i]));
                let k = choose|k: int| 0 <= k < rest.len() && rest[k] == inner[i];
                assert(sorted[k].start_utc <= sorted[sorted.len() - 1].start_utc);
            }
        }
        assert(out.to_multiset() =~= sorted.to_multiset().insert(pass));
    }
}

/// Sorting by start puts the passes in ascending order of start and neither
/// adds nor loses one.
pub proof fn lemma_sorted_by_start(passes: Seq<SatellitePass>)
    ensures
        ascending_by_start(sorted_by_start(passes)),
        sorted_by_start(passes).to_multiset() == passes.to_multiset(),
        sorted_by_start(passes).len() == passes.len(),
    decreases passes.len(),
{
    broadcast use vstd::seq_lib::group_to_multiset_ensures;

    if passes.len() == 0 {
        assert(sorted_by_start(passes).to_multiset() =~= passes.to_multiset());
    } else {
        lemma_sorted_by_start(passes.drop_last());
        lemma_insert_by_start(sorted_by_start(passes.drop_last()), passes.last());
        assert(passes == passes.drop_last().push(passes.last()));
    }
}

/// What is notified is exactly what is fresh: a pass is among the passes to
/// notify if and only if it is one of `passes`, meets the threshold and is no
/// duplicate of the history; and the passes to notify ascend by start.
pub proof fn lemma_fresh_passes(
    history: Seq<(usize, usize)>,
    min_max_elevation: u32,
    passes: Seq<SatellitePass>,
)
    ensures
        ascending_by_start(fresh_passes(history, min_max_elevation, passes)),
        forall|pass: SatellitePass|
            #[trigger] fresh_passes(history, min_max_elevation, passes).contains(pass) <==> (
            passes.contains(pass) && is_fresh(history, min_max_elevation, pass)),
{
    broadcast use vstd::seq_lib::group_to_multiset_ensures;

    let wanted = |pass: SatellitePass| is_fresh(history, min_max_elevation, pass);
    let chosen = passes.filter(wanted);
    let fresh = fresh_passes(history, min_max_elevation, passes);
    lemma_sorted_by_start(chosen);
    assert forall|pass: SatellitePass| #[trigger] fresh.contains(pass) <==> (passes.contains(pass)
        && is_fresh(history, min_max_elevation, pass)) by {
        assert(fresh.contains(pass) <==> fresh.to_multiset().count(pass) > 0);
        assert(chosen.contains(pass) <==> chosen.to_multiset().count(pass) > 0);
        if chosen.contains(pass) {
            let i = choose|i: int| 0 <= i < chosen.len() && chosen[i] == pass;
            passes.lemma_filter_pred(wanted, i);
            lemma_filtered_entry_is_an_entry(passes, wanted, i);
        }
        if passes.contains(pass) && is_fresh(history, min_max_elevation, pass) {
            let i = choose|i: int| 0 <= i < passes.len() && passes[i] == pass;
            passes.lemma_filter_contains(wanted, i);
        }
    }
}

/// Pruning never adds to a history and forgets what has expired: the result
/// is no longer than the history, each of its entries is one of the history,
/// and none of them starts or ends a retention period or more before `now`,
/// so that an entry which does is not in the result.
pub proof fn lemma_prune_only_forgets(history: Seq<(usize, usize)>, now: int)
    ensures
        pruned(history, now).len() <= history.len(),
        forall|i: int|
            0 <= i < pruned(history, now).len() ==> history.contains(
                #[trigger] pruned(history, now)[i],
            ),
        forall|i: int|
            0 <= i < pruned(history, now).len() ==> now - (#[trigger] pruned(history, now)[i]).1
                < RETENTION_SECONDS && now - pruned(history, now)[i].0 < RETENTION_SECONDS,
        forall|entry: (usize, usize)|
            now - entry.1 >= RETENTION_SECONDS || now - entry.0 >= RETENTION_SECONDS ==> !(
            #[trigger] pruned(history, now).contains(entry)),
{
    let keep = |entry: (usize, usize)| retained(entry, now);
    history.lemma_filter_len(keep);
    assert forall|i: int| 0 <= i < pruned(history, now).len() implies history.contains(
        #[trigger] pruned(history, now)[i],
    ) && retained(pruned(history, now)[i], now) by {
        history.lemma_filter_pred(keep, i);
        lemma_filtered_entry_is_an_entry(history, keep, i);
    }
    assert forall|entry: (usize, usize)| #[trigger]
        pruned(history, now).contains(entry) implies retained(entry, now) by {
        let i = choose|i: int| 0 <= i < pruned(history, now).len() && pruned(history, now)[i] == entry;
        assert(retained(pruned(history, now)[i], now));
    }
}

/// Every entry of a filtered sequence is an entry of the sequence.
proof fn lemma_filtered_entry_is_an_entry<A>(s: Seq<A>, keep: spec_fn(A) -> bool, i: int)
    requires
        0 <= i < s.filter(keep).len(),
    ensures
        s.contains(s.filter(keep)[i]),
    decreases s.len(),
{
    reveal(Seq::filter);
    if s.len() > 0 {
        let rest = s.drop_last().filter(keep);
        if i < rest.len() {
            lemma_filtered_entry_is_an_entry(s.drop_last(), keep, i);
            let k = choose|k: int| 0 <= k < s.drop_last().len() && s.drop_last()[k] == rest[i];
            assert(s[k] == s.filter(keep)[i]);
        } else {
            assert(s[s.len() - 1] == s.filter(keep)[i]);
        }
    }
}

/// An entry that is remembered at `now` stays in the pruned history.
pub proof fn lemma_prune_keeps_retained(history: Seq<(usize, usize)>, now: int, i: int)
    requires
        0 <= i < history.len(),
        retained(history[i], now),
    ensures
        pruned(history, now).contains(history[i]),
{
    history.lemma_filter_contains(|entry: (usize, usize)| retained(entry, now), i);
}

/// Whether `window` is not within a tolerance of being forgotten at `now`:
/// whatever is the same pass as `window` is then still remembered at `now`.
pub open spec fn safely_remembered(window: (usize, usize), now: int) -> bool {
    now - window.0 <= RETENTION_SECONDS - TOLERANCE_SECONDS && now - window.1 <= RETENTION_SECONDS
        - TOLERANCE_SECONDS
}

/// What was not notified stays to be notified: a pass that is fresh for a
/// history is fresh for the pruned history too.
pub proof fn lemma_unrecorded_pass_stays_fresh(
    history: Seq<(usize, usize)>,
    min_max_elevation: u32,
    passes: Seq<SatellitePass>,
    now: int,
    pass: SatellitePass,
)
    requires
        fresh_passes(history, min_max_elevation, passes).contains(pass),
    ensures
        fresh_passes(pruned(history, now), min_max_elevation, passes).contains(pass),
{
    lemma_fresh_passes(history, min_max_elevation, passes);
    lemma_fresh_passes(pruned(history, now), min_max_elevation, passes);
    lemma_prune_makes_no_duplicates(history, now, pass.window());
}

/// What was notified is not notified again: once the windows of the passes
/// to notify are appended to the history and the history is pruned at `now`,
/// the same passes leave nothing to notify. This holds of passes that meet
/// the threshold only while they are not within a tolerance of being
/// forgotten at `now`.
pub proof fn lemma_recorded_passes_are_not_repeated(
    history: Seq<(usize, usize)>,
    min_max_elevation: u32,
    passes: Seq<SatellitePass>,
    now: int,
)
    requires
        forall|i: int|
            0 <= i < passes.len() && meets_threshold(
                (#[trigger] passes[i]).max_elevation,
                min_max_elevation,
            ) ==> safely_remembered(passes[i].window(), now),
    ensures
        fresh_passes(
            pruned(
                history + windows_of(fresh_passes(history, min_max_elevation, passes)),
                now,
            ),
            min_max_elevation,
            passes,
        ) == Seq::<SatellitePass>::empty(),
{
    let fresh = fresh_passes(history, min_max_elevation, passes);
    let recorded = history + windows_of(fresh);
    let written = pruned(recorded, now);
    let again = fresh_passes(written, min_max_elevation, passes);
    lemma_fresh_passes(history, min_max_elevation, passes);
    lemma_fresh_passes(written, min_max_elevation, passes);
    if again.len() > 0 {
        let pass = again[0];
        assert(again.contains(pass));
        let at = choose|i: int| 0 <= i < passes.len() && passes[i] == pass;
        assert(safely_remembered(passes[at].window(), now));
        if is_duplicate_of(history, pass.window()) {
            let i = choose|i: int|
                0 <= i < history.len() && same_window(#[trigger] history[i], pass.window());
            assert(recorded[i] == history[i]);
            lemma_prune_keeps_retained(recorded, now, i);
            lemma_same_pass_is_duplicate(written, history[i], pass.window());
        } else {
            assert(fresh.contains(pass));
            let k = choose|k: int| 0 <= k < fresh.len() && fresh[k] == pass;
            assert(recorded[history.len() + k] == pass.window());
            lemma_prune_keeps_retained(recorded, now, history.len() + k);
            lemma_same_pass_is_duplicate(written, pass.window(), pass.window());
        }
    }
}

/// A history that holds an entry which is the same pass as `window` has `window` as a duplicate.
proof fn lemma_same_pass_is_duplicate(
    history: Seq<(usize, usize)>,
    entry: (usize, usize),
    window: (usize, usize),
)
    requires
        history.contains(entry),
        same_window(entry, window),
    ensures
        is_duplicate_of(history, window),
{
    let i = choose|i: int| 0 <= i < history.len() && history[i] == entry;
    assert(same_window(history[i], window));
}

/// A window that the history holds is a duplicate of the history.
pub proof fn lemma_recorded_window_is_duplicate(history: Seq<(usize, usize)>, window: (usize, usize))
    requires
        history.contains(window),
    ensures
        is_duplicate_of(history, window),
{
    let i = choose|i: int| 0 <= i < history.len() && history[i] == window;
    assert(same_window(history[i], window));
}

/// A window that is no duplicate of a history is none of the pruned history:
/// what was not notified stays a candidate.
pub proof fn lemma_prune_makes_no_duplicates(
    history: Seq<(usize, usize)>,
    now: int,
    window: (usize, usize),
)
    requires
        !is_duplicate_of(history, window),
    ensures
        !is_duplicate_of(pruned(history, now), window),
{
    lemma_prune_only_forgets(history, now);
    if is_duplicate_of(pruned(history, now), window) {
        let i = choose|i: int|
            0 <= i < pruned(history, now).len() && same_window(
                #[trigger] pruned(history, now)[i],
                window,
            );
        let entry = pruned(history, now)[i];
        assert(history.contains(entry));
        let k = choose|k: int| 0 <= k < history.len() && history[k] == entry;
        assert(same_window(history[k], window));
    }
}

} // verus!
