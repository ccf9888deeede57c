//! Laws of log capture: what is kept, in what order, and how much.

use vstd::prelude::*;

use crate::logging::{
    admits, ceiling, default_max_level_spec, filter_rank, history_after, id_space,
    is_excluded_target, kept_before_push, latest, Level, LevelFilter, LogBuffer, LogEntry, BUFFER_CAPACITY,
};

verus! {

/// The history never holds more than [`BUFFER_CAPACITY`] entries.
pub proof fn law_history_is_bounded(buffer: LogBuffer)
    requires
        buffer.wf(),
    ensures
        buffer@.len() <= BUFFER_CAPACITY,
{
    buffer.lemma_held_entries();
}

/// Appending to a history within the bound keeps it within the bound, and
/// the new entry is the newest: first in [`crate::logging::recent_logs`].
pub proof fn law_new_entry_comes_first(held: Seq<LogEntry>, e: LogEntry)
    requires
        held.len() <= BUFFER_CAPACITY,
    ensures
        kept_before_push(held).push(e).len() <= BUFFER_CAPACITY,
        kept_before_push(held).push(e).reverse()[0] == e,
        held.len() < BUFFER_CAPACITY ==> kept_before_push(held).push(e) == held.push(e),
{
}

/// As long as fewer than 2^32 entries have been recorded, so that ids have
/// not wrapped, the history read newest first has strictly decreasing ids.
pub proof fn law_history_is_newest_first(buffer: LogBuffer)
    requires
        buffer.wf(),
        buffer.issued() <= id_space(),
    ensures
        forall|i: int, j: int|
            0 <= i < j < buffer@.len() ==> #[trigger] buffer@.reverse()[i].id
                > #[trigger] buffer@.reverse()[j].id,
{
    buffer.lemma_held_entries();
    let n = buffer@.len() as int;
    assert forall|i: int, j: int| 0 <= i < j < n implies #[trigger] buffer@.reverse()[i].id
        > #[trigger] buffer@.reverse()[j].id by {
        let a = n - 1 - i;
        let b = n - 1 - j;
        assert(buffer@.reverse()[i] == buffer@[a]);
        assert(buffer@.reverse()[j] == buffer@[b]);
        let base = buffer.issued() - n;
        assert(buffer@[a].id == (base + a) % id_space());
        assert(buffer@[b].id == (base + b) % id_space());
        assert(0 <= base + b < base + a < id_space());
    }
}

/// Records of an excluded target are dropped at every level, whatever the
/// global ceiling.
pub proof fn law_excluded_targets_are_always_dropped(
    level: Level,
    target: Seq<char>,
    global: LevelFilter,
)
    requires
        is_excluded_target(target),
    ensures
        !admits(ceiling(target, global), level),
{
}

/// No target is let through above the global ceiling.
pub proof fn law_ceiling_never_exceeds_global(target: Seq<char>, global: LevelFilter)
    ensures
        filter_rank(ceiling(target, global)) <= filter_rank(global),
{
}

/// The "logging enabled" setting lets debug records through; turning it off
/// restores the default verbosity, which in a release build drops them.
pub proof fn law_verbose_setting_gates_debug(debug_build: bool)
    ensures
        admits(LevelFilter::Debug, Level::Debug),
        !debug_build ==> !admits(default_max_level_spec(debug_build), Level::Debug),
        admits(default_max_level_spec(debug_build), Level::Info),
{
}

/// Recording entries one after another, from a history within the bound,
/// leaves exactly the last [`BUFFER_CAPACITY`] of all entries held or
/// recorded, in recording order. From an empty (or just cleared) history,
/// after `n` records `recent_logs` is the last `min(n, 1000)` of them,
/// newest first.
pub proof fn law_history_keeps_the_latest_entries(held: Seq<LogEntry>, appended: Seq<LogEntry>)
    requires
        held.len() <= BUFFER_CAPACITY,
    ensures
        history_after(held, appended) == latest(held + appended, BUFFER_CAPACITY as int),
        history_after(Seq::empty(), appended).reverse() == latest(
            appended,
            BUFFER_CAPACITY as int,
        ).reverse(),
{
    lemma_history_after(held, appended);
    lemma_history_after(Seq::empty(), appended);
    assert(Seq::<LogEntry>::empty() + appended =~= appended);
}

proof fn lemma_history_after(held: Seq<LogEntry>, appended: Seq<LogEntry>)
    requires
        held.len() <= BUFFER_CAPACITY,
    ensures
        history_after(held, appended) == latest(held + appended, BUFFER_CAPACITY as int),
    decreases appended.len(),
{
    if appended.len() > 0 {
        let prefix = appended.drop_last();
        let x = appended.last();
        lemma_history_after(held, prefix);
        let before = held + prefix;
        assert(held + appended =~= before.push(x));
        let cap = BUFFER_CAPACITY as int;
        let h = latest(before, cap);
        if before.len() < cap {
            assert(kept_before_push(h).push(x) =~= latest(before.push(x), cap));
        } else {
            assert(kept_before_push(h) =~= before.subrange(
                before.len() - (cap - 1),
                before.len() as int,
            ));
            assert(kept_before_push(h).push(x) =~= latest(before.push(x), cap));
        }
    } else {
        assert(held + appended =~= held);
    }
}

/// A run of records composes: when each history of `histories` follows the
/// one before by recording the next entry of `appended` (which is what
/// [`crate::logging::LogBuffer::record`], [`crate::logging::buffer_entry`]
/// and [`crate::logging::forward_log`] each ensure of their buffer), the
/// last history holds exactly the latest [`BUFFER_CAPACITY`] entries held
/// or recorded, in recording order. Started empty (or just cleared), its
/// reverse, which is what [`crate::logging::recent_logs`] returns, is the
/// last `min(n, 1000)` recorded entries, newest first.
pub proof fn law_a_run_of_records_keeps_the_latest_entries(
    histories: Seq<Seq<LogEntry>>,
    appended: Seq<LogEntry>,
)
    requires
        histories.len() == appended.len() + 1,
        histories[0].len() <= BUFFER_CAPACITY,
        forall|k: int|
            0 <= k < appended.len() ==> histories[k + 1] == kept_before_push(histories[k]).push(
                #[trigger] appended[k],
            ),
    ensures
        histories.last() == latest(histories[0] + appended, BUFFER_CAPACITY as int),
        histories[0].len() == 0 ==> histories.last().reverse() == latest(
            appended,
            BUFFER_CAPACITY as int,
        ).reverse(),
{
    lemma_run_follows_history_after(histories, appended, appended.len() as int);
    assert(appended.take(appended.len() as int) =~= appended);
    lemma_history_after(histories[0], appended);
    if histories[0].len() == 0 {
        assert(histories[0] + appended =~= appended);
    }
}

proof fn lemma_run_follows_history_after(
    histories: Seq<Seq<LogEntry>>,
    appended: Seq<LogEntry>,
    k: int,
)
    requires
        histories.len() == appended.len() + 1,
        0 <= k <= appended.len(),
        forall|j: int|
            0 <= j < appended.len() ==> histories[j + 1] == kept_before_push(histories[j]).push(
                #[trigger] appended[j],
            ),
    ensures
        histories[k] == history_after(histories[0], appended.take(k)),
    decreases k,
{
    if k == 0 {
        assert(appended.take(0) =~= Seq::<LogEntry>::empty());
    } else {
        lemma_run_follows_history_after(histories, appended, k - 1);
        let t = appended.take(k);
        assert(t.drop_last() =~= appended.take(k - 1));
        assert(t.last() == appended[k - 1]);
        assert(histories[k] == kept_before_push(histories[k - 1]).push(appended[k - 1]));
    }
}

} // verus!
