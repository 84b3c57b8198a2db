//! The reading histories behind every graph: a window that keeps the latest
//! `history` readings.

use vstd::prelude::*;

verus! {

/// The history after recording `value`: once it holds `history` readings, the
/// oldest one is dropped before the new one is appended.
pub open spec fn pushed_window<T>(window: Seq<T>, history: nat, value: T) -> Seq<T> {
    if window.len() == history {
        window.drop_first().push(value)
    } else {
        window.push(value)
    }
}

/// The history after recording each of `values` in turn.
pub open spec fn pushed_all<T>(window: Seq<T>, history: nat, values: Seq<T>) -> Seq<T>
    decreases values.len(),
{
    if values.len() == 0 {
        window
    } else {
        pushed_window(pushed_all(window, history, values.drop_last()), history, values.last())
    }
}

/// Records a reading: `if stats.len() == history { stats.remove(0); } stats.push(value);`
pub fn push_reading<T>(stats: &mut Vec<T>, history: usize, value: T)
    requires
        old(stats)@.len() == history ==> history > 0,
    ensures
        final(stats)@ == pushed_window(old(stats)@, history as nat, value),
{
    if stats.len() == history {
        stats.remove(0);
    }
    stats.push(value);
}

/// The history of a plugin module after an update: a new reading replaces the
/// oldest one only when the history is full; otherwise nothing changes.
pub open spec fn rotated_window<T>(window: Seq<T>, history: nat, value: T) -> Seq<T> {
    if window.len() == history {
        window.drop_first().push(value)
    } else {
        window
    }
}

/// Updates a plugin module's history: `if stats.len() == history { stats.remove(0); stats.push(value); }`
pub fn rotate_if_full<T>(stats: &mut Vec<T>, history: usize, value: T)
    requires
        old(stats)@.len() == history ==> history > 0,
    ensures
        final(stats)@ == rotated_window(old(stats)@, history as nat, value),
{
    if stats.len() == history {
        stats.remove(0);
        stats.push(value);
    }
}

/// Recording a reading never lets the history grow past `history` readings,
/// and the newest reading is always last.
pub proof fn lemma_push_bounded<T>(window: Seq<T>, history: nat, value: T)
    requires
        window.len() <= history,
        history > 0,
    ensures
        pushed_window(window, history, value).len() <= history,
        pushed_window(window, history, value).len() == if window.len() == history {
            history
        } else {
            window.len() + 1
        },
        pushed_window(window, history, value).last() == value,
{
}

/// A full history stays full: after any readings it holds exactly the last
/// `history` readings of everything recorded, oldest first.
pub proof fn lemma_full_window_keeps_latest<T>(window: Seq<T>, history: nat, values: Seq<T>)
    requires
        window.len() == history,
        history > 0,
    ensures
        pushed_all(window, history, values) == (window + values).subrange(
            values.len() as int,
            (window + values).len() as int,
        ),
    decreases values.len(),
{
    if values.len() > 0 {
        let prev = values.drop_last();
        lemma_full_window_keeps_latest(window, history, prev);
        assert((window + values).drop_last() == window + prev);
        assert(pushed_all(window, history, prev).drop_first().push(values.last()) == (window
            + values).subrange(values.len() as int, (window + values).len() as int));
    }
}

/// A history that starts empty grows by one reading at a time until it holds
/// `history` readings; from then on it holds the latest `history` readings.
pub proof fn lemma_growing_window<T>(history: nat, values: Seq<T>)
    requires
        history > 0,
    ensures
        pushed_all(Seq::<T>::empty(), history, values) == if values.len() <= history {
            values
        } else {
            values.subrange(values.len() - history, values.len() as int)
        },
    decreases values.len(),
{
    if values.len() > 0 {
        let prev = values.drop_last();
        lemma_growing_window(history, prev);
        if values.len() <= history {
            assert(prev.push(values.last()) == values);
        } else if values.len() == history + 1 {
            assert(prev.drop_first().push(values.last()) == values.subrange(
                values.len() - history,
                values.len() as int,
            ));
        } else {
            assert(prev.subrange(prev.len() - history, prev.len() as int).drop_first().push(
                values.last(),
            ) == values.subrange(values.len() - history, values.len() as int));
        }
    }
}

/// A plugin module's update never changes how many readings it holds.
pub proof fn lemma_rotate_keeps_length<T>(window: Seq<T>, history: nat, value: T)
    requires
        window.len() == history ==> history > 0,
    ensures
        rotated_window(window, history, value).len() == window.len(),
{
}

} // verus!
