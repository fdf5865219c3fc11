//! The placement engine's press latch: per frame it turns the continuous
//! "pointer held" signal into at most one spawn per press, suppressing
//! spawns while the armed latch is set or while the pointer sits over UI
//! chrome.  Being over UI chrome leaves the latch untouched, so a press
//! that starts over the chrome can still spawn once it is dragged clear.

use vstd::prelude::*;
use crate::geom::Point;
use crate::geom::Rect;
use crate::geom::spec_blocks;
use crate::geom::spec_overlaps_ui;

verus! {

/// The per-frame inputs the latch looks at: the held signal and whether
/// the pointer is over a UI obstacle this frame.
#[derive(Clone, Copy, Debug, PartialEq, Eq, Structural)]
pub struct Frame {
    pub held: bool,
    pub on_ui: bool,
}

/// The armed latch after one frame: releasing clears it, a spawn sets
/// it, and a frame spent over UI chrome leaves it as it was.
pub open spec fn spec_armed_after(armed: bool, held: bool, on_ui: bool) -> bool {
    if !held {
        false
    } else if armed {
        true
    } else if on_ui {
        armed
    } else {
        true
    }
}

/// Whether one frame spawns an item: only a held, un-latched frame with
/// the pointer clear of all UI chrome does.
pub open spec fn spec_spawns(armed: bool, held: bool, on_ui: bool) -> bool {
    held && !armed && !on_ui
}

/// The armed latch after a whole run of frames.
pub open spec fn spec_armed_after_frames(armed0: bool, frames: Seq<Frame>) -> bool
    decreases frames.len(),
{
    if frames.len() == 0 {
        armed0
    } else {
        spec_armed_after(
            spec_armed_after_frames(armed0, frames.drop_last()),
            frames.last().held,
            frames.last().on_ui,
        )
    }
}

/// How many items a run of frames spawns.
pub open spec fn spec_spawn_count(armed0: bool, frames: Seq<Frame>) -> nat
    decreases frames.len(),
{
    if frames.len() == 0 {
        0
    } else {
        spec_spawn_count(armed0, frames.drop_last()) + if spec_spawns(
            spec_armed_after_frames(armed0, frames.drop_last()),
            frames.last().held,
            frames.last().on_ui,
        ) {
            1nat
        } else {
            0nat
        }
    }
}

/// While the pointer stays held, at most one item is ever spawned, and
/// none at all if the latch was already set when the run began.
pub proof fn lemma_at_most_one_spawn_per_press(armed0: bool, frames: Seq<Frame>)
    requires
        forall|i: int| 0 <= i < frames.len() ==> frames[i].held,
    ensures
        spec_spawn_count(armed0, frames) <= 1,
        spec_spawn_count(armed0, frames) >= 1 ==> spec_armed_after_frames(armed0, frames),
        armed0 ==> spec_spawn_count(armed0, frames) == 0 && spec_armed_after_frames(
            armed0,
            frames,
        ),
    decreases frames.len(),
{
    if frames.len() > 0 {
        lemma_at_most_one_spawn_per_press(armed0, frames.drop_last());
    }
}

/// With the pointer held throughout and the latch initially clear, the
/// first frame clear of UI chrome spawns, and it is the only spawn of
/// the whole run.
pub proof fn lemma_spawns_once_at_first_clear_frame(frames: Seq<Frame>, j: int)
    requires
        forall|i: int| 0 <= i < frames.len() ==> frames[i].held,
        0 <= j < frames.len(),
        !frames[j].on_ui,
        forall|i: int| 0 <= i < j ==> frames[i].on_ui,
    ensures
        spec_spawns(
            spec_armed_after_frames(false, frames.take(j)),
            frames[j].held,
            frames[j].on_ui,
        ),
        spec_spawn_count(false, frames) == 1,
{
    lemma_all_on_ui_keeps_latch_clear(frames.take(j));
    assert(frames.take(j + 1).drop_last() =~= frames.take(j));
    assert(spec_spawn_count(false, frames.take(j + 1)) == 1);
    lemma_no_spawn_after_first(frames, j + 1);
}

/// A run of held frames all spent over UI chrome neither spawns nor
/// changes the clear latch.
proof fn lemma_all_on_ui_keeps_latch_clear(frames: Seq<Frame>)
    requires
        forall|i: int| 0 <= i < frames.len() ==> frames[i].held && frames[i].on_ui,
    ensures
        !spec_armed_after_frames(false, frames),
        spec_spawn_count(false, frames) == 0,
    decreases frames.len(),
{
    if frames.len() > 0 {
        lemma_all_on_ui_keeps_latch_clear(frames.drop_last());
    }
}

/// Once a prefix of a held run has spawned and latched, the rest of the
/// run spawns nothing more.
proof fn lemma_no_spawn_after_first(frames: Seq<Frame>, k: int)
    requires
        forall|i: int| 0 <= i < frames.len() ==> frames[i].held,
        0 <= k <= frames.len(),
        spec_armed_after_frames(false, frames.take(k)),
    ensures
        spec_spawn_count(false, frames) == spec_spawn_count(false, frames.take(k)),
        spec_armed_after_frames(false, frames),
    decreases frames.len() - k,
{
    if k < frames.len() {
        assert(frames.take(k + 1).drop_last() =~= frames.take(k));
        lemma_no_spawn_after_first(frames, k + 1);
    } else {
        assert(frames.take(k) =~= frames);
    }
}

/// After the held signal has gone false, the next held frame clear of
/// UI chrome spawns exactly one more item, whatever had happened before
/// the release.
pub proof fn lemma_release_rearms(armed0: bool, frames: Seq<Frame>, r: int, j: int)
    requires
        0 <= r < j < frames.len(),
        !frames[r].held,
        forall|i: int| r < i < j ==> !frames[i].held,
        frames[j].held,
        !frames[j].on_ui,
    ensures
        spec_spawns(
            spec_armed_after_frames(armed0, frames.take(j)),
            frames[j].held,
            frames[j].on_ui,
        ),
        spec_spawn_count(armed0, frames.take(j + 1)) == spec_spawn_count(
            armed0,
            frames.take(r + 1),
        ) + 1,
{
    lemma_released_stretch_stays_clear(armed0, frames, r, j);
    assert(frames.take(j + 1).drop_last() =~= frames.take(j));
}

/// From a released frame up to (but not including) a given later frame,
/// with no held frame in between, the latch stays clear and nothing
/// spawns.
proof fn lemma_released_stretch_stays_clear(armed0: bool, frames: Seq<Frame>, r: int, j: int)
    requires
        0 <= r < j <= frames.len(),
        !frames[r].held,
        forall|i: int| r < i < j ==> !frames[i].held,
    ensures
        !spec_armed_after_frames(armed0, frames.take(j)),
        spec_spawn_count(armed0, frames.take(j)) == spec_spawn_count(armed0, frames.take(r + 1)),
    decreases j - r,
{
    if j == r + 1 {
        assert(frames.take(r + 1).drop_last() =~= frames.take(r));
    } else {
        lemma_released_stretch_stays_clear(armed0, frames, r, j - 1);
        assert(frames.take(j).drop_last() =~= frames.take(j - 1));
    }
}

/// A pointer position inside any UI obstacle suppresses spawning, no
/// matter the held signal or the latch.
pub proof fn lemma_ui_occlusion_suppresses_spawn(
    armed: bool,
    held: bool,
    obstacles: Seq<Rect>,
    p: Point,
    i: int,
)
    requires
        0 <= i < obstacles.len(),
        spec_blocks(obstacles[i], p),
    ensures
        spec_overlaps_ui(obstacles, p),
        !spec_spawns(armed, held, spec_overlaps_ui(obstacles, p)),
{
}

} // verus!
