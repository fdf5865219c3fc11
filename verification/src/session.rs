//! The editing session: the tool cursor, the active mode and template,
//! the placed items with their paired erase markers, and the UI
//! obstacles.  The placement and erasure frame steps live here, each
//! pinned to the spec-level transitions of the engine modules.

use vstd::prelude::*;
use crate::erasure::Marker;
use crate::erasure::resolve_topmost;
use crate::erasure::spec_first_max;
use crate::geom::COORD_LIMIT;
use crate::geom::Point;
use crate::geom::Rect;
use crate::geom::SUBPIXELS;
use crate::geom::overlaps_ui;
use crate::geom::spec_overlaps_ui;
use crate::mode::ERASER_GLYPH;
use crate::mode::Mode;
use crate::mode::TEMPLATE_COUNT;
use crate::rng::draw_below;
use crate::weight::spec_is_float_literal;
use crate::weight::spec_normalize_weight;
use crate::weight::spec_without_dots;
use crate::weight::is_float_literal;
use crate::weight::normalize_weight;
use crate::weight::strip_dots;
use crate::placement::spec_armed_after;
use crate::placement::spec_spawns;

verus! {

/// Range of the random depth perturbation drawn at placement, in
/// sub-pixel units: [0, 100) pixels below the cursor's depth, then one
/// pixel forward.
pub const PERTURB_RANGE: u32 = 100_000;

/// Where the tool cursor starts, in sub-pixel units.
pub const INITIAL_CURSOR_X: i64 = 100_000;

/// Where the tool cursor starts, in sub-pixel units.
pub const INITIAL_CURSOR_Y: i64 = 100_000;

/// The tool cursor's stacking depth, in sub-pixel units.
pub const INITIAL_CURSOR_DEPTH: i64 = 900_000;

/// One instantiated structure element: its canvas position and stacking
/// depth in sub-pixel units, its template, and its session-unique
/// identity.  The depth tiebreak is fixed at creation and never changes.
#[derive(Clone, Copy, Debug, PartialEq, Eq, Structural)]
pub struct PlacedItem {
    pub id: u64,
    pub x: i64,
    pub y: i64,
    pub depth: i64,
    pub template: u32,
}

impl PlacedItem {
    /// The item's human-readable label, derived from its template.
    pub fn name(&self) -> (r: String)
        ensures
            r@ == crate::mode::spec_template_name(self.template as int),
    {
        crate::mode::template_name(self.template)
    }
}

/// Whether some marker carries this item identity.
pub open spec fn spec_has_marker(markers: Seq<Marker>, id: u64) -> bool {
    exists|i: int| 0 <= i < markers.len() && markers[i].item == id
}

/// Whether some placed item carries this identity.
pub open spec fn spec_has_item(items: Seq<PlacedItem>, id: u64) -> bool {
    exists|i: int| 0 <= i < items.len() && items[i].id == id
}

/// The index of the item with this identity (unique under `Session::wf`).
pub open spec fn spec_item_index(items: Seq<PlacedItem>, id: u64) -> int {
    choose|i: int| 0 <= i < items.len() && items[i].id == id
}

/// The markers of the pressed identities that exist, in pressed order;
/// identities without a marker are ignored.
pub open spec fn spec_candidates(markers: Seq<Marker>, pressed: Seq<u64>) -> Seq<Marker>
    decreases pressed.len(),
{
    if pressed.len() == 0 {
        Seq::empty()
    } else {
        let rest = spec_candidates(markers, pressed.drop_first());
        if spec_has_marker(markers, pressed[0]) {
            seq![markers[spec_marker_index(markers, pressed[0])]] + rest
        } else {
            rest
        }
    }
}

/// The index of the marker with this item identity (unique under
/// `Session::wf`).
pub open spec fn spec_marker_index(markers: Seq<Marker>, id: u64) -> int {
    choose|i: int| 0 <= i < markers.len() && markers[i].item == id
}

/// The whole editing session.
pub struct Session {
    pub mode: Mode,
    pub template: u32,
    pub cursor_pos: Point,
    pub cursor_depth: i64,
    pub armed: bool,
    pub items: Vec<PlacedItem>,
    pub markers: Vec<Marker>,
    pub obstacles: Vec<Rect>,
    pub next_id: u64,
    pub weight: String,
    pub weight_ok: bool,
    pub fname: String,
}

/// What palette activation does to the mode and the active template:
/// it selects the template and forces building mode.
pub open spec fn spec_select_template(mode: Mode, template: u32, id: u32) -> (Mode, u32) {
    (Mode::Building, id)
}

/// Selecting a template is idempotent: activating the same palette
/// entry again leaves the mode and the active template exactly as the
/// first activation did.
pub proof fn lemma_select_template_idempotent(mode: Mode, template: u32, id: u32)
    ensures
        spec_select_template(
            spec_select_template(mode, template, id).0,
            spec_select_template(mode, template, id).1,
            id,
        ) == spec_select_template(mode, template, id),
{
}

impl Session {
    /// The session's structural invariant: a well-formed cursor, an
    /// in-range template, well-formed obstacles, and the marker list
    /// pairing the item list one-to-one, with identities unique and
    /// below the allocation counter.
    pub open spec fn wf(self) -> bool {
        &&& self.cursor_pos.wf()
        &&& -COORD_LIMIT <= self.cursor_depth <= COORD_LIMIT
        &&& self.template < TEMPLATE_COUNT
        &&& forall|i: int| 0 <= i < self.obstacles@.len() ==> self.obstacles@[i].wf()
        &&& self.markers@.len() == self.items@.len()
        &&& forall|i: int|
            0 <= i < self.items@.len() ==> self.markers@[i].item == self.items@[i].id
                && self.markers@[i].depth == self.items@[i].depth
        &&& forall|i: int| 0 <= i < self.items@.len() ==> self.items@[i].id < self.next_id
        &&& forall|i: int, j: int|
            0 <= i < j < self.items@.len() ==> self.items@[i].id != self.items@[j].id
        &&& forall|i: int|
            0 <= i < self.items@.len() ==> -COORD_LIMIT <= #[trigger] self.items@[i].x
                <= COORD_LIMIT && -COORD_LIMIT <= self.items@[i].y <= COORD_LIMIT
        &&& self.weight_ok == spec_is_float_literal(self.weight@)
    }

    /// Whether the cursor currently sits over any UI obstacle.
    pub open spec fn spec_on_ui(self) -> bool {
        spec_overlaps_ui(self.obstacles@, self.cursor_pos)
    }

    /// The item a spawn at this state would create, given the drawn
    /// perturbation.
    pub open spec fn spec_new_item(self, perturb: u32) -> PlacedItem {
        PlacedItem {
            id: self.next_id,
            x: self.cursor_pos.x,
            y: self.cursor_pos.y,
            depth: (self.cursor_depth - perturb + SUBPIXELS) as i64,
            template: self.template,
        }
    }

    /// A fresh session: building mode, first template selected, latch
    /// clear, nothing placed, no obstacles registered.
    pub fn new() -> (s: Session)
        ensures
            s.wf(),
            s.mode == Mode::Building,
            s.template == 0,
            s.armed == false,
            s.cursor_pos == (Point { x: INITIAL_CURSOR_X, y: INITIAL_CURSOR_Y }),
            s.cursor_depth == INITIAL_CURSOR_DEPTH,
            s.items@.len() == 0,
            s.markers@.len() == 0,
            s.obstacles@.len() == 0,
            s.next_id == 0,
            s.weight@.len() == 0,
            s.weight_ok == false,
            s.fname@.len() == 0,
    {
        proof {
            let e = Seq::<char>::empty();
            assert(!spec_is_float_literal(e));
        }
        Session {
            mode: Mode::Building,
            template: 0,
            cursor_pos: Point { x: INITIAL_CURSOR_X, y: INITIAL_CURSOR_Y },
            cursor_depth: INITIAL_CURSOR_DEPTH,
            armed: false,
            items: Vec::new(),
            markers: Vec::new(),
            obstacles: Vec::new(),
            next_id: 0,
            weight: String::new(),
            weight_ok: false,
            fname: String::new(),
        }
    }

    /// Current tool mode.
    pub fn current_mode(&self) -> (m: Mode)
        ensures
            m == self.mode,
    {
        self.mode
    }

    /// Currently selected template.
    pub fn current_template(&self) -> (t: u32)
        ensures
            t == self.template,
    {
        self.template
    }

    /// The sprite the tool cursor shows: the eraser glyph while erasing,
    /// else the active template.
    pub fn cursor_sprite(&self) -> (s: u32)
        ensures
            s == if self.mode == Mode::Erasing {
                ERASER_GLYPH
            } else {
                self.template
            },
    {
        if self.mode == Mode::Erasing {
            ERASER_GLYPH
        } else {
            self.template
        }
    }

    /// Activates a palette entry: selects its template and forces
    /// building mode; everything else is untouched.
    pub fn select_template(&mut self, id: u32)
        requires
            old(self).wf(),
            id < TEMPLATE_COUNT,
        ensures
            final(self).wf(),
            (final(self).mode, final(self).template) == spec_select_template(
                old(self).mode,
                old(self).template,
                id,
            ),
            final(self).cursor_pos == old(self).cursor_pos,
            final(self).cursor_depth == old(self).cursor_depth,
            final(self).armed == old(self).armed,
            final(self).items@ == old(self).items@,
            final(self).markers@ == old(self).markers@,
            final(self).obstacles@ == old(self).obstacles@,
            final(self).next_id == old(self).next_id,
            final(self).weight@ == old(self).weight@,
            final(self).weight_ok == old(self).weight_ok,
            final(self).fname@ == old(self).fname@,
    {
        self.mode = Mode::Building;
        self.template = id;
    }

    /// Activates the eraser button: forces erasing mode; the selected
    /// template and everything else are untouched.
    pub fn select_erase(&mut self)
        requires
            old(self).wf(),
        ensures
            final(self).wf(),
            final(self).mode == Mode::Erasing,
            final(self).template == old(self).template,
            final(self).cursor_pos == old(self).cursor_pos,
            final(self).cursor_depth == old(self).cursor_depth,
            final(self).armed == old(self).armed,
            final(self).items@ == old(self).items@,
            final(self).markers@ == old(self).markers@,
            final(self).obstacles@ == old(self).obstacles@,
            final(self).next_id == old(self).next_id,
            final(self).weight@ == old(self).weight@,
            final(self).weight_ok == old(self).weight_ok,
            final(self).fname@ == old(self).fname@,
    {
        self.mode = Mode::Erasing;
    }

    /// Moves the tool cursor to the pointer's position.
    pub fn set_pointer(&mut self, p: Point)
        requires
            old(self).wf(),
            p.wf(),
        ensures
            final(self).wf(),
            final(self).cursor_pos == p,
            final(self).mode == old(self).mode,
            final(self).template == old(self).template,
            final(self).cursor_depth == old(self).cursor_depth,
            final(self).armed == old(self).armed,
            final(self).items@ == old(self).items@,
            final(self).markers@ == old(self).markers@,
            final(self).obstacles@ == old(self).obstacles@,
            final(self).next_id == old(self).next_id,
            final(self).weight@ == old(self).weight@,
            final(self).weight_ok == old(self).weight_ok,
            final(self).fname@ == old(self).fname@,
    {
        self.cursor_pos = p;
    }

    /// Registers a UI obstacle rectangle that placement must avoid.
    pub fn add_obstacle(&mut self, r: Rect)
        requires
            old(self).wf(),
            r.wf(),
        ensures
            final(self).wf(),
            final(self).obstacles@ == old(self).obstacles@.push(r),
            final(self).mode == old(self).mode,
            final(self).template == old(self).template,
            final(self).cursor_pos == old(self).cursor_pos,
            final(self).cursor_depth == old(self).cursor_depth,
            final(self).armed == old(self).armed,
            final(self).items@ == old(self).items@,
            final(self).markers@ == old(self).markers@,
            final(self).next_id == old(self).next_id,
            final(self).weight@ == old(self).weight@,
            final(self).weight_ok == old(self).weight_ok,
            final(self).fname@ == old(self).fname@,
    {
        self.obstacles.push(r);
    }

    /// Number of placed items.
    pub fn item_count(&self) -> (n: usize)
        ensures
            n == self.items@.len(),
    {
        self.items.len()
    }

    /// The placed item at an index.
    pub fn get_item(&self, k: usize) -> (it: PlacedItem)
        requires
            k < self.items@.len(),
        ensures
            it == self.items@[k as int],
    {
        self.items[k]
    }

    /// Number of erase markers (always equal to the number of items in
    /// a well-formed session).
    pub fn marker_count(&self) -> (n: usize)
        ensures
            n == self.markers@.len(),
    {
        self.markers.len()
    }

    /// The erase marker at an index.
    pub fn get_marker(&self, k: usize) -> (m: Marker)
        requires
            k < self.markers@.len(),
        ensures
            m == self.markers@[k as int],
    {
        self.markers[k]
    }
}

/// The placement engine's whole frame transition, with the drawn
/// perturbation made explicit: outside building mode nothing happens;
/// otherwise the armed latch follows the held signal and the occlusion
/// state, and a spawning frame appends exactly one item with its paired
/// marker and consumes one identity.
pub open spec fn spec_place_transition(
    pre: Session,
    post: Session,
    held: bool,
    perturb: u32,
    r: Option<u64>,
) -> bool {
    &&& post.mode == pre.mode
    &&& post.template == pre.template
    &&& post.cursor_pos == pre.cursor_pos
    &&& post.cursor_depth == pre.cursor_depth
    &&& post.obstacles@ == pre.obstacles@
    &&& post.weight@ == pre.weight@
    &&& post.weight_ok == pre.weight_ok
    &&& post.fname@ == pre.fname@
    &&& if pre.mode != Mode::Building {
        &&& post.armed == pre.armed
        &&& post.items@ == pre.items@
        &&& post.markers@ == pre.markers@
        &&& post.next_id == pre.next_id
        &&& r is None
    } else {
        &&& post.armed == spec_armed_after(pre.armed, held, pre.spec_on_ui())
        &&& (r is Some <==> spec_spawns(pre.armed, held, pre.spec_on_ui()))
        &&& if r is Some {
            &&& r == Some(pre.next_id)
            &&& post.items@ == pre.items@.push(pre.spec_new_item(perturb))
            &&& post.markers@ == pre.markers@.push(
                (Marker { item: pre.next_id, depth: pre.spec_new_item(perturb).depth }),
            )
            &&& post.next_id == pre.next_id + 1
        } else {
            &&& post.items@ == pre.items@
            &&& post.markers@ == pre.markers@
            &&& post.next_id == pre.next_id
        }
    }
}

impl Session {
    /// One placement frame with the depth perturbation supplied by the
    /// caller: spawns at most one item, as `spec_place_transition`
    /// states.
    pub fn place_frame_with(&mut self, held: bool, perturb: u32) -> (r: Option<u64>)
        requires
            old(self).wf(),
            old(self).next_id < u64::MAX,
            perturb < PERTURB_RANGE,
        ensures
            final(self).wf(),
            spec_place_transition(*old(self), *final(self), held, perturb, r),
    {
        if !matches!(self.mode, Mode::Building) {
            return None;
        }
        if !held {
            self.armed = false;
            return None;
        }
        if self.armed {
            return None;
        }
        let on_ui = overlaps_ui(&self.cursor_pos, &self.obstacles);
        if on_ui {
            return None;
        }
        let id: u64 = self.next_id;
        let depth: i64 = self.cursor_depth - (perturb as i64) + SUBPIXELS;
        let item = PlacedItem {
            id,
            x: self.cursor_pos.x,
            y: self.cursor_pos.y,
            depth,
            template: self.template,
        };
        self.items.push(item);
        self.markers.push(Marker { item: id, depth });
        self.next_id = id + 1;
        self.armed = true;
        Some(id)
    }

    /// One placement frame, drawing the depth perturbation at random:
    /// whatever is drawn, the transition is a placement transition for
    /// some in-range perturbation, so a spawned item's depth lies within
    /// one pixel in front of the cursor and a hundred pixels behind it.
    pub fn place_frame(&mut self, held: bool) -> (r: Option<u64>)
        requires
            old(self).wf(),
            old(self).next_id < u64::MAX,
        ensures
            final(self).wf(),
            exists|perturb: u32|
                perturb < PERTURB_RANGE && spec_place_transition(
                    *old(self),
                    *final(self),
                    held,
                    perturb,
                    r,
                ),
            old(self).mode == Mode::Building ==> (r is Some <==> spec_spawns(
                old(self).armed,
                held,
                old(self).spec_on_ui(),
            )),
            r matches Some(id) ==> {
                &&& id == old(self).next_id
                &&& final(self).items@.len() == old(self).items@.len() + 1
                &&& final(self).items@.last().id == id
                &&& final(self).items@.last().x == old(self).cursor_pos.x
                &&& final(self).items@.last().y == old(self).cursor_pos.y
                &&& final(self).items@.last().template == old(self).template
                &&& old(self).cursor_depth - PERTURB_RANGE < final(self).items@.last().depth
                    <= old(self).cursor_depth + SUBPIXELS
            },
    {
        let perturb = draw_below(PERTURB_RANGE);
        let r = self.place_frame_with(held, perturb);
        r
    }
}

/// Finds the first marker carrying this item identity.
fn find_marker(markers: &Vec<Marker>, id: u64) -> (r: Option<usize>)
    ensures
        r is Some <==> spec_has_marker(markers@, id),
        r matches Some(i) ==> {
            &&& 0 <= i < markers@.len()
            &&& markers@[i as int].item == id
            &&& forall|j: int| 0 <= j < i ==> markers@[j].item != id
        },
{
    let mut k: usize = 0;
    while k < markers.len()
        invariant
            k <= markers@.len(),
            forall|j: int| 0 <= j < k ==> markers@[j].item != id,
        decreases markers@.len() - k,
    {
        if markers[k].item == id {
            return Some(k);
        }
        k += 1;
    }
    None
}

/// Finds the first placed item carrying this identity.
fn find_item(items: &Vec<PlacedItem>, id: u64) -> (r: Option<usize>)
    ensures
        r is Some <==> spec_has_item(items@, id),
        r matches Some(i) ==> {
            &&& 0 <= i < items@.len()
            &&& items@[i as int].id == id
            &&& forall|j: int| 0 <= j < i ==> items@[j].id != id
        },
{
    let mut k: usize = 0;
    while k < items.len()
        invariant
            k <= items@.len(),
            forall|j: int| 0 <= j < k ==> items@[j].id != id,
        decreases items@.len() - k,
    {
        if items[k].id == id {
            return Some(k);
        }
        k += 1;
    }
    None
}

/// Gathers the markers of the pressed identities, in pressed order.
fn collect_candidates(markers: &Vec<Marker>, pressed: &Vec<u64>) -> (cands: Vec<Marker>)
    requires
        forall|i: int, j: int|
            0 <= i < j < markers@.len() ==> markers@[i].item != markers@[j].item,
    ensures
        cands@ == spec_candidates(markers@, pressed@),
{
    let mut cands: Vec<Marker> = Vec::new();
    let mut k: usize = 0;
    proof {
        assert(pressed@.skip(0) =~= pressed@);
        assert(cands@ + spec_candidates(markers@, pressed@) =~= spec_candidates(
            markers@,
            pressed@,
        ));
    }
    while k < pressed.len()
        invariant
            k <= pressed@.len(),
            forall|i: int, j: int|
                0 <= i < j < markers@.len() ==> markers@[i].item != markers@[j].item,
            spec_candidates(markers@, pressed@) == cands@ + spec_candidates(
                markers@,
                pressed@.skip(k as int),
            ),
        decreases pressed@.len() - k,
    {
        let ghost suffix = pressed@.skip(k as int);
        proof {
            assert(suffix.drop_first() =~= pressed@.skip(k as int + 1));
            assert(suffix[0] == pressed@[k as int]);
        }
        let id: u64 = pressed[k];
        match find_marker(markers, id) {
            Some(i) => {
                proof {
                    let c = spec_marker_index(markers@, id);
                    assert(0 <= c < markers@.len() && markers@[c].item == id);
                    assert(markers@[i as int] == markers@[c]);
                    assert(cands@.push(markers@[i as int]) + spec_candidates(
                        markers@,
                        pressed@.skip(k as int + 1),
                    ) =~= cands@ + (seq![markers@[c]] + spec_candidates(
                        markers@,
                        pressed@.skip(k as int + 1),
                    )));
                }
                let m = markers[i];
                cands.push(m);
            },
            None => {
            },
        }
        k += 1;
    }
    proof {
        assert(pressed@.skip(pressed@.len() as int) =~= Seq::<u64>::empty());
        assert(cands@ + Seq::<Marker>::empty() =~= cands@);
    }
    cands
}

/// Every candidate is one of the session's markers.
proof fn lemma_candidates_from_markers(markers: Seq<Marker>, pressed: Seq<u64>)
    ensures
        forall|c: int|
            0 <= c < spec_candidates(markers, pressed).len() ==> spec_has_marker(
                markers,
                #[trigger] spec_candidates(markers, pressed)[c].item,
            ),
    decreases pressed.len(),
{
    if pressed.len() > 0 {
        lemma_candidates_from_markers(markers, pressed.drop_first());
        let rest = spec_candidates(markers, pressed.drop_first());
        if spec_has_marker(markers, pressed[0]) {
            let c0 = spec_marker_index(markers, pressed[0]);
            assert(0 <= c0 < markers.len() && markers[c0].item == pressed[0]);
            let full = seq![markers[c0]] + rest;
            assert(spec_candidates(markers, pressed) == full);
            assert forall|c: int| 0 <= c < full.len() implies spec_has_marker(
                markers,
                #[trigger] full[c].item,
            ) by {
                if c == 0 {
                    assert(full[0] == markers[c0]);
                } else {
                    assert(full[c] == rest[c - 1]);
                }
            }
        } else {
            assert(spec_candidates(markers, pressed) == rest);
        }
    }
}

impl Session {
    /// One erasure frame: of the pressed erase markers that exist,
    /// exactly the topmost one (greatest depth tiebreak, first pressed
    /// on a tie) is removed, together with its paired item — both or
    /// neither.  Pressed identities without a marker, an empty press
    /// set, or a session not in erasing mode leave everything unchanged.
    pub fn erase_tick(&mut self, pressed: &Vec<u64>) -> (r: Option<u64>)
        requires
            old(self).wf(),
        ensures
            final(self).wf(),
            final(self).mode == old(self).mode,
            final(self).template == old(self).template,
            final(self).cursor_pos == old(self).cursor_pos,
            final(self).cursor_depth == old(self).cursor_depth,
            final(self).armed == old(self).armed,
            final(self).obstacles@ == old(self).obstacles@,
            final(self).next_id == old(self).next_id,
            final(self).weight@ == old(self).weight@,
            final(self).weight_ok == old(self).weight_ok,
            final(self).fname@ == old(self).fname@,
            old(self).mode != Mode::Erasing ==> final(self).items@ == old(self).items@
                && final(self).markers@ == old(self).markers@ && r is None,
            old(self).mode == Mode::Erasing ==> {
                let cands = spec_candidates(old(self).markers@, pressed@);
                &&& (r is None <==> cands.len() == 0)
                &&& (r is None ==> final(self).items@ == old(self).items@
                    && final(self).markers@ == old(self).markers@)
                &&& (r matches Some(id) ==> {
                    let k = spec_item_index(old(self).items@, id);
                    &&& id == spec_first_max(cands).item
                    &&& spec_has_item(old(self).items@, id)
                    &&& 0 <= k < old(self).items@.len()
                    &&& final(self).items@ == old(self).items@.remove(k)
                    &&& final(self).markers@ == old(self).markers@.remove(k)
                })
            },
    {
        if !matches!(self.mode, Mode::Erasing) {
            return None;
        }
        proof {
            assert forall|i: int, j: int|
                0 <= i < j < self.markers@.len() implies self.markers@[i].item
                != self.markers@[j].item by {
                assert(self.markers@[i].item == self.items@[i].id);
                assert(self.markers@[j].item == self.items@[j].id);
            }
        }
        let cands = collect_candidates(&self.markers, pressed);
        let resolved = resolve_topmost(&cands);
        match resolved {
            None => None,
            Some(ci) => {
                let winner: Marker = cands[ci];
                proof {
                    lemma_candidates_from_markers(self.markers@, pressed@);
                    assert(spec_has_marker(self.markers@, winner.item));
                    let mi = choose|i: int|
                        0 <= i < self.markers@.len() && self.markers@[i].item == winner.item;
                    assert(self.items@[mi].id == winner.item);
                    assert(spec_has_item(self.items@, winner.item));
                }
                let k = find_item(&self.items, winner.item).unwrap();
                proof {
                    let c = spec_item_index(self.items@, winner.item);
                    assert(0 <= c < self.items@.len() && self.items@[c].id == winner.item);
                    assert(c == k as int);
                    self.items@.remove_ensures(k as int);
                    self.markers@.remove_ensures(k as int);
                }
                self.items.remove(k);
                self.markers.remove(k);
                Some(winner.item)
            },
        }
    }

    /// Markers and items pair one-to-one: in a well-formed session an
    /// identity has an erase marker exactly when it has a placed item,
    /// so neither ever outlives the other.
    pub proof fn lemma_paired_destruction(self)
        requires
            self.wf(),
        ensures
            forall|id: u64|
                #[trigger] spec_has_item(self.items@, id) <==> spec_has_marker(
                    self.markers@,
                    id,
                ),
    {
        assert forall|id: u64|
            #[trigger] spec_has_item(self.items@, id) <==> spec_has_marker(
            self.markers@,
            id,
        ) by {
            if spec_has_item(self.items@, id) {
                let i = choose|i: int| 0 <= i < self.items@.len() && self.items@[i].id == id;
                assert(self.markers@[i].item == id);
            }
            if spec_has_marker(self.markers@, id) {
                let i = choose|i: int|
                    0 <= i < self.markers@.len() && self.markers@[i].item == id;
                assert(self.items@[i].id == id);
            }
        }
    }

    /// Takes the weight text as typed: stores it normalized and records
    /// whether it reads as a decimal floating-point literal, which is
    /// what gates the export.
    pub fn set_weight(&mut self, text: &str)
        requires
            old(self).wf(),
        ensures
            final(self).wf(),
            final(self).weight@ == spec_normalize_weight(text@),
            final(self).weight_ok == spec_is_float_literal(spec_normalize_weight(text@)),
            final(self).mode == old(self).mode,
            final(self).template == old(self).template,
            final(self).cursor_pos == old(self).cursor_pos,
            final(self).cursor_depth == old(self).cursor_depth,
            final(self).armed == old(self).armed,
            final(self).items@ == old(self).items@,
            final(self).markers@ == old(self).markers@,
            final(self).obstacles@ == old(self).obstacles@,
            final(self).next_id == old(self).next_id,
            final(self).fname@ == old(self).fname@,
    {
        let w = normalize_weight(text);
        self.weight_ok = is_float_literal(w.as_str());
        self.weight = w;
    }

    /// Whether the stored weight text permits an export.
    pub fn weight_ready(&self) -> (b: bool)
        ensures
            b == self.weight_ok,
    {
        self.weight_ok
    }

    /// The stored, normalized weight text.
    pub fn weight_text(&self) -> (r: String)
        ensures
            r@ == self.weight@,
    {
        self.weight.clone()
    }

    /// Takes the export file name as typed, with every dot removed.
    pub fn set_file_name(&mut self, text: &str)
        requires
            old(self).wf(),
        ensures
            final(self).wf(),
            final(self).fname@ == spec_without_dots(text@),
            final(self).mode == old(self).mode,
            final(self).template == old(self).template,
            final(self).cursor_pos == old(self).cursor_pos,
            final(self).cursor_depth == old(self).cursor_depth,
            final(self).armed == old(self).armed,
            final(self).items@ == old(self).items@,
            final(self).markers@ == old(self).markers@,
            final(self).obstacles@ == old(self).obstacles@,
            final(self).next_id == old(self).next_id,
            final(self).weight@ == old(self).weight@,
            final(self).weight_ok == old(self).weight_ok,
    {
        self.fname = strip_dots(text);
    }

    /// The stored export file name.
    pub fn file_name(&self) -> (r: String)
        ensures
            r@ == self.fname@,
    {
        self.fname.clone()
    }
}

/// Maps a window-space pointer position (origin top-left, y growing
/// downward) to the canvas space the items live in (origin at the
/// window's center, y growing upward), in sub-pixel units.
pub fn screen_to_world(sx: i64, sy: i64, win_w: i64, win_h: i64) -> (p: Point)
    requires
        -COORD_LIMIT / 2 <= sx <= COORD_LIMIT / 2,
        -COORD_LIMIT / 2 <= sy <= COORD_LIMIT / 2,
        0 <= win_w <= COORD_LIMIT,
        0 <= win_h <= COORD_LIMIT,
    ensures
        p.wf(),
        p.x == sx - win_w / 2,
        p.y == -sy + win_h / 2,
{
    let half_w: i64 = ((win_w as u64) / 2) as i64;
    let half_h: i64 = ((win_h as u64) / 2) as i64;
    Point { x: sx - half_w, y: -sy + half_h }
}

} // verus!
