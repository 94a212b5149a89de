//! Dragging the panel with the pointer.
use vstd::prelude::*;

verus! {

/// The code of the left mouse button.
pub const BTN_LEFT: u32 = 0x110;

/// How many units of a pointer coordinate make one pixel.
pub const SUBPIXELS: i32 = 256;

/// The panel moves when the pointer has gone this far from where it was grabbed: half a pixel.
pub const DRAG_THRESHOLD: i32 = 128;

/// A pointer position relative to the panel, in 1/256 of a pixel, which is the resolution in which
/// the compositor reports it.
#[derive(Clone, Copy, PartialEq, Eq, Structural, Debug)]
pub struct Position {
    pub x: i32,
    pub y: i32,
}

/// What a pointer event tells.
#[derive(Clone, Copy, PartialEq, Eq, Structural, Debug)]
pub enum PointerEventKind {
    Press { button: u32 },
    Release { button: u32 },
    Motion,
    Other,
}

/// A pointer event.
#[derive(Clone, Copy, PartialEq, Eq, Structural, Debug)]
pub struct PointerEvent {
    /// Whether it concerns the panel's surface.
    pub on_panel: bool,
    pub position: Position,
    pub kind: PointerEventKind,
}

impl PointerEvent {
    /// The left button went down on the panel.
    pub open spec fn grabs(self) -> bool {
        self.on_panel && self.kind == (PointerEventKind::Press { button: BTN_LEFT })
    }

    /// The left button went up.
    pub open spec fn lets_go(self) -> bool {
        self.on_panel && self.kind == (PointerEventKind::Release { button: BTN_LEFT })
    }

    /// The pointer moved.
    pub open spec fn moves(self) -> bool {
        self.on_panel && self.kind == PointerEventKind::Motion
    }
}

/// The index of the last event that grabs the panel.
pub open spec fn last_grab(events: Seq<PointerEvent>) -> Option<int>
    decreases events.len(),
{
    if events.len() == 0 {
        None
    } else if events.last().grabs() {
        Some(events.len() - 1)
    } else {
        last_grab(events.drop_last())
    }
}

/// The index of the last motion that drags the panel: one that comes while it is held, be it from
/// before (`held`) or from an earlier one of these events.
pub open spec fn last_drag(held: bool, events: Seq<PointerEvent>) -> Option<int>
    decreases events.len(),
{
    if events.len() == 0 {
        None
    } else if events.last().moves() && (held || last_grab(events.drop_last()) is Some) {
        Some(events.len() - 1)
    } else {
        last_drag(held, events.drop_last())
    }
}

/// Whether one of the events lets go of the panel.
pub open spec fn lets_go(events: Seq<PointerEvent>) -> bool {
    exists|i: int| 0 <= i < events.len() && (#[trigger] events[i]).lets_go()
}

/// What a frame of pointer events amounts to.
pub struct Gesture {
    /// Whether the panel is held, before letting go is seen to.
    pub held: bool,
    /// Where it was grabbed last.
    pub grab: Position,
    /// Where it was dragged to last.
    pub drag: Option<Position>,
    /// Whether it was let go of.
    pub released: bool,
}

/// What these events amount to for a panel that was (`held`) or was not held, at `grab`.
pub open spec fn gesture(held: bool, grab: Position, events: Seq<PointerEvent>) -> Gesture {
    Gesture {
        held: held || last_grab(events) is Some,
        grab: match last_grab(events) {
            Some(i) => events[i].position,
            None => grab,
        },
        drag: match last_drag(held, events) {
            Some(i) => Some(events[i].position),
            None => None,
        },
        released: lets_go(events),
    }
}

/// The indices of grab and drag lie within the events.
proof fn lemma_indices(held: bool, events: Seq<PointerEvent>)
    ensures
        last_grab(events) matches Some(i) ==> 0 <= i < events.len(),
        last_drag(held, events) matches Some(i) ==> 0 <= i < events.len(),
    decreases events.len(),
{
    if events.len() > 0 {
        lemma_indices(held, events.drop_last());
    }
}

/// Reads a frame of pointer events.
pub fn read_gesture(held: bool, grab: Position, events: &[PointerEvent]) -> (read: Gesture)
    ensures
        read == gesture(held, grab, events@),
{
    let mut read = Gesture { held, grab, drag: None, released: false };
    let mut i: usize = 0;
    assert(events@.take(0) =~= Seq::empty());
    while i < events.len()
        invariant
            i <= events.len(),
            read == gesture(held, grab, events@.take(i as int)),
        decreases events.len() - i,
    {
        let event: PointerEvent = events[i];
        let ghost before = events@.take(i as int);
        let ghost after = events@.take(i + 1);
        proof {
            assert(after.drop_last() =~= before);
            assert(after.last() == event);
            lemma_indices(held, before);
            assert(forall|k: int| 0 <= k < i ==> after[k] == before[k]);
            assert(lets_go(after) == (lets_go(before) || event.lets_go())) by {
                if lets_go(before) {
                    let k = choose|k: int| 0 <= k < before.len() && (#[trigger] before[k]).lets_go();
                    assert(after[k].lets_go());
                }
                if event.lets_go() {
                    assert(after[i as int].lets_go());
                }
                if lets_go(after) {
                    let k = choose|k: int| 0 <= k < after.len() && (#[trigger] after[k]).lets_go();
                    if k < i {
                        assert(before[k].lets_go());
                    }
                }
            }
        }
        if event.on_panel {
            match event.kind {
                PointerEventKind::Press { button } => {
                    if button == BTN_LEFT {
                        read.held = true;
                        read.grab = event.position;
                    }
                },
                PointerEventKind::Motion => {
                    if read.held {
                        read.drag = Some(event.position);
                    }
                },
                PointerEventKind::Release { button } => {
                    if button == BTN_LEFT {
                        read.released = true;
                    }
                },
                PointerEventKind::Other => {},
            }
        }
        i = i + 1;
    }
    assert(events@.take(events.len() as int) =~= events@);
    read
}

/// Whether the pointer is far enough from where it grabbed the panel for it to move.
pub open spec fn is_far(grab: Position, pointer: Position) -> bool {
    ||| pointer.x - grab.x >= DRAG_THRESHOLD
    ||| grab.x - pointer.x >= DRAG_THRESHOLD
    ||| pointer.y - grab.y >= DRAG_THRESHOLD
    ||| grab.y - pointer.y >= DRAG_THRESHOLD
}

/// Whether the pointer is far enough from where it grabbed the panel for it to move.
pub fn far(grab: Position, pointer: Position) -> (yes: bool)
    ensures
        yes == is_far(grab, pointer),
{
    let dx: i64 = pointer.x as i64 - grab.x as i64;
    let dy: i64 = pointer.y as i64 - grab.y as i64;
    let threshold: i64 = DRAG_THRESHOLD as i64;
    dx >= threshold || -dx >= threshold || dy >= threshold || -dy >= threshold
}

/// The closest whole number of pixels to `n` 1/256 of one; a half goes away from zero.
pub open spec fn whole_pixels(n: int) -> int {
    if n >= 0 {
        (n + SUBPIXELS / 2) / (SUBPIXELS as int)
    } else {
        -((-n + SUBPIXELS / 2) / (SUBPIXELS as int))
    }
}

/// `n`, or the closer end of the range from zero to `high` where it lies outside.
pub open spec fn confined(n: int, high: int) -> int {
    if n < 0 {
        0
    } else if n > high {
        high
    } else {
        n
    }
}

/// A coordinate of the panel after the pointer took it along from `grab` to `pointer`, kept
/// between zero and `high`.
pub open spec fn dragged(position: i32, grab: i32, pointer: i32, high: int) -> i32 {
    confined(whole_pixels(position * SUBPIXELS + (pointer - grab)), high) as i32
}

/// Moves a coordinate of the panel along with the pointer.
pub fn drag(position: i32, grab: i32, pointer: i32, high: i32) -> (moved: i32)
    requires
        0 <= high,
    ensures
        moved == dragged(position, grab, pointer, high as int),
{
    let start: i64 = position as i64 * SUBPIXELS as i64;
    let way: i64 = pointer as i64 - grab as i64;
    assert(-0x80_0000_0000 <= start <= 0x80_0000_0000) by (nonlinear_arith)
        requires
            start == position * 256,
            i32::MIN <= position <= i32::MAX,
    ;
    let n: i64 = start + way;
    let whole: i64 = if n >= 0 {
        (n + SUBPIXELS as i64 / 2) / SUBPIXELS as i64
    } else {
        -((-n + SUBPIXELS as i64 / 2) / SUBPIXELS as i64)
    };
    if whole < 0 {
        0
    } else if whole > high as i64 {
        high
    } else {
        whole as i32
    }
}

/// A dragged coordinate stays between zero and its upper bound.
pub proof fn law_dragging_stays_in_range(position: i32, grab: i32, pointer: i32, high: i32)
    requires
        0 <= high,
    ensures
        0 <= dragged(position, grab, pointer, high as int) <= high,
{
}

/// Away from the edges the panel follows the pointer to within half a pixel.
pub proof fn law_the_panel_follows_the_pointer(position: i32, grab: i32, pointer: i32, high: i32)
    requires
        0 < dragged(position, grab, pointer, high as int) < high,
    ensures
        ({
            let wanted = position * SUBPIXELS + (pointer - grab);
            let got = dragged(position, grab, pointer, high as int) * SUBPIXELS;
            -DRAG_THRESHOLD <= got - wanted <= DRAG_THRESHOLD
        }),
{
}

/// A click without motion leaves a panel within its range where it is.
pub proof fn law_a_click_does_not_move(position: i32, grab: i32, high: i32)
    requires
        0 <= position <= high,
    ensures
        dragged(position, grab, grab, high as int) == position,
{
}

/// Where a drag ends, by the numbers: at the pixel that is closest to where the pointer took the
/// edge, with a half going up, and at the end of the range where that lies beyond it.
pub proof fn law_where_a_drag_ends(position: i32, grab: i32, pointer: i32, high: i32)
    requires
        0 <= high,
    ensures
        ({
            let wanted = position * 256 + (pointer - grab);
            let got = dragged(position, grab, pointer, high as int);
            &&& 0 <= got <= high
            &&& got > 0 ==> 256 * got - 128 <= wanted
            &&& got < high ==> wanted < 256 * got + 128
        }),
{
}

/// The pointer is far when it is half a pixel or more from the grab, to any side.
pub proof fn law_half_a_pixel_is_far(grab: Position, pointer: Position)
    ensures
        is_far(grab, pointer) <==> !(-128 < pointer.x - grab.x < 128 && -128 < pointer.y - grab.y
            < 128),
{
}

/// The left button goes down on the panel.
pub open spec fn presses_left(event: PointerEvent) -> bool {
    event.on_panel && event.kind == (PointerEventKind::Press { button: 0x110 })
}

/// The left button goes up on the panel.
pub open spec fn releases_left(event: PointerEvent) -> bool {
    event.on_panel && event.kind == (PointerEventKind::Release { button: 0x110 })
}

/// The pointer moves on the panel.
pub open spec fn moves_on_panel(event: PointerEvent) -> bool {
    event.on_panel && event.kind is Motion
}

/// The last press of the left button on the panel grabs it, where it happens; without one the panel
/// is held as it was before.
pub proof fn law_the_last_press_grabs(held: bool, grab: Position, events: Seq<PointerEvent>, i: int)
    ensures
        (forall|k: int| 0 <= k < events.len() ==> !presses_left(#[trigger] events[k])) ==> gesture(
            held,
            grab,
            events,
        ).held == held && gesture(held, grab, events).grab == grab,
        0 <= i < events.len() && presses_left(events[i]) && (forall|k: int|
            i < k < events.len() ==> !presses_left(#[trigger] events[k])) ==> gesture(
            held,
            grab,
            events,
        ).held && gesture(held, grab, events).grab == events[i].position,
        0 <= i < events.len() && presses_left(events[i]) ==> gesture(held, grab, events).held,
    decreases events.len(),
{
    if events.len() > 0 {
        let before = events.drop_last();
        assert(forall|k: int| 0 <= k < before.len() ==> before[k] == events[k]);
        law_the_last_press_grabs(held, grab, before, i);
        lemma_indices(held, before);
        assert(events[events.len() - 1] == events.last());
        if forall|k: int| 0 <= k < events.len() ==> !presses_left(#[trigger] events[k]) {
            assert(forall|k: int| 0 <= k < before.len() ==> !presses_left(#[trigger] before[k]));
        }
    }
}

/// The last motion on a panel that is held drags it, be it held from before or by a press that came
/// earlier; without one it is not dragged.
pub proof fn law_the_last_motion_drags(
    held: bool,
    grab: Position,
    events: Seq<PointerEvent>,
    i: int,
    press: int,
)
    ensures
        0 <= i < events.len() && moves_on_panel(events[i]) && (held || 0 <= press < i
            && presses_left(events[press])) && (forall|k: int|
            i < k < events.len() ==> !moves_on_panel(#[trigger] events[k])) ==> gesture(
            held,
            grab,
            events,
        ).drag == Some(events[i].position),
        (forall|k: int| 0 <= k < events.len() ==> !moves_on_panel(#[trigger] events[k])) ==> gesture(
            held,
            grab,
            events,
        ).drag is None,
        !held && (forall|j: int, k: int|
            0 <= j < k < events.len() && #[trigger] presses_left(events[j])
                ==> !#[trigger] moves_on_panel(events[k])) ==> gesture(held, grab, events).drag is None,
    decreases events.len(),
{
    if events.len() > 0 {
        let before = events.drop_last();
        let last = events.len() - 1;
        assert(forall|k: int| 0 <= k < before.len() ==> before[k] == events[k]);
        law_the_last_motion_drags(held, grab, before, i, press);
        law_the_last_press_grabs(held, grab, before, press);
        lemma_indices(held, before);
        if moves_on_panel(events[last]) && !held && last_grab(before) is Some {
            let j = last_grab(before)->0;
            lemma_grab_is_press(before);
            assert(presses_left(before[j]));
            assert(presses_left(events[j]));
        }
        if forall|k: int| 0 <= k < events.len() ==> !moves_on_panel(#[trigger] events[k]) {
            assert(!moves_on_panel(events[last]));
            assert(forall|k: int| 0 <= k < before.len() ==> !moves_on_panel(#[trigger] before[k]));
        }
        if forall|j: int, k: int|
            0 <= j < k < events.len() && #[trigger] presses_left(events[j])
                ==> !#[trigger] moves_on_panel(events[k]) {
            assert forall|j: int, k: int|
                0 <= j < k < before.len() && #[trigger] presses_left(
                    before[j],
                ) implies !#[trigger] moves_on_panel(before[k]) by {
                assert(presses_left(events[j]));
                assert(!moves_on_panel(events[k]));
            }
        }
    }
}

/// The event of the last grab is a press.
proof fn lemma_grab_is_press(events: Seq<PointerEvent>)
    ensures
        last_grab(events) matches Some(i) ==> 0 <= i < events.len() && presses_left(events[i]),
    decreases events.len(),
{
    if events.len() > 0 {
        lemma_grab_is_press(events.drop_last());
    }
}

/// The panel is let go of where the left button goes up on it.
pub proof fn law_a_release_lets_go(held: bool, grab: Position, events: Seq<PointerEvent>)
    ensures
        gesture(held, grab, events).released <==> exists|i: int|
            0 <= i < events.len() && releases_left(#[trigger] events[i]),
{
    if lets_go(events) {
        let i = choose|i: int| 0 <= i < events.len() && (#[trigger] events[i]).lets_go();
        assert(releases_left(events[i]));
    }
    if exists|i: int| 0 <= i < events.len() && releases_left(#[trigger] events[i]) {
        let i = choose|i: int| 0 <= i < events.len() && releases_left(#[trigger] events[i]);
        assert(events[i].lets_go());
    }
}

} // verus!
