//! The pointer's state machine: press, drag, release.

use crate::geometry::{check_cursor_in_icon, in_circle, minus, scene_of, to_scene};
use crate::geometry::{lemma_in_circle_bounds, DevicePoint, Point, Window};
use crate::scene::{at_most_one_held, held_at, icon_ok, icons_ok, Icon, Scene};
use vstd::prelude::*;

verus! {

/// What the primary button did since the last frame.
#[derive(Clone, Copy, Debug, PartialEq, Eq, Structural)]
pub enum Button {
    JustPressed,
    Held,
    JustReleased,
    Idle,
}

/// What the input devices report for one frame. The cursor is `None` while
/// the pointer is outside the window.
#[derive(Clone, Copy, Debug, PartialEq, Eq)]
pub struct Input {
    pub cursor: Option<DevicePoint>,
    pub window: Window,
    pub button: Button,
}

/// What a frame did to the scene, for the host to act on. Each variant but
/// the first names the icon by its identity.
#[derive(Clone, Copy, Debug, PartialEq, Eq, Structural)]
pub enum Effect {
    /// Nothing changed.
    Nothing,
    /// The icon was picked up: the click is due.
    Grabbed { id: usize },
    /// The held icon followed the cursor.
    Moved { id: usize },
    /// The held icon was dropped on the trash bin and is gone.
    Removed { id: usize },
    /// The held icon was let go where it is.
    Dropped { id: usize },
}

/// Some icon is held.
pub open spec fn any_held(icons: Seq<Icon>) -> bool {
    exists|i: int| held_at(icons, i)
}

/// The index of a held icon, where there is one.
pub open spec fn held_index(icons: Seq<Icon>) -> int {
    choose|i: int| held_at(icons, i)
}

/// The cursor is within `radius` of the icon at index `i`.
pub open spec fn hit_at(icons: Seq<Icon>, cursor: Point, radius: u32, i: int) -> bool {
    0 <= i < icons.len() && in_circle(cursor, icons[i].position, radius)
}

/// The cursor hits the icon at index `i` and none before it.
pub open spec fn first_hit_at(icons: Seq<Icon>, cursor: Point, radius: u32, i: int) -> bool {
    hit_at(icons, cursor, radius, i) && forall|j: int|
        0 <= j < i ==> !hit_at(icons, cursor, radius, j)
}

/// The cursor hits some icon.
pub open spec fn any_hit(icons: Seq<Icon>, cursor: Point, radius: u32) -> bool {
    exists|i: int| hit_at(icons, cursor, radius, i)
}

/// The index of the first icon that the cursor hits, where there is one.
pub open spec fn first_hit(icons: Seq<Icon>, cursor: Point, radius: u32) -> int {
    choose|i: int| first_hit_at(icons, cursor, radius, i)
}

/// A press picks up an icon: none is held yet and the cursor hits one.
pub open spec fn press_grabs(icons: Seq<Icon>, cursor: Point, radius: u32) -> bool {
    !any_held(icons) && any_hit(icons, cursor, radius)
}

/// The icons after the one at index `i` was picked up at `cursor`.
pub open spec fn grab_at(icons: Seq<Icon>, i: int, cursor: Point) -> Seq<Icon> {
    icons.update(i, Icon { grab: Some(minus(cursor, icons[i].position)), ..icons[i] })
}

/// The icons after the held one at index `i` followed the cursor.
pub open spec fn move_at(icons: Seq<Icon>, i: int, cursor: Point) -> Seq<Icon> {
    icons.update(i, Icon { position: minus(cursor, icons[i].grab.unwrap()), ..icons[i] })
}

/// The icons after the one at index `i` was let go.
pub open spec fn drop_at(icons: Seq<Icon>, i: int) -> Seq<Icon> {
    icons.update(i, Icon { grab: None, ..icons[i] })
}

/// The icons after a press at `cursor`.
pub open spec fn press_spec(icons: Seq<Icon>, cursor: Point, radius: u32) -> Seq<Icon> {
    if press_grabs(icons, cursor, radius) {
        grab_at(icons, first_hit(icons, cursor, radius), cursor)
    } else {
        icons
    }
}

/// What a press at `cursor` reports.
pub open spec fn press_effect(icons: Seq<Icon>, cursor: Point, radius: u32) -> Effect {
    if press_grabs(icons, cursor, radius) {
        Effect::Grabbed { id: icons[first_hit(icons, cursor, radius)].id }
    } else {
        Effect::Nothing
    }
}

/// The icons after the button was down for a frame with the cursor at
/// `cursor`.
pub open spec fn drag_spec(icons: Seq<Icon>, cursor: Point) -> Seq<Icon> {
    if any_held(icons) {
        move_at(icons, held_index(icons), cursor)
    } else {
        icons
    }
}

/// What such a frame reports.
pub open spec fn drag_effect(icons: Seq<Icon>) -> Effect {
    if any_held(icons) {
        Effect::Moved { id: icons[held_index(icons)].id }
    } else {
        Effect::Nothing
    }
}

/// The icons after a release at `cursor`.
pub open spec fn release_spec(icons: Seq<Icon>, cursor: Point, trash: Point, radius: u32) -> Seq<
    Icon,
> {
    if !any_held(icons) {
        icons
    } else if in_circle(cursor, trash, radius) {
        icons.remove(held_index(icons))
    } else {
        drop_at(icons, held_index(icons))
    }
}

/// What a release at `cursor` reports.
pub open spec fn release_effect(
    icons: Seq<Icon>,
    cursor: Point,
    trash: Point,
    radius: u32,
) -> Effect {
    if !any_held(icons) {
        Effect::Nothing
    } else if in_circle(cursor, trash, radius) {
        Effect::Removed { id: icons[held_index(icons)].id }
    } else {
        Effect::Dropped { id: icons[held_index(icons)].id }
    }
}

/// The icons after one frame. Without a cursor nothing happens. A frame in
/// which the button went down is a press and then a drag.
pub open spec fn step_spec(icons: Seq<Icon>, trash: Point, radius: u32, input: Input) -> Seq<
    Icon,
> {
    match input.cursor {
        None => icons,
        Some(device) => {
            let cursor = scene_of(device, input.window);
            match input.button {
                Button::JustPressed => drag_spec(press_spec(icons, cursor, radius), cursor),
                Button::Held => drag_spec(icons, cursor),
                Button::JustReleased => release_spec(icons, cursor, trash, radius),
                Button::Idle => icons,
            }
        },
    }
}

/// What one frame reports. A press that picks up an icon reports that; one
/// that does not reports what the drag did.
pub open spec fn step_effect(icons: Seq<Icon>, trash: Point, radius: u32, input: Input) -> Effect {
    match input.cursor {
        None => Effect::Nothing,
        Some(device) => {
            let cursor = scene_of(device, input.window);
            match input.button {
                Button::JustPressed => if press_grabs(icons, cursor, radius) {
                    press_effect(icons, cursor, radius)
                } else {
                    drag_effect(icons)
                },
                Button::Held => drag_effect(icons),
                Button::JustReleased => release_effect(icons, cursor, trash, radius),
                Button::Idle => Effect::Nothing,
            }
        },
    }
}

/// No cursor that comes from a device point and a window lies further than
/// this from the origin along an axis.
pub const CURSOR_LIMIT: i64 = 0x1_0000_0000;

/// The cursor is one that a device point and a window can give.
pub open spec fn reachable(cursor: Point) -> bool {
    &&& -CURSOR_LIMIT <= cursor.x <= CURSOR_LIMIT
    &&& -CURSOR_LIMIT <= cursor.y <= CURSOR_LIMIT
}

/// Where at most one icon is held, the held one's index is `held_index`.
pub proof fn lemma_held_index(icons: Seq<Icon>, i: int)
    requires
        at_most_one_held(icons),
        held_at(icons, i),
    ensures
        any_held(icons),
        held_index(icons) == i,
{
    assert(held_at(icons, held_index(icons)));
}

/// The first icon hit is `first_hit`.
pub proof fn lemma_first_hit(icons: Seq<Icon>, cursor: Point, radius: u32, i: int)
    requires
        first_hit_at(icons, cursor, radius, i),
    ensures
        any_hit(icons, cursor, radius),
        first_hit(icons, cursor, radius) == i,
{
    let k = first_hit(icons, cursor, radius);
    assert(first_hit_at(icons, cursor, radius, k));
    assert(hit_at(icons, cursor, radius, i));
    assert(hit_at(icons, cursor, radius, k));
}

/// Where some icon is hit, one is hit first.
pub proof fn lemma_least_hit(icons: Seq<Icon>, cursor: Point, radius: u32, k: int)
    requires
        hit_at(icons, cursor, radius, k),
    ensures
        exists|i: int| first_hit_at(icons, cursor, radius, i),
    decreases k,
{
    if exists|j: int| 0 <= j < k && hit_at(icons, cursor, radius, j) {
        let j = choose|j: int| 0 <= j < k && hit_at(icons, cursor, radius, j);
        lemma_least_hit(icons, cursor, radius, j);
    } else {
        assert(first_hit_at(icons, cursor, radius, k));
    }
}

/// The offset that a hit icon is grabbed with is the cursor's position less
/// the icon's, coordinate by coordinate.
pub proof fn lemma_grab_offset(icons: Seq<Icon>, cursor: Point, radius: u32, i: int)
    requires
        hit_at(icons, cursor, radius, i),
    ensures
        grab_at(icons, i, cursor)[i].grab is Some,
        grab_at(icons, i, cursor)[i].grab.unwrap().x == cursor.x - icons[i].position.x,
        grab_at(icons, i, cursor)[i].grab.unwrap().y == cursor.y - icons[i].position.y,
        grab_at(icons, i, cursor)[i].position == icons[i].position,
{
    lemma_in_circle_bounds(cursor, icons[i].position, radius);
}

/// The position that a held icon is dragged to is the cursor's position less
/// the grab offset, coordinate by coordinate.
pub proof fn lemma_drag_position(
    icons: Seq<Icon>,
    count: usize,
    radius: u32,
    cursor: Point,
    i: int,
)
    requires
        icons_ok(icons, count, radius),
        reachable(cursor),
        held_at(icons, i),
    ensures
        move_at(icons, i, cursor)[i].position.x == cursor.x - icons[i].grab.unwrap().x,
        move_at(icons, i, cursor)[i].position.y == cursor.y - icons[i].grab.unwrap().y,
        move_at(icons, i, cursor)[i].grab == icons[i].grab,
{
    assert(icon_ok(icons[i], count, radius));
}

/// Putting another icon of the same identity at index `i` keeps the
/// invariant, where the new one is in order by itself and is held only if no
/// other icon is.
pub proof fn lemma_update_keeps(icons: Seq<Icon>, count: usize, radius: u32, i: int, icon: Icon)
    requires
        icons_ok(icons, count, radius),
        0 <= i < icons.len(),
        icon.id == icons[i].id,
        icon_ok(icon, count, radius),
        icon.grab is Some ==> forall|j: int| held_at(icons, j) ==> j == i,
    ensures
        icons_ok(icons.update(i, icon), count, radius),
{
    let after = icons.update(i, icon);
    assert forall|a: int, b: int| held_at(after, a) && held_at(after, b) implies a == b by {
        if a != i {
            assert(held_at(icons, a));
        }
        if b != i {
            assert(held_at(icons, b));
        }
    }
    assert forall|a: int| 0 <= a < after.len() implies icon_ok(
        #[trigger] after[a],
        count,
        radius,
    ) by {
        if a != i {
            assert(after[a] == icons[a]);
        }
    }
    assert forall|a: int, b: int|
        0 <= a < after.len() && 0 <= b < after.len() && a != b implies (#[trigger] after[a]).id
        != (#[trigger] after[b]).id by {
        assert(after[a].id == icons[a].id);
        assert(after[b].id == icons[b].id);
    }
}

/// Taking the icon at index `i` away keeps the invariant.
pub proof fn lemma_remove_keeps(icons: Seq<Icon>, count: usize, radius: u32, i: int)
    requires
        icons_ok(icons, count, radius),
        0 <= i < icons.len(),
    ensures
        icons_ok(icons.remove(i), count, radius),
{
    let after = icons.remove(i);
    assert forall|a: int| 0 <= a < after.len() implies after[a] == icons[if a < i {
        a
    } else {
        a + 1
    }] by {}
    assert forall|a: int, b: int| held_at(after, a) && held_at(after, b) implies a == b by {
        assert(held_at(icons, if a < i { a } else { a + 1 }));
        assert(held_at(icons, if b < i { b } else { b + 1 }));
    }
    assert forall|a: int| 0 <= a < after.len() implies icon_ok(
        #[trigger] after[a],
        count,
        radius,
    ) by {
        assert(after[a] == icons[if a < i { a } else { a + 1 }]);
    }
    assert forall|a: int, b: int|
        0 <= a < after.len() && 0 <= b < after.len() && a != b implies (#[trigger] after[a]).id
        != (#[trigger] after[b]).id by {
        assert(after[a] == icons[if a < i { a } else { a + 1 }]);
        assert(after[b] == icons[if b < i { b } else { b + 1 }]);
    }
}

/// A press keeps the invariant.
pub proof fn lemma_press_keeps(icons: Seq<Icon>, count: usize, radius: u32, cursor: Point)
    requires
        icons_ok(icons, count, radius),
    ensures
        icons_ok(press_spec(icons, cursor, radius), count, radius),
        press_grabs(icons, cursor, radius) ==> first_hit_at(
            icons,
            cursor,
            radius,
            first_hit(icons, cursor, radius),
        ),
{
    if press_grabs(icons, cursor, radius) {
        let k = choose|k: int| hit_at(icons, cursor, radius, k);
        lemma_least_hit(icons, cursor, radius, k);
        let i = first_hit(icons, cursor, radius);
        lemma_in_circle_bounds(cursor, icons[i].position, radius);
        assert(icon_ok(icons[i], count, radius));
        let icon = Icon { grab: Some(minus(cursor, icons[i].position)), ..icons[i] };
        lemma_update_keeps(icons, count, radius, i, icon);
    }
}

/// A drag keeps the invariant.
pub proof fn lemma_drag_keeps(icons: Seq<Icon>, count: usize, radius: u32, cursor: Point)
    requires
        icons_ok(icons, count, radius),
        reachable(cursor),
    ensures
        icons_ok(drag_spec(icons, cursor), count, radius),
{
    if any_held(icons) {
        let i = held_index(icons);
        assert(icon_ok(icons[i], count, radius));
        let icon = Icon { position: minus(cursor, icons[i].grab.unwrap()), ..icons[i] };
        lemma_update_keeps(icons, count, radius, i, icon);
    }
}

/// A release keeps the invariant.
pub proof fn lemma_release_keeps(
    icons: Seq<Icon>,
    count: usize,
    radius: u32,
    cursor: Point,
    trash: Point,
)
    requires
        icons_ok(icons, count, radius),
    ensures
        icons_ok(release_spec(icons, cursor, trash, radius), count, radius),
{
    if any_held(icons) {
        let i = held_index(icons);
        if in_circle(cursor, trash, radius) {
            lemma_remove_keeps(icons, count, radius, i);
        } else {
            assert(icon_ok(icons[i], count, radius));
            lemma_update_keeps(icons, count, radius, i, Icon { grab: None, ..icons[i] });
        }
    }
}

/// A picked-up icon does not move in the frame of its capture: the drag that
/// follows the press puts it where it is.
pub proof fn lemma_grab_then_drag(icons: Seq<Icon>, count: usize, radius: u32, cursor: Point)
    requires
        icons_ok(icons, count, radius),
        press_grabs(icons, cursor, radius),
    ensures
        drag_spec(press_spec(icons, cursor, radius), cursor) == press_spec(icons, cursor, radius),
{
    lemma_press_keeps(icons, count, radius, cursor);
    let i = first_hit(icons, cursor, radius);
    let after = grab_at(icons, i, cursor);
    lemma_in_circle_bounds(cursor, icons[i].position, radius);
    lemma_held_index(after, i);
    assert(icon_ok(icons[i], count, radius));
    assert(move_at(after, i, cursor) =~= after);
}

/// One frame keeps the invariant.
pub proof fn lemma_step_keeps(
    icons: Seq<Icon>,
    count: usize,
    radius: u32,
    trash: Point,
    input: Input,
)
    requires
        icons_ok(icons, count, radius),
    ensures
        icons_ok(step_spec(icons, trash, radius, input), count, radius),
{
    if let Some(device) = input.cursor {
        let cursor = scene_of(device, input.window);
        lemma_press_keeps(icons, count, radius, cursor);
        lemma_drag_keeps(press_spec(icons, cursor, radius), count, radius, cursor);
        lemma_drag_keeps(icons, count, radius, cursor);
        lemma_release_keeps(icons, count, radius, cursor, trash);
    }
}

/// The icons after the frames `inputs`, in their order.
pub open spec fn run_spec(icons: Seq<Icon>, trash: Point, radius: u32, inputs: Seq<Input>) -> Seq<
    Icon,
>
    decreases inputs.len(),
{
    if inputs.len() == 0 {
        icons
    } else {
        step_spec(run_spec(icons, trash, radius, inputs.drop_last()), trash, radius, inputs.last())
    }
}

/// After any sequence of frames the invariant holds still: at most one icon
/// is held, and no two icons share an identity.
pub proof fn lemma_run_keeps(
    icons: Seq<Icon>,
    count: usize,
    radius: u32,
    trash: Point,
    inputs: Seq<Input>,
)
    requires
        icons_ok(icons, count, radius),
    ensures
        icons_ok(run_spec(icons, trash, radius, inputs), count, radius),
        at_most_one_held(run_spec(icons, trash, radius, inputs)),
    decreases inputs.len(),
{
    if inputs.len() > 0 {
        lemma_run_keeps(icons, count, radius, trash, inputs.drop_last());
        lemma_step_keeps(
            run_spec(icons, trash, radius, inputs.drop_last()),
            count,
            radius,
            trash,
            inputs.last(),
        );
    }
}

/// The icons but the one at index `i`, in their order.
fn without(icons: &Vec<Icon>, i: usize) -> (rest: Vec<Icon>)
    requires
        i < icons.len(),
    ensures
        rest@ == icons@.remove(i as int),
{
    let mut rest: Vec<Icon> = Vec::new();
    let mut k: usize = 0;
    while k < icons.len()
        invariant
            k <= icons.len(),
            i < icons.len(),
            rest@ == if k <= i {
                icons@.take(k as int)
            } else {
                icons@.take(k as int).remove(i as int)
            },
        decreases icons.len() - k,
    {
        if k != i {
            rest.push(icons[k]);
        }
        proof {
            let next = if k + 1 <= i {
                icons@.take(k + 1)
            } else {
                icons@.take(k + 1).remove(i as int)
            };
            assert(rest@ =~= next);
        }
        k += 1;
    }
    proof {
        assert(icons@.take(k as int) == icons@);
    }
    rest
}

/// The icons with `icon` in place of the one at index `i`. A scene's icons
/// are written in one assignment, so that the scene is in order after it.
fn replaced(icons: &Vec<Icon>, i: usize, icon: Icon) -> (next: Vec<Icon>)
    requires
        i < icons.len(),
    ensures
        next@ == icons@.update(i as int, icon),
{
    let mut next: Vec<Icon> = Vec::new();
    let mut k: usize = 0;
    while k < icons.len()
        invariant
            k <= icons.len(),
            i < icons.len(),
            next@ == if k <= i {
                icons@.take(k as int)
            } else {
                icons@.take(k as int).update(i as int, icon)
            },
        decreases icons.len() - k,
    {
        next.push(if k == i { icon } else { icons[k] });
        proof {
            let grown = if k + 1 <= i {
                icons@.take(k + 1)
            } else {
                icons@.take(k + 1).update(i as int, icon)
            };
            assert(next@ =~= grown);
        }
        k += 1;
    }
    proof {
        assert(icons@.take(k as int) == icons@);
    }
    next
}

impl Scene {
    /// The index of the held icon, if one is held.
    pub fn held(&self) -> (found: Option<usize>)
        ensures
            found is Some <==> any_held(self@.icons),
            found matches Some(i) ==> i == held_index(self@.icons) && held_at(self@.icons, i as int),
    {
        proof {
            use_type_invariant(self);
        }
        let mut i: usize = 0;
        while i < self.icons.len()
            invariant
                i <= self.icons.len(),
                at_most_one_held(self.icons@),
                forall|j: int| 0 <= j < i ==> !held_at(self.icons@, j),
            decreases self.icons.len() - i,
        {
            if self.icons[i].grab.is_some() {
                proof {
                    lemma_held_index(self.icons@, i as int);
                }
                return Some(i);
            }
            i += 1;
        }
        None
    }

    /// The button went down at `cursor`. If no icon is held, the first icon
    /// within the radius of the cursor is picked up.
    pub fn press(&mut self, cursor: Point) -> (effect: Effect)
        ensures
            final(self)@.wf(),
            final(self)@.desktop == old(self)@.desktop,
            final(self)@.layout == old(self)@.layout,
            final(self)@.icons == press_spec(
                old(self)@.icons,
                cursor,
                old(self)@.layout.spec_radius(),
            ),
            effect == press_effect(old(self)@.icons, cursor, old(self)@.layout.spec_radius()),
    {
        proof {
            use_type_invariant(&*self);
        }
        if self.held().is_some() {
            return Effect::Nothing;
        }
        let radius = self.layout.radius();
        proof {
            lemma_press_keeps(self.icons@, self.desktop.icon_count, radius, cursor);
        }
        let mut i: usize = 0;
        while i < self.icons.len()
            invariant
                i <= self.icons.len(),
                *self == *old(self),
                self@.wf(),
                !any_held(self.icons@),
                radius == self.layout.spec_radius(),
                icons_ok(
                    press_spec(self.icons@, cursor, radius),
                    self.desktop.icon_count,
                    radius,
                ),
                forall|j: int| 0 <= j < i ==> !hit_at(self.icons@, cursor, radius, j),
            decreases self.icons.len() - i,
        {
            let icon = self.icons[i];
            let found = check_cursor_in_icon(cursor, icon.position, radius);
            if found.0 {
                proof {
                    lemma_first_hit(self.icons@, cursor, radius, i as int);
                    assert(found.1 == minus(cursor, icon.position));
                    assert(self.icons@.update(
                        i as int,
                        Icon { grab: Some(found.1), ..icon },
                    ) =~= grab_at(self.icons@, i as int, cursor));
                }
                self.icons = replaced(&self.icons, i, Icon {
                    id: icon.id,
                    position: icon.position,
                    variant: icon.variant,
                    grab: Some(found.1),
                });
                return Effect::Grabbed { id: icon.id };
            }
            i += 1;
        }
        proof {
            assert(!any_hit(self.icons@, cursor, radius));
        }
        Effect::Nothing
    }

    /// The button is down with the cursor at `cursor`. The held icon, if
    /// there is one, goes to the cursor less its grab offset.
    pub fn drag(&mut self, cursor: Point) -> (effect: Effect)
        requires
            reachable(cursor),
        ensures
            final(self)@.wf(),
            final(self)@.desktop == old(self)@.desktop,
            final(self)@.layout == old(self)@.layout,
            final(self)@.icons == drag_spec(old(self)@.icons, cursor),
            effect == drag_effect(old(self)@.icons),
    {
        proof {
            use_type_invariant(&*self);
            lemma_drag_keeps(
                self.icons@,
                self.desktop.icon_count,
                self.layout.spec_radius(),
                cursor,
            );
        }
        match self.held() {
            None => Effect::Nothing,
            Some(i) => {
                let icon = self.icons[i];
                let offset = icon.grab.unwrap();
                proof {
                    assert(icon_ok(icon, self.desktop.icon_count, self.layout.spec_radius()));
                }
                let position = Point { x: cursor.x - offset.x, y: cursor.y - offset.y };
                proof {
                    assert(self.icons@.update(i as int, Icon { position, ..icon }) =~= move_at(
                        self.icons@,
                        i as int,
                        cursor,
                    ));
                }
                self.icons = replaced(&self.icons, i, Icon {
                    id: icon.id,
                    position,
                    variant: icon.variant,
                    grab: icon.grab,
                });
                Effect::Moved { id: icon.id }
            },
        }
    }

    /// The button went up at `cursor`. The held icon, if there is one, is
    /// removed where the cursor is within the radius of the trash bin, and
    /// stays where it is, no longer held, where it is not.
    pub fn release(&mut self, cursor: Point) -> (effect: Effect)
        ensures
            final(self)@.wf(),
            final(self)@.desktop == old(self)@.desktop,
            final(self)@.layout == old(self)@.layout,
            final(self)@.icons == release_spec(
                old(self)@.icons,
                cursor,
                old(self)@.desktop.trash_position,
                old(self)@.layout.spec_radius(),
            ),
            effect == release_effect(
                old(self)@.icons,
                cursor,
                old(self)@.desktop.trash_position,
                old(self)@.layout.spec_radius(),
            ),
    {
        proof {
            use_type_invariant(&*self);
            lemma_release_keeps(
                self.icons@,
                self.desktop.icon_count,
                self.layout.spec_radius(),
                cursor,
                self.desktop.trash_position,
            );
        }
        match self.held() {
            None => Effect::Nothing,
            Some(i) => {
                let icon = self.icons[i];
                let radius = self.layout.radius();
                if check_cursor_in_icon(cursor, self.desktop.trash_position, radius).0 {
                    self.icons = without(&self.icons, i);
                    Effect::Removed { id: icon.id }
                } else {
                    proof {
                        assert(self.icons@.update(i as int, Icon { grab: None, ..icon })
                            =~= drop_at(self.icons@, i as int));
                    }
                    self.icons = replaced(&self.icons, i, Icon {
                        id: icon.id,
                        position: icon.position,
                        variant: icon.variant,
                        grab: None,
                    });
                    Effect::Dropped { id: icon.id }
                }
            },
        }
    }

    /// Advances the scene by one frame.
    pub fn step(&mut self, input: Input) -> (effect: Effect)
        ensures
            final(self)@.wf(),
            at_most_one_held(final(self)@.icons),
            final(self)@.desktop == old(self)@.desktop,
            final(self)@.layout == old(self)@.layout,
            final(self)@.icons == step_spec(
                old(self)@.icons,
                old(self)@.desktop.trash_position,
                old(self)@.layout.spec_radius(),
                input,
            ),
            effect == step_effect(
                old(self)@.icons,
                old(self)@.desktop.trash_position,
                old(self)@.layout.spec_radius(),
                input,
            ),
    {
        proof {
            use_type_invariant(&*self);
        }
        match input.cursor {
            None => Effect::Nothing,
            Some(device) => {
                let cursor = to_scene(device, input.window);
                match input.button {
                    Button::JustPressed => {
                        let pressed = self.press(cursor);
                        let dragged = self.drag(cursor);
                        match pressed {
                            Effect::Nothing => dragged,
                            _ => pressed,
                        }
                    },
                    Button::Held => self.drag(cursor),
                    Button::JustReleased => self.release(cursor),
                    Button::Idle => Effect::Nothing,
                }
            },
        }
    }
}

} // verus!
