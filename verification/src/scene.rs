//! The desktop's data and how a scene is laid out at start.

use crate::geometry::Point;
use crate::random::draw;
use vstd::prelude::*;

verus! {

/// No coordinate of an icon's position lies further than this from the
/// origin.
pub const POSITION_LIMIT: i64 = 0x2_0000_0000;

/// The measures from which a scene is laid out, all in scene units.
#[derive(Clone, Copy, Debug, PartialEq, Eq, Structural)]
pub struct Layout {
    /// Width of the desktop surface.
    pub width: u32,
    /// Height of the desktop surface.
    pub height: u32,
    /// Margin kept free of icons along each edge.
    pub padding: u32,
    /// Side of the square that an icon or the trash bin is drawn in.
    pub icon_size: u32,
    /// Number of artwork variants an icon can have.
    pub variants: u32,
}

/// What is fixed when the program starts.
#[derive(Clone, Copy, Debug, PartialEq, Eq, Structural)]
pub struct Desktop {
    pub icon_count: usize,
    pub trash_position: Point,
}

/// Where a new icon goes and which artwork it gets.
#[derive(Clone, Copy, Debug, PartialEq, Eq, Structural)]
pub struct Spot {
    pub position: Point,
    pub variant: u32,
}

/// An icon on the desktop. It is held while `grab` is `Some`, which then is
/// the cursor's offset from the icon's position at the moment of capture.
#[derive(Clone, Copy, Debug, PartialEq, Eq)]
pub struct Icon {
    pub id: usize,
    pub position: Point,
    pub variant: u32,
    pub grab: Option<Point>,
}

/// The desktop with its icons, in the order in which they are tested. A
/// scene is always in order: what `SceneView::wf` says holds of its view.
#[derive(Debug)]
pub struct Scene {
    pub(crate) desktop: Desktop,
    pub(crate) layout: Layout,
    pub(crate) icons: Vec<Icon>,
}

/// What a scene holds, as contracts speak of it.
pub struct SceneView {
    pub desktop: Desktop,
    pub layout: Layout,
    pub icons: Seq<Icon>,
}

/// The icon at index `i` is held.
pub open spec fn held_at(icons: Seq<Icon>, i: int) -> bool {
    0 <= i < icons.len() && icons[i].grab is Some
}

/// No two icons are held.
pub open spec fn at_most_one_held(icons: Seq<Icon>) -> bool {
    forall|i: int, j: int| held_at(icons, i) && held_at(icons, j) ==> i == j
}

/// No two icons share an identity.
pub open spec fn distinct_ids(icons: Seq<Icon>) -> bool {
    forall|i: int, j: int|
        0 <= i < icons.len() && 0 <= j < icons.len() && i != j ==> (#[trigger] icons[i]).id != (
        #[trigger] icons[j]).id
}

/// What holds of each icon by itself: its identity is one of `1..=count`, its
/// position is within the limit, and a grab offset is within `radius`.
pub open spec fn icon_ok(icon: Icon, count: usize, radius: u32) -> bool {
    &&& 1 <= icon.id <= count
    &&& -POSITION_LIMIT <= icon.position.x <= POSITION_LIMIT
    &&& -POSITION_LIMIT <= icon.position.y <= POSITION_LIMIT
    &&& icon.grab matches Some(g) ==> -radius <= g.x <= radius && -radius <= g.y <= radius
}

/// The invariant of a scene's icons.
pub open spec fn icons_ok(icons: Seq<Icon>, count: usize, radius: u32) -> bool {
    &&& forall|i: int| 0 <= i < icons.len() ==> icon_ok(#[trigger] icons[i], count, radius)
    &&& distinct_ids(icons)
    &&& at_most_one_held(icons)
}

impl Layout {
    /// The ranges that icons are placed in are not empty, and there is
    /// artwork to choose from.
    pub open spec fn valid(self) -> bool {
        &&& self.padding < self.width / 2
        &&& self.padding < self.height / 2
        &&& self.variants >= 1
    }

    /// Half the icon size, rounded down to a whole unit.
    pub open spec fn spec_radius(self) -> u32 {
        self.icon_size / 2
    }

    /// The least x of a new icon.
    pub open spec fn left(self) -> int {
        self.padding - self.width / 2
    }

    /// The x that a new icon stays below.
    pub open spec fn right(self) -> int {
        self.width / 2 - self.padding
    }

    /// The least y of a new icon.
    pub open spec fn bottom(self) -> int {
        self.padding - self.height / 2
    }

    /// The y that a new icon stays below.
    pub open spec fn top(self) -> int {
        self.height / 2 - self.padding
    }

    /// A new icon may be put at `spot`.
    pub open spec fn admits(self, spot: Spot) -> bool {
        &&& self.left() <= spot.position.x < self.right()
        &&& self.bottom() <= spot.position.y < self.top()
        &&& spot.variant < self.variants
    }

    /// The trash bin's place: in the bottom-left corner, inside the padding.
    pub open spec fn spec_trash_corner(self) -> Point {
        Point {
            x: (self.padding - self.width / 2 + self.icon_size / 2) as i64,
            y: (self.padding - self.height / 2 + self.icon_size / 2) as i64,
        }
    }

    /// A desktop of 700 by 500 with a padding of 50, icons of size 50 and
    /// three kinds of artwork.
    pub fn standard() -> (layout: Layout)
        ensures
            layout == (Layout { width: 700, height: 500, padding: 50, icon_size: 50, variants: 3 }),
            layout.valid(),
    {
        Layout { width: 700, height: 500, padding: 50, icon_size: 50, variants: 3 }
    }

    /// Half the icon size: the radius of the circle that an icon is hit in.
    pub fn radius(&self) -> (r: u32)
        ensures
            r == self.spec_radius(),
    {
        self.icon_size / 2
    }

    /// Whether icons can be placed in this layout.
    pub fn is_valid(&self) -> (ok: bool)
        ensures
            ok == self.valid(),
    {
        self.padding < self.width / 2 && self.padding < self.height / 2 && self.variants >= 1
    }

    /// Whether a new icon may be put at `spot`.
    pub fn accepts(&self, spot: &Spot) -> (ok: bool)
        ensures
            ok == self.admits(*spot),
    {
        let half_w: i64 = (self.width / 2) as i64;
        let half_h: i64 = (self.height / 2) as i64;
        let pad: i64 = self.padding as i64;
        pad - half_w <= spot.position.x && spot.position.x < half_w - pad && pad - half_h
            <= spot.position.y && spot.position.y < half_h - pad && spot.variant < self.variants
    }

    /// The trash bin's place in this layout.
    pub fn trash_corner(&self) -> (p: Point)
        ensures
            p == self.spec_trash_corner(),
            p.x == self.padding - self.width / 2 + self.icon_size / 2,
            p.y == self.padding - self.height / 2 + self.icon_size / 2,
    {
        let half: i64 = (self.icon_size / 2) as i64;
        let pad: i64 = self.padding as i64;
        Point {
            x: pad - (self.width / 2) as i64 + half,
            y: pad - (self.height / 2) as i64 + half,
        }
    }
}

impl Desktop {
    /// There is at least one icon and there are fewer than ten.
    pub open spec fn valid(self) -> bool {
        1 <= self.icon_count < 10
    }

    /// A desktop with `icon_count` icons, if that is a number from 1 to 9.
    pub fn new(icon_count: usize, trash_position: Point) -> (made: Option<Desktop>)
        ensures
            made is Some <==> 1 <= icon_count < 10,
            made is Some ==> made == Some(Desktop { icon_count, trash_position }),
    {
        if 1 <= icon_count && icon_count < 10 {
            Some(Desktop { icon_count, trash_position })
        } else {
            None
        }
    }

    /// A desktop with a number of icons drawn by chance and the trash bin in
    /// the layout's corner.
    pub fn random(layout: &Layout) -> (desktop: Desktop)
        ensures
            desktop.valid(),
            desktop.trash_position == layout.spec_trash_corner(),
    {
        let n: i64 = draw(1, 10);
        Desktop { icon_count: n as usize, trash_position: layout.trash_corner() }
    }
}

impl Spot {
    /// A spot drawn by chance among those that the layout admits.
    pub fn random(layout: &Layout) -> (spot: Spot)
        requires
            layout.valid(),
        ensures
            layout.admits(spot),
    {
        let half_w: i64 = (layout.width / 2) as i64;
        let half_h: i64 = (layout.height / 2) as i64;
        let pad: i64 = layout.padding as i64;
        let variant: i64 = draw(0, layout.variants as i64);
        let x: i64 = draw(pad - half_w, half_w - pad);
        let y: i64 = draw(pad - half_h, half_h - pad);
        Spot { position: Point { x, y }, variant: variant as u32 }
    }
}

/// The icons that are made from `spots`: the one at index `i` there gets the
/// identity `i + 1`, and none is held.
pub open spec fn placed(spots: Seq<Spot>) -> Seq<Icon> {
    Seq::new(
        spots.len(),
        |i: int|
            Icon {
                id: (i + 1) as usize,
                position: spots[i].position,
                variant: spots[i].variant,
                grab: None,
            },
    )
}

/// Each of `spots` is admitted by `layout`.
pub open spec fn all_admitted(layout: Layout, spots: Seq<Spot>) -> bool {
    forall|i: int| 0 <= i < spots.len() ==> layout.admits(#[trigger] spots[i])
}

impl SceneView {
    /// The scene's invariant: the desktop has from one to nine icons, and
    /// those that are left are in order, with at most one of them held.
    pub open spec fn wf(self) -> bool {
        &&& self.desktop.valid()
        &&& icons_ok(self.icons, self.desktop.icon_count, self.layout.spec_radius())
    }
}

impl View for Scene {
    type V = SceneView;

    open(crate) spec fn view(&self) -> SceneView {
        SceneView { desktop: self.desktop, layout: self.layout, icons: self.icons@ }
    }
}

impl Scene {
    #[verifier::type_invariant]
    pub open(crate) spec fn in_order(&self) -> bool {
        self@.wf()
    }

    /// Lays out a scene with one icon at each of `spots`. There must be as
    /// many of them as the desktop has icons, and the layout must admit each.
    pub fn place(desktop: Desktop, layout: Layout, spots: &Vec<Spot>) -> (made: Option<Scene>)
        ensures
            made is Some <==> desktop.valid() && spots.len() == desktop.icon_count && all_admitted(
                layout,
                spots@,
            ),
            made matches Some(scene) ==> scene@.wf() && scene@ == (SceneView {
                desktop,
                layout,
                icons: placed(spots@),
            }),
    {
        if !(1 <= desktop.icon_count && desktop.icon_count < 10) || spots.len()
            != desktop.icon_count {
            return None;
        }
        let mut icons: Vec<Icon> = Vec::new();
        let mut i: usize = 0;
        while i < spots.len()
            invariant
                i <= spots.len(),
                spots.len() == desktop.icon_count,
                desktop.icon_count < 10,
                icons@ == placed(spots@.take(i as int)),
                all_admitted(layout, spots@.take(i as int)),
            decreases spots.len() - i,
        {
            let spot = spots[i];
            if !layout.accepts(&spot) {
                return None;
            }
            icons.push(Icon { id: i + 1, position: spot.position, variant: spot.variant, grab: None });
            proof {
                assert(spots@.take(i + 1).drop_last() == spots@.take(i as int));
                assert(icons@ == placed(spots@.take(i + 1)));
            }
            i += 1;
        }
        proof {
            assert(spots@.take(i as int) == spots@);
        }
        Some(Scene { desktop, layout, icons })
    }

    /// Lays out a scene with each icon at a spot drawn by chance.
    pub fn spawn(desktop: Desktop, layout: Layout) -> (made: Option<Scene>)
        ensures
            made is Some <==> desktop.valid() && layout.valid(),
            made matches Some(scene) ==> {
                &&& scene@.wf()
                &&& scene@.desktop == desktop
                &&& scene@.layout == layout
                &&& exists|spots: Seq<Spot>|
                    spots.len() == desktop.icon_count && all_admitted(layout, spots)
                        && scene@.icons == placed(spots)
            },
    {
        if !(1 <= desktop.icon_count && desktop.icon_count < 10) || !layout.is_valid() {
            return None;
        }
        let mut spots: Vec<Spot> = Vec::new();
        while spots.len() < desktop.icon_count
            invariant
                layout.valid(),
                spots.len() <= desktop.icon_count,
                all_admitted(layout, spots@),
            decreases desktop.icon_count - spots.len(),
        {
            spots.push(Spot::random(&layout));
        }
        Scene::place(desktop, layout, &spots)
    }

    /// What was fixed at start.
    pub fn desktop(&self) -> (desktop: Desktop)
        ensures
            desktop == self@.desktop,
            self@.wf(),
    {
        proof {
            use_type_invariant(self);
        }
        self.desktop
    }

    /// The measures that the scene was laid out with.
    pub fn layout(&self) -> (layout: Layout)
        ensures
            layout == self@.layout,
    {
        self.layout
    }

    /// The icons that are left, in the order in which a press tests them.
    pub fn icons(&self) -> (icons: &Vec<Icon>)
        ensures
            icons@ == self@.icons,
            self@.wf(),
    {
        proof {
            use_type_invariant(self);
        }
        &self.icons
    }
}

} // verus!
