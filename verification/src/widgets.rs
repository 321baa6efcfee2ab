//! Widgets and the geometry they are hit-tested against.
//!
//! Coordinates are integers in whatever unit the host reports pointer
//! positions in (pixels, or a fixed fraction of a pixel). The origin is the
//! upper left corner of the screen.

use vstd::prelude::*;

verus! {

/// A widget is identified by its index in the collection that owns it.
pub type WidgetId = usize;

/// An axis-aligned rectangle: top-left corner, width and height.
///
/// A negative width or height is not rejected; such a rectangle contains no
/// point at all.
#[derive(Clone, Copy, Debug, PartialEq, Eq, Structural)]
pub struct Rect {
    pub x: i32,
    pub y: i32,
    pub w: i32,
    pub h: i32,
}

/// A point of the screen. Its coordinates are wide enough to hold the far
/// corner of any `Rect`.
#[derive(Clone, Copy, Debug, PartialEq, Eq, Structural)]
pub struct Point2 {
    pub x: i64,
    pub y: i64,
}

impl Point2 {
    pub fn new(x: i64, y: i64) -> (point: Point2)
        ensures
            point == (Point2 { x, y }),
    {
        Point2 { x, y }
    }
}

/// Whether the point `(x, y)` lies in `rect`, all four edges included.
pub open spec fn rect_contains(rect: Rect, x: int, y: int) -> bool {
    &&& rect.x <= x <= rect.x + rect.w
    &&& rect.y <= y <= rect.y + rect.h
}

/// The edges belong to the rectangle: every corner of a rectangle whose
/// width and height are not negative lies in it.
pub proof fn lemma_corners_are_inside(rect: Rect)
    requires
        rect.w >= 0,
        rect.h >= 0,
    ensures
        rect_contains(rect, rect.x as int, rect.y as int),
        rect_contains(rect, rect.x + rect.w, rect.y as int),
        rect_contains(rect, rect.x + rect.w, rect.y + rect.h),
        rect_contains(rect, rect.x as int, rect.y + rect.h),
{
}

/// A point beyond any edge, by however little, is outside.
pub proof fn lemma_beyond_an_edge_is_outside(rect: Rect, x: int, y: int)
    requires
        x < rect.x || x > rect.x + rect.w || y < rect.y || y > rect.y + rect.h,
    ensures
        !rect_contains(rect, x, y),
{
}

/// A rectangle of negative width or height contains no point.
pub proof fn lemma_negative_size_contains_nothing(rect: Rect, x: int, y: int)
    requires
        rect.w < 0 || rect.h < 0,
    ensures
        !rect_contains(rect, x, y),
{
}

/// A point on the edge that two adjacent rectangles share lies in both.
pub proof fn lemma_shared_edge_is_in_both(left: Rect, right: Rect, y: int)
    requires
        left.w >= 0,
        right.w >= 0,
        right.x == left.x + left.w,
        left.y <= y <= left.y + left.h,
        right.y <= y <= right.y + right.h,
    ensures
        rect_contains(left, right.x as int, y),
        rect_contains(right, right.x as int, y),
{
}

/// The corners of `rect`, clockwise from the top-left one.
pub open spec fn rect_corners(rect: Rect) -> Seq<Point2> {
    seq![
        Point2 { x: rect.x as i64, y: rect.y as i64 },
        Point2 { x: (rect.x + rect.w) as i64, y: rect.y as i64 },
        Point2 { x: (rect.x + rect.w) as i64, y: (rect.y + rect.h) as i64 },
        Point2 { x: rect.x as i64, y: (rect.y + rect.h) as i64 },
    ]
}

/// Anything that occupies a rectangle of the screen.
pub trait Rectangle {
    /// The rectangle occupied.
    spec fn bounds(&self) -> Rect;

    fn get_pos_x(&self) -> (x: i32)
        ensures
            x == self.bounds().x,
    ;

    fn get_width(&self) -> (w: i32)
        ensures
            w == self.bounds().w,
    ;

    fn get_pos_y(&self) -> (y: i32)
        ensures
            y == self.bounds().y,
    ;

    fn get_height(&self) -> (h: i32)
        ensures
            h == self.bounds().h,
    ;
}

/// A widget whose bounds may contain a given point.
pub trait IntersectsPoint {
    /// Whether the widget's bounds contain `(x, y)`.
    spec fn contains_point(&self, x: int, y: int) -> bool;

    fn intersects_point(&self, x: i32, y: i32) -> (hit: bool)
        ensures
            hit == self.contains_point(x as int, y as int),
    ;
}

/// A widget that can hand its geometry to a renderer.
pub trait GetMesh<T> {
    /// The geometry handed out.
    spec fn mesh(&self) -> T;

    fn get_mesh(&self) -> (mesh: T)
        ensures
            mesh == self.mesh(),
    ;
}

impl Rectangle for Rect {
    open spec fn bounds(&self) -> Rect {
        *self
    }

    fn get_pos_x(&self) -> i32 {
        self.x
    }

    fn get_width(&self) -> i32 {
        self.w
    }

    fn get_pos_y(&self) -> i32 {
        self.y
    }

    fn get_height(&self) -> i32 {
        self.h
    }
}

impl<R: Rectangle> IntersectsPoint for R {
    open spec fn contains_point(&self, x: int, y: int) -> bool {
        rect_contains(self.bounds(), x, y)
    }

    fn intersects_point(&self, x: i32, y: i32) -> (hit: bool) {
        let left: i64 = self.get_pos_x() as i64;
        let top: i64 = self.get_pos_y() as i64;
        let right: i64 = left + self.get_width() as i64;
        let bottom: i64 = top + self.get_height() as i64;
        assert(self.contains_point(x as int, y as int) == rect_contains(
            self.bounds(),
            x as int,
            y as int,
        ));
        x as i64 >= left && x as i64 <= right && y as i64 >= top && y as i64 <= bottom
    }
}

impl<R: Rectangle> GetMesh<Rect> for R {
    open spec fn mesh(&self) -> Rect {
        self.bounds()
    }

    fn get_mesh(&self) -> (mesh: Rect) {
        Rect {
            x: self.get_pos_x(),
            y: self.get_pos_y(),
            w: self.get_width(),
            h: self.get_height(),
        }
    }
}

/// The four corners of a rectangle, clockwise from the top-left one, as a
/// renderer takes them for a filled polygon.
pub fn rect_into_points<R: Rectangle>(rect: R) -> (points: [Point2; 4])
    ensures
        points@ == rect_corners(rect.bounds()),
{
    let left: i64 = rect.get_pos_x() as i64;
    let top: i64 = rect.get_pos_y() as i64;
    let right: i64 = left + rect.get_width() as i64;
    let bottom: i64 = top + rect.get_height() as i64;
    [
        Point2::new(left, top),
        Point2::new(right, top),
        Point2::new(right, bottom),
        Point2::new(left, bottom),
    ]
}

/// What a pointer did to a widget.
#[derive(Clone, Copy, Debug, PartialEq, Eq, Structural)]
pub enum WidgetEvent {
    /// The pointer button went down over the widget.
    Press(WidgetId),
    /// The pointer button went up over the widget.
    Release(WidgetId),
    /// The pointer moved onto the widget.
    Enter(WidgetId),
    /// The pointer moved off the widget.
    Leave(WidgetId),
}

impl WidgetEvent {
    /// The widget that the event is about.
    pub open spec fn widget_id(self) -> WidgetId {
        match self {
            WidgetEvent::Press(id) => id,
            WidgetEvent::Release(id) => id,
            WidgetEvent::Enter(id) => id,
            WidgetEvent::Leave(id) => id,
        }
    }
}

#[derive(Clone, Copy, Debug)]
struct WidgetPrimitive {
    height: i32,
    position_x: i32,
    position_y: i32,
    width: i32,
}

impl Default for WidgetPrimitive {
    fn default() -> (primitive: WidgetPrimitive)
        ensures
            primitive.bounds() == (Rect { x: 0, y: 0, w: 0, h: 0 }),
    {
        WidgetPrimitive { height: 0, position_x: 0, position_y: 0, width: 0 }
    }
}

impl Rectangle for WidgetPrimitive {
    closed spec fn bounds(&self) -> Rect {
        Rect { x: self.position_x, y: self.position_y, w: self.width, h: self.height }
    }

    fn get_pos_x(&self) -> i32 {
        self.position_x
    }

    fn get_width(&self) -> i32 {
        self.width
    }

    fn get_pos_y(&self) -> i32 {
        self.position_y
    }

    fn get_height(&self) -> i32 {
        self.height
    }
}

/// A rectangular button. It carries its bounds and nothing else: hover and
/// click state belong to the layer that owns it.
#[derive(Clone, Copy, Debug)]
pub struct Button {
    inner_widget: WidgetPrimitive,
}

impl View for Button {
    type V = Rect;

    /// The button's bounds.
    closed spec fn view(&self) -> Rect {
        self.inner_widget.bounds()
    }
}

impl Default for Button {
    /// A button of no size at the origin.
    fn default() -> (button: Button)
        ensures
            button@ == (Rect { x: 0, y: 0, w: 0, h: 0 }),
    {
        Button { inner_widget: Default::default() }
    }
}

impl Button {
    /// Moves the top-left corner; the size stays.
    pub fn set_position(&mut self, position_x: i32, position_y: i32)
        ensures
            final(self)@ == (Rect { x: position_x, y: position_y, ..old(self)@ }),
    {
        self.inner_widget.position_x = position_x;
        self.inner_widget.position_y = position_y;
    }

    /// Sets width and height; the position stays.
    pub fn set_size(&mut self, width: i32, height: i32)
        ensures
            final(self)@ == (Rect { w: width, h: height, ..old(self)@ }),
    {
        self.inner_widget.height = height;
        self.inner_widget.width = width;
    }
}

impl IntersectsPoint for Button {
    open spec fn contains_point(&self, x: int, y: int) -> bool {
        rect_contains(self@, x, y)
    }

    fn intersects_point(&self, x: i32, y: i32) -> (hit: bool) {
        self.inner_widget.intersects_point(x, y)
    }
}

impl GetMesh<Rect> for Button {
    open spec fn mesh(&self) -> Rect {
        self@
    }

    fn get_mesh(&self) -> (mesh: Rect) {
        self.inner_widget.get_mesh()
    }
}

} // verus!
