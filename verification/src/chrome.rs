//! The window's own frame: what its title bar offers, and where it can be taken hold of.

use crate::app_state::Appearance;
use vstd::prelude::*;
use vstd::string::*;

verus! {

/// What pressing the title bar does.
#[derive(Clone, Copy, Debug, PartialEq, Eq, Structural)]
pub enum BarPress {
    /// Fill the screen, or go back.
    Zoom,
    /// Drag the window.
    Move,
}

/// What the `clicks`-th press in a row does to the title bar.
pub fn bar_press(clicks: usize) -> (r: BarPress)
    ensures
        r == (if clicks == 2 {
            BarPress::Zoom
        } else {
            BarPress::Move
        }),
{
    if clicks == 2 {
        BarPress::Zoom
    } else {
        BarPress::Move
    }
}

/// The pictures of the title bar's buttons.
#[derive(Clone, Copy, Debug, PartialEq, Eq, Structural)]
pub enum Glyph {
    Sun,
    Moon,
    Minimize,
    Maximize,
    Restore,
    Close,
}

/// The picture on the button that changes the theme: what it changes to, not what it is.
pub fn theme_glyph(appearance: Appearance) -> (r: Glyph)
    ensures
        r == (match appearance {
            Appearance::Dark => Glyph::Sun,
            Appearance::Light => Glyph::Moon,
        }),
{
    match appearance {
        Appearance::Dark => Glyph::Sun,
        Appearance::Light => Glyph::Moon,
    }
}

/// A button that acts on the window.
#[derive(Clone, Copy, Debug, PartialEq, Eq, Structural)]
pub enum Control {
    Minimize,
    Maximize,
    Close,
}

impl Control {
    pub fn id(self) -> (r: &'static str)
        ensures
            r@ == (match self {
                Control::Minimize => "minimize"@,
                Control::Maximize => "maximize"@,
                Control::Close => "close"@,
            }),
    {
        match self {
            Control::Minimize => "minimize",
            Control::Maximize => "maximize",
            Control::Close => "close",
        }
    }

    /// The picture on a button: what it will do, not what the window is.
    pub fn glyph(self, maximized: bool) -> (r: Glyph)
        ensures
            r == (match self {
                Control::Minimize => Glyph::Minimize,
                Control::Maximize => if maximized {
                    Glyph::Restore
                } else {
                    Glyph::Maximize
                },
                Control::Close => Glyph::Close,
            }),
    {
        match self {
            Control::Minimize => Glyph::Minimize,
            Control::Maximize => if maximized {
                Glyph::Restore
            } else {
                Glyph::Maximize
            },
            Control::Close => Glyph::Close,
        }
    }

    /// Whether a button warns of what it does.
    pub fn is_danger(self) -> (r: bool)
        ensures
            r == (self is Close),
    {
        matches!(self, Control::Close)
    }
}

/// The buttons of a window, given which of the two that it may lack it has.
pub open spec fn offered(minimize: bool, maximize: bool) -> Seq<Control> {
    (if minimize {
        seq![Control::Minimize]
    } else {
        Seq::empty()
    }) + (if maximize {
        seq![Control::Maximize]
    } else {
        Seq::empty()
    }) + seq![Control::Close]
}

/// The buttons of a window, from left to right. A window can always be closed.
pub fn controls(minimize: bool, maximize: bool) -> (r: Vec<Control>)
    ensures
        r@ == offered(minimize, maximize),
{
    let mut controls: Vec<Control> = Vec::new();
    if minimize {
        controls.push(Control::Minimize);
    }
    if maximize {
        controls.push(Control::Maximize);
    }
    controls.push(Control::Close);
    proof {
        assert(controls@ =~= offered(minimize, maximize));
    }
    controls
}

/// Where a window is taken hold of to be resized.
#[derive(Clone, Copy, Debug, PartialEq, Eq, Structural)]
pub enum ResizeEdge {
    Top,
    Bottom,
    Left,
    Right,
    TopLeft,
    TopRight,
    BottomLeft,
    BottomRight,
}

/// The pointer over an edge.
#[derive(Clone, Copy, Debug, PartialEq, Eq, Structural)]
pub enum ResizeCursor {
    UpDown,
    LeftRight,
    UpLeftDownRight,
    UpRightDownLeft,
}

impl ResizeEdge {
    pub open spec fn is_corner(self) -> bool {
        self is TopLeft || self is TopRight || self is BottomLeft || self is BottomRight
    }

    pub fn id(self) -> (r: &'static str)
        ensures
            r@ == (match self {
                ResizeEdge::Top => "resize-top"@,
                ResizeEdge::Bottom => "resize-bottom"@,
                ResizeEdge::Left => "resize-left"@,
                ResizeEdge::Right => "resize-right"@,
                ResizeEdge::TopLeft => "resize-top-left"@,
                ResizeEdge::TopRight => "resize-top-right"@,
                ResizeEdge::BottomLeft => "resize-bottom-left"@,
                ResizeEdge::BottomRight => "resize-bottom-right"@,
            }),
    {
        match self {
            ResizeEdge::Top => "resize-top",
            ResizeEdge::Bottom => "resize-bottom",
            ResizeEdge::Left => "resize-left",
            ResizeEdge::Right => "resize-right",
            ResizeEdge::TopLeft => "resize-top-left",
            ResizeEdge::TopRight => "resize-top-right",
            ResizeEdge::BottomLeft => "resize-bottom-left",
            ResizeEdge::BottomRight => "resize-bottom-right",
        }
    }

    pub fn cursor(self) -> (r: ResizeCursor)
        ensures
            r == (match self {
                ResizeEdge::Top | ResizeEdge::Bottom => ResizeCursor::UpDown,
                ResizeEdge::Left | ResizeEdge::Right => ResizeCursor::LeftRight,
                ResizeEdge::TopLeft | ResizeEdge::BottomRight => ResizeCursor::UpLeftDownRight,
                ResizeEdge::TopRight | ResizeEdge::BottomLeft => ResizeCursor::UpRightDownLeft,
            }),
    {
        match self {
            ResizeEdge::Top | ResizeEdge::Bottom => ResizeCursor::UpDown,
            ResizeEdge::Left | ResizeEdge::Right => ResizeCursor::LeftRight,
            ResizeEdge::TopLeft | ResizeEdge::BottomRight => ResizeCursor::UpLeftDownRight,
            ResizeEdge::TopRight | ResizeEdge::BottomLeft => ResizeCursor::UpRightDownLeft,
        }
    }
}

/// Where a window can be taken hold of, in the order in which the strips are laid over it: a
/// later one lies on top.
pub open spec fn handles(maximized: bool) -> Seq<ResizeEdge> {
    if maximized {
        Seq::empty()
    } else {
        seq![
            ResizeEdge::Top,
            ResizeEdge::Bottom,
            ResizeEdge::Left,
            ResizeEdge::Right,
            ResizeEdge::TopLeft,
            ResizeEdge::TopRight,
            ResizeEdge::BottomLeft,
            ResizeEdge::BottomRight,
        ]
    }
}

/// Where a window can be taken hold of. A window that fills the screen has nothing to drag.
pub fn resize_handles(maximized: bool) -> (r: Vec<ResizeEdge>)
    ensures
        r@ == handles(maximized),
{
    let mut edges: Vec<ResizeEdge> = Vec::new();
    if maximized {
        return edges;
    }
    edges.push(ResizeEdge::Top);
    edges.push(ResizeEdge::Bottom);
    edges.push(ResizeEdge::Left);
    edges.push(ResizeEdge::Right);
    edges.push(ResizeEdge::TopLeft);
    edges.push(ResizeEdge::TopRight);
    edges.push(ResizeEdge::BottomLeft);
    edges.push(ResizeEdge::BottomRight);
    edges
}

/// Every side and corner is there once, unless the window fills the screen, and every corner lies
/// on top of every side, so that it wins where they overlap.
pub proof fn corners_lie_on_top(maximized: bool, edge: ResizeEdge)
    ensures
        handles(maximized).contains(edge) == !maximized,
        handles(maximized).no_duplicates(),
        forall|i: int, j: int|
            0 <= i < handles(maximized).len() && 0 <= j < handles(maximized).len()
                && #[trigger] handles(maximized)[i].is_corner()
                && !#[trigger] handles(maximized)[j].is_corner() ==> j < i,
{
    if !maximized {
        let all = handles(false);
        let at: int = match edge {
            ResizeEdge::Top => 0,
            ResizeEdge::Bottom => 1,
            ResizeEdge::Left => 2,
            ResizeEdge::Right => 3,
            ResizeEdge::TopLeft => 4,
            ResizeEdge::TopRight => 5,
            ResizeEdge::BottomLeft => 6,
            ResizeEdge::BottomRight => 7,
        };
        assert(all[at] == edge);
    }
}

/// A window's buttons are those it has, each once and in one order, and closing is always the last
/// of them.
pub proof fn a_window_can_always_be_closed(minimize: bool, maximize: bool)
    ensures
        offered(minimize, maximize).contains(Control::Minimize) == minimize,
        offered(minimize, maximize).contains(Control::Maximize) == maximize,
        offered(minimize, maximize).last() == Control::Close,
        offered(minimize, maximize).no_duplicates(),
        minimize ==> offered(minimize, maximize)[0] == Control::Minimize,
{
    let all = offered(minimize, maximize);
    if minimize {
        assert(all[0] == Control::Minimize);
    }
    if maximize {
        assert(all[all.len() - 2] == Control::Maximize);
    }
}

/// An edge is a corner where it is none of the four sides.
pub proof fn what_is_no_side_is_a_corner(edge: ResizeEdge)
    ensures
        edge.is_corner() <==> edge != ResizeEdge::Top && edge != ResizeEdge::Bottom && edge
            != ResizeEdge::Left && edge != ResizeEdge::Right,
{
}

} // verus!
