//! Where the panels stand on the screen.
use ratatui::layout::{Constraint, Direction, Layout, Rect};
use vstd::prelude::*;

verus! {

/// A part of the screen, in cells.
#[derive(Debug, Clone, Copy, PartialEq, Eq, Structural)]
pub struct Area {
    pub x: u16,
    pub y: u16,
    pub width: u16,
    pub height: u16,
}

/// How parts stand: one below the other, or one beside the other.
#[derive(Debug, Clone, Copy, PartialEq, Eq, Structural)]
pub enum Axis {
    Vertical,
    Horizontal,
}

/// How many cells a part takes along the axis: so many, or at least so many.
#[derive(Debug, Clone, Copy, PartialEq, Eq, Structural)]
pub enum Size {
    Length(u16),
    Min(u16),
}

/// A part reaches over the whole of an area across the axis.
pub open spec fn spans(part: Area, area: Area, axis: Axis) -> bool {
    match axis {
        Axis::Vertical => part.x == area.x && part.width == area.width,
        Axis::Horizontal => part.y == area.y && part.height == area.height,
    }
}

/// `Layout::split` of `ratatui` may split an area along an axis by sizes into
/// parts. It need not split the same area into the same parts every time.
pub uninterp spec fn splits_into(area: Area, axis: Axis, sizes: Seq<Size>, parts: Seq<Area>) -> bool;

/// `Layout::split` of `ratatui`: what comes back is a way in which it splits
/// the area by the sizes. There are as many parts as sizes, and each reaches
/// over the whole of the area across the axis. Where the parts stand along the
/// axis is not said: a solver finds it that works with floating-point numbers
/// and walks hash maps, whose order differs from process to process.
#[verifier::external_body]
fn split(area: Area, axis: Axis, sizes: &Vec<Size>) -> (r: Vec<Area>)
    ensures
        splits_into(area, axis, sizes@, r@),
        r@.len() == sizes@.len(),
        forall|i: int| 0 <= i < r@.len() ==> spans(#[trigger] r@[i], area, axis),
{
    let direction = match axis {
        Axis::Vertical => Direction::Vertical,
        Axis::Horizontal => Direction::Horizontal,
    };
    let constraints = sizes.iter().map(|size| match size {
        Size::Length(n) => Constraint::Length(*n),
        Size::Min(n) => Constraint::Min(*n),
    });
    let whole = Rect { x: area.x, y: area.y, width: area.width, height: area.height };
    let parts = Layout::default().direction(direction).constraints(constraints).split(whole);
    parts.iter().map(|p| Area { x: p.x, y: p.y, width: p.width, height: p.height }).collect()
}

/// The sizes of the panels above and of the controls below them.
pub fn root_sizes() -> (r: Vec<Size>)
    ensures
        r@ == seq![Size::Min(20), Size::Length(3)],
{
    vec![Size::Min(20), Size::Length(3)]
}

/// The sizes of the left side, the gap and the right side.
pub fn side_sizes() -> (r: Vec<Size>)
    ensures
        r@ == seq![Size::Length(46), Size::Length(1), Size::Min(20)],
{
    vec![Size::Length(46), Size::Length(1), Size::Min(20)]
}

/// The sizes of the panels on the left side.
pub fn left_sizes() -> (r: Vec<Size>)
    ensures
        r@ == seq![Size::Length(10), Size::Length(6), Size::Length(3), Size::Min(8)],
{
    vec![Size::Length(10), Size::Length(6), Size::Length(3), Size::Min(8)]
}

/// The sizes of the panels on the right side.
pub fn right_sizes() -> (r: Vec<Size>)
    ensures
        r@ == seq![Size::Min(8), Size::Length(8)],
{
    vec![Size::Min(8), Size::Length(8)]
}

/// Where each panel stands.
#[derive(Debug, Clone, Copy)]
pub struct Screen {
    pub header: Area,
    pub status: Area,
    pub steps: Area,
    pub info: Area,
    pub log: Area,
    pub detail: Area,
    pub footer: Area,
}

/// The screen whose panels stand in parts: the name, the dates, the steps and
/// the providers in those of the left side, the log and the details in those of
/// the right side, and the controls in the lower part of the whole.
pub open spec fn arranged(root: Seq<Area>, left: Seq<Area>, right: Seq<Area>) -> Screen {
    Screen {
        header: left[0],
        status: left[1],
        steps: left[2],
        info: left[3],
        log: right[0],
        detail: right[1],
        footer: root[1],
    }
}

/// Where each panel stands, given the parts of the whole, of the left side and
/// of the right side.
pub fn arrange(root: &Vec<Area>, left: &Vec<Area>, right: &Vec<Area>) -> (r: Screen)
    requires
        root@.len() == 2,
        left@.len() == 4,
        right@.len() == 2,
    ensures
        r == arranged(root@, left@, right@),
        r.header == left@[0],
        r.status == left@[1],
        r.steps == left@[2],
        r.info == left@[3],
        r.log == right@[0],
        r.detail == right@[1],
        r.footer == root@[1],
{
    Screen {
        header: left[0],
        status: left[1],
        steps: left[2],
        info: left[3],
        log: right[0],
        detail: right[1],
        footer: root[1],
    }
}

/// A screen comes of an area by four splits: the area into what is above and
/// the controls, what is above into the two sides and the gap between them, and
/// each side into its panels.
pub open spec fn drawn(
    area: Area,
    root: Seq<Area>,
    sides: Seq<Area>,
    left: Seq<Area>,
    right: Seq<Area>,
) -> bool {
    &&& splits_into(area, Axis::Vertical, seq![Size::Min(20), Size::Length(3)], root)
    &&& splits_into(
        root[0],
        Axis::Horizontal,
        seq![Size::Length(46), Size::Length(1), Size::Min(20)],
        sides,
    )
    &&& splits_into(
        sides[0],
        Axis::Vertical,
        seq![Size::Length(10), Size::Length(6), Size::Length(3), Size::Min(8)],
        left,
    )
    &&& splits_into(sides[2], Axis::Vertical, seq![Size::Min(8), Size::Length(8)], right)
}

/// Where each panel stands in an area. The controls reach over the whole width;
/// the panels of each side stand in a column of their own.
pub fn draw_ui(area: Area) -> (r: Screen)
    ensures
        exists|root: Seq<Area>, sides: Seq<Area>, left: Seq<Area>, right: Seq<Area>|
            #[trigger] drawn(area, root, sides, left, right) && root.len() == 2 && sides.len() == 3
                && left.len() == 4 && right.len() == 2 && r == arranged(root, left, right),
        spans(r.footer, area, Axis::Vertical),
        spans(r.status, r.header, Axis::Vertical),
        spans(r.steps, r.header, Axis::Vertical),
        spans(r.info, r.header, Axis::Vertical),
        spans(r.detail, r.log, Axis::Vertical),
        r.footer.x == area.x && r.footer.width == area.width,
        r.status.x == r.header.x && r.status.width == r.header.width,
        r.steps.x == r.header.x && r.steps.width == r.header.width,
        r.info.x == r.header.x && r.info.width == r.header.width,
        r.detail.x == r.log.x && r.detail.width == r.log.width,
{
    let root = split(area, Axis::Vertical, &root_sizes());
    let sides = split(root[0], Axis::Horizontal, &side_sizes());
    let left = split(sides[0], Axis::Vertical, &left_sizes());
    let right = split(sides[2], Axis::Vertical, &right_sizes());
    assert(spans(root@[1], area, Axis::Vertical));
    assert(forall|i: int| 0 <= i < 4 ==> spans(#[trigger] left@[i], sides@[0], Axis::Vertical));
    assert(forall|i: int| 0 <= i < 2 ==> spans(#[trigger] right@[i], sides@[2], Axis::Vertical));
    assert(drawn(area, root@, sides@, left@, right@));
    arrange(&root, &left, &right)
}

/// What is drawn comes of splitting the area by these sizes: the controls take
/// three lines below, the left side forty-six columns, with one between the sides;
/// the panels of each side take the lines named here.
pub proof fn law_screen_is_split_by_its_sizes(
    area: Area,
    root: Seq<Area>,
    sides: Seq<Area>,
    left: Seq<Area>,
    right: Seq<Area>,
)
    requires
        drawn(area, root, sides, left, right),
    ensures
        splits_into(area, Axis::Vertical, seq![Size::Min(20), Size::Length(3)], root),
        splits_into(
            root[0],
            Axis::Horizontal,
            seq![Size::Length(46), Size::Length(1), Size::Min(20)],
            sides,
        ),
        splits_into(
            sides[0],
            Axis::Vertical,
            seq![Size::Length(10), Size::Length(6), Size::Length(3), Size::Min(8)],
            left,
        ),
        splits_into(sides[2], Axis::Vertical, seq![Size::Min(8), Size::Length(8)], right),
        arranged(root, left, right).header == left[0],
        arranged(root, left, right).status == left[1],
        arranged(root, left, right).steps == left[2],
        arranged(root, left, right).info == left[3],
        arranged(root, left, right).log == right[0],
        arranged(root, left, right).detail == right[1],
        arranged(root, left, right).footer == root[1],
{
}

} // verus!
