//! The areas of the screen: the terminal is cut into panes from top to
//! bottom by the layout solver of the terminal library.

use tui::layout::{Constraint, Direction, Layout, Rect};
use vstd::prelude::*;

verus! {

/// A rectangle of character cells: its top left corner and its size.
#[derive(Clone, Copy, Debug, PartialEq, Eq, Structural)]
pub struct Area {
    pub x: u16,
    pub y: u16,
    pub width: u16,
    pub height: u16,
}

impl Area {
    /// The right and the bottom edge are coordinates too.
    pub open spec fn fits(self) -> bool {
        &&& self.x + self.width <= u16::MAX
        &&& self.y + self.height <= u16::MAX
    }

    /// The area can be cut by percentages up to `percent`: the product
    /// with its height is a coordinate.
    pub open spec fn admits(self, percent: int) -> bool {
        self.fits() && percent * self.height <= u16::MAX
    }

    /// Whether the area can be cut by percentages up to `percent`.
    pub fn can_split(&self, percent: u16) -> (yes: bool)
        ensures
            yes == self.admits(percent as int),
    {
        let limit: u64 = 0xFFFF;
        assert(percent * self.height <= 0xFFFF * 0xFFFF) by (nonlinear_arith)
            requires
                0 <= percent <= 0xFFFF,
                0 <= self.height <= 0xFFFF,
        ;
        self.x as u64 + self.width as u64 <= limit && self.y as u64 + self.height as u64 <= limit
            && percent as u64 * self.height as u64 <= limit
    }
}

/// `Layout::split` of the terminal library, for a layout from top to
/// bottom without margin whose constraints are the percentages given. It
/// hands back one area for each percentage. Which rows each area gets is
/// decided by a constraint solver, and nothing is claimed of it. The call
/// multiplies each percentage with the height in 16 bits and adds the size
/// of the area to its corner; an area or a percentage for which one of
/// these does not fit is left out.
#[verifier::external_body]
fn split_vertical(area: Area, percentages: &Vec<u16>) -> (panes: Vec<Area>)
    requires
        area.fits(),
        forall|i: int| 0 <= i < percentages.len() ==> area.admits(#[trigger] percentages[i] as int),
    ensures
        panes.len() == percentages.len(),
{
    let constraints: Vec<Constraint> =
        percentages.iter().map(|p| Constraint::Percentage(*p)).collect();
    let rect = Rect { x: area.x, y: area.y, width: area.width, height: area.height };
    Layout::default()
        .direction(Direction::Vertical)
        .constraints(constraints)
        .split(rect)
        .iter()
        .map(|r| Area { x: r.x, y: r.y, width: r.width, height: r.height })
        .collect()
}

/// The shares of an area that is cut in two: four fifths above, one fifth
/// below.
pub fn layout_percentages() -> (percentages: Vec<u16>)
    ensures
        percentages@ == seq![80u16, 20],
{
    let mut percentages: Vec<u16> = Vec::new();
    percentages.push(80);
    percentages.push(20);
    assert(percentages@ =~= seq![80u16, 20]);
    percentages
}

/// The shares of the screen, from the top: the system information, the
/// process table, the command input and the command output.
pub fn screen_percentages() -> (percentages: Vec<u16>)
    ensures
        percentages@ == seq![10u16, 50, 10, 30],
{
    let mut percentages: Vec<u16> = Vec::new();
    percentages.push(10);
    percentages.push(50);
    percentages.push(10);
    percentages.push(30);
    assert(percentages@ =~= seq![10u16, 50, 10, 30]);
    percentages
}

/// An area that can be cut by a percentage can be cut by every smaller one.
proof fn lemma_admits_less(area: Area, percentages: Seq<u16>, largest: int)
    requires
        area.admits(largest),
        forall|i: int| 0 <= i < percentages.len() ==> #[trigger] percentages[i] <= largest,
    ensures
        forall|i: int| 0 <= i < percentages.len() ==> area.admits(#[trigger] percentages[i] as int),
{
    assert forall|i: int| 0 <= i < percentages.len() implies area.admits(
        #[trigger] percentages[i] as int,
    ) by {
        assert(percentages[i] * area.height <= largest * area.height) by (nonlinear_arith)
            requires
                0 <= percentages[i] <= largest,
                0 <= area.height,
        ;
    }
}

/// Cuts an area into an upper pane of about four fifths and a lower pane of
/// about one fifth, by the shares of `layout_percentages`.
pub fn create_layout(area: Area) -> (panes: Vec<Area>)
    requires
        area.admits(80),
    ensures
        panes.len() == 2,
{
    let percentages: Vec<u16> = layout_percentages();
    proof {
        lemma_admits_less(area, percentages@, 80);
    }
    split_vertical(area, &percentages)
}

/// Cuts the screen into its four panes, from the top: the system
/// information, the process table, the command input and the command
/// output, by the shares of `screen_percentages`.
pub fn screen_layout(screen: Area) -> (panes: Vec<Area>)
    requires
        screen.admits(50),
    ensures
        panes.len() == 4,
{
    let percentages: Vec<u16> = screen_percentages();
    proof {
        lemma_admits_less(screen, percentages@, 50);
    }
    split_vertical(screen, &percentages)
}

} // verus!
