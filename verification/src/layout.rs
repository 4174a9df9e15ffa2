//! Geometry of the pager: one row of equally wide cells, one per desktop,
//! centred in the widget, and the cell that a pointer position falls into.

use crate::text::decimal_string;
use crate::text::digits;
use crate::text::lemma_decimal_length;
use vstd::prelude::*;
use vstd::string::*;

verus! {

/// Side of a cell in a freshly created pager.
pub const DEFAULT_CELL_SIZE: u16 = 32;

/// Gap between two cells, and between the cells and the widget's edge.
pub const PADDING: u16 = 4;

/// Width of the widget's border.
pub const BORDER: u16 = 2;

/// Smallest side that a cell is ever given.
pub const MIN_CELL_SIZE: u16 = 16;

/// Distance of a fresh pager's lower edge from the bottom of the screen.
pub const BOTTOM_MARGIN: u16 = 50;

/// Width of one character of a cell's label.
pub const CHAR_WIDTH: u16 = 6;

/// Height of one character of a cell's label.
pub const CHAR_HEIGHT: u16 = 13;

/// `a - b`, or zero where `b` is the larger.
pub open spec fn minus_or_zero(a: int, b: int) -> int {
    if a > b {
        a - b
    } else {
        0
    }
}

/// The larger of the two.
pub open spec fn at_least(floor: int, a: int) -> int {
    if a < floor {
        floor
    } else {
        a
    }
}

/// Width of each cell: the widget's width without the left padding, shared
/// equally, each share without its own padding, and never under the floor.
pub open spec fn cell_width(num_desktops: u32, win_width: u16) -> int
    recommends
        num_desktops >= 1,
{
    at_least(
        MIN_CELL_SIZE as int,
        minus_or_zero(minus_or_zero(win_width as int, PADDING as int) / (num_desktops as int),
            PADDING as int),
    )
}

/// Height of each cell: the widget's height without the padding above and
/// below, and never under the floor.
pub open spec fn cell_height(win_height: u16) -> int {
    at_least(MIN_CELL_SIZE as int, minus_or_zero(win_height as int, 2 * PADDING))
}

/// Distance from one cell's left edge to the next one's.
pub open spec fn cell_stride(num_desktops: u32, win_width: u16) -> int {
    cell_width(num_desktops, win_width) + PADDING
}

/// Width of the whole row of cells, with the gaps between them.
pub open spec fn row_width(num_desktops: u32, win_width: u16) -> int {
    num_desktops * cell_stride(num_desktops, win_width) - PADDING
}

/// Left edge of the first cell: the row is centred, and starts at the
/// widget's left edge where it is wider than the widget.
pub open spec fn row_start(num_desktops: u32, win_width: u16) -> int {
    minus_or_zero(win_width as int, row_width(num_desktops, win_width)) / 2
}

/// Left edge of the cell of desktop `index` (counted from zero).
pub open spec fn cell_left(num_desktops: u32, win_width: u16, index: int) -> int {
    row_start(num_desktops, win_width) + index * cell_stride(num_desktops, win_width)
}

/// Whether the height `y` lies in the band that the cells fill.
pub open spec fn in_cell_band(win_height: u16, y: int) -> bool {
    PADDING <= y < PADDING + cell_height(win_height)
}

/// Whether the position `x` lies in the columns of the cell of desktop
/// `index`.
pub open spec fn in_cell_columns(num_desktops: u32, win_width: u16, index: int, x: int) -> bool {
    cell_left(num_desktops, win_width, index) <= x < cell_left(num_desktops, win_width, index)
        + cell_width(num_desktops, win_width)
}

/// Whether the point lies inside the cell of desktop `index`.
pub open spec fn in_cell(
    num_desktops: u32,
    win_width: u16,
    win_height: u16,
    index: int,
    x: int,
    y: int,
) -> bool {
    0 <= index < num_desktops && in_cell_band(win_height, y) && in_cell_columns(
        num_desktops,
        win_width,
        index,
        x,
    )
}

/// The desktop (counted from zero) whose cell holds the point, if one does.
pub open spec fn clicked_cell(
    num_desktops: u32,
    win_width: u16,
    win_height: u16,
    x: int,
    y: int,
) -> Option<u32> {
    if exists|index: int| in_cell(num_desktops, win_width, win_height, index, x, y) {
        Some(
            (choose|index: int| in_cell(num_desktops, win_width, win_height, index, x, y)) as u32,
        )
    } else {
        None
    }
}

/// Two different cells share no column.
pub proof fn lemma_cells_disjoint(num_desktops: u32, win_width: u16, i: int, j: int, x: int)
    requires
        num_desktops >= 1,
        0 <= i < j,
        in_cell_columns(num_desktops, win_width, i, x),
    ensures
        !in_cell_columns(num_desktops, win_width, j, x),
{
    let stride = cell_stride(num_desktops, win_width);
    assert((i + 1) * stride <= j * stride) by (nonlinear_arith)
        requires
            i + 1 <= j,
            stride >= 0,
    ;
    assert((i + 1) * stride == i * stride + stride) by (nonlinear_arith);
}

/// A point inside a cell is inside that cell and no other.
pub proof fn lemma_clicked_cell_is(
    num_desktops: u32,
    win_width: u16,
    win_height: u16,
    index: int,
    x: int,
    y: int,
)
    requires
        num_desktops >= 1,
        in_cell(num_desktops, win_width, win_height, index, x, y),
    ensures
        clicked_cell(num_desktops, win_width, win_height, x, y) == Some(index as u32),
{
    let other = choose|other: int| in_cell(num_desktops, win_width, win_height, other, x, y);
    if other < index {
        lemma_cells_disjoint(num_desktops, win_width, other, index, x);
    }
    if index < other {
        lemma_cells_disjoint(num_desktops, win_width, index, other, x);
    }
}

/// Cells further to the right start further to the right.
pub proof fn lemma_cells_ordered(num_desktops: u32, win_width: u16, i: int, j: int)
    requires
        num_desktops >= 1,
        0 <= i <= j,
    ensures
        cell_left(num_desktops, win_width, i) <= cell_left(num_desktops, win_width, j),
{
    let stride = cell_stride(num_desktops, win_width);
    assert(i * stride <= j * stride) by (nonlinear_arith)
        requires
            i <= j,
            stride >= 0,
    ;
}

/// Width and height of each cell of a pager of the given size.
pub fn calculate_cell_dimensions(num_desktops: u32, win_width: u16, win_height: u16) -> (dims: (
    u16,
    u16,
))
    requires
        num_desktops >= 1,
    ensures
        dims.0 == cell_width(num_desktops, win_width),
        dims.1 == cell_height(win_height),
        dims.0 >= MIN_CELL_SIZE,
        dims.1 >= MIN_CELL_SIZE,
{
    let available_width: u32 = win_width.saturating_sub(PADDING) as u32;
    let share: u32 = available_width / num_desktops;
    assert(share <= available_width) by (nonlinear_arith)
        requires
            share == available_width / num_desktops,
            num_desktops >= 1,
    ;
    let share: u16 = share as u16;
    let mut width: u16 = share.saturating_sub(PADDING);
    if width < MIN_CELL_SIZE {
        width = MIN_CELL_SIZE;
    }
    let mut height: u16 = win_height.saturating_sub(PADDING * 2);
    if height < MIN_CELL_SIZE {
        height = MIN_CELL_SIZE;
    }
    (width, height)
}

/// Left edge of the first cell.
pub fn row_origin(num_desktops: u32, win_width: u16) -> (start: u16)
    requires
        num_desktops >= 1,
    ensures
        start == row_start(num_desktops, win_width),
{
    let dims = calculate_cell_dimensions(num_desktops, win_width, 0);
    let stride: u64 = dims.0 as u64 + PADDING as u64;
    assert(num_desktops * stride <= 0xffff_ffff * 0x1_0003) by (nonlinear_arith)
        requires
            num_desktops <= 0xffff_ffff,
            stride <= 0x1_0003,
    ;
    assert(num_desktops * stride >= stride) by (nonlinear_arith)
        requires
            num_desktops >= 1,
            stride >= 0,
    ;
    let total: u64 = num_desktops as u64 * stride - PADDING as u64;
    if (win_width as u64) > total {
        ((win_width as u64 - total) / 2) as u16
    } else {
        0
    }
}

/// The desktop (counted from zero) whose cell holds the point, if one does.
///
/// The point is given in the widget's own coordinates. A point above or below
/// the row of cells, in a gap between two cells or beside the row is in no
/// cell.
pub fn get_clicked_desktop(
    x: u16,
    y: u16,
    num_desktops: u32,
    win_width: u16,
    win_height: u16,
) -> (clicked: Option<u32>)
    requires
        num_desktops >= 1,
    ensures
        match clicked {
            Some(index) => in_cell(
                num_desktops,
                win_width,
                win_height,
                index as int,
                x as int,
                y as int,
            ),
            None => forall|index: int|
                !in_cell(num_desktops, win_width, win_height, index, x as int, y as int),
        },
        clicked == clicked_cell(num_desktops, win_width, win_height, x as int, y as int),
{
    let dims = calculate_cell_dimensions(num_desktops, win_width, win_height);
    let width: u64 = dims.0 as u64;
    let height: u64 = dims.1 as u64;
    let stride: u64 = width + PADDING as u64;
    let start: u64 = row_origin(num_desktops, win_width) as u64;
    if (y as u64) < PADDING as u64 || y as u64 >= PADDING as u64 + height {
        return None;
    }
    let mut index: u32 = 0;
    let mut left: u64 = start;
    while index < num_desktops && left <= x as u64
        invariant
            num_desktops >= 1,
            index <= num_desktops,
            width == cell_width(num_desktops, win_width),
            stride == cell_stride(num_desktops, win_width),
            start == row_start(num_desktops, win_width),
            left == cell_left(num_desktops, win_width, index as int),
            left <= 0xffff + 0x1_0003,
            forall|j: int| 0 <= j < index ==> !in_cell_columns(num_desktops, win_width, j, x as int),
            in_cell_band(win_height, y as int),
        decreases num_desktops - index,
    {
        if (x as u64) < left + width {
            proof {
                lemma_clicked_cell_is(
                    num_desktops,
                    win_width,
                    win_height,
                    index as int,
                    x as int,
                    y as int,
                );
            }
            return Some(index);
        }
        assert((index + 1) * stride == index * stride + stride) by (nonlinear_arith);
        index += 1;
        left += stride;
    }
    proof {
        assert forall|j: int| !in_cell(
            num_desktops,
            win_width,
            win_height,
            j,
            x as int,
            y as int,
        ) by {
            if index <= j < num_desktops {
                lemma_cells_ordered(num_desktops, win_width, index as int, j);
            }
        }
    }
    None
}

/// Where on the screen a fresh pager is put, and how large it is.
#[derive(Debug, Clone, Copy, PartialEq, Eq, Structural)]
pub struct PagerGeometry {
    pub x: u16,
    pub y: u16,
    pub width: u16,
    pub height: u16,
}

/// Width of a fresh pager for the given number of desktops.
pub open spec fn initial_width(num_desktops: u32) -> int {
    num_desktops * (DEFAULT_CELL_SIZE + PADDING) + PADDING
}

/// Height of a fresh pager.
pub open spec fn initial_height() -> int {
    DEFAULT_CELL_SIZE + 2 * PADDING
}

/// Whether a fresh pager for so many desktops is no wider than a window can
/// be.
pub fn initial_width_fits(num_desktops: u32) -> (fits: bool)
    ensures
        fits == (initial_width(num_desktops) <= u16::MAX),
{
    let stride: u64 = DEFAULT_CELL_SIZE as u64 + PADDING as u64;
    assert(stride == 36);
    assert(num_desktops * stride <= 0xffff_ffff * 36) by (nonlinear_arith)
        requires
            num_desktops <= 0xffff_ffff,
            stride == 36,
    ;
    num_desktops as u64 * stride + PADDING as u64 <= u16::MAX as u64
}

/// Position and size of a fresh pager: cells of the default size, centred
/// at the bottom of the screen, a fixed distance above its edge.
pub fn initial_geometry(screen_width: u16, screen_height: u16, num_desktops: u32) -> (geometry:
    PagerGeometry)
    requires
        initial_width(num_desktops) <= u16::MAX,
    ensures
        geometry.width == initial_width(num_desktops),
        geometry.height == initial_height(),
        geometry.x == minus_or_zero(screen_width as int, geometry.width as int) / 2,
        geometry.y == minus_or_zero(screen_height as int, geometry.height + BOTTOM_MARGIN),
{
    let width: u16 = (num_desktops * (DEFAULT_CELL_SIZE as u32 + PADDING as u32) + PADDING as u32) as u16;
    let height: u16 = DEFAULT_CELL_SIZE + PADDING * 2;
    PagerGeometry {
        x: screen_width.saturating_sub(width) / 2,
        y: screen_height.saturating_sub(height + BOTTOM_MARGIN),
        width,
        height,
    }
}

/// Side of the window that shows the number of the active desktop.
pub const POPUP_SIZE: u16 = 60;

/// Width of one character of the number in that window.
pub const POPUP_CHAR_WIDTH: u16 = 8;

/// Position and size of the window that shows the number of the active
/// desktop: a square in the middle of the screen.
pub fn popup_geometry(screen_width: u16, screen_height: u16) -> (geometry: PagerGeometry)
    ensures
        geometry.width == POPUP_SIZE,
        geometry.height == POPUP_SIZE,
        geometry.x == minus_or_zero(screen_width as int, POPUP_SIZE as int) / 2,
        geometry.y == minus_or_zero(screen_height as int, POPUP_SIZE as int) / 2,
{
    PagerGeometry {
        x: screen_width.saturating_sub(POPUP_SIZE) / 2,
        y: screen_height.saturating_sub(POPUP_SIZE) / 2,
        width: POPUP_SIZE,
        height: POPUP_SIZE,
    }
}

/// The number of the active desktop as it is shown in a window of its own.
#[derive(Debug)]
pub struct PopupLabel {
    /// The desktop's number, counted from one.
    pub text: String,
    /// Left end of the baseline.
    pub x: i16,
    /// Height of the baseline.
    pub y: i16,
}

/// The number of desktop `desktop` (counted from zero), centred in its
/// window.
pub fn popup_label(desktop: u32) -> (label: PopupLabel)
    requires
        desktop < u32::MAX,
    ensures
        label.text@ == digits((desktop + 1) as nat, 10),
        label.x == half_towards_zero(POPUP_SIZE - POPUP_CHAR_WIDTH * label.text@.len()),
        label.y == (POPUP_SIZE + CHAR_HEIGHT) / 2,
{
    let text = decimal_string(desktop + 1);
    proof {
        lemma_decimal_length((desktop + 1) as nat);
    }
    let width: i16 = POPUP_CHAR_WIDTH as i16 * text.as_str().unicode_len() as i16;
    let room: i16 = POPUP_SIZE as i16 - width;
    let x: i16 = if room >= 0 {
        room / 2
    } else {
        -((-room) / 2)
    };
    PopupLabel { text, x, y: (POPUP_SIZE as i16 + CHAR_HEIGHT as i16) / 2 }
}

/// Half of `a`, rounded towards zero.
pub open spec fn half_towards_zero(a: int) -> int {
    if a >= 0 {
        a / 2
    } else {
        -((-a) / 2)
    }
}

/// What is drawn for one desktop: a filled and outlined rectangle with the
/// desktop's number in it.
#[derive(Debug)]
pub struct CellDrawing {
    /// The desktop, counted from zero.
    pub desktop: u32,
    /// Left edge of the rectangle.
    pub x: u64,
    /// Upper edge of the rectangle.
    pub y: u16,
    pub width: u16,
    pub height: u16,
    /// Whether this is the active desktop, which is drawn with foreground
    /// and background exchanged.
    pub active: bool,
    /// The desktop's number, counted from one.
    pub label: String,
    /// Left end of the label's baseline.
    pub text_x: i64,
    /// Height of the label's baseline.
    pub text_y: i64,
}

impl CellDrawing {
    /// Whether this is the drawing of desktop `index` in a pager of the given
    /// size in which `current` is active.
    pub open spec fn is_cell(
        &self,
        num_desktops: u32,
        current: u32,
        win_width: u16,
        win_height: u16,
        index: int,
    ) -> bool {
        &&& self.desktop == index
        &&& self.x == cell_left(num_desktops, win_width, index)
        &&& self.y == PADDING
        &&& self.width == cell_width(num_desktops, win_width)
        &&& self.height == cell_height(win_height)
        &&& self.active == (index == current)
        &&& self.label@ == digits((index + 1) as nat, 10)
        &&& self.text_x == self.x + half_towards_zero(self.width - CHAR_WIDTH * self.label@.len())
        &&& self.text_y == self.y + (self.height + CHAR_HEIGHT) / 2
    }
}

/// A point is in the rectangle that is drawn for a desktop exactly if a click
/// at that point resolves to that desktop.
pub proof fn lemma_click_hits_drawn_cell(
    cell: &CellDrawing,
    num_desktops: u32,
    current: u32,
    win_width: u16,
    win_height: u16,
    index: int,
    x: int,
    y: int,
)
    requires
        num_desktops >= 1,
        0 <= index < num_desktops,
        cell.is_cell(num_desktops, current, win_width, win_height, index),
    ensures
        (cell.x <= x < cell.x + cell.width && cell.y <= y < cell.y + cell.height) <==> clicked_cell(
            num_desktops,
            win_width,
            win_height,
            x,
            y,
        ) == Some(index as u32),
{
    if in_cell(num_desktops, win_width, win_height, index, x, y) {
        lemma_clicked_cell_is(num_desktops, win_width, win_height, index, x, y);
    }
    if clicked_cell(num_desktops, win_width, win_height, x, y) == Some(index as u32) {
        let found = choose|found: int| in_cell(num_desktops, win_width, win_height, found, x, y);
        assert(found as u32 == index as u32);
    }
}

/// What is drawn for each desktop, in their order, after the widget was
/// cleared.
pub fn draw_pager(num_desktops: u32, current: u32, win_width: u16, win_height: u16) -> (cells: Vec<
    CellDrawing,
>)
    requires
        num_desktops >= 1,
    ensures
        cells@.len() == num_desktops,
        forall|index: int|
            0 <= index < num_desktops ==> (#[trigger] cells@[index]).is_cell(
                num_desktops,
                current,
                win_width,
                win_height,
                index,
            ),
{
    let dims = calculate_cell_dimensions(num_desktops, win_width, win_height);
    let stride: u64 = dims.0 as u64 + PADDING as u64;
    let start: u64 = row_origin(num_desktops, win_width) as u64;
    let mut cells: Vec<CellDrawing> = Vec::new();
    let mut index: u32 = 0;
    let mut left: u64 = start;
    while index < num_desktops
        invariant
            num_desktops >= 1,
            index <= num_desktops,
            dims.0 == cell_width(num_desktops, win_width),
            dims.1 == cell_height(win_height),
            stride == cell_stride(num_desktops, win_width),
            left == cell_left(num_desktops, win_width, index as int),
            left == start + index * stride,
            stride <= 0x1_0003,
            start <= 0xffff,
            cells@.len() == index,
            forall|j: int|
                0 <= j < index ==> (#[trigger] cells@[j]).is_cell(
                    num_desktops,
                    current,
                    win_width,
                    win_height,
                    j,
                ),
        decreases num_desktops - index,
    {
        let label = decimal_string(index + 1);
        proof {
            lemma_decimal_length((index + 1) as nat);
        }
        let text_width: i64 = CHAR_WIDTH as i64 * label.as_str().unicode_len() as i64;
        let room: i64 = dims.0 as i64 - text_width;
        let inset: i64 = if room >= 0 {
            room / 2
        } else {
            -((-room) / 2)
        };
        assert(index * stride <= 0xffff_ffff * 0x1_0003) by (nonlinear_arith)
            requires
                index <= 0xffff_ffff,
                0 <= stride <= 0x1_0003,
        ;
        let cell = CellDrawing {
            desktop: index,
            x: left,
            y: PADDING,
            width: dims.0,
            height: dims.1,
            active: index == current,
            label,
            text_x: left as i64 + inset,
            text_y: PADDING as i64 + (dims.1 as i64 + CHAR_HEIGHT as i64) / 2,
        };
        assert(cell.is_cell(num_desktops, current, win_width, win_height, index as int));
        cells.push(cell);
        assert((index + 1) * stride == index * stride + stride) by (nonlinear_arith);
        index += 1;
        left += stride;
    }
    cells
}

} // verus!
