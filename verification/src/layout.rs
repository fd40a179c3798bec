//! Geometry of the window: where the header and the list go, the list's
//! columns, the status bar's parts, and how one list row is drawn.

use vstd::prelude::*;

use crate::items::FontItem;
use crate::fontlink::no_link_text;
use crate::wide::{encode_utf16, to_wide_string};

verus! {

/// Height of the title strip at the top of the window.
pub const HEADER_HEIGHT: i32 = 40;

/// Gap between the list and the window's edges and strips.
pub const LIST_MARGIN: i32 = 5;

/// Number of list columns.
pub const COLUMN_COUNT: usize = 4;

/// Widths the columns are made with, left to right.
pub const INITIAL_COLUMN_WIDTHS: [i32; 4] = [200, 300, 80, 400];

/// Horizontal padding inside a cell, on each side.
pub const CELL_PAD_X: i32 = 4;

/// Vertical padding inside a cell, above and below.
pub const CELL_PAD_Y: i32 = 2;

/// Row background when the row is not selected (white).
pub const ROW_BACKGROUND: u32 = 0x00FF_FFFF;

/// Text colour of the font name column (black).
pub const NAME_COLOR: u32 = 0x0000_0000;

/// Text colour of the preview column (dark orange, as BGR).
pub const PREVIEW_COLOR: u32 = 0x00AA_6600;

/// Colour of the status mark of a font that has a link list (green).
pub const LINKED_COLOR: u32 = 0x0000_8000;

/// Colour of the status mark of a font without a link list (red, as BGR).
pub const UNLINKED_COLOR: u32 = 0x0000_00AA;

/// Text colour of the link list column (grey).
pub const LINK_INFO_COLOR: u32 = 0x0066_6666;

/// Background of the header strip (dark orange, as BGR).
pub const HEADER_BACKGROUND: u32 = 0x00AA_6600;

/// Text colour of the header strip (white).
pub const HEADER_TEXT_COLOR: u32 = 0x00FF_FFFF;

/// The text of the header strip.
pub const HEADER_TITLE: &'static str = "🔤 字体回退测试工具 - SystemLink 配置检查器";

/// The main window's title.
pub const WINDOW_TITLE: &'static str = "字体回退测试工具 v3";

/// A rectangle in pixels, as Win32 `RECT`.
#[derive(Clone, Copy)]
pub struct Rect {
    pub left: i32,
    pub top: i32,
    pub right: i32,
    pub bottom: i32,
}

/// A child window's position and size.
#[derive(Clone, Copy)]
pub struct Bounds {
    pub x: i32,
    pub y: i32,
    pub width: i32,
    pub height: i32,
}

/// Where the header strip and the list go in the client area.
pub struct WindowLayout {
    pub header: Bounds,
    pub list: Bounds,
}

pub open spec fn fits_i32(x: int) -> bool {
    i32::MIN <= x <= i32::MAX
}

/// Whether `window_layout` can compute the layout without overflow.
pub open spec fn window_layout_fits(client_width: i32, client_height: i32, status_height: i32) -> bool {
    &&& fits_i32(client_width - 2 * LIST_MARGIN)
    &&& fits_i32(client_height - HEADER_HEIGHT)
    &&& fits_i32(client_height - HEADER_HEIGHT - status_height)
    &&& fits_i32(client_height - HEADER_HEIGHT - status_height - 2 * LIST_MARGIN)
}

/// The header spans the client width at the top; the list sits below it,
/// `LIST_MARGIN` pixels from the header and the sides, and above the
/// status bar.
pub fn window_layout(client_width: i32, client_height: i32, status_height: i32) -> (r: WindowLayout)
    requires
        window_layout_fits(client_width, client_height, status_height),
    ensures
        r.header.x == 0,
        r.header.y == 0,
        r.header.width == client_width,
        r.header.height == HEADER_HEIGHT,
        r.list.x == LIST_MARGIN,
        r.list.y == HEADER_HEIGHT + LIST_MARGIN,
        r.list.width == client_width - 2 * LIST_MARGIN,
        r.list.height == client_height - HEADER_HEIGHT - status_height - 2 * LIST_MARGIN,
{
    WindowLayout {
        header: Bounds { x: 0, y: 0, width: client_width, height: HEADER_HEIGHT },
        list: Bounds {
            x: LIST_MARGIN,
            y: HEADER_HEIGHT + LIST_MARGIN,
            width: client_width - 2 * LIST_MARGIN,
            height: client_height - HEADER_HEIGHT - status_height - 2 * LIST_MARGIN,
        },
    }
}

/// Whether `window_layout` can be called on these values.
pub fn can_lay_out_window(client_width: i32, client_height: i32, status_height: i32) -> (r: bool)
    ensures
        r == window_layout_fits(client_width, client_height, status_height),
{
    let h = client_height as i64 - HEADER_HEIGHT as i64 - status_height as i64 - 2 * LIST_MARGIN as i64;
    let w = client_width as i64 - 2 * LIST_MARGIN as i64;
    let a = client_height as i64 - HEADER_HEIGHT as i64;
    let b = a - status_height as i64;
    i32::MIN as i64 <= w && i32::MIN as i64 <= a && a <= i32::MAX as i64 && i32::MIN as i64 <= b && b <= i32::MAX as i64
        && i32::MIN as i64 <= h && h <= i32::MAX as i64
}


/// The client width and height that a `WM_SIZE` message's `lParam` holds:
/// its low and high 16-bit words.
pub fn client_size_from_lparam(lparam: isize) -> (r: (i32, i32))
    ensures
        r.0 == (lparam as usize) % 0x10000,
        r.1 == ((lparam as usize) / 0x10000) % 0x10000,
{
    let u = lparam as usize;
    let lo = u & 0xFFFF;
    let hi = (u >> 16) & 0xFFFF;
    assert(lo == u % 0x10000 && hi == (u / 0x10000) % 0x10000 && lo < 0x10000 && hi < 0x10000)
        by (bit_vector)
        requires
            lo == u & 0xFFFF,
            hi == (u >> 16) & 0xFFFF,
    ;
    (lo as i32, hi as i32)
}

/// The title of a list column.
pub open spec fn column_title(k: int) -> Seq<char> {
    if k == 0 {
        "字体名称"@
    } else if k == 1 {
        "预览"@
    } else if k == 2 {
        "FontLink"@
    } else {
        "FontLink配置"@
    }
}

/// A list column as it is inserted.
pub struct ColumnSpec {
    pub sub_item: i32,
    pub width: i32,
    pub title: &'static str,
}

/// The list's columns, left to right: font name, preview, link status and
/// link list, with the widths of `INITIAL_COLUMN_WIDTHS`.
pub fn list_columns() -> (r: Vec<ColumnSpec>)
    ensures
        r@.len() == COLUMN_COUNT,
        forall|k: int|
            0 <= k < COLUMN_COUNT ==> {
                &&& (#[trigger] r@[k]).sub_item == k
                &&& r@[k].width == INITIAL_COLUMN_WIDTHS[k]
                &&& r@[k].title@ == column_title(k)
            },
{
    let widths = INITIAL_COLUMN_WIDTHS;
    let r = vec![
        ColumnSpec { sub_item: 0, width: widths[0], title: "字体名称" },
        ColumnSpec { sub_item: 1, width: widths[1], title: "预览" },
        ColumnSpec { sub_item: 2, width: widths[2], title: "FontLink" },
        ColumnSpec { sub_item: 3, width: widths[3], title: "FontLink配置" },
    ];
    assert forall|k: int| 0 <= k < COLUMN_COUNT implies {
        &&& (#[trigger] r@[k]).sub_item == k
        &&& r@[k].width == INITIAL_COLUMN_WIDTHS[k]
        &&& r@[k].title@ == column_title(k)
    } by {
        if k == 0 {
        } else if k == 1 {
        } else if k == 2 {
        } else {
        }
    }
    r
}

/// The right edges of the status bar's parts; -1 runs to the window's edge.
pub fn status_bar_parts() -> (r: Vec<i32>)
    ensures
        r@ == seq![200i32, 400i32, -1i32],
{
    let r = vec![200i32, 400i32, -1i32];
    assert(r@ =~= seq![200i32, 400i32, -1i32]);
    r
}

/// The texts of the status bar's parts, left to right.
pub fn status_bar_texts() -> (r: Vec<&'static str>)
    ensures
        r@.len() == 3,
        r@[0]@ == "字体回退测试工具"@,
        r@[1]@ == "检查系统FontLink配置"@,
        r@[2]@ == "✅=有配置 ❌=无配置"@,
{
    vec!["字体回退测试工具", "检查系统FontLink配置", "✅=有配置 ❌=无配置"]
}


/// The sample text drawn in each font when the settings give none.
pub const PREVIEW_TEXT: &'static str = "包罗万象化春外，最美全年天地中";

/// The status mark of a font that has a link list.
pub const LINKED_MARK: &'static str = "✅";

/// The status mark of a font without a link list.
pub const UNLINKED_MARK: &'static str = "❌";

/// The font a cell is drawn with.
#[derive(Clone, Copy)]
pub enum CellFont {
    /// The list's own font.
    List,
    /// The preview font at this position of the preview font list.
    Preview(usize),
}

/// How a cell's text is placed: on one line, vertically centred, and
/// either left-aligned with an ellipsis where it is cut, or centred.
#[derive(Clone, Copy, PartialEq, Eq)]
pub enum TextAlign {
    LeftEllipsis,
    Center,
}

/// How one cell of a row is drawn, in the row's own coordinates.
pub struct CellPlan {
    pub rect: Rect,
    pub font: CellFont,
    pub color: u32,
    /// NUL-terminated UTF-16 text.
    pub text: Vec<u16>,
    pub align: TextAlign,
}

/// How one list row is drawn: a `width` by `height` background, then its
/// cells.
pub struct RowPlan {
    pub width: i32,
    pub height: i32,
    pub background: u32,
    pub cells: Vec<CellPlan>,
}

/// Left edge of column `k`: the sum of the widths of the columns before it.
pub open spec fn column_left(widths: Seq<i32>, k: int) -> int
    decreases k,
{
    if k <= 0 {
        0
    } else {
        column_left(widths, k - 1) + widths[k - 1]
    }
}

/// Whether drawing a row with this rectangle and these column widths stays
/// within `i32` in every step.
pub open spec fn row_fits(item_rect: Rect, widths: Seq<i32>) -> bool {
    &&& widths.len() == COLUMN_COUNT
    &&& fits_i32(item_rect.right - item_rect.left)
    &&& fits_i32(item_rect.bottom - item_rect.top)
    &&& fits_i32(item_rect.bottom - item_rect.top - CELL_PAD_Y)
    &&& forall|k: int|
        0 <= k < COLUMN_COUNT ==> {
            &&& fits_i32(#[trigger] column_left(widths, k) + widths[k])
            &&& fits_i32(column_left(widths, k) + widths[k] - 1)
            &&& fits_i32(column_left(widths, k) + CELL_PAD_X)
            &&& fits_i32(column_left(widths, k) + widths[k] - 1 - CELL_PAD_X)
        }
}

/// The rectangle of cell `k` in a row of the given height: its column,
/// less one pixel at the right, inset by the cell padding.
pub open spec fn cell_rect(widths: Seq<i32>, k: int, height: int) -> Rect {
    Rect {
        left: (column_left(widths, k) + CELL_PAD_X) as i32,
        top: CELL_PAD_Y,
        right: (column_left(widths, k) + widths[k] - 1 - CELL_PAD_X) as i32,
        bottom: (height - CELL_PAD_Y) as i32,
    }
}

/// The text of cell `k` of a row, NUL-terminated UTF-16: the font name, the
/// sample text, the status mark, the link text.
pub open spec fn cell_text(k: int, item: FontItem, sample: Seq<char>) -> Seq<u16> {
    let text = if k == 0 {
        item.name@
    } else if k == 1 {
        sample
    } else if k == 2 {
        if item.has_fontlink {
            LINKED_MARK@
        } else {
            UNLINKED_MARK@
        }
    } else {
        item.link_text@
    };
    encode_utf16(text).push(0u16)
}

/// The colour of cell `k`: the highlight text colour in a selected row,
/// otherwise the column's own colour.
pub open spec fn cell_color(k: int, item: FontItem, selected: bool, highlight_text: u32) -> u32 {
    if selected {
        highlight_text
    } else if k == 0 {
        NAME_COLOR
    } else if k == 1 {
        PREVIEW_COLOR
    } else if k == 2 {
        if item.has_fontlink {
            LINKED_COLOR
        } else {
            UNLINKED_COLOR
        }
    } else {
        LINK_INFO_COLOR
    }
}

/// The status column is centred, the others left-aligned.
pub open spec fn cell_align(k: int) -> TextAlign {
    if k == 2 {
        TextAlign::Center
    } else {
        TextAlign::LeftEllipsis
    }
}

/// `Preview(j)` names the first preview font made for `name`; `List`
/// stands where none was made for it.
pub open spec fn preview_font_matches(font: CellFont, previews: Seq<Seq<char>>, name: Seq<char>) -> bool {
    match font {
        CellFont::Preview(j) => {
            &&& j < previews.len()
            &&& previews[j as int] == name
            &&& forall|i: int| 0 <= i < j ==> previews[i] != name
        },
        CellFont::List => forall|i: int| 0 <= i < previews.len() ==> previews[i] != name,
    }
}

/// The font of cell `k`: the sample text uses the item's preview font where
/// one was made, every other cell the list font.
pub open spec fn cell_font_matches(font: CellFont, k: int, previews: Seq<Seq<char>>, name: Seq<char>) -> bool {
    if k == 1 {
        preview_font_matches(font, previews, name)
    } else {
        font == CellFont::List
    }
}

/// Cell `k` of the row of `item`.
pub open spec fn cell_matches(
    cell: CellPlan,
    k: int,
    item: FontItem,
    widths: Seq<i32>,
    height: int,
    selected: bool,
    highlight_text: u32,
    previews: Seq<Seq<char>>,
    sample: Seq<char>,
) -> bool {
    &&& cell.rect == cell_rect(widths, k, height)
    &&& cell_font_matches(cell.font, k, previews, item.name@)
    &&& cell.color == cell_color(k, item, selected, highlight_text)
    &&& cell.text@ == cell_text(k, item, sample)
    &&& cell.align == cell_align(k)
}

/// The names the preview fonts were made for, as the list holds them.
pub open spec fn preview_names(previews: Seq<String>) -> Seq<Seq<char>> {
    previews.map_values(|s: String| s@)
}

/// The position of the first preview font made for `name`.
pub fn preview_font_index(previews: &Vec<String>, name: &String) -> (r: CellFont)
    ensures
        preview_font_matches(r, preview_names(previews@), name@),
{
    let mut j: usize = 0;
    while j < previews.len()
        invariant
            j <= previews@.len(),
            forall|i: int| 0 <= i < j ==> preview_names(previews@)[i] != name@,
        decreases previews@.len() - j,
    {
        if previews[j] == *name {
            return CellFont::Preview(j);
        }
        j += 1;
    }
    CellFont::List
}

/// How cell `k` of the row of `item` is drawn.
fn plan_cell(
    k: usize,
    item: &FontItem,
    widths: &[i32; 4],
    column_left_k: i32,
    height: i32,
    selected: bool,
    highlight_text: u32,
    previews: &Vec<String>,
    sample_text: &str,
) -> (r: CellPlan)
    requires
        k < COLUMN_COUNT,
        column_left_k == column_left(widths@, k as int),
        fits_i32(height - CELL_PAD_Y),
        fits_i32(column_left(widths@, k as int) + widths@[k as int]),
        fits_i32(column_left(widths@, k as int) + widths@[k as int] - 1),
        fits_i32(column_left(widths@, k as int) + CELL_PAD_X),
        fits_i32(column_left(widths@, k as int) + widths@[k as int] - 1 - CELL_PAD_X),
    ensures
        cell_matches(
            r,
            k as int,
            *item,
            widths@,
            height as int,
            selected,
            highlight_text,
            preview_names(previews@),
            sample_text@,
        ),
{
    let width = widths[k];
    let rect = Rect {
        left: column_left_k + CELL_PAD_X,
        top: CELL_PAD_Y,
        right: column_left_k + width - 1 - CELL_PAD_X,
        bottom: height - CELL_PAD_Y,
    };
    let font = if k == 1 {
        preview_font_index(previews, &item.name)
    } else {
        CellFont::List
    };
    let color = if selected {
        highlight_text
    } else if k == 0 {
        NAME_COLOR
    } else if k == 1 {
        PREVIEW_COLOR
    } else if k == 2 {
        if item.has_fontlink {
            LINKED_COLOR
        } else {
            UNLINKED_COLOR
        }
    } else {
        LINK_INFO_COLOR
    };
    let text = if k == 0 {
        to_wide_string(item.name.as_str())
    } else if k == 1 {
        to_wide_string(sample_text)
    } else if k == 2 {
        if item.has_fontlink {
            to_wide_string(LINKED_MARK)
        } else {
            to_wide_string(UNLINKED_MARK)
        }
    } else {
        to_wide_string(item.link_text.as_str())
    };
    let align = if k == 2 {
        TextAlign::Center
    } else {
        TextAlign::LeftEllipsis
    };
    CellPlan { rect, font, color, text, align }
}

/// How the row of item `item_id` is drawn into a rectangle of the list:
/// `None` when there is no such item. The background is the highlight
/// colour in a selected row and white otherwise; the cells follow the
/// columns left to right, the preview cell showing `sample_text`.
pub fn plan_row(
    items: &Vec<FontItem>,
    item_id: u32,
    item_rect: Rect,
    selected: bool,
    widths: &[i32; 4],
    highlight: u32,
    highlight_text: u32,
    previews: &Vec<String>,
    sample_text: &str,
) -> (r: Option<RowPlan>)
    requires
        item_id < items@.len() ==> row_fits(item_rect, widths@),
    ensures
        r is None <==> item_id >= items@.len(),
        r matches Some(p) ==> {
            &&& p.width == item_rect.right - item_rect.left
            &&& p.height == item_rect.bottom - item_rect.top
            &&& p.background == (if selected { highlight } else { ROW_BACKGROUND })
            &&& p.cells@.len() == COLUMN_COUNT
            &&& forall|k: int|
                0 <= k < COLUMN_COUNT ==> cell_matches(
                    #[trigger] p.cells@[k],
                    k,
                    items@[item_id as int],
                    widths@,
                    p.height as int,
                    selected,
                    highlight_text,
                    preview_names(previews@),
                    sample_text@,
                )
        },
{
    let index = item_id as usize;
    if index >= items.len() {
        return None;
    }
    let item = &items[index];
    let width = item_rect.right - item_rect.left;
    let height = item_rect.bottom - item_rect.top;
    let background = if selected { highlight } else { ROW_BACKGROUND };
    let mut cells: Vec<CellPlan> = Vec::new();
    let mut left: i32 = 0;
    let mut k: usize = 0;
    while k < COLUMN_COUNT
        invariant
            k <= COLUMN_COUNT,
            row_fits(item_rect, widths@),
            height == item_rect.bottom - item_rect.top,
            left == column_left(widths@, k as int),
            cells@.len() == k,
            forall|j: int|
                0 <= j < k ==> cell_matches(
                    #[trigger] cells@[j],
                    j,
                    *item,
                    widths@,
                    height as int,
                    selected,
                    highlight_text,
                    preview_names(previews@),
                    sample_text@,
                ),
        decreases COLUMN_COUNT - k,
    {
        assert(fits_i32(column_left(widths@, k as int) + widths@[k as int]));
        let cell = plan_cell(k, item, widths, left, height, selected, highlight_text, previews, sample_text);
        cells.push(cell);
        left = left + widths[k];
        k += 1;
    }
    Some(RowPlan { width, height, background, cells })
}

/// Whether `plan_row` can draw a row with this rectangle and these widths.
pub fn row_layout_fits(item_rect: Rect, widths: &[i32; 4]) -> (r: bool)
    ensures
        r == row_fits(item_rect, widths@),
{
    let w = item_rect.right as i64 - item_rect.left as i64;
    let h = item_rect.bottom as i64 - item_rect.top as i64;
    if !(i32::MIN as i64 <= w && w <= i32::MAX as i64 && i32::MIN as i64 <= h && h <= i32::MAX as i64
        && i32::MIN as i64 <= h - CELL_PAD_Y as i64) {
        return false;
    }
    let mut left: i64 = 0;
    let mut k: usize = 0;
    while k < COLUMN_COUNT
        invariant
            k <= COLUMN_COUNT,
            widths@.len() == COLUMN_COUNT,
            left == column_left(widths@, k as int),
            fits_i32(left as int),
            forall|j: int|
                0 <= j < k ==> {
                    &&& fits_i32(#[trigger] column_left(widths@, j) + widths@[j])
                    &&& fits_i32(column_left(widths@, j) + widths@[j] - 1)
                    &&& fits_i32(column_left(widths@, j) + CELL_PAD_X)
                    &&& fits_i32(column_left(widths@, j) + widths@[j] - 1 - CELL_PAD_X)
                },
        decreases COLUMN_COUNT - k,
    {
        let next = left + widths[k] as i64;
        if !(i32::MIN as i64 <= next && next <= i32::MAX as i64 && i32::MIN as i64 <= next - 1
            && left + CELL_PAD_X as i64 <= i32::MAX as i64 && i32::MIN as i64 <= next - 1
            - CELL_PAD_X as i64) {
            return false;
        }
        left = next;
        k += 1;
    }
    true
}


/// Neighbouring cells are `2 * CELL_PAD_X + 1` pixels apart: each keeps
/// its padding and the last pixel of its column is left free.
pub proof fn lemma_cells_adjacent(widths: Seq<i32>, k: int, height: int)
    requires
        widths.len() == COLUMN_COUNT,
        0 <= k < COLUMN_COUNT - 1,
        fits_i32(column_left(widths, k) + widths[k] - 1 - CELL_PAD_X),
        fits_i32(column_left(widths, k + 1) + CELL_PAD_X),
    ensures
        cell_rect(widths, k + 1, height).left == cell_rect(widths, k, height).right + 2 * CELL_PAD_X + 1,
{
}


/// The column titles, left to right: font name, preview, link status and
/// link list.
pub proof fn lemma_column_titles()
    ensures
        column_title(0) == "字体名称"@,
        column_title(1) == "预览"@,
        column_title(2) == "FontLink"@,
        column_title(3) == "FontLink配置"@,
{
}

/// The preview cell uses a preview font exactly when one was made for the
/// item's name, and then the first one made for it, at whatever position.
pub proof fn lemma_preview_font_choice(font: CellFont, previews: Seq<Seq<char>>, name: Seq<char>)
    requires
        preview_font_matches(font, previews, name),
    ensures
        (font == CellFont::List) <==> !previews.contains(name),
        font matches CellFont::Preview(j) ==> {
            &&& 0 <= j < previews.len()
            &&& previews[j as int] == name
            &&& !previews.take(j as int).contains(name)
        },
{
    match font {
        CellFont::Preview(j) => {
            assert(previews.contains(name));
            if previews.take(j as int).contains(name) {
                let i = choose|i: int| 0 <= i < j && previews.take(j as int)[i] == name;
                assert(previews[i] == name);
            }
        },
        CellFont::List => {
            if previews.contains(name) {
                let i = choose|i: int| 0 <= i < previews.len() && previews[i] == name;
                assert(previews[i] != name);
            }
        },
    }
}

/// Every client area that a `WM_SIZE` message can report, with a status
/// bar of any height it can have, is laid out, however small: the list's
/// height may be negative, as it is for a minimised window.
pub proof fn lemma_every_window_size_lays_out(client_width: i32, client_height: i32, status_height: i32)
    requires
        0 <= client_width <= 0xFFFF,
        0 <= client_height <= 0xFFFF,
        0 <= status_height <= 0xFFFF,
    ensures
        window_layout_fits(client_width, client_height, status_height),
{
}

/// The layout is refused only where a step of its arithmetic leaves `i32`.
pub proof fn lemma_layout_refused_only_on_overflow(client_width: i32, client_height: i32, status_height: i32)
    requires
        -0x8000_0000 <= client_width - 10,
        -0x8000_0000 <= client_height - 40,
        -0x8000_0000 <= client_height - 40 - status_height - 10,
        client_height - 40 - status_height <= 0x7FFF_FFFF,
        -0x8000_0000 <= client_height - 40 - status_height,
    ensures
        window_layout_fits(client_width, client_height, status_height),
{
}

} // verus!
