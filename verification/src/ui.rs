//! Terminal-interface basics: key events, screen areas, list selection,
//! scrolling and modal placement.
use vstd::prelude::*;

verus! {

/// The key of a key event.
#[derive(Clone, Copy, Debug, PartialEq, Eq, Structural)]
pub enum KeyCode {
    Backspace,
    Enter,
    Left,
    Right,
    Up,
    Down,
    Home,
    End,
    PageUp,
    PageDown,
    Tab,
    BackTab,
    Delete,
    Insert,
    Esc,
    Char(char),
    /// A key the interface does not use.
    Other,
}

/// A key press with its modifiers.
#[derive(Clone, Copy, Debug, PartialEq, Eq, Structural)]
pub struct KeyEvent {
    pub code: KeyCode,
    pub ctrl: bool,
    pub alt: bool,
    pub shift: bool,
}

/// A rectangle of terminal cells.
#[derive(Clone, Copy, Debug, PartialEq, Eq, Structural)]
pub struct Area {
    pub x: u16,
    pub y: u16,
    pub width: u16,
    pub height: u16,
}

/// A mouse event: the button pressed or the wheel turned, with the cell
/// (column, row) under the pointer where the handlers need it.
#[derive(Clone, Copy, Debug, PartialEq, Eq, Structural)]
pub enum MouseInput {
    LeftDown(u16, u16),
    RightDown(u16, u16),
    /// Another button pressed.
    OtherDown,
    ScrollUp(u16, u16),
    ScrollDown(u16, u16),
    ScrollLeft,
    ScrollRight,
    Other,
}

/// Which panel has the keyboard focus.
#[derive(Clone, Copy, Debug, PartialEq, Eq, Structural)]
pub enum FocusPanel {
    Repos,
    Changes,
    Graph,
}

/// Direction of a one-row move in a list.
#[derive(Clone, Copy, Debug, PartialEq, Eq, Structural)]
pub enum VerticalMove {
    Next,
    Prev,
}

/// `j`/Down move down, `k`/Up move up.
pub open spec fn vertical_move_spec(key: KeyEvent) -> Option<VerticalMove> {
    match key.code {
        KeyCode::Char(c) => if c == 'j' {
            Some(VerticalMove::Next)
        } else if c == 'k' {
            Some(VerticalMove::Prev)
        } else {
            None
        },
        KeyCode::Down => Some(VerticalMove::Next),
        KeyCode::Up => Some(VerticalMove::Prev),
        _ => None,
    }
}

/// The move a key asks for, if any.
pub fn vertical_move_from_key(key: KeyEvent) -> (r: Option<VerticalMove>)
    ensures
        r == vertical_move_spec(key),
{
    match key.code {
        KeyCode::Char('j') | KeyCode::Down => Some(VerticalMove::Next),
        KeyCode::Char('k') | KeyCode::Up => Some(VerticalMove::Prev),
        _ => None,
    }
}

/// Selects the first row of a list of `len` rows (none when empty).
pub fn select_first(len: usize) -> (r: Option<usize>)
    ensures
        r == (if len > 0 { Some(0usize) } else { None }),
{
    if len > 0 {
        Some(0)
    } else {
        None
    }
}

/// Keeps a previous selection, clamped to the last row, else the first row.
pub fn preserve_or_first(previous: Option<usize>, len: usize) -> (r: Option<usize>)
    ensures
        r == (if len == 0 {
            None
        } else {
            match previous {
                Some(i) => Some(if i < len { i } else { (len - 1) as usize }),
                None => Some(0usize),
            }
        }),
{
    if len == 0 {
        None
    } else {
        match previous {
            Some(i) => Some(if i < len {
                i
            } else {
                len - 1
            }),
            None => Some(0),
        }
    }
}

/// Selection one row down, staying on the last row.
pub open spec fn select_next_spec(selected: Option<usize>, len: nat) -> Option<usize> {
    if len == 0 {
        selected
    } else {
        match selected {
            Some(i) => Some(if i + 1 < len { (i + 1) as usize } else { (len - 1) as usize }),
            None => Some(0usize),
        }
    }
}

/// Selection one row up, staying on the first row.
pub open spec fn select_prev_spec(selected: Option<usize>, len: nat) -> Option<usize> {
    if len == 0 {
        selected
    } else {
        match selected {
            Some(i) => Some(if i > 0 { (i - 1) as usize } else { 0usize }),
            None => Some(0usize),
        }
    }
}

/// Selection one row down, staying on the last row.
pub fn select_next(selected: Option<usize>, len: usize) -> (r: Option<usize>)
    ensures
        r == select_next_spec(selected, len as nat),
{
    if len == 0 {
        return selected;
    }
    match selected {
        Some(i) => Some(if i < len - 1 {
            i + 1
        } else {
            len - 1
        }),
        None => Some(0),
    }
}

/// Selection one row up, staying on the first row.
pub fn select_prev(selected: Option<usize>, len: usize) -> (r: Option<usize>)
    ensures
        r == select_prev_spec(selected, len as nat),
{
    if len == 0 {
        return selected;
    }
    match selected {
        Some(i) => Some(if i > 0 {
            i - 1
        } else {
            0
        }),
        None => Some(0),
    }
}

/// First selectable row after `start`, else `start`.
pub open spec fn next_selectable(sel: Seq<bool>, start: int, len: int, k: int) -> int
    decreases len - k,
{
    if k >= len {
        start
    } else if 0 <= k < sel.len() && sel[k] {
        k
    } else {
        next_selectable(sel, start, len, k + 1)
    }
}

/// Last selectable row before `start`, else `start`.
pub open spec fn prev_selectable(sel: Seq<bool>, start: int, k: int) -> int
    decreases k + 1,
{
    if k < 0 {
        start
    } else if k < sel.len() && sel[k] {
        k
    } else {
        prev_selectable(sel, start, k - 1)
    }
}

/// Moves the selection to the next selectable row below it.
pub fn select_next_matching(selected: Option<usize>, len: usize, selectable: &Vec<bool>) -> (r: Option<usize>)
    ensures
        r == (if len == 0 {
            selected
        } else {
            let start = match selected {
                Some(i) => i as int,
                None => 0,
            };
            Some(next_selectable(selectable@, start, len as int, start + 1) as usize)
        }),
{
    if len == 0 {
        return selected;
    }
    let start = match selected {
        Some(i) => i,
        None => 0,
    };
    if start >= len {
        return Some(start);
    }
    let mut k = start + 1;
    while k < len
        invariant
            start < len,
            start == (match selected {
                Some(i) => i,
                None => 0usize,
            }),
            start + 1 <= k <= len,
            next_selectable(selectable@, start as int, len as int, start + 1) == next_selectable(
                selectable@,
                start as int,
                len as int,
                k as int,
            ),
        decreases len - k,
    {
        if k < selectable.len() && selectable[k] {
            assert(next_selectable(selectable@, start as int, len as int, k as int) == k as int);
            return Some(k);
        }
        k = k + 1;
    }
    Some(start)
}

/// Moves the selection to the nearest selectable row above it.
pub fn select_prev_matching(selected: Option<usize>, len: usize, selectable: &Vec<bool>) -> (r: Option<usize>)
    ensures
        r == (if len == 0 {
            selected
        } else {
            let start = match selected {
                Some(i) => i as int,
                None => 0,
            };
            Some(prev_selectable(selectable@, start, start - 1) as usize)
        }),
{
    if len == 0 {
        return selected;
    }
    let start = match selected {
        Some(i) => i,
        None => 0,
    };
    let mut k = start;
    while k > 0
        invariant
            k <= start,
            len > 0,
            start == (match selected {
                Some(i) => i,
                None => 0usize,
            }),
            prev_selectable(selectable@, start as int, start - 1) == prev_selectable(
                selectable@,
                start as int,
                k - 1,
            ),
        decreases k,
    {
        if k - 1 < selectable.len() && selectable[k - 1] {
            assert(prev_selectable(selectable@, start as int, k - 1) == k - 1);
            return Some(k - 1);
        }
        k = k - 1;
    }
    Some(start)
}

/// New selection after a key, when the key moves the selection.
pub fn handle_vertical_key_matching(selected: Option<usize>, len: usize, key: KeyEvent, selectable: &Vec<bool>) -> (r: Option<Option<usize>>)
    ensures
        r == match vertical_move_spec(key) {
            Some(VerticalMove::Next) => {
                let start = match selected {
                    Some(i) => i as int,
                    None => 0,
                };
                Some(if len == 0 { selected } else { Some(next_selectable(selectable@, start, len as int, start + 1) as usize) })
            },
            Some(VerticalMove::Prev) => {
                let start = match selected {
                    Some(i) => i as int,
                    None => 0,
                };
                Some(if len == 0 { selected } else { Some(prev_selectable(selectable@, start, start - 1) as usize) })
            },
            None => None,
        },
{
    match vertical_move_from_key(key) {
        Some(VerticalMove::Next) => Some(select_next_matching(selected, len, selectable)),
        Some(VerticalMove::Prev) => Some(select_prev_matching(selected, len, selectable)),
        None => None,
    }
}

/// Selection after a key in a list where every row can be selected:
/// `Some(new selection)` when the key moves the selection.
pub open spec fn vertical_key_spec(selected: Option<usize>, len: usize, key: KeyEvent) -> Option<Option<usize>> {
    let start: int = match selected {
        Some(i) => i as int,
        None => 0,
    };
    match vertical_move_spec(key) {
        Some(VerticalMove::Next) => Some(
            if len == 0 { selected } else if start + 1 < len { Some((start + 1) as usize) } else { Some(start as usize) },
        ),
        Some(VerticalMove::Prev) => Some(
            if len == 0 { selected } else if start > 0 { Some((start - 1) as usize) } else { Some(start as usize) },
        ),
        None => None,
    }
}

/// Moves the selection for `j`/`k`/Down/Up; `None` for other keys.
pub fn handle_vertical_key(selected: Option<usize>, len: usize, key: KeyEvent) -> (r: Option<Option<usize>>)
    ensures
        r == vertical_key_spec(selected, len, key),
{
    let start = match selected {
        Some(i) => i,
        None => 0,
    };
    match vertical_move_from_key(key) {
        Some(VerticalMove::Next) => Some(
            if len == 0 {
                selected
            } else if start < len - 1 {
                Some(start + 1)
            } else {
                Some(start)
            },
        ),
        Some(VerticalMove::Prev) => Some(
            if len == 0 {
                selected
            } else if start > 0 {
                Some(start - 1)
            } else {
                Some(start)
            },
        ),
        None => None,
    }
}

/// `a + b`, or `u16::MAX` when the sum does not fit.
pub open spec fn sat_add16(a: u16, b: u16) -> int {
    if a + b <= u16::MAX { a + b } else { u16::MAX as int }
}

/// Whether the cell (`column`, `row`) lies in `area` (its right and bottom
/// edges taken as saturating sums).
pub open spec fn area_contains_spec(area: Area, column: u16, row: u16) -> bool {
    &&& area.x <= column < sat_add16(area.x, area.width)
    &&& area.y <= row < sat_add16(area.y, area.height)
}

/// Whether the cell (`column`, `row`) lies in `area`.
pub fn area_contains(area: Area, column: u16, row: u16) -> (r: bool)
    ensures
        r == area_contains_spec(area, column, row),
{
    let right = area.x.saturating_add(area.width);
    let bottom = area.y.saturating_add(area.height);
    area.x <= column && column < right && area.y <= row && row < bottom
}

/// Row of a list drawn in `area` (below its top border, scrolled by
/// `offset`) under a click at (`column`, `row`), if the click hit a row.
pub open spec fn clicked_row(area: Area, column: u16, row: u16, offset: usize, len: nat) -> Option<usize> {
    if column < area.x || column >= area.x + area.width || row < area.y + 1 {
        None
    } else if row - (area.y + 1) + offset < len {
        Some((row - (area.y + 1) + offset) as usize)
    } else {
        None
    }
}

/// Row of a list under a mouse click, if the click hit a row.
pub fn clicked_list_index(area: Area, column: u16, row: u16, offset: usize, len: usize) -> (r: Option<usize>)
    requires
        area.y < u16::MAX,
        area.x + area.width <= u16::MAX,
        row - (area.y + 1) + offset <= usize::MAX,
    ensures
        r == clicked_row(area, column, row, offset, len as nat),
{
    let content_y = area.y + 1;
    if column < area.x || column >= area.x + area.width || row < content_y {
        return None;
    }
    let idx = (row - content_y) as usize + offset;
    if idx < len {
        Some(idx)
    } else {
        None
    }
}

/// Scroll offset back at the top.
pub fn scroll_reset(scroll: &mut u16)
    ensures
        *final(scroll) == 0,
{
    *scroll = 0;
}

/// Scroll offset one line up, not below 0.
pub fn scroll_up(scroll: &mut u16)
    ensures
        *final(scroll) == (if *old(scroll) > 0 { (*old(scroll) - 1) as u16 } else { 0u16 }),
{
    if *scroll > 0 {
        *scroll = *scroll - 1;
    }
}

/// Scroll offset one line down, not above the largest offset.
pub fn scroll_down(scroll: &mut u16)
    ensures
        *final(scroll) == (if *old(scroll) < u16::MAX { (*old(scroll) + 1) as u16 } else { u16::MAX }),
{
    if *scroll < u16::MAX {
        *scroll = *scroll + 1;
    }
}

/// Scroll offset after a key: `j`/Down one line down, `k`/Up one line up.
pub open spec fn scroll_after_key(scroll: u16, key: KeyEvent) -> u16 {
    match vertical_move_spec(key) {
        Some(VerticalMove::Next) => if scroll < u16::MAX { (scroll + 1) as u16 } else { u16::MAX },
        Some(VerticalMove::Prev) => if scroll > 0 { (scroll - 1) as u16 } else { 0u16 },
        None => scroll,
    }
}

/// Scrolls for `j`/`k`/Down/Up; tells whether the key was used.
pub fn scroll_vertical_key(scroll: &mut u16, key: KeyEvent) -> (r: bool)
    ensures
        r == (vertical_move_spec(key) is Some),
        vertical_move_spec(key) == Some(VerticalMove::Next) ==> *final(scroll) == (if *old(scroll) < u16::MAX {
            (*old(scroll) + 1) as u16
        } else {
            u16::MAX
        }),
        vertical_move_spec(key) == Some(VerticalMove::Prev) ==> *final(scroll) == (if *old(scroll) > 0 {
            (*old(scroll) - 1) as u16
        } else {
            0u16
        }),
        vertical_move_spec(key) is None ==> *final(scroll) == *old(scroll),
        *final(scroll) == scroll_after_key(*old(scroll), key),
{
    match vertical_move_from_key(key) {
        Some(VerticalMove::Next) => {
            scroll_down(scroll);
            true
        },
        Some(VerticalMove::Prev) => {
            scroll_up(scroll);
            true
        },
        None => false,
    }
}

/// `a - b`, or 0 when `b > a`.
pub open spec fn sat_sub(a: int, b: int) -> int {
    if a > b { a - b } else { 0 }
}

/// A `width` by `height` rectangle centred in `area`.
pub fn centered_rect(area: Area, width: u16, height: u16) -> (r: Area)
    requires
        area.x + sat_sub(area.width as int, width as int) / 2 <= u16::MAX,
        area.y + sat_sub(area.height as int, height as int) / 2 <= u16::MAX,
    ensures
        r.x == area.x + sat_sub(area.width as int, width as int) / 2,
        r.y == area.y + sat_sub(area.height as int, height as int) / 2,
        r.width == width,
        r.height == height,
{
    let dx = if area.width > width {
        area.width - width
    } else {
        0
    };
    let dy = if area.height > height {
        area.height - height
    } else {
        0
    };
    Area { x: area.x + dx / 2, y: area.y + dy / 2, width, height }
}

/// Size of a modal: the area less a margin, capped at the maximum and at
/// least the minimum.
pub open spec fn modal_size(avail: int, margin: int, max: int, min: int) -> int {
    let capped = if max < sat_sub(avail, margin) { max } else { sat_sub(avail, margin) };
    if capped > min { capped } else { min }
}

/// A centred modal rectangle between the given sizes.
pub fn modal_rect(area: Area, max_width: u16, min_width: u16, max_height: u16, min_height: u16) -> (r: Area)
    requires
        area.x + area.width / 2 <= u16::MAX,
        area.y + area.height / 2 <= u16::MAX,
    ensures
        r.width == modal_size(area.width as int, 4, max_width as int, min_width as int),
        r.height == modal_size(area.height as int, 2, max_height as int, min_height as int),
        r.x == area.x + sat_sub(area.width as int, r.width as int) / 2,
        r.y == area.y + sat_sub(area.height as int, r.height as int) / 2,
{
    let avail_w = if area.width > 4 {
        area.width - 4
    } else {
        0
    };
    let capped_w = if max_width < avail_w {
        max_width
    } else {
        avail_w
    };
    let width = if capped_w > min_width {
        capped_w
    } else {
        min_width
    };
    let avail_h = if area.height > 2 {
        area.height - 2
    } else {
        0
    };
    let capped_h = if max_height < avail_h {
        max_height
    } else {
        avail_h
    };
    let height = if capped_h > min_height {
        capped_h
    } else {
        min_height
    };
    centered_rect(area, width, height)
}

} // verus!
