//! Keys, and scrolling by them.

use vstd::prelude::*;

verus! {

/// A key, as far as the explorer tells keys apart.
#[derive(Clone, Copy, Debug, PartialEq, Eq, Structural)]
pub enum KeyCode {
    Char(char),
    Up,
    Down,
    PageUp,
    PageDown,
    Home,
    End,
    Esc,
    Other,
}

/// A key that was pressed.
#[derive(Clone, Copy, Debug, PartialEq, Eq, Structural)]
pub struct KeyEvent {
    pub code: KeyCode,
    /// The control key was held.
    pub control: bool,
}

/// Where a cursor stands that is moved to `target` but not behind the last of `len` places.
pub open spec fn limited(target: nat, len: nat) -> nat {
    if len == 0 {
        0
    } else if target < len {
        target
    } else {
        (len - 1) as nat
    }
}

/// A cursor moved up by `step`, but not above the first place.
pub open spec fn raised(offset: nat, step: nat) -> nat {
    if offset < step {
        0
    } else {
        (offset - step) as nat
    }
}

/// Where a key scrolls content of `len` lines to. Keys that do not scroll leave the offset.
pub open spec fn scrolled(code: KeyCode, offset: nat, len: nat, page_size: nat) -> nat {
    match code {
        KeyCode::Up | KeyCode::Char('k') => raised(offset, 1),
        KeyCode::Down | KeyCode::Char('j') => limited(offset + 1, len),
        KeyCode::PageUp => raised(offset, page_size),
        KeyCode::PageDown => limited(offset + page_size, len),
        KeyCode::Home => 0,
        KeyCode::End => limited(len, len),
        _ => offset,
    }
}

/// Moves a cursor down by `step`, but not behind the last of `len` places.
pub fn move_down(offset: usize, step: usize, len: usize) -> (r: usize)
    ensures
        r == limited((offset + step) as nat, len as nat),
{
    let target = offset.saturating_add(step);
    let last = len.saturating_sub(1);
    if target < last {
        target
    } else {
        last
    }
}

/// Scrolls by a key.
pub fn handle_scroll_key(key: KeyEvent, offset: &mut usize, len: usize, page_size: usize)
    ensures
        *final(offset) == scrolled(key.code, *old(offset) as nat, len as nat, page_size as nat),
{
    match key.code {
        KeyCode::Up | KeyCode::Char('k') => *offset = (*offset).saturating_sub(1),
        KeyCode::Down | KeyCode::Char('j') => *offset = move_down(*offset, 1, len),
        KeyCode::PageUp => *offset = (*offset).saturating_sub(page_size),
        KeyCode::PageDown => *offset = move_down(*offset, page_size, len),
        KeyCode::Home => *offset = 0,
        KeyCode::End => *offset = len.saturating_sub(1),
        _ => {},
    }
}

/// Scrolling never leaves the content: an offset within it stays within it.
pub proof fn scrolling_stays_within_content(code: KeyCode, offset: nat, len: nat, page_size: nat)
    requires
        offset < len,
    ensures
        scrolled(code, offset, len, page_size) < len,
{
}

/// A page down and a page up lead back, where there is a whole page to go.
pub proof fn paging_leads_back(offset: nat, len: nat, page_size: nat)
    requires
        offset + page_size < len,
    ensures
        scrolled(
            KeyCode::PageUp,
            scrolled(KeyCode::PageDown, offset, len, page_size),
            len,
            page_size,
        ) == offset,
{
}

/// What each scrolling key does: one line or one page up or down, as far as there is content,
/// or to its first or last line. Other keys do nothing. An offset behind the content is brought
/// back to its last line by the keys that lead down.
pub proof fn keys_scroll_by_lines_and_pages(
    code: KeyCode,
    offset: nat,
    len: nat,
    page_size: nat,
)
    ensures
        code == KeyCode::Up || code == KeyCode::Char('k') ==> if offset == 0 {
            scrolled(code, offset, len, page_size) == 0
        } else {
            scrolled(code, offset, len, page_size) + 1 == offset
        },
        code == KeyCode::Down || code == KeyCode::Char('j') ==> if offset + 1 < len {
            scrolled(code, offset, len, page_size) == offset + 1
        } else if len > 0 {
            scrolled(code, offset, len, page_size) + 1 == len
        } else {
            scrolled(code, offset, len, page_size) == 0
        },
        code == KeyCode::PageUp ==> if offset < page_size {
            scrolled(code, offset, len, page_size) == 0
        } else {
            scrolled(code, offset, len, page_size) + page_size == offset
        },
        code == KeyCode::PageDown ==> if offset + page_size < len {
            scrolled(code, offset, len, page_size) == offset + page_size
        } else if len > 0 {
            scrolled(code, offset, len, page_size) + 1 == len
        } else {
            scrolled(code, offset, len, page_size) == 0
        },
        code == KeyCode::Home ==> scrolled(code, offset, len, page_size) == 0,
        code == KeyCode::End ==> if len > 0 {
            scrolled(code, offset, len, page_size) + 1 == len
        } else {
            scrolled(code, offset, len, page_size) == 0
        },
        code == KeyCode::Esc || code == KeyCode::Other ==> scrolled(code, offset, len, page_size)
            == offset,
        code matches KeyCode::Char(c) ==> (c != 'j' && c != 'k' ==> scrolled(
            code,
            offset,
            len,
            page_size,
        ) == offset),
{
}

/// A cursor is moved no further than to the last place, and a cursor behind the content is
/// brought back to it.
pub proof fn cursors_stay_on_places(target: nat, len: nat)
    ensures
        len > 0 ==> limited(target, len) < len,
        target < len ==> limited(target, len) == target,
        target >= len && len > 0 ==> limited(target, len) + 1 == len,
        len == 0 ==> limited(target, len) == 0,
{
}

} // verus!
