//! The pure decisions of the listing browser: sort-category cycling,
//! list-selection movement, text truncation for rendering, and the URL of
//! a listing's page. The browser's terminal rendering and input loop live
//! with the caller.

use vstd::prelude::*;
use vstd::string::StringSliceAdditionalSpecFns;
use vstd::string::StrSliceExecFns;

verus! {

/// The categories listings can be sorted by in the browser.
#[derive(Debug, Clone, Copy, PartialEq, Eq, Structural)]
pub enum SortCategory {
    Default,
    Title,
    Price,
    Seller,
}

impl SortCategory {
    /// The category after this one, in the fixed cycle
    /// default → title → price → seller → default.
    pub fn next(&self) -> (r: Self)
        ensures
            self is Default ==> r is Title,
            self is Title ==> r is Price,
            self is Price ==> r is Seller,
            self is Seller ==> r is Default,
    {
        match self {
            SortCategory::Default => SortCategory::Title,
            SortCategory::Title => SortCategory::Price,
            SortCategory::Price => SortCategory::Seller,
            SortCategory::Seller => SortCategory::Default,
        }
    }

    /// The category's display name.
    pub fn as_str(&self) -> (r: &'static str)
        ensures
            self is Default ==> r@ == "Default"@,
            self is Title ==> r@ == "Title"@,
            self is Price ==> r@ == "Price"@,
            self is Seller ==> r@ == "Seller"@,
    {
        match self {
            SortCategory::Default => "Default",
            SortCategory::Title => "Title",
            SortCategory::Price => "Price",
            SortCategory::Seller => "Seller",
        }
    }
}

/// The selection after moving one entry down in a list of `len` entries:
/// past the last entry it wraps to the first; with nothing selected it
/// selects the first entry of a non-empty list and stays off an empty one.
pub fn next_index(selected: Option<usize>, len: usize) -> (r: Option<usize>)
    ensures
        selected matches Some(i) ==> (if i + 1 >= len {
            r == Some(0usize)
        } else {
            r == Some((i + 1) as usize)
        }),
        selected is None && len > 0 ==> r == Some(0usize),
        selected is None && len == 0 ==> r is None,
{
    match selected {
        Some(i) => {
            if i >= len.saturating_sub(1) {
                Some(0)
            } else {
                Some(i + 1)
            }
        },
        None => {
            if len > 0 {
                Some(0)
            } else {
                None
            }
        },
    }
}

/// The selection after moving one entry up: before the first entry it
/// wraps to the last; with nothing selected it selects the first entry of
/// a non-empty list and stays off an empty one.
pub fn previous_index(selected: Option<usize>, len: usize) -> (r: Option<usize>)
    ensures
        selected matches Some(i) ==> (if i == 0 {
            r == Some((if len == 0 {
                0
            } else {
                (len - 1) as int
            }) as usize)
        } else {
            r == Some((i - 1) as usize)
        }),
        selected is None && len > 0 ==> r == Some(0usize),
        selected is None && len == 0 ==> r is None,
{
    match selected {
        Some(i) => {
            if i == 0 {
                Some(len.saturating_sub(1))
            } else {
                Some(i - 1)
            }
        },
        None => {
            if len > 0 {
                Some(0)
            } else {
                None
            }
        },
    }
}

/// The first `max_chars` characters of `s`; all of `s` when it is no
/// longer than that. Cutting by characters keeps the cut on a character
/// boundary whatever bytes the text holds.
pub fn truncate_to_char_boundary(s: &str, max_chars: usize) -> (r: &str)
    ensures
        s@.len() <= max_chars ==> r@ == s@,
        s@.len() > max_chars ==> r@ == s@.take(max_chars as int),
{
    let n = s.unicode_len();
    if n <= max_chars {
        s
    } else {
        s.substring_char(0, max_chars)
    }
}

/// The web address of one listing's page, from its stable identifier.
pub fn listing_url(listing_id: &str) -> (r: Vec<u8>)
    ensures
        r@ == "https://www.tutti.ch/de/vi/".spec_bytes() + listing_id.spec_bytes(),
{
    let mut url = "https://www.tutti.ch/de/vi/".as_bytes_vec();
    let mut id_bytes = listing_id.as_bytes_vec();
    url.append(&mut id_bytes);
    url
}

} // verus!
