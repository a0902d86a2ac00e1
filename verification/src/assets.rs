//! The icons the application ships with.
use vstd::prelude::*;
use crate::text::str_equal;

verus! {

/// The number of embedded icons.
pub const ICON_COUNT: usize = 28;

/// The path of embedded icon `k`, in the order the asset source lists them.
pub open spec fn icon_path(k: int) -> Seq<char> {
    if k == 0 {
        "icons/analytics-01.svg"@
    } else if k == 1 {
        "icons/arrow-left.svg"@
    } else if k == 2 {
        "icons/book-open.svg"@
    } else if k == 3 {
        "icons/calendar-01.svg"@
    } else if k == 4 {
        "icons/calendar-02.svg"@
    } else if k == 5 {
        "icons/check.svg"@
    } else if k == 6 {
        "icons/clock-01.svg"@
    } else if k == 7 {
        "icons/delete.svg"@
    } else if k == 8 {
        "icons/dollar.svg"@
    } else if k == 9 {
        "icons/folder.svg"@
    } else if k == 10 {
        "icons/folder-closed.svg"@
    } else if k == 11 {
        "icons/folder-open.svg"@
    } else if k == 12 {
        "icons/folder-open2.svg"@
    } else if k == 13 {
        "icons/help-circle.svg"@
    } else if k == 14 {
        "icons/inbox.svg"@
    } else if k == 15 {
        "icons/more-circle.svg"@
    } else if k == 16 {
        "icons/more-h.svg"@
    } else if k == 17 {
        "icons/plus.svg"@
    } else if k == 18 {
        "icons/repeat.svg"@
    } else if k == 19 {
        "icons/search.svg"@
    } else if k == 20 {
        "icons/settings.svg"@
    } else if k == 21 {
        "icons/sidebar-left.svg"@
    } else if k == 22 {
        "icons/sliders.svg"@
    } else if k == 23 {
        "icons/star.svg"@
    } else if k == 24 {
        "icons/status-check.svg"@
    } else if k == 25 {
        "icons/status-x.svg"@
    } else if k == 26 {
        "icons/tag.svg"@
    } else {
        "icons/task-01.svg"@
    }
}

fn icon_path_text(k: usize) -> (r: &'static str)
    requires
        k < 28,
    ensures
        r@ == icon_path(k as int),
{
    if k == 0 {
        "icons/analytics-01.svg"
    } else if k == 1 {
        "icons/arrow-left.svg"
    } else if k == 2 {
        "icons/book-open.svg"
    } else if k == 3 {
        "icons/calendar-01.svg"
    } else if k == 4 {
        "icons/calendar-02.svg"
    } else if k == 5 {
        "icons/check.svg"
    } else if k == 6 {
        "icons/clock-01.svg"
    } else if k == 7 {
        "icons/delete.svg"
    } else if k == 8 {
        "icons/dollar.svg"
    } else if k == 9 {
        "icons/folder.svg"
    } else if k == 10 {
        "icons/folder-closed.svg"
    } else if k == 11 {
        "icons/folder-open.svg"
    } else if k == 12 {
        "icons/folder-open2.svg"
    } else if k == 13 {
        "icons/help-circle.svg"
    } else if k == 14 {
        "icons/inbox.svg"
    } else if k == 15 {
        "icons/more-circle.svg"
    } else if k == 16 {
        "icons/more-h.svg"
    } else if k == 17 {
        "icons/plus.svg"
    } else if k == 18 {
        "icons/repeat.svg"
    } else if k == 19 {
        "icons/search.svg"
    } else if k == 20 {
        "icons/settings.svg"
    } else if k == 21 {
        "icons/sidebar-left.svg"
    } else if k == 22 {
        "icons/sliders.svg"
    } else if k == 23 {
        "icons/star.svg"
    } else if k == 24 {
        "icons/status-check.svg"
    } else if k == 25 {
        "icons/status-x.svg"
    } else if k == 26 {
        "icons/tag.svg"
    } else {
        "icons/task-01.svg"
    }
}

/// The embedded assets: the icon files the views refer to by path.
pub struct Assets;

impl Assets {
    /// The paths of all embedded icons.
    pub fn list(&self) -> (r: Vec<String>)
        ensures
            r@.len() == ICON_COUNT,
            forall|k: int| 0 <= k < ICON_COUNT ==> #[trigger] r@[k]@ == icon_path(k),
    {
        let mut v: Vec<String> = Vec::new();
        let mut k: usize = 0;
        while k < ICON_COUNT
            invariant
                k <= ICON_COUNT,
                v@.len() == k,
                forall|j: int| 0 <= j < k ==> #[trigger] v@[j]@ == icon_path(j),
            decreases ICON_COUNT - k,
        {
            v.push(icon_path_text(k).to_owned());
            k = k + 1;
        }
        v
    }

    /// An icon is embedded under this path.
    pub fn contains(&self, path: &str) -> (r: bool)
        ensures
            r == exists|k: int| 0 <= k < ICON_COUNT && path@ == #[trigger] icon_path(k),
    {
        let mut k: usize = 0;
        while k < ICON_COUNT
            invariant
                k <= ICON_COUNT,
                forall|j: int| 0 <= j < k ==> path@ != #[trigger] icon_path(j),
            decreases ICON_COUNT - k,
        {
            if str_equal(path, icon_path_text(k)) {
                return true;
            }
            k = k + 1;
        }
        false
    }
}

} // verus!
