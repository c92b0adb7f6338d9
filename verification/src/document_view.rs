//! The reading view of an open note: which items a folded heading hides,
//! moving the content cursor over the items that stay visible, and picking
//! one of the links on the current item.
use vstd::prelude::*;

use std::collections::HashMap;

use crate::session::{item_source_line, ContentItem, DocumentLinkRange, OutlineItem};

verus! {

/// A link found on a rendered item, with the columns it covers in the
/// rendered line.
#[derive(Debug, Clone)]
pub enum LinkInfo {
    Markdown { text: String, url: String, start_col: usize, end_col: usize },
    Wiki { target: String, heading: Option<String>, start_col: usize, end_col: usize, is_valid: bool },
    Image { path: String, start_col: usize, end_col: usize },
}

/// First rendered column of a link.
pub open spec fn link_start(link: LinkInfo) -> usize {
    match link {
        LinkInfo::Markdown { start_col, .. } => start_col,
        LinkInfo::Wiki { start_col, .. } => start_col,
        LinkInfo::Image { start_col, .. } => start_col,
    }
}

impl LinkInfo {
    /// First rendered column of the link.
    pub fn start_col(&self) -> (c: usize)
        ensures
            c == link_start(*self),
    {
        match self {
            LinkInfo::Markdown { start_col, .. } => *start_col,
            LinkInfo::Wiki { start_col, .. } => *start_col,
            LinkInfo::Image { start_col, .. } => *start_col,
        }
    }
}

/// The heading level of item `i` when it is a text line (0 for a plain
/// line); `None` for any other item or an index past the end.
pub open spec fn text_level(items: Seq<ContentItem>, i: int) -> Option<int> {
    if 0 <= i < items.len() {
        match items[i] {
            ContentItem::TextLine { heading_level, .. } => Some(heading_level as int),
            _ => None,
        }
    } else {
        None
    }
}

/// Whether item `i` is a heading.
pub open spec fn is_heading(items: Seq<ContentItem>, i: int) -> bool {
    match text_level(items, i) {
        Some(l) => l > 0,
        None => false,
    }
}

/// Whether item `e` is a heading of level `level` or a higher rank (a
/// smaller number), which ends the section of a heading of level `level`.
pub open spec fn closes_section(items: Seq<ContentItem>, level: int, e: int) -> bool {
    match text_level(items, e) {
        Some(l) => 0 < l <= level,
        None => false,
    }
}

/// The first item at or after `e` that ends a section of level `level`, or
/// the number of items when none does.
pub open spec fn section_end_from(items: Seq<ContentItem>, level: int, e: int) -> int
    decreases items.len() - e,
{
    if e >= items.len() {
        items.len() as int
    } else if closes_section(items, level, e) {
        e
    } else {
        section_end_from(items, level, e + 1)
    }
}

/// The items under item `h`: from the next item up to the next heading of
/// the same or a higher rank. Empty when item `h` is no text line.
pub open spec fn children_range(items: Seq<ContentItem>, h: int) -> (int, int) {
    match text_level(items, h) {
        Some(l) => (h + 1, section_end_from(items, l, h + 1)),
        None => (h, h),
    }
}

/// Whether the fold state recorded for item `h` says folded.
pub open spec fn folded_at(folds: Seq<Option<bool>>, h: int) -> bool {
    0 <= h < folds.len() && folds[h] == Some(true)
}

/// Whether the folded item `h` hides item `idx`: `idx` comes after it and
/// lies among its children.
pub open spec fn hides(items: Seq<ContentItem>, folds: Seq<Option<bool>>, h: int, idx: int) -> bool {
    &&& folded_at(folds, h)
    &&& h < idx
    &&& children_range(items, h).0 <= idx < children_range(items, h).1
}

/// Whether item `idx` is shown: no folded item hides it.
pub open spec fn item_visible(items: Seq<ContentItem>, folds: Seq<Option<bool>>, idx: int) -> bool {
    forall|h: int| !#[trigger] hides(items, folds, h, idx)
}

/// Fold states after flipping the state of item `idx`.
pub open spec fn toggle_fold(folds: Seq<Option<bool>>, idx: int) -> Seq<Option<bool>> {
    folds.update(idx, Some(!folded_at(folds, idx)))
}

/// The number of headings among the first `n` items.
pub open spec fn heading_count(items: Seq<ContentItem>, n: int) -> nat
    decreases n,
{
    if n <= 0 {
        0
    } else {
        heading_count(items, n - 1) + if is_heading(items, n - 1) {
            1nat
        } else {
            0nat
        }
    }
}

/// The number of items among the first `n` with a recorded fold state.
pub open spec fn recorded_count(folds: Seq<Option<bool>>, n: int) -> nat
    decreases n,
{
    if n <= 0 {
        0
    } else {
        recorded_count(folds, n - 1) + if folds[n - 1] is Some {
            1nat
        } else {
            0nat
        }
    }
}

/// The number of visible items with index in `lo..hi`.
pub open spec fn count_visible(items: Seq<ContentItem>, folds: Seq<Option<bool>>, lo: int, hi: int) -> nat
    decreases hi - lo,
{
    if hi <= lo {
        0
    } else {
        count_visible(items, folds, lo, hi - 1) + if item_visible(items, folds, hi - 1) {
            1nat
        } else {
            0nat
        }
    }
}

/// The first item is always shown: nothing comes before it.
pub proof fn lemma_first_item_visible(items: Seq<ContentItem>, folds: Seq<Option<bool>>)
    ensures
        item_visible(items, folds, 0),
{
}

/// A heading's section runs from the item after it up to, not including,
/// the first later heading of the same or a higher rank (or to the end of
/// the list): it ends no earlier than it starts, no later than the end, and
/// nothing inside it closes it.
pub proof fn lemma_section_end(items: Seq<ContentItem>, level: int, e: int)
    requires
        0 <= e,
    ensures
        e <= section_end_from(items, level, e) || e > items.len(),
        section_end_from(items, level, e) <= items.len(),
        forall|k: int| e <= k < section_end_from(items, level, e) ==> !closes_section(items, level, k),
    decreases items.len() - e,
{
    if e < items.len() && !closes_section(items, level, e) {
        lemma_section_end(items, level, e + 1);
    }
}

/// Counting visible items from the low end: the first index of a non-empty
/// range adds one when it is visible.
pub proof fn lemma_count_low_step(items: Seq<ContentItem>, folds: Seq<Option<bool>>, lo: int, hi: int)
    requires
        lo < hi,
    ensures
        count_visible(items, folds, lo, hi) == count_visible(items, folds, lo + 1, hi) + if item_visible(
            items,
            folds,
            lo,
        ) {
            1nat
        } else {
            0nat
        },
    decreases hi - lo,
{
    assert(count_visible(items, folds, lo, lo) == 0);
    assert(count_visible(items, folds, lo + 1, lo + 1) == 0);
    if lo + 1 < hi {
        lemma_count_low_step(items, folds, lo, hi - 1);
        assert(count_visible(items, folds, lo + 1, hi) == count_visible(items, folds, lo + 1, hi - 1)
            + if item_visible(items, folds, hi - 1) {
            1nat
        } else {
            0nat
        });
    }
}

/// Unfolding everything shows everything: with no item folded, every item
/// is visible.
pub proof fn lemma_no_fold_all_visible(items: Seq<ContentItem>, folds: Seq<Option<bool>>, idx: int)
    requires
        forall|h: int| 0 <= h < folds.len() ==> folds[h] != Some(true),
    ensures
        item_visible(items, folds, idx),
{
}

/// Toggling the fold of one item twice shows and hides exactly what was
/// shown and hidden before.
pub proof fn lemma_toggle_fold_twice(items: Seq<ContentItem>, folds: Seq<Option<bool>>, idx: int, j: int)
    requires
        0 <= idx < folds.len(),
    ensures
        item_visible(items, toggle_fold(toggle_fold(folds, idx), idx), j) == item_visible(items, folds, j),
{
    let twice = toggle_fold(toggle_fold(folds, idx), idx);
    assert forall|h: int| folded_at(twice, h) == folded_at(folds, h) by {}
    assert forall|h: int| hides(items, twice, h, j) == hides(items, folds, h, j) by {}
}

/// Moving down and back up returns to a visible starting item: when `j` is
/// the first visible item after the visible item `c`, the last visible item
/// before `j` is `c` again.
pub proof fn lemma_down_then_up(items: Seq<ContentItem>, folds: Seq<Option<bool>>, c: int, j: int, k: int)
    requires
        item_visible(items, folds, c),
        c < j,
        forall|m: int| c < m < j ==> !#[trigger] item_visible(items, folds, m),
        k < j,
        item_visible(items, folds, k),
        forall|m: int| k < m < j ==> !#[trigger] item_visible(items, folds, m),
    ensures
        k == c,
{
    if k < c {
        assert(!item_visible(items, folds, c));
    } else if k > c {
        assert(!item_visible(items, folds, k));
    }
}

/// A folded heading itself stays visible unless a heading before it hides
/// it: its own fold never hides it.
pub proof fn lemma_fold_keeps_heading(items: Seq<ContentItem>, folds: Seq<Option<bool>>, idx: int)
    requires
        0 <= idx < folds.len(),
    ensures
        item_visible(items, toggle_fold(folds, idx), idx) == item_visible(items, folds, idx),
{
    let t = toggle_fold(folds, idx);
    assert forall|h: int| hides(items, t, h, idx) == hides(items, folds, h, idx) by {}
}

/// The reading state of the open note: its rendered items, their links, the
/// fold state recorded for each item (`None` where none was recorded), the
/// outline, which details blocks are open (by source line), the item under
/// the cursor and the link selected on it.
pub struct DocumentView {
    pub content_items: Vec<ContentItem>,
    pub document_links: Vec<LinkInfo>,
    pub document_link_ranges: Vec<DocumentLinkRange>,
    pub heading_fold_states: Vec<Option<bool>>,
    pub outline: Vec<OutlineItem>,
    pub details_open_states: HashMap<usize, bool>,
    pub content_cursor: usize,
    pub selected_link_index: usize,
    pub floating_cursor_mode: bool,
}

impl DocumentView {
    /// One fold state per item, and the cursor on an item (or at 0 when
    /// there is none).
    pub open spec fn wf(&self) -> bool {
        &&& self.heading_fold_states.len() == self.content_items.len()
        &&& (self.content_cursor < self.content_items.len() || self.content_cursor == 0)
    }

    /// Whether item `idx` is shown in the current fold states.
    pub open spec fn shows(&self, idx: int) -> bool {
        item_visible(self.content_items@, self.heading_fold_states@, idx)
    }

    /// Everything but the cursor and the selected link is as in `other`.
    pub open spec fn same_document(&self, other: DocumentView) -> bool {
        &&& self.content_items@ == other.content_items@
        &&& self.document_links@ == other.document_links@
        &&& self.document_link_ranges@ == other.document_link_ranges@
        &&& self.heading_fold_states@ == other.heading_fold_states@
        &&& self.outline@ == other.outline@
        &&& self.details_open_states@ == other.details_open_states@
        &&& self.floating_cursor_mode == other.floating_cursor_mode
    }

    /// A view of freshly parsed items: nothing folded, cursor and link
    /// selection at the start.
    pub fn new(
        content_items: Vec<ContentItem>,
        document_links: Vec<LinkInfo>,
        document_link_ranges: Vec<DocumentLinkRange>,
        outline: Vec<OutlineItem>,
        floating_cursor_mode: bool,
    ) -> (v: DocumentView)
        ensures
            v.wf(),
            v.content_items@ == content_items@,
            v.document_links@ == document_links@,
            v.document_link_ranges@ == document_link_ranges@,
            v.outline@ == outline@,
            v.details_open_states@ == Map::<usize, bool>::empty(),
            forall|i: int| 0 <= i < v.heading_fold_states.len() ==> v.heading_fold_states@[i] is None,
            v.content_cursor == 0,
            v.selected_link_index == 0,
            v.floating_cursor_mode == floating_cursor_mode,
    {
        let n = content_items.len();
        let mut folds: Vec<Option<bool>> = Vec::new();
        let mut i: usize = 0;
        while i < n
            invariant
                i <= n,
                folds.len() == i,
                forall|k: int| 0 <= k < i ==> folds@[k] is None,
            decreases n - i,
        {
            folds.push(None);
            i += 1;
        }
        DocumentView {
            content_items,
            document_links,
            document_link_ranges,
            heading_fold_states: folds,
            outline,
            details_open_states: HashMap::new(),
            content_cursor: 0,
            selected_link_index: 0,
            floating_cursor_mode,
        }
    }

    /// Whether item `idx` is a heading.
    pub fn is_heading_at(&self, idx: usize) -> (b: bool)
        ensures
            b == is_heading(self.content_items@, idx as int),
    {
        if idx < self.content_items.len() {
            match &self.content_items[idx] {
                ContentItem::TextLine { heading_level, .. } => *heading_level > 0,
                _ => false,
            }
        } else {
            false
        }
    }

    /// Whether the fold state recorded for item `idx` says folded.
    pub fn is_heading_folded(&self, idx: usize) -> (b: bool)
        ensures
            b == folded_at(self.heading_fold_states@, idx as int),
    {
        if idx < self.heading_fold_states.len() {
            match self.heading_fold_states[idx] {
                Some(true) => true,
                _ => false,
            }
        } else {
            false
        }
    }

    /// The items folded away under item `heading_idx`: from the next item up
    /// to the next heading of the same or a higher rank; empty when the item
    /// is no text line.
    pub fn get_heading_children_range(&self, heading_idx: usize) -> (r: core::ops::Range<usize>)
        ensures
            r.start == children_range(self.content_items@, heading_idx as int).0,
            r.end == children_range(self.content_items@, heading_idx as int).1,
    {
        let n = self.content_items.len();
        if heading_idx >= n {
            return heading_idx..heading_idx;
        }
        let level: u8 = match &self.content_items[heading_idx] {
            ContentItem::TextLine { heading_level, .. } => *heading_level,
            _ => {
                return heading_idx..heading_idx;
            },
        };
        let ghost items = self.content_items@;
        let mut end_idx = heading_idx + 1;
        while end_idx < n
            invariant
                n == items.len(),
                items == self.content_items@,
                heading_idx < end_idx <= n,
                section_end_from(items, level as int, heading_idx + 1) == section_end_from(
                    items,
                    level as int,
                    end_idx as int,
                ),
            ensures
                heading_idx < end_idx <= n,
                section_end_from(items, level as int, heading_idx + 1) == end_idx,
            decreases n - end_idx,
        {
            let stop = match &self.content_items[end_idx] {
                ContentItem::TextLine { heading_level, .. } => *heading_level > 0 && *heading_level <= level,
                _ => false,
            };
            if stop {
                assert(closes_section(items, level as int, end_idx as int));
                break;
            }
            end_idx += 1;
        }
        (heading_idx + 1)..end_idx
    }

    /// Whether item `idx` is shown: no folded item before it has it among
    /// its children.
    pub fn is_content_item_visible(&self, idx: usize) -> (b: bool)
        requires
            self.wf(),
        ensures
            b == self.shows(idx as int),
    {
        let n = self.heading_fold_states.len();
        let ghost items = self.content_items@;
        let ghost folds = self.heading_fold_states@;
        let mut h: usize = 0;
        while h < n
            invariant
                n == folds.len(),
                items == self.content_items@,
                folds == self.heading_fold_states@,
                h <= n,
                forall|k: int| 0 <= k < h ==> !#[trigger] hides(items, folds, k, idx as int),
            decreases n - h,
        {
            let folded = match self.heading_fold_states[h] {
                Some(true) => true,
                _ => false,
            };
            if folded && h < idx {
                let r = self.get_heading_children_range(h);
                if r.start <= idx && idx < r.end {
                    assert(hides(items, folds, h as int, idx as int));
                    return false;
                }
            }
            h += 1;
        }
        true
    }
}

impl DocumentView {
    /// Flips the fold of item `idx` when it is a heading and returns the new
    /// state (`true` for folded); anything else is left alone and gives
    /// `None`.
    pub fn toggle_heading_fold_at(&mut self, idx: usize) -> (r: Option<bool>)
        requires
            old(self).wf(),
        ensures
            final(self).wf(),
            is_heading(old(self).content_items@, idx as int) ==> {
                &&& r == Some(!folded_at(old(self).heading_fold_states@, idx as int))
                &&& final(self).heading_fold_states@ == toggle_fold(old(self).heading_fold_states@, idx as int)
            },
            !is_heading(old(self).content_items@, idx as int) ==> {
                &&& r is None
                &&& final(self).heading_fold_states@ == old(self).heading_fold_states@
            },
            final(self).content_items@ == old(self).content_items@,
            final(self).document_links@ == old(self).document_links@,
            final(self).document_link_ranges@ == old(self).document_link_ranges@,
            final(self).outline@ == old(self).outline@,
            final(self).details_open_states@ == old(self).details_open_states@,
            final(self).content_cursor == old(self).content_cursor,
            final(self).selected_link_index == old(self).selected_link_index,
            final(self).floating_cursor_mode == old(self).floating_cursor_mode,
    {
        if self.is_heading_at(idx) {
            let current = self.is_heading_folded(idx);
            let new_state = !current;
            self.heading_fold_states.set(idx, Some(new_state));
            Some(new_state)
        } else {
            None
        }
    }

    /// Flips the fold of the heading under the cursor, as
    /// `toggle_heading_fold_at` does.
    pub fn toggle_current_heading_fold(&mut self) -> (r: Option<bool>)
        requires
            old(self).wf(),
        ensures
            final(self).wf(),
            is_heading(old(self).content_items@, old(self).content_cursor as int) ==> {
                &&& r == Some(!folded_at(old(self).heading_fold_states@, old(self).content_cursor as int))
                &&& final(self).heading_fold_states@ == toggle_fold(
                    old(self).heading_fold_states@,
                    old(self).content_cursor as int,
                )
            },
            !is_heading(old(self).content_items@, old(self).content_cursor as int) ==> {
                &&& r is None
                &&& final(self).heading_fold_states@ == old(self).heading_fold_states@
            },
            final(self).content_items@ == old(self).content_items@,
            final(self).document_links@ == old(self).document_links@,
            final(self).document_link_ranges@ == old(self).document_link_ranges@,
            final(self).outline@ == old(self).outline@,
            final(self).details_open_states@ == old(self).details_open_states@,
            final(self).content_cursor == old(self).content_cursor,
            final(self).selected_link_index == old(self).selected_link_index,
            final(self).floating_cursor_mode == old(self).floating_cursor_mode,
    {
        let idx = self.content_cursor;
        self.toggle_heading_fold_at(idx)
    }

    /// Folds every heading and returns how many there are.
    pub fn fold_all_headings(&mut self) -> (count: usize)
        requires
            old(self).wf(),
        ensures
            final(self).wf(),
            count == heading_count(old(self).content_items@, old(self).content_items.len() as int),
            final(self).heading_fold_states.len() == old(self).heading_fold_states.len(),
            forall|i: int|
                0 <= i < final(self).heading_fold_states.len() ==> #[trigger] final(self).heading_fold_states@[i]
                    == if is_heading(old(self).content_items@, i) {
                    Some(true)
                } else {
                    old(self).heading_fold_states@[i]
                },
            final(self).content_items@ == old(self).content_items@,
            final(self).document_links@ == old(self).document_links@,
            final(self).document_link_ranges@ == old(self).document_link_ranges@,
            final(self).outline@ == old(self).outline@,
            final(self).details_open_states@ == old(self).details_open_states@,
            final(self).content_cursor == old(self).content_cursor,
            final(self).selected_link_index == old(self).selected_link_index,
            final(self).floating_cursor_mode == old(self).floating_cursor_mode,
    {
        let n = self.content_items.len();
        let ghost items = self.content_items@;
        let ghost start = self.heading_fold_states@;
        let mut count: usize = 0;
        let mut idx: usize = 0;
        while idx < n
            invariant
                n == items.len(),
                items == self.content_items@,
                self.heading_fold_states.len() == n,
                start.len() == n,
                idx <= n,
                count == heading_count(items, idx as int),
                count <= idx,
                forall|i: int|
                    0 <= i < n ==> #[trigger] self.heading_fold_states@[i] == if i < idx && is_heading(items, i) {
                        Some(true)
                    } else {
                        start[i]
                    },
                self.content_cursor < n || self.content_cursor == 0,
                self.content_items@ == old(self).content_items@,
                self.document_links@ == old(self).document_links@,
                self.document_link_ranges@ == old(self).document_link_ranges@,
                self.outline@ == old(self).outline@,
                self.details_open_states@ == old(self).details_open_states@,
                self.content_cursor == old(self).content_cursor,
                self.selected_link_index == old(self).selected_link_index,
                self.floating_cursor_mode == old(self).floating_cursor_mode,
            decreases n - idx,
        {
            if self.is_heading_at(idx) {
                self.heading_fold_states.set(idx, Some(true));
                count += 1;
            }
            idx += 1;
        }
        count
    }

    /// Clears every recorded fold state and returns how many there were.
    pub fn unfold_all_headings(&mut self) -> (count: usize)
        requires
            old(self).wf(),
        ensures
            final(self).wf(),
            count == recorded_count(old(self).heading_fold_states@, old(self).heading_fold_states.len() as int),
            final(self).heading_fold_states.len() == old(self).heading_fold_states.len(),
            forall|i: int| 0 <= i < final(self).heading_fold_states.len() ==> final(self).heading_fold_states@[i] is None,
            forall|i: int| final(self).shows(i),
            final(self).content_items@ == old(self).content_items@,
            final(self).document_links@ == old(self).document_links@,
            final(self).document_link_ranges@ == old(self).document_link_ranges@,
            final(self).outline@ == old(self).outline@,
            final(self).details_open_states@ == old(self).details_open_states@,
            final(self).content_cursor == old(self).content_cursor,
            final(self).selected_link_index == old(self).selected_link_index,
            final(self).floating_cursor_mode == old(self).floating_cursor_mode,
    {
        let n = self.heading_fold_states.len();
        let ghost start = self.heading_fold_states@;
        let mut count: usize = 0;
        let mut idx: usize = 0;
        while idx < n
            invariant
                n == start.len(),
                self.heading_fold_states.len() == n,
                self.content_items.len() == n,
                idx <= n,
                count == recorded_count(start, idx as int),
                count <= idx,
                forall|i: int|
                    0 <= i < n ==> #[trigger] self.heading_fold_states@[i] == if i < idx {
                        None
                    } else {
                        start[i]
                    },
                self.content_cursor < n || self.content_cursor == 0,
                self.content_items@ == old(self).content_items@,
                self.document_links@ == old(self).document_links@,
                self.document_link_ranges@ == old(self).document_link_ranges@,
                self.outline@ == old(self).outline@,
                self.details_open_states@ == old(self).details_open_states@,
                self.content_cursor == old(self).content_cursor,
                self.selected_link_index == old(self).selected_link_index,
                self.floating_cursor_mode == old(self).floating_cursor_mode,
            decreases n - idx,
        {
            if self.heading_fold_states[idx].is_some() {
                count += 1;
            }
            self.heading_fold_states.set(idx, None);
            idx += 1;
        }
        proof {
            assert forall|i: int| final(self).shows(i) by {
                lemma_no_fold_all_visible(self.content_items@, self.heading_fold_states@, i);
            }
        }
        count
    }

    /// Records item `idx` as unfolded when it is a folded heading.
    pub fn unfold_heading_at(&mut self, idx: usize)
        requires
            old(self).wf(),
        ensures
            final(self).wf(),
            final(self).heading_fold_states@ == if is_heading(old(self).content_items@, idx as int) && folded_at(
                old(self).heading_fold_states@,
                idx as int,
            ) {
                old(self).heading_fold_states@.update(idx as int, Some(false))
            } else {
                old(self).heading_fold_states@
            },
            final(self).content_items@ == old(self).content_items@,
            final(self).document_links@ == old(self).document_links@,
            final(self).document_link_ranges@ == old(self).document_link_ranges@,
            final(self).outline@ == old(self).outline@,
            final(self).details_open_states@ == old(self).details_open_states@,
            final(self).content_cursor == old(self).content_cursor,
            final(self).selected_link_index == old(self).selected_link_index,
            final(self).floating_cursor_mode == old(self).floating_cursor_mode,
    {
        if self.is_heading_at(idx) && self.is_heading_folded(idx) {
            self.heading_fold_states.set(idx, Some(false));
        }
    }
}

impl DocumentView {
    /// Moves the cursor to the first visible item after it, clearing the
    /// link selection; stays put when there is none.
    pub fn next_content_line(&mut self)
        requires
            old(self).wf(),
        ensures
            final(self).wf(),
            final(self).same_document(*old(self)),
            (exists|j: int| old(self).content_cursor < j < old(self).content_items.len() && old(self).shows(j)) ==> {
                &&& old(self).content_cursor < final(self).content_cursor < old(self).content_items.len()
                &&& old(self).shows(final(self).content_cursor as int)
                &&& forall|j: int|
                    old(self).content_cursor < j < final(self).content_cursor ==> !#[trigger] old(self).shows(j)
                &&& final(self).selected_link_index == 0
            },
            !(exists|j: int| old(self).content_cursor < j < old(self).content_items.len() && old(self).shows(j)) ==> {
                &&& final(self).content_cursor == old(self).content_cursor
                &&& final(self).selected_link_index == old(self).selected_link_index
            },
    {
        let n = self.content_items.len();
        if n == 0 {
            return;
        }
        let cursor = self.content_cursor;
        let mut next = cursor + 1;
        while next < n && !self.is_content_item_visible(next)
            invariant
                n == self.content_items.len(),
                self.wf(),
                cursor == self.content_cursor,
                cursor < next <= n,
                forall|j: int| cursor < j < next ==> !#[trigger] self.shows(j),
            decreases n - next,
        {
            next += 1;
        }
        if next < n {
            self.content_cursor = next;
            self.selected_link_index = 0;
        }
    }

    /// Moves the cursor to the last visible item before it, clearing the
    /// link selection; stays put on the first item. The first item is always
    /// visible, so there is always one to move to.
    pub fn previous_content_line(&mut self)
        requires
            old(self).wf(),
        ensures
            final(self).wf(),
            final(self).same_document(*old(self)),
            old(self).content_cursor > 0 ==> {
                &&& final(self).content_cursor < old(self).content_cursor
                &&& old(self).shows(final(self).content_cursor as int)
                &&& forall|j: int|
                    final(self).content_cursor < j < old(self).content_cursor ==> !#[trigger] old(self).shows(j)
                &&& final(self).selected_link_index == 0
            },
            old(self).content_cursor == 0 ==> {
                &&& final(self).content_cursor == 0
                &&& final(self).selected_link_index == old(self).selected_link_index
            },
    {
        let cursor = self.content_cursor;
        if cursor == 0 {
            return;
        }
        let mut prev = cursor - 1;
        while prev > 0 && !self.is_content_item_visible(prev)
            invariant
                self.wf(),
                cursor == self.content_cursor,
                prev < cursor,
                forall|j: int| prev < j < cursor ==> !#[trigger] self.shows(j),
            decreases prev,
        {
            prev -= 1;
        }
        proof {
            lemma_first_item_visible(self.content_items@, self.heading_fold_states@);
        }
        if self.is_content_item_visible(prev) {
            self.content_cursor = prev;
            self.selected_link_index = 0;
        }
    }

    /// Puts the cursor on the first visible item (the first item) and clears
    /// the link selection.
    pub fn goto_first_content_line(&mut self)
        requires
            old(self).wf(),
        ensures
            final(self).wf(),
            final(self).same_document(*old(self)),
            final(self).content_cursor == 0,
            final(self).selected_link_index == 0,
    {
        self.content_cursor = 0;
        proof {
            lemma_first_item_visible(self.content_items@, self.heading_fold_states@);
        }
        let n = self.content_items.len();
        while self.content_cursor < n && !self.is_content_item_visible(self.content_cursor)
            invariant
                n == self.content_items.len(),
                self.wf(),
                self.content_cursor == 0,
                self.shows(0),
                self.same_document(*old(self)),
            decreases n - self.content_cursor,
        {
            self.content_cursor += 1;
        }
        self.selected_link_index = 0;
    }

    /// Puts the cursor on the last visible item and clears the link
    /// selection; does nothing when there are no items.
    pub fn goto_last_content_line(&mut self)
        requires
            old(self).wf(),
        ensures
            final(self).wf(),
            final(self).same_document(*old(self)),
            old(self).content_items.len() > 0 ==> {
                &&& final(self).content_cursor < old(self).content_items.len()
                &&& old(self).shows(final(self).content_cursor as int)
                &&& forall|j: int|
                    final(self).content_cursor < j < old(self).content_items.len() ==> !#[trigger] old(self).shows(j)
                &&& final(self).selected_link_index == 0
            },
            old(self).content_items.len() == 0 ==> *final(self) == *old(self),
    {
        let n = self.content_items.len();
        if n > 0 {
            self.content_cursor = n - 1;
            while self.content_cursor > 0 && !self.is_content_item_visible(self.content_cursor)
                invariant
                    n == self.content_items.len(),
                    self.wf(),
                    self.same_document(*old(self)),
                    self.content_cursor < n,
                    forall|j: int| self.content_cursor < j < n ==> !#[trigger] old(self).shows(j),
                decreases self.content_cursor,
            {
                self.content_cursor -= 1;
            }
            proof {
                lemma_first_item_visible(self.content_items@, self.heading_fold_states@);
            }
            self.selected_link_index = 0;
        }
    }
}

/// Half of the content pane's text rows: its height less the two border
/// rows, halved.
pub open spec fn half_page(area_height: u16) -> int {
    (if area_height >= 2 {
        area_height - 2
    } else {
        0
    }) / 2
}

impl DocumentView {
    /// Moves the cursor down past half a page of visible items (half the
    /// pane height less its borders), stopping at the last item, and clears
    /// the link selection; does nothing when there are no items.
    pub fn half_page_down_content(&mut self, area_height: u16)
        requires
            old(self).wf(),
        ensures
            final(self).wf(),
            final(self).same_document(*old(self)),
            old(self).content_items.len() == 0 ==> *final(self) == *old(self),
            old(self).content_items.len() > 0 ==> {
                let items = old(self).content_items@;
                let folds = old(self).heading_fold_states@;
                let c = old(self).content_cursor as int;
                let last = items.len() - 1;
                let moved = count_visible(items, folds, c + 1, final(self).content_cursor + 1);
                &&& c <= final(self).content_cursor <= last
                &&& moved <= half_page(area_height)
                &&& (final(self).content_cursor == last || moved == half_page(area_height))
                &&& forall|m: int|
                    c <= m < final(self).content_cursor ==> #[trigger] count_visible(items, folds, c + 1, m + 1)
                        < half_page(area_height)
                &&& final(self).selected_link_index == 0
            },
    {
        let n = self.content_items.len();
        if n == 0 {
            return;
        }
        let content_height = area_height.saturating_sub(2) as usize;
        let half = content_height / 2;
        let max_cursor = n - 1;
        let ghost items = self.content_items@;
        let ghost folds = self.heading_fold_states@;
        let c = self.content_cursor;
        let mut moved: usize = 0;
        let mut new_cursor = c;
        while moved < half && new_cursor < max_cursor
            invariant
                n == self.content_items.len(),
                items == self.content_items@,
                folds == self.heading_fold_states@,
                self.wf(),
                max_cursor == n - 1,
                half == half_page(area_height),
                c <= new_cursor <= max_cursor,
                moved == count_visible(items, folds, c + 1, new_cursor + 1),
                moved <= half,
                forall|m: int| c <= m < new_cursor ==> #[trigger] count_visible(items, folds, c + 1, m + 1) < half,
            decreases max_cursor - new_cursor,
        {
            new_cursor += 1;
            if self.is_content_item_visible(new_cursor) {
                moved += 1;
            }
        }
        self.content_cursor = new_cursor;
        self.selected_link_index = 0;
    }

    /// Moves the cursor up past half a page of visible items, stopping at
    /// the first item, and clears the link selection; does nothing when
    /// there are no items.
    pub fn half_page_up_content(&mut self, area_height: u16)
        requires
            old(self).wf(),
        ensures
            final(self).wf(),
            final(self).same_document(*old(self)),
            old(self).content_items.len() == 0 ==> *final(self) == *old(self),
            old(self).content_items.len() > 0 ==> {
                let items = old(self).content_items@;
                let folds = old(self).heading_fold_states@;
                let c = old(self).content_cursor as int;
                let moved = count_visible(items, folds, final(self).content_cursor as int, c);
                &&& final(self).content_cursor <= c
                &&& moved <= half_page(area_height)
                &&& (final(self).content_cursor == 0 || moved == half_page(area_height))
                &&& forall|m: int|
                    final(self).content_cursor < m <= c ==> #[trigger] count_visible(items, folds, m, c) < half_page(
                        area_height,
                    )
                &&& final(self).selected_link_index == 0
            },
    {
        let n = self.content_items.len();
        if n == 0 {
            return;
        }
        let content_height = area_height.saturating_sub(2) as usize;
        let half = content_height / 2;
        let ghost items = self.content_items@;
        let ghost folds = self.heading_fold_states@;
        let c = self.content_cursor;
        let mut moved: usize = 0;
        let mut new_cursor = c;
        while moved < half && new_cursor > 0
            invariant
                n == self.content_items.len(),
                items == self.content_items@,
                folds == self.heading_fold_states@,
                self.wf(),
                half == half_page(area_height),
                new_cursor <= c,
                moved == count_visible(items, folds, new_cursor as int, c as int),
                moved <= half,
                forall|m: int| new_cursor < m <= c ==> #[trigger] count_visible(items, folds, m, c as int) < half,
            decreases new_cursor,
        {
            proof {
                lemma_count_low_step(items, folds, new_cursor - 1, c as int);
            }
            new_cursor -= 1;
            if self.is_content_item_visible(new_cursor) {
                moved += 1;
            }
        }
        self.content_cursor = new_cursor;
        self.selected_link_index = 0;
    }

    /// Switches the floating cursor on or off.
    pub fn toggle_floating_cursor(&mut self)
        ensures
            final(self).floating_cursor_mode == !old(self).floating_cursor_mode,
            final(self).content_items@ == old(self).content_items@,
            final(self).document_links@ == old(self).document_links@,
            final(self).document_link_ranges@ == old(self).document_link_ranges@,
            final(self).heading_fold_states@ == old(self).heading_fold_states@,
            final(self).outline@ == old(self).outline@,
            final(self).details_open_states@ == old(self).details_open_states@,
            final(self).content_cursor == old(self).content_cursor,
            final(self).selected_link_index == old(self).selected_link_index,
    {
        self.floating_cursor_mode = !self.floating_cursor_mode;
    }

    /// With the floating cursor on, moves down as `next_content_line` does;
    /// otherwise does nothing.
    pub fn floating_move_down(&mut self)
        requires
            old(self).wf(),
        ensures
            final(self).wf(),
            final(self).same_document(*old(self)),
            !old(self).floating_cursor_mode ==> *final(self) == *old(self),
            old(self).floating_cursor_mode && (exists|j: int|
                old(self).content_cursor < j < old(self).content_items.len() && old(self).shows(j)) ==> {
                &&& old(self).content_cursor < final(self).content_cursor < old(self).content_items.len()
                &&& old(self).shows(final(self).content_cursor as int)
                &&& forall|j: int|
                    old(self).content_cursor < j < final(self).content_cursor ==> !#[trigger] old(self).shows(j)
                &&& final(self).selected_link_index == 0
            },
            !(exists|j: int| old(self).content_cursor < j < old(self).content_items.len() && old(self).shows(j)) ==> {
                &&& final(self).content_cursor == old(self).content_cursor
                &&& final(self).selected_link_index == old(self).selected_link_index
            },
    {
        if self.content_items.len() == 0 || !self.floating_cursor_mode {
            return;
        }
        self.next_content_line();
    }

    /// With the floating cursor on, moves up as `previous_content_line`
    /// does; otherwise does nothing.
    pub fn floating_move_up(&mut self)
        requires
            old(self).wf(),
        ensures
            final(self).wf(),
            final(self).same_document(*old(self)),
            !old(self).floating_cursor_mode ==> *final(self) == *old(self),
            old(self).floating_cursor_mode && old(self).content_cursor > 0 ==> {
                &&& final(self).content_cursor < old(self).content_cursor
                &&& old(self).shows(final(self).content_cursor as int)
                &&& forall|j: int|
                    final(self).content_cursor < j < old(self).content_cursor ==> !#[trigger] old(self).shows(j)
                &&& final(self).selected_link_index == 0
            },
            old(self).content_cursor == 0 ==> *final(self) == *old(self),
    {
        if !self.floating_cursor_mode {
            return;
        }
        if self.content_cursor == 0 {
            return;
        }
        self.previous_content_line();
    }
}

/// The links of item `index`: its range of the document's link list, or
/// none when the item has no range or the range runs past the list.
pub open spec fn item_links(ranges: Seq<DocumentLinkRange>, links: Seq<LinkInfo>, index: int) -> Seq<LinkInfo> {
    if 0 <= index < ranges.len() && ranges[index].start + ranges[index].len <= links.len() {
        links.subrange(ranges[index].start as int, ranges[index].start + ranges[index].len)
    } else {
        Seq::empty()
    }
}

/// Whether item `i` is a task.
pub open spec fn is_task_item(items: Seq<ContentItem>, i: int) -> bool {
    0 <= i < items.len() && items[i] is TaskItem
}

/// The inline images among `links`, each with its selection index: its
/// position in `links` plus `offset`.
pub open spec fn image_selections(links: Seq<LinkInfo>, offset: int) -> Seq<(String, usize)>
    decreases links.len(),
{
    if links.len() == 0 {
        Seq::empty()
    } else {
        let prev = image_selections(links.drop_last(), offset);
        match links.last() {
            LinkInfo::Image { path, .. } => prev.push((path, (links.len() - 1 + offset) as usize)),
            _ => prev,
        }
    }
}

/// The Markdown links and images among `links` as (text, target, start
/// column, end column); an image shows and targets its path. Wiki links are
/// left out.
pub open spec fn plain_links(links: Seq<LinkInfo>) -> Seq<(String, String, usize, usize)>
    decreases links.len(),
{
    if links.len() == 0 {
        Seq::empty()
    } else {
        let prev = plain_links(links.drop_last());
        match links.last() {
            LinkInfo::Markdown { text, url, start_col, end_col } => prev.push((text, url, start_col, end_col)),
            LinkInfo::Image { path, start_col, end_col } => prev.push((path, path, start_col, end_col)),
            _ => prev,
        }
    }
}

/// The columns taken before the text of item `index`: the cursor marker,
/// plus a checkbox and indentation for a task, or a border for a table row.
pub open spec fn line_prefix(items: Seq<ContentItem>, index: int) -> int {
    if 0 <= index < items.len() {
        match items[index] {
            ContentItem::TaskItem { indent, .. } => 6 + indent,
            ContentItem::TableRow { .. } => 3,
            _ => 2,
        }
    } else {
        2
    }
}

/// Whether a click at `col` lands on link `l` of a line whose text starts
/// `prefix` columns in.
pub open spec fn link_hit(l: (String, String, usize, usize), prefix: int, col: int) -> bool {
    prefix + l.2 <= col < prefix + l.3
}

impl DocumentView {
    /// The links of the current item.
    pub open spec fn cursor_links(&self) -> Seq<LinkInfo> {
        item_links(self.document_link_ranges@, self.document_links@, self.content_cursor as int)
    }

    /// How many stops the link selection has on the current item: one per
    /// link, and one more for the checkbox of a task that has links.
    pub open spec fn link_stops(&self) -> int {
        let k = self.cursor_links().len() as int;
        if is_task_item(self.content_items@, self.content_cursor as int) && k > 0 {
            k + 1
        } else {
            k
        }
    }

    /// Whether moving the link selection changes anything: a task with
    /// links, or an item with more than one.
    pub open spec fn link_selection_cycles(&self) -> bool {
        (is_task_item(self.content_items@, self.content_cursor as int) && self.cursor_links().len() > 0)
            || self.link_stops() > 1
    }

    /// The position, among the current item's links, of the selected link:
    /// none without links or with a task's checkbox selected; otherwise the
    /// selection (less one on a task) held to the last link.
    pub open spec fn selected_link_position(&self) -> Option<int> {
        let k = self.cursor_links().len() as int;
        let sel = self.selected_link_index as int;
        if k == 0 {
            None
        } else if is_task_item(self.content_items@, self.content_cursor as int) {
            if sel == 0 {
                None
            } else {
                Some(if sel - 1 < k - 1 {
                    sel - 1
                } else {
                    k - 1
                })
            }
        } else {
            Some(if sel < k - 1 {
                sel
            } else {
                k - 1
            })
        }
    }

    /// The links of item `index`.
    pub fn item_all_links_at(&self, index: usize) -> (r: &[LinkInfo])
        ensures
            r@ == item_links(self.document_link_ranges@, self.document_links@, index as int),
    {
        let total = self.document_links.len();
        if index < self.document_link_ranges.len() {
            let range = self.document_link_ranges[index];
            let start = range.start as usize;
            let len = range.len as usize;
            if len <= total && start <= total - len {
                return vstd::slice::slice_subrange(self.document_links.as_slice(), start, start + len);
            }
        }
        vstd::slice::slice_subrange(self.document_links.as_slice(), 0, 0)
    }

    /// How many of item `index`'s links are inline images, as counted when
    /// the note was parsed; 0 for an item without a link range.
    pub fn inline_image_count_at(&self, index: usize) -> (n: usize)
        ensures
            n == if index < self.document_link_ranges.len() {
                self.document_link_ranges@[index as int].image_count as int
            } else {
                0
            },
    {
        if index < self.document_link_ranges.len() {
            self.document_link_ranges[index].image_count as usize
        } else {
            0
        }
    }

    /// Whether the current item is a task.
    pub fn is_current_task_item(&self) -> (b: bool)
        ensures
            b == is_task_item(self.content_items@, self.content_cursor as int),
    {
        let idx = self.content_cursor;
        if idx < self.content_items.len() {
            match &self.content_items[idx] {
                ContentItem::TaskItem { .. } => true,
                _ => false,
            }
        } else {
            false
        }
    }

    /// Whether the selection rests on the checkbox of the current task.
    pub fn is_task_checkbox_selected(&self) -> (b: bool)
        ensures
            b == (is_task_item(self.content_items@, self.content_cursor as int) && self.selected_link_index == 0),
    {
        self.is_current_task_item() && self.selected_link_index == 0
    }

    /// The selected link of the current item, if any (see
    /// `selected_link_position`).
    pub fn current_selected_link(&self) -> (r: Option<&LinkInfo>)
        ensures
            r is None <==> self.selected_link_position() is None,
            r is Some ==> *r->0 == self.cursor_links()[self.selected_link_position()->0],
    {
        let all_links = self.item_all_links_at(self.content_cursor);
        let k = all_links.len();
        if k == 0 {
            return None;
        }
        let sel = self.selected_link_index;
        let idx = if self.is_current_task_item() {
            if sel == 0 {
                return None;
            }
            if sel - 1 < k - 1 {
                sel - 1
            } else {
                k - 1
            }
        } else {
            if sel < k - 1 {
                sel
            } else {
                k - 1
            }
        };
        Some(&all_links[idx])
    }

    /// How many stops the link selection has on the current item.
    pub fn current_line_link_count(&self) -> (n: usize)
        ensures
            n == self.link_stops(),
    {
        let link_count = self.item_all_links_at(self.content_cursor).len();
        proof {
            let r = self.document_link_ranges@[self.content_cursor as int];
            assert(link_count <= u16::MAX);
        }
        if self.is_current_task_item() && link_count > 0 {
            link_count + 1
        } else {
            link_count
        }
    }

    /// Selects the next link stop, wrapping to the first, when the current
    /// item has more than one stop.
    pub fn next_link(&mut self)
        requires
            old(self).link_selection_cycles() ==> old(self).selected_link_index < usize::MAX,
        ensures
            final(self).same_document(*old(self)),
            final(self).content_cursor == old(self).content_cursor,
            final(self).selected_link_index == if old(self).link_selection_cycles() {
                ((old(self).selected_link_index + 1) % old(self).link_stops()) as usize
            } else {
                old(self).selected_link_index
            },
    {
        let link_count = self.current_line_link_count();
        if (self.is_current_task_item() && link_count > 0) || link_count > 1 {
            self.selected_link_index = (self.selected_link_index + 1) % link_count;
        }
    }

    /// Selects the previous link stop, wrapping to the last, when the
    /// current item has more than one stop.
    pub fn previous_link(&mut self)
        ensures
            final(self).same_document(*old(self)),
            final(self).content_cursor == old(self).content_cursor,
            final(self).selected_link_index == if !old(self).link_selection_cycles() {
                old(self).selected_link_index as int
            } else if old(self).selected_link_index == 0 {
                old(self).link_stops() - 1
            } else {
                old(self).selected_link_index - 1
            },
    {
        let link_count = self.current_line_link_count();
        if (self.is_current_task_item() && link_count > 0) || link_count > 1 {
            if self.selected_link_index == 0 {
                self.selected_link_index = link_count - 1;
            } else {
                self.selected_link_index -= 1;
            }
        }
    }

    /// Whether the current item has links.
    pub fn current_item_has_link(&self) -> (b: bool)
        ensures
            b == (self.cursor_links().len() > 0),
    {
        self.item_all_links_at(self.content_cursor).len() > 0
    }

    /// Whether item `index` has links.
    pub fn item_has_link_at(&self, index: usize) -> (b: bool)
        ensures
            b == (item_links(self.document_link_ranges@, self.document_links@, index as int).len() > 0),
    {
        self.item_all_links_at(index).len() > 0
    }

    /// Whether item `index` is a collapsible details block.
    pub fn item_is_details_at(&self, index: usize) -> (b: bool)
        ensures
            b == (index < self.content_items.len() && self.content_items@[index as int] is Details),
    {
        if index < self.content_items.len() {
            match &self.content_items[index] {
                ContentItem::Details { .. } => true,
                _ => false,
            }
        } else {
            false
        }
    }

    /// The columns taken before the text of item `index`.
    pub fn get_line_prefix_len(&self, index: usize) -> (n: usize)
        ensures
            n == line_prefix(self.content_items@, index as int),
    {
        if index < self.content_items.len() {
            match &self.content_items[index] {
                ContentItem::TaskItem { indent, .. } => 6 + *indent as usize,
                ContentItem::TableRow { .. } => 3,
                _ => 2,
            }
        } else {
            2
        }
    }

    /// Whether a click in terminal column `col`, with the content starting
    /// at column `content_x`, lands on the checkbox of task item `index`:
    /// the three columns after the cursor marker and the indentation.
    pub fn is_click_on_task_checkbox(&self, index: usize, col: u16, content_x: u16) -> (b: bool)
        ensures
            b == (is_task_item(self.content_items@, index as int) && {
                let indent = self.content_items@[index as int]->TaskItem_indent as int;
                let click = if col >= content_x {
                    col - content_x
                } else {
                    0
                };
                2 + indent <= click <= 4 + indent
            }),
    {
        let indent: u16 = if index < self.content_items.len() {
            match &self.content_items[index] {
                ContentItem::TaskItem { indent, .. } => *indent,
                _ => {
                    return false;
                },
            }
        } else {
            return false;
        };
        let click_col = col.saturating_sub(content_x) as usize;
        click_col >= 2 + indent as usize && click_col <= 4 + indent as usize
    }

    /// The item's outline entry to select for the cursor: the last of the
    /// leading outline entries that start at or before the cursor; `None`
    /// when the outline is empty or starts after the cursor.
    pub fn sync_outline_to_content(&self) -> (r: Option<usize>)
        ensures
            r is None <==> (self.outline.len() == 0 || self.outline@[0].line > self.content_cursor),
            r is Some ==> {
                let i = r->0 as int;
                &&& i < self.outline.len()
                &&& forall|j: int| 0 <= j <= i ==> #[trigger] self.outline@[j].line <= self.content_cursor
                &&& (i + 1 == self.outline.len() || self.outline@[i + 1].line > self.content_cursor)
            },
    {
        let n = self.outline.len();
        if n == 0 {
            return None;
        }
        let mut best: Option<usize> = None;
        let mut i: usize = 0;
        while i < n
            invariant_except_break
                best is None <==> i == 0,
                best is Some ==> best->0 + 1 == i,
            invariant
                n == self.outline.len(),
                i <= n,
                forall|j: int| 0 <= j < i ==> #[trigger] self.outline@[j].line <= self.content_cursor,
            ensures
                i <= n,
                best is None <==> i == 0,
                best is Some ==> best->0 + 1 == i,
                i < n ==> self.outline@[i as int].line > self.content_cursor,
                forall|j: int| 0 <= j < i ==> #[trigger] self.outline@[j].line <= self.content_cursor,
            decreases n - i,
        {
            if self.outline[i].line <= self.content_cursor {
                best = Some(i);
            } else {
                break;
            }
            i += 1;
        }
        best
    }
}

/// The inline images among a line's links, each with the selection index
/// that `[` and `]` use: its position among the links, one further on a task
/// with links, whose first stop is the checkbox.
pub fn inline_image_selections_for_links(all_links: &[LinkInfo], is_task: bool) -> (r: Vec<(String, usize)>)
    ensures
        r@ == image_selections(all_links@, if is_task && all_links.len() > 0 {
            1int
        } else {
            0int
        }),
{
    let offset: usize = if is_task && all_links.len() > 0 {
        1
    } else {
        0
    };
    let n = all_links.len();
    let mut out: Vec<(String, usize)> = Vec::new();
    let mut i: usize = 0;
    while i < n
        invariant
            n == all_links.len(),
            i <= n,
            offset <= 1,
            out@ == image_selections(all_links@.subrange(0, i as int), offset as int),
        decreases n - i,
    {
        proof {
            assert(all_links@.subrange(0, i + 1).drop_last() == all_links@.subrange(0, i as int));
        }
        match &all_links[i] {
            LinkInfo::Image { path, .. } => {
                out.push((path.clone(), i + offset));
            },
            _ => {},
        }
        i += 1;
    }
    proof {
        assert(all_links@.subrange(0, n as int) == all_links@);
    }
    out
}

impl DocumentView {
    /// The inline images of item `index`, with their selection indices.
    pub fn item_inline_image_selections_at(&self, index: usize) -> (r: Vec<(String, usize)>)
        ensures
            ({
                let links = item_links(self.document_link_ranges@, self.document_links@, index as int);
                r@ == image_selections(links, if is_task_item(self.content_items@, index as int) && links.len() > 0 {
                    1int
                } else {
                    0int
                })
            }),
    {
        let all_links = self.item_all_links_at(index);
        let is_task = index < self.content_items.len() && match &self.content_items[index] {
            ContentItem::TaskItem { .. } => true,
            _ => false,
        };
        inline_image_selections_for_links(all_links, is_task)
    }

    /// The Markdown links and images of item `index` as (text, target, start
    /// column, end column).
    pub fn item_links_at(&self, index: usize) -> (r: Vec<(String, String, usize, usize)>)
        ensures
            r@ == plain_links(item_links(self.document_link_ranges@, self.document_links@, index as int)),
    {
        let all_links = self.item_all_links_at(index);
        let n = all_links.len();
        let mut out: Vec<(String, String, usize, usize)> = Vec::new();
        let mut i: usize = 0;
        while i < n
            invariant
                n == all_links.len(),
                i <= n,
                out@ == plain_links(all_links@.subrange(0, i as int)),
            decreases n - i,
        {
            proof {
                assert(all_links@.subrange(0, i + 1).drop_last() == all_links@.subrange(0, i as int));
            }
            match &all_links[i] {
                LinkInfo::Markdown { text, url, start_col, end_col } => {
                    out.push((text.clone(), url.clone(), *start_col, *end_col));
                },
                LinkInfo::Image { path, start_col, end_col } => {
                    out.push((path.clone(), path.clone(), *start_col, *end_col));
                },
                _ => {},
            }
            i += 1;
        }
        proof {
            assert(all_links@.subrange(0, n as int) == all_links@);
        }
        out
    }

    /// The target of the first Markdown link or image of item `index` whose
    /// columns, shifted by the item's prefix, hold `click_col`.
    pub fn find_clicked_link_at_col(&self, index: usize, click_col: usize) -> (r: Option<String>)
        requires
            forall|i: int|
                0 <= i < plain_links(item_links(self.document_link_ranges@, self.document_links@, index as int)).len()
                    ==> {
                    let l = #[trigger] plain_links(
                        item_links(self.document_link_ranges@, self.document_links@, index as int),
                    )[i];
                    line_prefix(self.content_items@, index as int) + l.2 <= usize::MAX
                        && line_prefix(self.content_items@, index as int) + l.3 <= usize::MAX
                },
        ensures
            ({
                let ls = plain_links(item_links(self.document_link_ranges@, self.document_links@, index as int));
                let p = line_prefix(self.content_items@, index as int);
                &&& r is None <==> forall|i: int| 0 <= i < ls.len() ==> !#[trigger] link_hit(ls[i], p, click_col as int)
                &&& r is Some ==> exists|i: int|
                    0 <= i < ls.len() && #[trigger] link_hit(ls[i], p, click_col as int) && (forall|j: int|
                        0 <= j < i ==> !#[trigger] link_hit(ls[j], p, click_col as int)) && r->0 == ls[i].1
            }),
    {
        let links = self.item_links_at(index);
        let n = links.len();
        if n == 0 {
            return None;
        }
        let prefix_len = self.get_line_prefix_len(index);
        let ghost p = line_prefix(self.content_items@, index as int);
        let mut i: usize = 0;
        while i < n
            invariant
                n == links.len(),
                links@ == plain_links(item_links(self.document_link_ranges@, self.document_links@, index as int)),
                p == line_prefix(self.content_items@, index as int),
                i <= n,
                prefix_len == p,
                forall|k: int| 0 <= k < n ==> p + (#[trigger] links@[k]).2 <= usize::MAX && p + links@[k].3 <= usize::MAX,
                forall|j: int| 0 <= j < i ==> !#[trigger] link_hit(links@[j], p, click_col as int),
            decreases n - i,
        {
            let adjusted_start = prefix_len + links[i].2;
            let adjusted_end = prefix_len + links[i].3;
            if click_col >= adjusted_start && click_col < adjusted_end {
                let url = links[i].1.clone();
                assert(link_hit(links@[i as int], p, click_col as int));
                assert(url == links@[i as int].1);
                return Some(url);
            }
            i += 1;
        }
        None
    }
}

/// Whether the details block with source line `id` is recorded open.
pub open spec fn details_open(states: Map<usize, bool>, id: usize) -> bool {
    states.contains_key(id) && states[id]
}

impl DocumentView {
    /// Opens or closes the details block at item `index`; anything else is
    /// left alone.
    pub fn toggle_details_at(&mut self, index: usize)
        ensures
            final(self).content_items@ == old(self).content_items@,
            final(self).document_links@ == old(self).document_links@,
            final(self).document_link_ranges@ == old(self).document_link_ranges@,
            final(self).heading_fold_states@ == old(self).heading_fold_states@,
            final(self).outline@ == old(self).outline@,
            final(self).content_cursor == old(self).content_cursor,
            final(self).selected_link_index == old(self).selected_link_index,
            final(self).floating_cursor_mode == old(self).floating_cursor_mode,
            final(self).details_open_states@ == if index < old(self).content_items.len()
                && old(self).content_items@[index as int] is Details {
                let id = old(self).content_items@[index as int]->Details_source_line as usize;
                old(self).details_open_states@.insert(id, !details_open(old(self).details_open_states@, id))
            } else {
                old(self).details_open_states@
            },
    {
        broadcast use vstd::std_specs::hash::group_hash_axioms;

        if index < self.content_items.len() {
            let id: usize = match &self.content_items[index] {
                ContentItem::Details { source_line, .. } => *source_line as usize,
                _ => {
                    return;
                },
            };
            let current = match self.details_open_states.get(&id) {
                Some(open) => *open,
                None => false,
            };
            self.details_open_states.insert(id, !current);
        }
    }

    /// Opens or closes the details block under the cursor.
    pub fn toggle_current_details(&mut self)
        ensures
            final(self).content_items@ == old(self).content_items@,
            final(self).document_links@ == old(self).document_links@,
            final(self).document_link_ranges@ == old(self).document_link_ranges@,
            final(self).heading_fold_states@ == old(self).heading_fold_states@,
            final(self).outline@ == old(self).outline@,
            final(self).content_cursor == old(self).content_cursor,
            final(self).selected_link_index == old(self).selected_link_index,
            final(self).floating_cursor_mode == old(self).floating_cursor_mode,
            final(self).details_open_states@ == if old(self).content_cursor < old(self).content_items.len()
                && old(self).content_items@[old(self).content_cursor as int] is Details {
                let id = old(self).content_items@[old(self).content_cursor as int]->Details_source_line as usize;
                old(self).details_open_states@.insert(id, !details_open(old(self).details_open_states@, id))
            } else {
                old(self).details_open_states@
            },
    {
        let idx = self.content_cursor;
        self.toggle_details_at(idx);
    }
}

/// Whether item `item` is a task on `source_line` whose checkbox reads
/// `checked`.
pub open spec fn task_matches(item: ContentItem, source_line: usize, checked: bool) -> bool {
    match item {
        ContentItem::TaskItem { source_line: l, checked: c, .. } => l as int == source_line as int && c == checked,
        _ => false,
    }
}

/// The open note's item for a scanned task: the first task item on
/// `source_line` whose checkbox still reads `checked`. `None` means the note
/// changed since the scan.
pub fn matching_task_item(items: &[ContentItem], source_line: usize, checked: bool) -> (r: Option<usize>)
    ensures
        r is None <==> forall|i: int| 0 <= i < items.len() ==> !#[trigger] task_matches(items@[i], source_line, checked),
        r is Some ==> {
            &&& r->0 < items.len()
            &&& task_matches(items@[r->0 as int], source_line, checked)
            &&& forall|i: int| 0 <= i < r->0 ==> !#[trigger] task_matches(items@[i], source_line, checked)
        },
{
    let n = items.len();
    let mut i: usize = 0;
    while i < n
        invariant
            n == items.len(),
            i <= n,
            forall|k: int| 0 <= k < i ==> !#[trigger] task_matches(items@[k], source_line, checked),
        decreases n - i,
    {
        let found = match &items[i] {
            ContentItem::TaskItem { source_line: l, checked: c, .. } => *l as usize == source_line && *c == checked,
            _ => false,
        };
        if found {
            assert(task_matches(items@[i as int], source_line, checked));
            return Some(i);
        }
        i += 1;
    }
    None
}

/// Where to land when opening a note at a task's `source_line`: the first
/// item rendered from that line, and the scroll offset that puts it half a
/// page (of a pane `area_height` rows tall, less its two border rows) below
/// the top, or at the top when it is nearer than that.
pub fn task_source_position(items: &[ContentItem], source_line: usize, area_height: u16) -> (r: Option<(usize, usize)>)
    ensures
        r is None <==> forall|i: int| 0 <= i < items.len() ==> item_source_line(#[trigger] items@[i]) != source_line,
        r is Some ==> {
            let (cursor, scroll) = r->0;
            &&& cursor < items.len()
            &&& item_source_line(items@[cursor as int]) == source_line
            &&& forall|i: int| 0 <= i < cursor ==> item_source_line(#[trigger] items@[i]) != source_line
            &&& scroll == if cursor >= half_page(area_height) {
                cursor - half_page(area_height)
            } else {
                0
            }
        },
{
    let n = items.len();
    let mut i: usize = 0;
    while i < n
        invariant
            n == items.len(),
            i <= n,
            forall|k: int| 0 <= k < i ==> item_source_line(#[trigger] items@[k]) != source_line,
        decreases n - i,
    {
        if items[i].source_line() == source_line {
            let viewport = area_height.saturating_sub(2) as usize;
            let half = viewport / 2;
            let scroll = i.saturating_sub(half);
            return Some((i, scroll));
        }
        i += 1;
    }
    None
}

} // verus!
