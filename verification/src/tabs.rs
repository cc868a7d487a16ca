//! The tabs of the row: which ones, under which names, and where a dragged one
//! would be dropped.

use vstd::prelude::*;

use crate::model::{ClientShellSnapshot, ClientShellTab, ShellHitMap, MIN_TAB_WIDTH};
use crate::rect::{diff16, sum16, Rect};
use crate::strip::index_of;
use crate::text::{cells, display_width};

verus! {

/// Whether `i` is the first place that is set.
pub open spec fn is_first_set(flags: Seq<bool>, i: int) -> bool {
    &&& 0 <= i < flags.len()
    &&& flags[i]
    &&& forall|j: int| 0 <= j < i ==> !flags[j]
}

/// The first place that is set, if any.
pub open spec fn first_set(flags: Seq<bool>) -> Option<int> {
    if exists|i: int| is_first_set(flags, i) {
        Some(choose|i: int| is_first_set(flags, i))
    } else {
        None
    }
}

/// The name under which a tab is shown: a zoomed one is marked.
pub open spec fn shown_name(tab: ClientShellTab) -> Seq<char> {
    if tab.zoomed {
        tab.label@ + " Z"@
    } else {
        tab.label@
    }
}

/// The name under which a tab is shown.
pub fn tab_label(tab: &ClientShellTab) -> (name: String)
    ensures
        name@ == shown_name(*tab),
{
    let name = tab.label.clone();
    if tab.zoomed {
        name.concat(" Z")
    } else {
        name
    }
}

/// The values behind a list of references to tabs.
pub open spec fn tab_values(tabs: Seq<&ClientShellTab>) -> Seq<ClientShellTab> {
    tabs.map_values(|tab: &ClientShellTab| *tab)
}

/// Whether a tab belongs to the focused workspace.
pub open spec fn in_focused_workspace(snapshot: ClientShellSnapshot, tab: ClientShellTab) -> bool {
    snapshot.focused_workspace_id matches Some(id) && tab.workspace_id@ == id@
}

/// The tabs of the row: those of the focused workspace, in their order.
pub open spec fn row_tabs(snapshot: ClientShellSnapshot) -> Seq<ClientShellTab> {
    snapshot.tabs@.filter(|tab: ClientShellTab| in_focused_workspace(snapshot, tab))
}

/// The tabs of the focused workspace.
pub fn focused_workspace_tabs(snapshot: &ClientShellSnapshot) -> (tabs: Vec<&ClientShellTab>)
    ensures
        tab_values(tabs@) == row_tabs(*snapshot),
{
    let mut tabs: Vec<&ClientShellTab> = Vec::new();
    let mut i: usize = 0;
    let ghost wanted = |tab: ClientShellTab| in_focused_workspace(*snapshot, tab);
    assert(tab_values(tabs@) =~= snapshot.tabs@.take(0).filter(wanted)) by {
        reveal(Seq::filter);
    }
    while i < snapshot.tabs.len()
        invariant
            i <= snapshot.tabs.len(),
            wanted == (|tab: ClientShellTab| in_focused_workspace(*snapshot, tab)),
            tab_values(tabs@) == snapshot.tabs@.take(i as int).filter(wanted),
        decreases snapshot.tabs.len() - i,
    {
        let tab = &snapshot.tabs[i];
        let ghost before = tabs@;
        let focused = match &snapshot.focused_workspace_id {
            Some(id) => tab.workspace_id == *id,
            None => false,
        };
        if focused {
            tabs.push(tab);
            assert(tab_values(tabs@) =~= tab_values(before).push(*tab));
        }
        proof {
            reveal(Seq::filter);
            assert(snapshot.tabs@.take(i + 1).drop_last() =~= snapshot.tabs@.take(i as int));
        }
        i = i + 1;
    }
    assert(snapshot.tabs@.take(i as int) =~= snapshot.tabs@);
    tabs
}

/// The place of the focused tab.
pub open spec fn focused_place(tabs: Seq<ClientShellTab>) -> Option<int> {
    first_set(tabs.map_values(|tab: ClientShellTab| tab.focused))
}

/// The place of the first focused tab.
pub fn focused_tab(tabs: &[&ClientShellTab]) -> (place: Option<usize>)
    ensures
        index_of(place) == focused_place(tab_values(tabs@)),
        place matches Some(p) ==> p < tabs.len(),
{
    let ghost flags = tab_values(tabs@).map_values(|tab: ClientShellTab| tab.focused);
    let mut i: usize = 0;
    while i < tabs.len()
        invariant
            i <= tabs.len(),
            flags == tab_values(tabs@).map_values(|tab: ClientShellTab| tab.focused),
            forall|j: int| 0 <= j < i ==> !flags[j],
        decreases tabs.len() - i,
    {
        if tabs[i].focused {
            assert(is_first_set(flags, i as int));
            return Some(i);
        }
        i = i + 1;
    }
    None
}

/// The cells that a tab asks for when its name takes `name_width` cells: two on
/// either side of the name, and never too few.
pub open spec fn asked_width(name_width: u16) -> u16 {
    let width = sum16(name_width as int, 4);
    if width >= MIN_TAB_WIDTH {
        width
    } else {
        MIN_TAB_WIDTH
    }
}

/// The cells that the tabs ask for when their names take `name_widths` cells.
pub open spec fn asked_widths(name_widths: Seq<u16>) -> Seq<u16> {
    name_widths.map_values(|width: u16| asked_width(width))
}

/// The cells that the tabs ask for when their names take `name_widths` cells.
pub fn desired_widths(name_widths: &[u16]) -> (widths: Vec<u16>)
    ensures
        widths@ == asked_widths(name_widths@),
{
    let mut widths: Vec<u16> = Vec::new();
    let mut i: usize = 0;
    while i < name_widths.len()
        invariant
            i <= name_widths.len(),
            widths@ == asked_widths(name_widths@.take(i as int)),
        decreases name_widths.len() - i,
    {
        let mut width: u16 = name_widths[i].saturating_add(4);
        if width < MIN_TAB_WIDTH {
            width = MIN_TAB_WIDTH;
        }
        widths.push(width);
        i = i + 1;
        assert(widths@ =~= asked_widths(name_widths@.take(i as int)));
    }
    assert(name_widths@.take(i as int) =~= name_widths@);
    widths
}

/// The cells that the names of the tabs take.
pub open spec fn name_cells(tabs: Seq<ClientShellTab>) -> Seq<u16> {
    tabs.map_values(|tab: ClientShellTab| cells(shown_name(tab)))
}

/// Measures the names of the tabs.
pub fn name_widths(tabs: &[&ClientShellTab]) -> (widths: Vec<u16>)
    ensures
        widths@ == name_cells(tab_values(tabs@)),
{
    let mut widths: Vec<u16> = Vec::new();
    let mut i: usize = 0;
    let ghost all = name_cells(tab_values(tabs@));
    while i < tabs.len()
        invariant
            i <= tabs.len(),
            all == name_cells(tab_values(tabs@)),
            widths@ == all.take(i as int),
        decreases tabs.len() - i,
    {
        let name = tab_label(tabs[i]);
        widths.push(display_width(name.as_str()));
        i = i + 1;
        assert(widths@ =~= all.take(i as int));
    }
    assert(all.take(i as int) =~= all);
    widths
}

/// Which of the tabs have the given identifier.
pub open spec fn with_id(tabs: Seq<ClientShellTab>, id: Seq<char>) -> Seq<bool> {
    tabs.map_values(|tab: ClientShellTab| tab.tab_id@ == id)
}

/// The place of the tab with the given identifier.
pub open spec fn place_of(tabs: Seq<ClientShellTab>, id: Seq<char>) -> Option<int> {
    first_set(with_id(tabs, id))
}

/// The hits that are tabs of the row.
pub open spec fn row_hits(
    hits: Seq<(Rect, Seq<char>)>,
    tabs: Seq<ClientShellTab>,
) -> Seq<(Rect, Seq<char>)> {
    hits.filter(|hit: (Rect, Seq<char>)| place_of(tabs, hit.1) is Some)
}

/// The hits that are tabs of the row, each with its place among them.
pub open spec fn visible_tabs(
    hits: Seq<(Rect, Seq<char>)>,
    tabs: Seq<ClientShellTab>,
) -> Seq<(int, Rect)> {
    row_hits(hits, tabs).map_values(
        |hit: (Rect, Seq<char>)| (place_of(tabs, hit.1)->0, hit.0),
    )
}

/// Which of the drawn tabs are the one at place `insert`.
pub open spec fn at_place(visible: Seq<(int, Rect)>, insert: int) -> Seq<bool> {
    visible.map_values(|tab: (int, Rect)| tab.0 == insert)
}

/// The column that marks where a dragged tab would go: before the tab now at
/// `insert`, or after the last one. Nothing marks a place among tabs that are
/// not drawn.
pub open spec fn drop_column(
    visible: Seq<(int, Rect)>,
    count: int,
    scroll_left: Rect,
    scroll_right: Rect,
    insert: int,
) -> Option<u16> {
    let here = first_set(at_place(visible, insert));
    if visible.len() == 0 {
        None
    } else if insert == 0 {
        if visible.first().0 == 0 {
            Some(visible.first().1.x)
        } else {
            Some(scroll_left.end())
        }
    } else if here is Some {
        Some(diff16(visible[here->0].1.x as int, 1))
    } else if insert >= count {
        if visible.last().0 + 1 >= count {
            Some(visible.last().1.end())
        } else {
            Some(diff16(scroll_right.x as int, 1))
        }
    } else {
        None
    }
}

fn find_tab(tabs: &[&ClientShellTab], id: &String) -> (place: Option<usize>)
    ensures
        index_of(place) == place_of(tab_values(tabs@), id@),
        place matches Some(p) ==> p < tabs.len(),
{
    let ghost flags = with_id(tab_values(tabs@), id@);
    let mut i: usize = 0;
    while i < tabs.len()
        invariant
            i <= tabs.len(),
            flags == with_id(tab_values(tabs@), id@),
            forall|j: int| 0 <= j < i ==> !flags[j],
        decreases tabs.len() - i,
    {
        if tabs[i].tab_id == *id {
            assert(is_first_set(flags, i as int));
            return Some(i);
        }
        i = i + 1;
    }
    None
}

/// The views of a list of placed tabs.
pub open spec fn placed_views(placed: Seq<(usize, Rect)>) -> Seq<(int, Rect)> {
    placed.map_values(|tab: (usize, Rect)| (tab.0 as int, tab.1))
}

fn visible_of(hits: &ShellHitMap, tabs: &[&ClientShellTab]) -> (visible: Vec<(usize, Rect)>)
    ensures
        placed_views(visible@) == visible_tabs(hits@.tabs, tab_values(tabs@)),
        forall|i: int| 0 <= i < visible.len() ==> (#[trigger] visible@[i]).0 < tabs.len(),
{
    let ghost all = hits@.tabs;
    let ghost row = tab_values(tabs@);
    let mut visible: Vec<(usize, Rect)> = Vec::new();
    let mut i: usize = 0;
    assert(placed_views(visible@) =~= visible_tabs(all.take(0), row)) by {
        reveal(Seq::filter);
    }
    while i < hits.tabs.len()
        invariant
            i <= hits.tabs.len(),
            all == hits@.tabs,
            row == tab_values(tabs@),
            placed_views(visible@) == visible_tabs(all.take(i as int), row),
            forall|k: int| 0 <= k < visible.len() ==> (#[trigger] visible@[k]).0 < tabs.len(),
        decreases hits.tabs.len() - i,
    {
        let hit = &hits.tabs[i];
        let ghost before = visible@;
        let ghost next = all.take(i + 1);
        assert(next.drop_last() =~= all.take(i as int));
        assert(next.last() == (hit.0, hit.1@));
        if let Some(place) = find_tab(tabs, &hit.1) {
            visible.push((place, hit.0));
            proof {
                reveal(Seq::filter);
                assert(row_hits(next, row) == row_hits(all.take(i as int), row).push(next.last()));
                assert(placed_views(visible@) =~= placed_views(before).push(
                    (place as int, hit.0),
                ));
                assert(place_of(row, hit.1@) == Some(place as int));
                assert(placed_views(visible@) =~= visible_tabs(next, row));
            }
        } else {
            proof {
                reveal(Seq::filter);
                assert(row_hits(next, row) == row_hits(all.take(i as int), row));
            }
        }
        i = i + 1;
    }
    assert(all.take(i as int) =~= all);
    visible
}

/// The column that marks where a dragged tab would be dropped.
pub fn tab_drop_indicator_x(
    hits: &ShellHitMap,
    tabs: &[&ClientShellTab],
    insert_index: usize,
) -> (column: Option<u16>)
    ensures
        column == drop_column(
            visible_tabs(hits@.tabs, tab_values(tabs@)),
            tabs.len() as int,
            hits.tab_scroll_left,
            hits.tab_scroll_right,
            insert_index as int,
        ),
{
    let visible = visible_of(hits, tabs);
    let ghost views = placed_views(visible@);
    if visible.len() == 0 {
        return None;
    }
    let first: (usize, Rect) = visible[0];
    let last: (usize, Rect) = visible[visible.len() - 1];
    assert(views.first() == (first.0 as int, first.1));
    assert(views.last() == (last.0 as int, last.1));
    if insert_index == 0 {
        return Some(
            if first.0 == 0 {
                first.1.x
            } else {
                hits.tab_scroll_left.right()
            },
        );
    }
    let ghost flags = at_place(views, insert_index as int);
    let mut i: usize = 0;
    while i < visible.len()
        invariant
            i <= visible.len(),
            views == placed_views(visible@),
            views == visible_tabs(hits@.tabs, tab_values(tabs@)),
            insert_index != 0,
            visible.len() > 0,
            flags == at_place(views, insert_index as int),
            forall|j: int| 0 <= j < i ==> !flags[j],
        decreases visible.len() - i,
    {
        if visible[i].0 == insert_index {
            assert(is_first_set(flags, i as int));
            return Some(visible[i].1.x.saturating_sub(1));
        }
        i = i + 1;
    }
    if insert_index >= tabs.len() {
        return Some(
            if last.0 + 1 >= tabs.len() {
                last.1.right()
            } else {
                hits.tab_scroll_right.x.saturating_sub(1)
            },
        );
    }
    None
}

} // verus!
