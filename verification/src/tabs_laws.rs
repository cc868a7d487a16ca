//! What holds of every row of tabs: which tabs it has, under which names, and
//! where a dragged one would go.

use vstd::prelude::*;

use crate::model::{ClientShellSnapshot, ClientShellTab, ShellHitMap, MIN_TAB_WIDTH};
use crate::rect::Rect;
use crate::strip::index_of;
use crate::tabs::{
    asked_widths, at_place, drop_column, first_set, focused_place, in_focused_workspace,
    is_first_set, name_cells, place_of, placed_views, row_hits, row_tabs, shown_name, tab_values,
    visible_tabs, with_id,
};
use crate::text::cells;

verus! {

/// A zoomed tab is shown under its label with a mark behind it, and any other one
/// under its label. Nothing else of a tab matters for its name.
pub proof fn lemma_zoomed_tabs_are_marked(tab: ClientShellTab, other: ClientShellTab)
    ensures
        ({
            let name = shown_name(tab);
            let label = tab.label@;
            &&& tab.zoomed ==> {
                &&& name.len() == label.len() + 2
                &&& name.take(label.len() as int) == label
                &&& name[label.len() as int] == ' '
                &&& name[label.len() as int + 1] == 'Z'
            }
            &&& !tab.zoomed ==> name == label
            &&& label == other.label@ && tab.zoomed == other.zoomed ==> name == shown_name(other)
        }),
{
    reveal_strlit(" Z");
    assert(tab.zoomed ==> shown_name(tab).take(tab.label@.len() as int) =~= tab.label@);
}

/// A row without tabs has none, and one more tab is added to the end of the row
/// exactly if it belongs to the focused workspace. Nothing else of a snapshot
/// matters for the tabs of the row.
pub proof fn lemma_row_holds_the_focused_workspace(
    before: ClientShellSnapshot,
    after: ClientShellSnapshot,
    tab: ClientShellTab,
)
    requires
        after.tabs@ == before.tabs@.push(tab),
        match (before.focused_workspace_id, after.focused_workspace_id) {
            (Some(id), Some(same)) => id@ == same@,
            (None, None) => true,
            _ => false,
        },
    ensures
        before.tabs@.len() == 0 ==> row_tabs(before).len() == 0,
        ({
            let belongs = match after.focused_workspace_id {
                Some(id) => tab.workspace_id@ == id@,
                None => false,
            };
            &&& belongs ==> row_tabs(after) == row_tabs(before).push(tab)
            &&& !belongs ==> row_tabs(after) == row_tabs(before)
        }),
{
    reveal(Seq::filter);
    let old = |tab: ClientShellTab| in_focused_workspace(before, tab);
    let new = |tab: ClientShellTab| in_focused_workspace(after, tab);
    assert(old =~= new);
    assert(after.tabs@.drop_last() =~= before.tabs@);
}

proof fn lemma_first_set_exists(flags: Seq<bool>, i: int) -> (first: int)
    requires
        0 <= i < flags.len(),
        flags[i],
    ensures
        is_first_set(flags, first),
    decreases i,
{
    if exists|j: int| 0 <= j < i && flags[j] {
        let j = choose|j: int| 0 <= j < i && flags[j];
        lemma_first_set_exists(flags, j)
    } else {
        i
    }
}

proof fn lemma_first_set(flags: Seq<bool>)
    ensures
        match first_set(flags) {
            Some(first) => 0 <= first < flags.len() && flags[first] && forall|i: int|
                0 <= i < first ==> !flags[i],
            None => forall|i: int| 0 <= i < flags.len() ==> !flags[i],
        },
{
    if first_set(flags) is None {
        assert forall|i: int| 0 <= i < flags.len() implies !flags[i] by {
            if flags[i] {
                let first = lemma_first_set_exists(flags, i);
                assert(is_first_set(flags, first));
            }
        }
    } else {
        let first = choose|i: int| is_first_set(flags, i);
        assert(is_first_set(flags, first));
    }
}

/// The focused tab of a row is the first one that says so, and there is none only
/// where no tab does.
pub proof fn lemma_first_focused_tab(tabs: Seq<ClientShellTab>)
    ensures
        match focused_place(tabs) {
            Some(first) => 0 <= first < tabs.len() && tabs[first].focused && forall|i: int|
                0 <= i < first ==> !(#[trigger] tabs[i]).focused,
            None => forall|i: int| 0 <= i < tabs.len() ==> !(#[trigger] tabs[i]).focused,
        },
{
    let flags = tabs.map_values(|tab: ClientShellTab| tab.focused);
    lemma_first_set(flags);
    assert forall|i: int| 0 <= i < tabs.len() implies flags[i] == (#[trigger] tabs[i]).focused by {}
    if let Some(first) = focused_place(tabs) {
        assert forall|i: int| 0 <= i < first implies !(#[trigger] tabs[i]).focused by {
            assert(!flags[i]);
        }
    } else {
        assert forall|i: int| 0 <= i < tabs.len() implies !(#[trigger] tabs[i]).focused by {
            assert(!flags[i]);
        }
    }
}

/// Each tab asks for the cells of its name and two on either side, for no fewer
/// than a tab needs, and for no more than a coordinate holds.
pub proof fn lemma_tabs_ask_for_their_names(name_widths: Seq<u16>)
    ensures
        ({
            let asked = asked_widths(name_widths);
            &&& asked.len() == name_widths.len()
            &&& forall|i: int|
                0 <= i < asked.len() ==> {
                    let needed = name_widths[i] + 4;
                    &&& #[trigger] asked[i] >= MIN_TAB_WIDTH
                    &&& MIN_TAB_WIDTH < asked[i] < u16::MAX ==> asked[i] == needed
                    &&& asked[i] == MIN_TAB_WIDTH ==> needed <= MIN_TAB_WIDTH
                    &&& asked[i] == u16::MAX ==> needed >= u16::MAX
                }
        }),
{
}

/// The name of each tab is measured as it is shown.
pub proof fn lemma_names_are_measured(tabs: Seq<ClientShellTab>)
    ensures
        name_cells(tabs).len() == tabs.len(),
        forall|i: int|
            0 <= i < tabs.len() ==> {
                let name = if tabs[i].zoomed {
                    tabs[i].label@ + seq![' ', 'Z']
                } else {
                    tabs[i].label@
                };
                #[trigger] name_cells(tabs)[i] == cells(name)
            },
{
    reveal_strlit(" Z");
    assert(" Z"@ =~= seq![' ', 'Z']);
}

/// A tab is found under its identifier: the first one that has it, and none only
/// where no tab does.
pub proof fn lemma_tabs_are_found_by_identifier(tabs: Seq<ClientShellTab>, id: Seq<char>)
    ensures
        match place_of(tabs, id) {
            Some(first) => 0 <= first < tabs.len() && tabs[first].tab_id@ == id && forall|i: int|
                0 <= i < first ==> (#[trigger] tabs[i]).tab_id@ != id,
            None => forall|i: int| 0 <= i < tabs.len() ==> (#[trigger] tabs[i]).tab_id@ != id,
        },
{
    let flags = with_id(tabs, id);
    lemma_first_set(flags);
    if let Some(first) = place_of(tabs, id) {
        assert forall|i: int| 0 <= i < first implies (#[trigger] tabs[i]).tab_id@ != id by {
            assert(!flags[i]);
        }
    } else {
        assert forall|i: int| 0 <= i < tabs.len() implies (#[trigger] tabs[i]).tab_id@ != id by {
            assert(!flags[i]);
        }
    }
}

/// Without hits there are no drawn tabs, and one more hit is one more drawn tab
/// exactly if it is a tab of the row, at its place and with its cells.
pub proof fn lemma_hits_of_the_row_are_its_drawn_tabs(
    hits: Seq<(Rect, Seq<char>)>,
    hit: (Rect, Seq<char>),
    tabs: Seq<ClientShellTab>,
)
    ensures
        hits.len() == 0 ==> visible_tabs(hits, tabs).len() == 0,
        match place_of(tabs, hit.1) {
            Some(place) => visible_tabs(hits.push(hit), tabs) == visible_tabs(hits, tabs).push(
                (place, hit.0),
            ),
            None => visible_tabs(hits.push(hit), tabs) == visible_tabs(hits, tabs),
        },
{
    reveal(Seq::filter);
    assert(hits.push(hit).drop_last() =~= hits);
    assert(place_of(tabs, hit.1) is Some ==> row_hits(hits.push(hit), tabs) =~= row_hits(
        hits,
        tabs,
    ).push(hit));
    if let Some(place) = place_of(tabs, hit.1) {
        assert(visible_tabs(hits.push(hit), tabs) =~= visible_tabs(hits, tabs).push((place, hit.0)));
    }
}

/// A tab dropped at the start goes where the first tab begins, or next to the left
/// button if that tab is hidden. Nothing shows where no tab is drawn.
pub proof fn lemma_drop_at_the_start(
    visible: Seq<(int, Rect)>,
    count: int,
    scroll_left: Rect,
    scroll_right: Rect,
)
    ensures
        ({
            let column = drop_column(visible, count, scroll_left, scroll_right, 0);
            &&& visible.len() == 0 ==> column is None
            &&& visible.len() > 0 && visible[0].0 == 0 ==> column == Some(visible[0].1.x)
            &&& visible.len() > 0 && visible[0].0 != 0 ==> {
                &&& column is Some
                &&& column->0 <= scroll_left.x + scroll_left.width
                &&& column->0 < scroll_left.x + scroll_left.width ==> column->0 == u16::MAX
            }
        }),
{
}

/// A tab dropped elsewhere goes into the free cell before the drawn tab that is at
/// that place now.
pub proof fn lemma_drop_before_a_drawn_tab(
    visible: Seq<(int, Rect)>,
    count: int,
    scroll_left: Rect,
    scroll_right: Rect,
    insert: int,
    k: int,
)
    requires
        insert != 0,
        0 <= k < visible.len(),
        visible[k].0 == insert,
        forall|j: int| 0 <= j < k ==> (#[trigger] visible[j]).0 != insert,
    ensures
        ({
            let column = drop_column(visible, count, scroll_left, scroll_right, insert);
            &&& column is Some
            &&& visible[k].1.x > 0 ==> column->0 == visible[k].1.x - 1
            &&& visible[k].1.x == 0 ==> column->0 == 0
        }),
{
    let flags = at_place(visible, insert);
    assert forall|j: int| 0 <= j < k implies !flags[j] by {
        assert(visible[j].0 != insert);
    }
    assert(is_first_set(flags, k));
    lemma_first_set(flags);
    let first = first_set(flags)->0;
    if first < k {
        assert(visible[first].0 != insert);
    }
}

/// A tab dropped behind all tabs goes right after the last one, or next to the
/// right button if that tab is hidden. Nothing shows a place between tabs that are
/// not drawn.
pub proof fn lemma_drop_behind_the_tabs(
    visible: Seq<(int, Rect)>,
    count: int,
    scroll_left: Rect,
    scroll_right: Rect,
    insert: int,
)
    requires
        insert != 0,
        forall|j: int| 0 <= j < visible.len() ==> (#[trigger] visible[j]).0 != insert,
    ensures
        ({
            let column = drop_column(visible, count, scroll_left, scroll_right, insert);
            let last = visible.last();
            let hidden = last.0 + 1 < count;
            &&& visible.len() == 0 || insert < count ==> column is None
            &&& visible.len() > 0 && insert >= count ==> column is Some
            &&& visible.len() > 0 && insert >= count && !hidden ==> {
                &&& column->0 <= last.1.x + last.1.width
                &&& column->0 < last.1.x + last.1.width ==> column->0 == u16::MAX
            }
            &&& visible.len() > 0 && insert >= count && hidden ==> {
                &&& scroll_right.x > 0 ==> column->0 == scroll_right.x - 1
                &&& scroll_right.x == 0 ==> column->0 == 0
            }
        }),
{
    let flags = at_place(visible, insert);
    lemma_first_set(flags);
    if let Some(first) = first_set(flags) {
        assert(visible[first].0 != insert);
    }
}

/// A list of references stands for the tabs behind them, a list of placed tabs for
/// the same places, and a position for itself.
pub proof fn lemma_tabs_stand_for_themselves(
    tabs: Seq<&ClientShellTab>,
    placed: Seq<(usize, Rect)>,
    position: Option<usize>,
)
    ensures
        tab_values(tabs).len() == tabs.len(),
        forall|i: int| 0 <= i < tabs.len() ==> #[trigger] tab_values(tabs)[i] == *tabs[i],
        placed_views(placed).len() == placed.len(),
        forall|i: int|
            0 <= i < placed.len() ==> (#[trigger] placed_views(placed)[i]).0 == placed[i].0
                && placed_views(placed)[i].1 == placed[i].1,
        position is None <==> index_of(position) is None,
        position matches Some(p) ==> index_of(position) == Some(p as int),
{
}

/// A hit map stands for its own fields.
pub proof fn lemma_hit_map_stands_for_its_fields(hits: ShellHitMap)
    ensures
        hits@.tabs.len() == hits.tabs@.len(),
        forall|k: int|
            0 <= k < hits.tabs@.len() ==> (#[trigger] hits@.tabs[k]).0 == hits.tabs@[k].0
                && hits@.tabs[k].1 == hits.tabs@[k].1@,
        hits@.tab_scroll_left == hits.tab_scroll_left,
        hits@.tab_scroll_right == hits.tab_scroll_right,
        hits@.new_tab == hits.new_tab,
{
}

} // verus!
