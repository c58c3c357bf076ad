//! The `split` command: `split panel` opens a new panel.
use vstd::prelude::*;
use crate::chars::str_is;
use crate::state::{active_within, AppState, Panel};

verus! {

/// A new empty panel is added and the focus goes to the panel that was the
/// last one before it.
pub fn split_panel(app_state: &mut AppState)
    requires
        old(app_state).wf(),
    ensures
        final(app_state).wf(),
        final(app_state).panels@.len() == old(app_state).panels@.len() + 1,
        final(app_state).panels@.drop_last() == old(app_state).panels@,
        final(app_state).panels@.last().active_tab is None,
        final(app_state).panels@.last().tabs@.len() == 0,
        final(app_state).focused_panel == old(app_state).panels@.len() - 1,
        final(app_state).focused_view == old(app_state).focused_view,
        final(app_state).previous_focused_view == old(app_state).previous_focused_view,
        final(app_state).side_panel == old(app_state).side_panel,
{
    let len_panels = app_state.panels().len();
    app_state.push_panel(Panel::new());
    app_state.set_focused_panel(len_panels - 1);
    proof {
        assert(app_state.panels@.drop_last() =~= old(app_state).panels@);
        assert forall|p: int| 0 <= p < app_state.panels@.len() implies active_within(
            #[trigger] app_state.panels@[p].active_tab,
            app_state.panels@[p].tabs@.len() as int,
        ) by {
            if p < old(app_state).panels@.len() {
                assert(app_state.panels@[p] == old(app_state).panels@[p]);
            }
        }
    }
}

/// What `split` does with its arguments: with `panel`, `split_panel`; with
/// anything else, nothing.
pub fn split_command(app_state: &mut AppState, args: &str)
    requires
        old(app_state).wf(),
    ensures
        final(app_state).wf(),
        args@ == "panel"@ ==> final(app_state).panels@.len() == old(app_state).panels@.len() + 1
            && final(app_state).panels@.drop_last() == old(app_state).panels@
            && final(app_state).panels@.last().active_tab is None
            && final(app_state).panels@.last().tabs@.len() == 0
            && final(app_state).focused_panel == old(app_state).panels@.len() - 1,
        args@ != "panel"@ ==> final(app_state).panels@ == old(app_state).panels@
            && final(app_state).focused_panel == old(app_state).focused_panel,
        final(app_state).focused_view == old(app_state).focused_view,
        final(app_state).previous_focused_view == old(app_state).previous_focused_view,
        final(app_state).side_panel == old(app_state).side_panel,
{
    let panel: [char; 5] = ['p', 'a', 'n', 'e', 'l'];
    proof {
        reveal_strlit("panel");
        assert(panel@ =~= "panel"@);
    }
    if str_is(args, &panel) {
        split_panel(app_state);
    }
}

} // verus!
