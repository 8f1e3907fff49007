//! What the keys do, said of what is seen before and after.

use vstd::prelude::*;

use crate::board::Board;
use crate::clock::Span;
use crate::columns::UserJobSection;
use crate::commands::action_words;
use crate::cursor::TableCursor;
use crate::dashboard::no_popups;
use crate::dashboard::AppState;
use crate::dashboard::Popups;
use crate::events::Effect;
use crate::events::InputMode;
use crate::events::KeyCode;
use crate::events::KeyPress;
use crate::events::Now;
use crate::filter::filter_of;
use crate::panel::PanelId;
use crate::text::lowercase;
use crate::text::words;

verus! {

/// A key that is pressed.
pub open spec fn press(code: KeyCode) -> KeyPress {
    KeyPress { code, released: false, control: false }
}

/// Whether nothing lies over the panels and nothing is being typed.
pub open spec fn bare(state: AppState) -> bool {
    state.popups == no_popups() && state.typing.mode == InputMode::Normal
}

/// Whether a row of a table of `len` rows is selected that lies `delta` rows from another, as far as
/// the table goes.
pub open spec fn lies(before: TableCursor, after: TableCursor, len: int, delta: int) -> bool {
    match (before.selected, after.selected) {
        (Some(i), Some(j)) => i < len ==> {
            &&& 0 <= i + delta < len ==> j == i + delta
            &&& i + delta < 0 ==> j == 0
            &&& i + delta >= len ==> j == len - 1
        },
        (Some(_), None) => len <= 0,
        _ => true,
    }
}

/// A job action that is asked for and confirmed is run on that job: the action is that of the key,
/// and the program that runs is `scancel`, or `scontrol` with the name of the action.
pub proof fn law_action_of_key(
    pre: AppState,
    asked: AppState,
    post: AppState,
    code: KeyCode,
    now: Now,
    effect: Effect,
    later: Effect,
)
    requires
        pre.popups == (Popups { job: pre.popups.job, ..no_popups() }),
        pre.popups.job is Some,
        pre.typing.mode == InputMode::Normal,
        pre.pressed(asked, press(code), now, effect),
        asked.pressed(post, press(KeyCode::Char('y')), now, later),
        code == KeyCode::Char('c') || code == KeyCode::Char('h') || code == KeyCode::Char('u') || code
            == KeyCode::Char('r'),
    ensures
        effect is Nothing,
        later matches Effect::RunAction(pending) && {
            let (program, args) = action_words(pending.action, pending.job_id@);
            let id = pre.popups.job->0@;
            &&& pending.job_id@ == id
            &&& code == KeyCode::Char('c') ==> program == "scancel"@ && args == seq![id]
            &&& code == KeyCode::Char('h') ==> program == "scontrol"@ && args == seq!["hold"@, id]
            &&& code == KeyCode::Char('u') ==> program == "scontrol"@ && args == seq!["release"@, id]
            &&& code == KeyCode::Char('r') ==> program == "scontrol"@ && args == seq!["requeue"@, id]
        },
        post.popups == no_popups(),
{
}

/// A pending action is dropped by `n` and by escape, without being run.
pub proof fn law_action_is_dropped(pre: AppState, post: AppState, code: KeyCode, now: Now, effect: Effect)
    requires
        pre.popups.action is Some,
        pre.pressed(post, press(code), now, effect),
        code == KeyCode::Char('n') || code == KeyCode::Esc,
    ensures
        effect is Nothing,
        post.popups.action is None,
        post.popups.job == pre.popups.job,
{
}

/// What ends the dashboard and refreshes it, over the panels.
pub proof fn law_quit_and_refresh(pre: AppState, post: AppState, code: KeyCode, now: Now, effect: Effect)
    requires
        bare(pre),
        pre.pressed(post, press(code), now, effect),
    ensures
        effect is Quit <==> code == KeyCode::Char('q'),
        effect is Refresh <==> code == KeyCode::Char('r'),
        !(effect is RunAction),
        effect is StartScan ==> code == KeyCode::Enter && pre.board.focus == PanelId::Disks,
{
    reveal(AppState::command_given);
}

/// The keys that move the focus: a digit to its panel, where that is shown.
pub proof fn law_digits_focus_panels(pre: AppState, post: AppState, code: KeyCode, now: Now, effect: Effect)
    requires
        bare(pre),
        pre.pressed(post, press(code), now, effect),
    ensures
        code == KeyCode::Char('1') && pre.board.panels.jobs.visible ==> post.board.focus == PanelId::Jobs,
        code == KeyCode::Char('2') && pre.board.panels.nodes.visible ==> post.board.focus == PanelId::Nodes,
        code == KeyCode::Char('3') && pre.board.panels.gpus.visible ==> post.board.focus == PanelId::Gpus,
        code == KeyCode::Char('4') && pre.board.panels.summary.visible ==> post.board.focus
            == PanelId::Summary,
        code == KeyCode::Char('5') && pre.board.panels.disks.visible ==> post.board.focus == PanelId::Disks,
        (code == KeyCode::Char('1') || code == KeyCode::Char('2') || code == KeyCode::Char('3') || code
            == KeyCode::Char('4') || code == KeyCode::Char('5')) ==> post.board.panels == pre.board.panels
            && post.cursors == pre.cursors && post.sorting == pre.sorting && post.popups == pre.popups,
{
    reveal(AppState::command_given);
    reveal(AppState::panel_key);
}

/// The keys that move on to another panel, where all are shown: forward in their order, and back.
pub proof fn law_tab_moves_focus(pre: AppState, post: AppState, code: KeyCode, now: Now, effect: Effect)
    requires
        bare(pre),
        pre.pressed(post, press(code), now, effect),
        forall|p: PanelId| #[trigger] pre.board.panels.at(p).visible,
    ensures
        code == KeyCode::Tab ==> post.board.focus == match pre.board.focus {
            PanelId::Jobs => PanelId::Nodes,
            PanelId::Nodes => PanelId::Gpus,
            PanelId::Gpus => PanelId::Disks,
            PanelId::Disks => PanelId::Summary,
            PanelId::Summary => PanelId::Jobs,
        },
        code == KeyCode::BackTab ==> pre.board.focus == match post.board.focus {
            PanelId::Jobs => PanelId::Nodes,
            PanelId::Nodes => PanelId::Gpus,
            PanelId::Gpus => PanelId::Disks,
            PanelId::Disks => PanelId::Summary,
            PanelId::Summary => PanelId::Jobs,
        },
{
    reveal(AppState::command_given);
    reveal(AppState::panel_key);
    reveal_with_fuel(Board::sought, 2);
    assert(pre.board.panels.at(PanelId::Jobs).visible);
    assert(pre.board.panels.at(PanelId::Nodes).visible);
    assert(pre.board.panels.at(PanelId::Gpus).visible);
    assert(pre.board.panels.at(PanelId::Disks).visible);
    assert(pre.board.panels.at(PanelId::Summary).visible);
}

/// The keys that move the selection of the focused panel by one row, down and up.
pub proof fn law_arrows_move_selection(pre: AppState, post: AppState, code: KeyCode, now: Now, effect: Effect)
    requires
        bare(pre),
        pre.pressed(post, press(code), now, effect),
        pre.row_count(pre.board.focus) <= usize::MAX,
    ensures
        code == KeyCode::Down || code == KeyCode::Char('j') ==> lies(
            pre.cursors.panels.at(pre.board.focus),
            post.cursors.panels.at(pre.board.focus),
            pre.row_count(pre.board.focus) as int,
            1,
        ),
        code == KeyCode::Up || code == KeyCode::Char('k') ==> lies(
            pre.cursors.panels.at(pre.board.focus),
            post.cursors.panels.at(pre.board.focus),
            pre.row_count(pre.board.focus) as int,
            -1,
        ),
        (code == KeyCode::Down || code == KeyCode::Char('j') || code == KeyCode::Up || code == KeyCode::Char(
            'k',
        )) ==> post.board == pre.board && post.sorting == pre.sorting && forall|p: PanelId|
            p != pre.board.focus ==> #[trigger] post.cursors.panels.at(p) == pre.cursors.panels.at(p),
{
    reveal(AppState::command_given);
    reveal(AppState::panel_key);
}

/// The keys that sort the focused panel: one turns its direction, one takes another column, and both
/// go back to the first row and leave the other tables as they are.
pub proof fn law_sort_keys(pre: AppState, post: AppState, code: KeyCode, now: Now, effect: Effect)
    requires
        bare(pre),
        pre.pressed(post, press(code), now, effect),
    ensures
        code == KeyCode::Char('d') ==> {
            &&& post.sorting.columns == pre.sorting.columns
            &&& forall|p: PanelId|
                (#[trigger] post.sorting.directions.at(p) != pre.sorting.directions.at(p)) == (p
                    == pre.board.focus)
        },
        code == KeyCode::Char('s') ==> {
            &&& post.sorting.directions == pre.sorting.directions
            &&& (post.sorting.columns.jobs != pre.sorting.columns.jobs) == (pre.board.focus == PanelId::Jobs)
            &&& (post.sorting.columns.nodes != pre.sorting.columns.nodes) == (pre.board.focus
                == PanelId::Nodes)
            &&& (post.sorting.columns.gpus != pre.sorting.columns.gpus) == (pre.board.focus == PanelId::Gpus)
            &&& (post.sorting.columns.disks != pre.sorting.columns.disks) == (pre.board.focus
                == PanelId::Disks)
            &&& post.sorting.columns.user_jobs == pre.sorting.columns.user_jobs
            &&& post.sorting.columns.usage == pre.sorting.columns.usage
        },
        code == KeyCode::Char('d') || code == KeyCode::Char('s') ==> {
            &&& post.cursors.panels.at(pre.board.focus) == (TableCursor { offset: 0, selected: Some(0) })
            &&& post.board == pre.board
        },
{
    reveal(AppState::command_given);
    reveal(AppState::panel_key);
}

/// The keys that show, hide and resize panels.
#[verifier::rlimit(40)]
pub proof fn law_layout_keys(pre: AppState, post: AppState, code: KeyCode, now: Now, effect: Effect)
    requires
        bare(pre),
        pre.wf(),
        pre.pressed(post, press(code), now, effect),
    ensures
        code == KeyCode::Char('x') && (exists|p: PanelId|
            p != pre.board.focus && #[trigger] pre.board.panels.at(p).visible) ==> {
            &&& forall|p: PanelId|
                #[trigger] post.board.panels.at(p).visible == (pre.board.panels.at(p).visible && p
                    != pre.board.focus)
            &&& post.board.panels.at(post.board.focus).visible
        },
        code == KeyCode::Char('x') && (forall|p: PanelId|
            p != pre.board.focus ==> !#[trigger] pre.board.panels.at(p).visible) ==> post.board == pre.board,
        code == KeyCode::Char('v') && (exists|p: PanelId| !#[trigger] pre.board.panels.at(p).visible) ==> {
            &&& !pre.board.panels.at(post.board.focus).visible
            &&& forall|p: PanelId|
                #[trigger] post.board.panels.at(p).visible == (pre.board.panels.at(p).visible || p
                    == post.board.focus)
        },
        code == KeyCode::Char('[') ==> post.board.left_percent == if pre.board.left_percent < 20 {
            15
        } else {
            pre.board.left_percent - 5
        },
        code == KeyCode::Char(']') ==> post.board.left_percent == if pre.board.left_percent > 80 {
            85
        } else {
            pre.board.left_percent + 5
        },
        code == KeyCode::Char('{') ==> post.board.top_percent == if pre.board.top_percent < 20 {
            15
        } else {
            pre.board.top_percent - 5
        },
        code == KeyCode::Char('}') ==> post.board.top_percent == if pre.board.top_percent > 80 {
            85
        } else {
            pre.board.top_percent + 5
        },
        code == KeyCode::Char('[') || code == KeyCode::Char(']') ==> post.board.top_percent
            == pre.board.top_percent,
        code == KeyCode::Char('{') || code == KeyCode::Char('}') ==> post.board.left_percent
            == pre.board.left_percent,
{
    reveal(AppState::command_given);
    reveal(AppState::panel_key);
    let b = pre.board;
    assert(b.panels.at(PanelId::Jobs) == b.panels.jobs);
    assert(b.panels.at(PanelId::Nodes) == b.panels.nodes);
    assert(b.panels.at(PanelId::Gpus) == b.panels.gpus);
    assert(b.panels.at(PanelId::Disks) == b.panels.disks);
    assert(b.panels.at(PanelId::Summary) == b.panels.summary);
    if code == KeyCode::Char('x') {
        reveal_with_fuel(Board::sought, 6);
        if b.shown_count() > 1 {
            let rest = b.without_focused();
            assert(post.board.panels == rest.panels);
            assert(rest.shown_count() >= 1);
            assert(rest.panels.at(PanelId::Jobs) == rest.panels.jobs);
            assert(rest.panels.at(PanelId::Nodes) == rest.panels.nodes);
            assert(rest.panels.at(PanelId::Gpus) == rest.panels.gpus);
            assert(rest.panels.at(PanelId::Disks) == rest.panels.disks);
            assert(rest.panels.at(PanelId::Summary) == rest.panels.summary);
            assert(rest.shows(rest.after_focus()));
        }
    }
}

/// The keys that open the help, the theme and the input.
pub proof fn law_help_theme_and_input_keys(
    pre: AppState,
    post: AppState,
    code: KeyCode,
    now: Now,
    effect: Effect,
)
    requires
        bare(pre),
        pre.pressed(post, press(code), now, effect),
    ensures
        post.popups.help <==> code == KeyCode::Char('?'),
        (post.skin.name != pre.skin.name) == (code == KeyCode::Char('t')),
        post.typing.mode == (match code {
            KeyCode::Char('/') => InputMode::Search,
            KeyCode::Char('f') => InputMode::Filter,
            _ => InputMode::Normal,
        }),
        code == KeyCode::Char('f') ==> post.typing.input@.len() == 0,
        code == KeyCode::Char('/') ==> post.typing.input@ == pre.board.panels.at(
            pre.board.focus,
        ).filter@.query,
{
    reveal(AppState::command_given);
    reveal(AppState::panel_key);
}

/// The help is closed by `?` and by escape, and by no other key.
pub proof fn law_help_is_closed(pre: AppState, post: AppState, code: KeyCode, now: Now, effect: Effect)
    requires
        pre.popups.help,
        pre.popups.action is None,
        pre.pressed(post, press(code), now, effect),
    ensures
        effect is Nothing,
        post.popups.help <==> !(code == KeyCode::Char('?') || code == KeyCode::Esc),
{
}

/// Typing: a character is put at the end, backspace takes the last one away, escape leaves every
/// filter as it was, and enter sets the filter of the focused panel and of no other. A search sets
/// what is searched for and keeps the keys; a filter sets all.
pub proof fn law_typing(pre: AppState, post: AppState, code: KeyCode, now: Now, effect: Effect)
    requires
        pre.popups.action is None,
        !pre.popups.help,
        pre.typing.mode != InputMode::Normal,
        pre.pressed(post, press(code), now, effect),
    ensures
        effect is Nothing,
        code matches KeyCode::Char(c) ==> post.typing.input@ == pre.typing.input@ + seq![c]
            && post.typing.mode == pre.typing.mode && post.board == pre.board,
        code == KeyCode::Backspace && pre.typing.input@.len() > 0 ==> pre.typing.input@ == post.typing.input@
            + seq![pre.typing.input@.last()],
        code == KeyCode::Esc ==> post.board == pre.board && post.typing.mode == InputMode::Normal,
        code == KeyCode::Enter ==> {
            let before = pre.board.panels.at(pre.board.focus).filter@;
            let after = post.board.panels.at(pre.board.focus).filter@;
            &&& post.typing.mode == InputMode::Normal
            &&& pre.typing.mode == InputMode::Filter ==> after == filter_of(words(pre.typing.input@))
            &&& pre.typing.mode == InputMode::Search ==> {
                &&& after.query == lowercase(pre.typing.input@)
                &&& after.owner == before.owner
                &&& after.state == before.state
                &&& after.partition == before.partition
                &&& after.gpu_type == before.gpu_type
                &&& after.node_state == before.node_state
            }
            &&& forall|p: PanelId|
                p != pre.board.focus ==> #[trigger] post.board.panels.at(p) == pre.board.panels.at(p)
        },
{
    reveal(AppState::typed);
    if code == KeyCode::Backspace && pre.typing.input@.len() > 0 {
        assert(pre.typing.input@ =~= pre.typing.input@.drop_last() + seq![pre.typing.input@.last()]);
    }
    if let KeyCode::Char(c) = code {
        assert(pre.typing.input@.push(c) =~= pre.typing.input@ + seq![c]);
    }
}

/// Whether the popup of a user is on top.
pub open spec fn user_on_top(state: AppState) -> bool {
    &&& state.popups.user is Some
    &&& state.popups.action is None
    &&& !state.popups.help
    &&& state.popups.node is None
    &&& state.popups.gpu is None
    &&& state.typing.mode == InputMode::Normal
}

/// In the popup of a user, tab goes to the other section, escape and `q` close it, and the arrows and
/// pages move the selection of the section with the focus.
#[verifier::rlimit(40)]
pub proof fn law_user_popup_keys(pre: AppState, post: AppState, code: KeyCode, now: Now, effect: Effect)
    requires
        user_on_top(pre),
        pre.pressed(post, press(code), now, effect),
        pre.active_jobs() <= usize::MAX,
    ensures
        effect is Nothing,
        post.popups.user is None <==> code == KeyCode::Esc || code == KeyCode::Char('q'),
        post.cursors.section != pre.cursors.section <==> code == KeyCode::Tab || code == KeyCode::BackTab,
        post.sorting.user_direction != pre.sorting.user_direction <==> code == KeyCode::Char('d'),
        post.sorting.columns.user_jobs != pre.sorting.columns.user_jobs <==> code == KeyCode::Char('s'),
        ({
            let (before, after) = match pre.cursors.section {
                UserJobSection::Running => (pre.cursors.running, post.cursors.running),
                UserJobSection::Pending => (pre.cursors.pending, post.cursors.pending),
            };
            let len = pre.active_jobs() as int;
            &&& code == KeyCode::Down || code == KeyCode::Char('j') ==> lies(before, after, len, 1)
            &&& code == KeyCode::Up || code == KeyCode::Char('k') ==> lies(before, after, len, -1)
            &&& code == KeyCode::PageDown ==> lies(before, after, len, 10)
            &&& code == KeyCode::PageUp ==> lies(before, after, len, -10)
            &&& code == KeyCode::Home && len > 0 ==> after.selected == Some(0usize)
            &&& code == KeyCode::End && len > 0 ==> after.selected == Some((len - 1) as usize)
        }),
{
    reveal(AppState::user_popup_key);
}

/// Whether the popup of a disk is on top.
pub open spec fn disk_on_top(state: AppState) -> bool {
    &&& state.popups.disk is Some
    &&& state.popups.user is None
    &&& state.popups.action is None
    &&& !state.popups.help
    &&& state.popups.node is None
    &&& state.popups.gpu is None
    &&& state.typing.mode == InputMode::Normal
}

/// Whether an effect starts a scan of a disk for a user, with a time limit.
pub open spec fn starts(effect: Effect, mount: Seq<char>, user: Seq<char>, limit: Option<Span>) -> bool {
    effect matches Effect::StartScan { key, timeout, .. } && key.mount@ == mount && key.user@ == user && timeout
        == limit
}

/// In the popup of a disk, `u` and `r` scan it again with the time limit of the settings and `n`
/// without one, where no scan of it runs; `n` also takes the place of a scan with a time limit. Escape
/// and `q` close the popup, and the arrows and pages move the selection.
#[verifier::rlimit(40)]
pub proof fn law_disk_popup_keys(pre: AppState, post: AppState, code: KeyCode, now: Now, effect: Effect)
    requires
        disk_on_top(pre),
        pre.pressed(post, press(code), now, effect),
        pre.active_usage().len() <= usize::MAX,
    ensures
        ({
            let key = pre.popups.disk->0;
            let running = pre.book.scans@.contains_key(key@);
            let limit = pre.book.scans@[key@].timeout;
            &&& (code == KeyCode::Char('u') || code == KeyCode::Char('r')) && !running ==> starts(
                effect,
                key.mount@,
                key.user@,
                pre.setup.disk_usage_timeout,
            )
            &&& (code == KeyCode::Char('u') || code == KeyCode::Char('r')) && running ==> effect is Nothing
                && post.book == pre.book
            &&& code == KeyCode::Char('n') && (!running || limit is Some) ==> starts(
                effect,
                key.mount@,
                key.user@,
                None,
            )
            &&& code == KeyCode::Char('n') && running && limit is Some ==> effect->replaces == Some(
                pre.book.scans@[key@].id,
            )
            &&& code == KeyCode::Char('n') && running && limit is None ==> effect is Nothing && post.book
                == pre.book
        }),
        effect is StartScan ==> code == KeyCode::Char('u') || code == KeyCode::Char('r') || code
            == KeyCode::Char('n'),
        post.popups.disk is None <==> code == KeyCode::Esc || code == KeyCode::Char('q'),
        post.sorting.usage_direction != pre.sorting.usage_direction <==> code == KeyCode::Char('d'),
        post.sorting.columns.usage != pre.sorting.columns.usage <==> code == KeyCode::Char('s'),
        ({
            let len = pre.active_usage().len() as int;
            let (before, after) = (pre.cursors.usage, post.cursors.usage);
            &&& code == KeyCode::Down || code == KeyCode::Char('j') ==> lies(before, after, len, 1)
            &&& code == KeyCode::Up || code == KeyCode::Char('k') ==> lies(before, after, len, -1)
            &&& code == KeyCode::PageDown ==> lies(before, after, len, 10)
            &&& code == KeyCode::PageUp ==> lies(before, after, len, -10)
            &&& code == KeyCode::Home ==> after.selected == Some(0usize)
            &&& code == KeyCode::End && len > 0 ==> after.selected == Some((len - 1) as usize)
        }),
{
    reveal(AppState::disk_popup_key);
}

/// Enter opens what is selected in the focused panel, and nothing else: the details of a job, a node
/// or a type of GPU.
pub proof fn law_enter_opens_details(pre: AppState, post: AppState, now: Now, effect: Effect)
    requires
        bare(pre),
        pre.pressed(post, press(KeyCode::Enter), now, effect),
    ensures
        post.popups.job is Some ==> pre.board.focus == PanelId::Jobs,
        post.popups.node is Some ==> pre.board.focus == PanelId::Nodes,
        post.popups.gpu is Some ==> pre.board.focus == PanelId::Gpus,
        post.popups.user is Some ==> pre.board.focus == PanelId::Summary,
        post.popups.disk is Some ==> pre.board.focus == PanelId::Disks,
        !post.popups.help && post.popups.action is None,
        post.board == pre.board,
        pre.board.focus == PanelId::Disks ==> (effect matches Effect::StartScan { key, timeout, .. } ==> timeout
            == pre.setup.disk_usage_timeout && !pre.book.cache@.contains_key(key@)
            && !pre.book.scans@.contains_key(key@)),
{
    reveal(AppState::command_given);
}

} // verus!
