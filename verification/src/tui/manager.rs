//! The decisions of the view manager: which view is active, where terminal
//! and channel events go, and what the event loop does after each event.
use vstd::prelude::*;
use crate::tui::event::{GenericEvent, ViewManagerEvent};
use crate::tui::keys::{Key, KeyPress};
use crate::tui::layout::Rect;
use crate::tui::view::{EventCaptured, ManagerAction};

verus! {

/// A view of the tree as the manager sees it: its identifier among its
/// siblings, its area, whether it keeps the focus for itself, and its
/// children.
#[derive(Debug)]
pub struct ViewNode {
    pub id: usize,
    pub area: Rect,
    pub capture_focus: bool,
    pub children: Vec<ViewNode>,
}

/// The first of `nodes` with identifier `id`.
pub open spec fn first_with_id(nodes: Seq<ViewNode>, id: usize) -> Option<int> {
    if exists|i: int| 0 <= i < nodes.len() && nodes[i].id == id {
        Some(
            choose|i: int|
                0 <= i < nodes.len() && nodes[i].id == id && forall|j: int|
                    0 <= j < i ==> nodes[j].id != id,
        )
    } else {
        None
    }
}

/// The places, level by level, of the views that the identifiers `ids`
/// name from `nodes` down, each the first child with its identifier; `None`
/// when `ids` is empty or one of them is missing.
pub open spec fn id_path(nodes: Seq<ViewNode>, ids: Seq<usize>) -> Option<Seq<usize>>
    decreases ids.len(),
{
    if ids.len() == 0 {
        None
    } else {
        match first_with_id(nodes, ids[0]) {
            None => None,
            Some(i) => if ids.len() == 1 {
                Some(seq![i as usize])
            } else {
                match id_path(nodes[i].children@, ids.drop_first()) {
                    None => None,
                    Some(rest) => Some(seq![i as usize] + rest),
                }
            },
        }
    }
}

proof fn lemma_first_with_id(nodes: Seq<ViewNode>, id: usize, k: int)
    requires
        0 <= k <= nodes.len(),
        forall|j: int| 0 <= j < k ==> nodes[j].id != id,
        k == nodes.len() || nodes[k].id == id,
    ensures
        first_with_id(nodes, id) == if k < nodes.len() {
            Some(k)
        } else {
            None::<int>
        },
{
    if k < nodes.len() {
        let c = choose|i: int|
            0 <= i < nodes.len() && nodes[i].id == id && forall|j: int|
                0 <= j < i ==> nodes[j].id != id;
        assert(0 <= c < nodes.len() && nodes[c].id == id && forall|j: int|
            0 <= j < c ==> nodes[j].id != id);
        if c < k {
        } else if c > k {
            assert(nodes[k].id != id);
        }
    }
}

/// The place of the first of `nodes` with identifier `id`.
fn find_id(nodes: &Vec<ViewNode>, id: usize) -> (r: Option<usize>)
    ensures
        match r {
            Some(i) => i < nodes@.len() && first_with_id(nodes@, id) == Some(i as int),
            None => first_with_id(nodes@, id) is None,
        },
{
    let mut i: usize = 0;
    while i < nodes.len()
        invariant
            i <= nodes@.len(),
            forall|j: int| 0 <= j < i ==> nodes@[j].id != id,
        decreases nodes@.len() - i,
    {
        if nodes[i].id == id {
            proof {
                lemma_first_with_id(nodes@, id, i as int);
            }
            return Some(i);
        }
        i = i + 1;
    }
    proof {
        lemma_first_with_id(nodes@, id, i as int);
    }
    None
}

/// The places of the views that `ids` name, from the top-level `views`
/// down, each the first child with its identifier; `None` when `ids` is
/// empty or names a view that is not there.
pub fn search_active_view_by_ids(views: &Vec<ViewNode>, ids: &[usize]) -> (r: Option<Vec<usize>>)
    ensures
        match r {
            Some(p) => id_path(views@, ids@) == Some(p@),
            None => id_path(views@, ids@) is None,
        },
    decreases ids@.len(),
{
    if ids.len() == 0 {
        return None;
    }
    match find_id(views, ids[0]) {
        None => None,
        Some(i) => {
            if ids.len() == 1 {
                let mut p: Vec<usize> = Vec::new();
                p.push(i);
                assert(p@ =~= seq![i]);
                return Some(p);
            }
            let (_, rest_ids) = ids.split_at(1);
            assert(rest_ids@ =~= ids@.drop_first());
            match search_active_view_by_ids(&views[i].children, rest_ids) {
                None => None,
                Some(rest) => {
                    let mut p: Vec<usize> = Vec::new();
                    p.push(i);
                    let mut k: usize = 0;
                    while k < rest.len()
                        invariant
                            k <= rest@.len(),
                            p@ == seq![i] + rest@.subrange(0, k as int),
                        decreases rest@.len() - k,
                    {
                        p.push(rest[k]);
                        k = k + 1;
                        assert(p@ =~= seq![i] + rest@.subrange(0, k as int));
                    }
                    assert(rest@.subrange(0, rest@.len() as int) =~= rest@);
                    Some(p)
                },
            }
        },
    }
}

/// The first of `nodes` whose area holds the cell at `column`, `row`.
pub open spec fn first_containing(nodes: Seq<ViewNode>, column: u16, row: u16) -> Option<int> {
    if exists|i: int| 0 <= i < nodes.len() && nodes[i].area.spec_contains(column, row) {
        Some(
            choose|i: int|
                0 <= i < nodes.len() && nodes[i].area.spec_contains(column, row) && forall|j: int|
                    0 <= j < i ==> !nodes[j].area.spec_contains(column, row),
        )
    } else {
        None
    }
}

/// The places of the views under the cell at `column`, `row`, from the
/// children of `node` down: at each level the first child whose area holds
/// the cell, until a view that keeps the focus or has no such child.
pub open spec fn focus_path(node: ViewNode, column: u16, row: u16) -> Seq<usize>
    decreases node,
{
    if node.capture_focus {
        Seq::empty()
    } else {
        match first_containing(node.children@, column, row) {
            None => Seq::empty(),
            Some(i) => if 0 <= i < node.children@.len() {
                seq![i as usize] + focus_path(node.children@[i], column, row)
            } else {
                Seq::empty()
            },
        }
    }
}

proof fn lemma_first_containing(nodes: Seq<ViewNode>, column: u16, row: u16, k: int)
    requires
        0 <= k <= nodes.len(),
        forall|j: int| 0 <= j < k ==> !nodes[j].area.spec_contains(column, row),
        k == nodes.len() || nodes[k].area.spec_contains(column, row),
    ensures
        first_containing(nodes, column, row) == if k < nodes.len() {
            Some(k)
        } else {
            None::<int>
        },
{
    if k < nodes.len() {
        let c = choose|i: int|
            0 <= i < nodes.len() && nodes[i].area.spec_contains(column, row) && forall|j: int|
                0 <= j < i ==> !nodes[j].area.spec_contains(column, row);
        assert(0 <= c < nodes.len() && nodes[c].area.spec_contains(column, row) && forall|j: int|
            0 <= j < c ==> !nodes[j].area.spec_contains(column, row));
        if c > k {
            assert(!nodes[k].area.spec_contains(column, row));
        }
    }
}

/// The places of the views under the cell at `column`, `row` below the
/// top-level view `node`: the views that a click there activates.
pub fn search_active_view(node: &ViewNode, column: u16, row: u16) -> (r: Vec<usize>)
    ensures
        r@ == focus_path(*node, column, row),
    decreases node,
{
    if node.capture_focus {
        return Vec::new();
    }
    let mut i: usize = 0;
    while i < node.children.len()
        invariant
            i <= node.children@.len(),
            !node.capture_focus,
            forall|j: int| 0 <= j < i ==> !node.children@[j].area.spec_contains(column, row),
        decreases node.children@.len() - i,
    {
        if node.children[i].area.contains(column, row) {
            proof {
                lemma_first_containing(node.children@, column, row, i as int);
            }
            let rest = search_active_view(&node.children[i], column, row);
            assert(rest@ == focus_path(node.children@[i as int], column, row));
            assert(!node.capture_focus);
            assert(first_containing(node.children@, column, row) == Some(i as int));
            assert(focus_path(*node, column, row) == seq![i] + focus_path(
                node.children@[i as int],
                column,
                row,
            ));
            let mut p: Vec<usize> = Vec::new();
            p.push(i);
            let mut k: usize = 0;
            while k < rest.len()
                invariant
                    k <= rest@.len(),
                    p@ == seq![i] + rest@.subrange(0, k as int),
                decreases rest@.len() - k,
            {
                p.push(rest[k]);
                k = k + 1;
                assert(p@ =~= seq![i] + rest@.subrange(0, k as int));
            }
            assert(rest@.subrange(0, rest@.len() as int) =~= rest@);
            return p;
        }
        i = i + 1;
    }
    proof {
        lemma_first_containing(node.children@, column, row, i as int);
    }
    Vec::new()
}

/// The top-level view after `idx` among `count`, the last wrapping to the
/// first.
pub fn next_top_level_view(idx: usize, count: usize) -> (r: usize)
    requires
        idx < count,
    ensures
        r == (idx + 1) % (count as int),
{
    if idx + 1 == count {
        proof {
            vstd::arithmetic::div_mod::lemma_mod_self_0(count as int);
        }
        0
    } else {
        proof {
            vstd::arithmetic::div_mod::lemma_small_mod((idx + 1) as nat, count as nat);
        }
        idx + 1
    }
}

/// An event read from the terminal, as the manager tells them apart.
#[derive(Debug, Clone, Copy, PartialEq, Eq, Structural)]
pub enum TerminalEvent {
    Resize(u16, u16),
    Mouse,
    Key(KeyPress),
    /// Focus changes, pastes.
    Other,
    /// Reading the terminal failed.
    Error,
    /// The terminal has no more events.
    Closed,
}

/// Where the manager sends a terminal event.
#[derive(Debug, Clone, Copy, PartialEq, Eq, Structural)]
pub enum TerminalRoute {
    /// Lay the views out again for the new size.
    Resize(u16, u16),
    /// Give the mouse event to the views.
    Mouse,
    /// Give the key to the views.
    Key(KeyPress),
    /// Show the next top-level view.
    SwitchView,
    /// Show the help dialog.
    ShowHelp,
    /// Nothing to hand on.
    Nothing,
}

/// How the manager handles a terminal event: escape closes; tab switches
/// the top-level view when no dialog is open; control and `h` opens the help
/// when there is one; other keys and mouse events go to the views; a resize
/// lays them out again and redraws (the size is already the new one, so no
/// further resize); anything else only redraws. Returns the route and the
/// action, whose flags the views' own action replaces for keys and mouse
/// events.
pub fn route_terminal_event(event: TerminalEvent, modal_open: bool, has_help: bool) -> (r: (
    TerminalRoute,
    ManagerAction,
))
    ensures
        r == match event {
            TerminalEvent::Resize(c, rows) => (
                TerminalRoute::Resize(c, rows),
                ManagerAction { redraw: true, resize: false, close: false },
            ),
            TerminalEvent::Mouse => (
                TerminalRoute::Mouse,
                ManagerAction { redraw: false, resize: false, close: false },
            ),
            TerminalEvent::Key(k) => if k.code == Key::Esc {
                (TerminalRoute::Nothing, ManagerAction { redraw: false, resize: false, close: true })
            } else if k.code == Key::Tab && !modal_open {
                (
                    TerminalRoute::SwitchView,
                    ManagerAction { redraw: true, resize: false, close: false },
                )
            } else if k.control && k.code == Key::Char('h') && has_help {
                (
                    TerminalRoute::ShowHelp,
                    ManagerAction { redraw: true, resize: false, close: false },
                )
            } else {
                (TerminalRoute::Key(k), ManagerAction { redraw: false, resize: false, close: false })
            },
            TerminalEvent::Other => (
                TerminalRoute::Nothing,
                ManagerAction { redraw: true, resize: false, close: false },
            ),
            TerminalEvent::Error | TerminalEvent::Closed => (
                TerminalRoute::Nothing,
                ManagerAction { redraw: false, resize: false, close: false },
            ),
        },
{
    let mut action = ManagerAction::new(false);
    let route = match event {
        TerminalEvent::Resize(columns, rows) => {
            action.redraw = true;
            action.resize = false;
            TerminalRoute::Resize(columns, rows)
        },
        TerminalEvent::Mouse => TerminalRoute::Mouse,
        TerminalEvent::Key(k) => match k.code {
            Key::Esc => {
                action.close = true;
                TerminalRoute::Nothing
            },
            _ => {
                let is_tab = match k.code {
                    Key::Tab => true,
                    _ => false,
                };
                let is_h = match k.code {
                    Key::Char(c) => c == 'h',
                    _ => false,
                };
                if is_tab && !modal_open {
                    action.redraw = true;
                    TerminalRoute::SwitchView
                } else if k.control && is_h && has_help {
                    action.redraw = true;
                    TerminalRoute::ShowHelp
                } else {
                    TerminalRoute::Key(k)
                }
            },
        },
        TerminalEvent::Other => {
            action.redraw = true;
            TerminalRoute::Nothing
        },
        TerminalEvent::Error | TerminalEvent::Closed => TerminalRoute::Nothing,
    };
    (route, action)
}

/// What a channel event asks of the manager besides its action.
#[derive(Debug, Clone, PartialEq, Eq)]
pub enum BroadcastEffect {
    Nothing,
    /// Keep this as the text to print on leaving.
    SetExit(Option<String>),
    /// Hand the application event to the views that listen.
    NotifyViews,
}

/// How the manager handles an event from the channel (`None` for a failed
/// receive): a resize or a redraw request sets that flag, an exit request
/// keeps its text and closes, an application event goes to the listening
/// views.
pub fn broadcast_action<P>(event: Option<&GenericEvent<P>>) -> (r: (ManagerAction, BroadcastEffect))
    ensures
        match event {
            Some(GenericEvent::ViewManagerEvent(ViewManagerEvent::Resize)) => r == (
            ManagerAction { redraw: false, resize: true, close: false },
            BroadcastEffect::Nothing),
            Some(GenericEvent::ViewManagerEvent(ViewManagerEvent::Redraw)) => r == (
            ManagerAction { redraw: true, resize: false, close: false },
            BroadcastEffect::Nothing),
            Some(GenericEvent::ViewManagerEvent(ViewManagerEvent::Exit(payload))) => {
                &&& r.0 == (ManagerAction { redraw: false, resize: false, close: true })
                &&& match r.1 {
                    BroadcastEffect::SetExit(kept) => match payload {
                        Some(t) => kept matches Some(k) && k@ == t@,
                        None => kept is None,
                    },
                    _ => false,
                }
            },
            Some(GenericEvent::ApplicationEvent(_)) => r == (
            ManagerAction { redraw: false, resize: false, close: false },
            BroadcastEffect::NotifyViews),
            None => r == (
            ManagerAction { redraw: false, resize: false, close: false },
            BroadcastEffect::Nothing),
        },
{
    let mut action = ManagerAction::new(false);
    let effect = match event {
        Some(GenericEvent::ViewManagerEvent(vme)) => match vme {
            ViewManagerEvent::Resize => {
                action.resize = true;
                BroadcastEffect::Nothing
            },
            ViewManagerEvent::Redraw => {
                action.redraw = true;
                BroadcastEffect::Nothing
            },
            ViewManagerEvent::Exit(payload) => {
                action.close = true;
                let kept = match payload {
                    Some(t) => Some(t.clone()),
                    None => None,
                };
                BroadcastEffect::SetExit(kept)
            },
        },
        Some(GenericEvent::ApplicationEvent(_)) => BroadcastEffect::NotifyViews,
        None => BroadcastEffect::Nothing,
    };
    (action, effect)
}

/// What the event loop does after an event.
#[derive(Debug, Clone, Copy, PartialEq, Eq, Structural)]
pub struct LoopStep {
    /// Close the topmost dialog.
    pub close_modal: bool,
    /// Lay the views out again for the terminal's size.
    pub resize: bool,
    /// Draw the views.
    pub draw: bool,
    /// Leave the loop.
    pub stop: bool,
}

/// The loop's step after an event that produced `action`.
pub open spec fn loop_step(action: ManagerAction, modal_open: bool) -> LoopStep {
    LoopStep {
        close_modal: action.close && modal_open,
        resize: action.resize,
        draw: action.redraw || action.resize || (action.close && modal_open),
        stop: action.close && !modal_open,
    }
}

/// The event loop's step after an event that produced `action`: a close
/// closes the topmost dialog when one is open, and then redraws, else ends
/// the loop; a resize lays the views out again and redraws.
pub fn after_event(action: ManagerAction, modal_open: bool) -> (r: LoopStep)
    ensures
        r == loop_step(action, modal_open),
        r.close_modal == (action.close && modal_open),
        r.stop == (action.close && !modal_open),
        r.resize == action.resize,
        r.draw == (action.redraw || action.resize || (action.close && modal_open)),
{
    let mut close = action.close;
    let mut redraw = action.redraw;
    let mut close_modal = false;
    if close && modal_open {
        close_modal = true;
        close = false;
        redraw = true;
    }
    if action.resize {
        redraw = true;
    }
    LoopStep { close_modal, resize: action.resize, draw: redraw, stop: close }
}

/// Whether the close callback of a dialog runs: the dialog closes and has
/// one.
pub fn runs_close_callback(action: ManagerAction, has_callback: bool) -> (r: bool)
    ensures
        r == (action.close && has_callback),
{
    action.close && has_callback
}

/// The action after a key on the topmost dialog: when its close callback
/// ran and returned `callback_action`, a redraw and a close, resizing as the
/// callback asked; else the dialog's own action.
pub fn modal_key_action(action: ManagerAction, callback_action: Option<ManagerAction>) -> (r:
    ManagerAction)
    ensures
        r == match callback_action {
            Some(c) => ManagerAction { redraw: true, resize: c.resize, close: true },
            None => action,
        },
{
    match callback_action {
        Some(c) => ManagerAction::new(true).with_close(true).with_resize(c.resize),
        None => action,
    }
}

/// One view of the active path, leaf first, has handled a key with
/// `captured` and `action`: the action is merged into `merged`, and when the
/// view captured the key, its own action is the answer.
pub fn key_handled(merged: &mut ManagerAction, captured: EventCaptured, action: ManagerAction) -> (r:
    Option<ManagerAction>)
    ensures
        *final(merged) == merged_action(*old(merged), action),
        final(merged).redraw == (old(merged).redraw || action.redraw),
        final(merged).resize == (old(merged).resize || action.resize),
        final(merged).close == (old(merged).close || action.close),
        r == if captured == EventCaptured::Yes {
            Some(action)
        } else {
            None::<ManagerAction>
        },
{
    merged.merge(&action);
    match captured {
        EventCaptured::Yes => Some(action),
        EventCaptured::No => None,
    }
}

/// An event as the loop sees it: the action its handling produced, how many
/// dialogs were open then, and the exit text it set (an exit request sets
/// one, `Some(None)` for none), if any.
pub ghost struct SeenEvent {
    pub action: ManagerAction,
    pub open_dialogs: nat,
    pub exit: Option<Option<Seq<char>>>,
}

/// The exit text after `e`, from `exit` before it.
pub open spec fn exit_after(e: SeenEvent, exit: Option<Seq<char>>) -> Option<Seq<char>> {
    match e.exit {
        Some(x) => x,
        None => exit,
    }
}

/// The loop over `events`, with `exit` kept so far: each step is
/// `loop_step`, so a close with a dialog open closes the topmost one and the
/// loop goes on, and a close with none ends it. The result is `Some` of the
/// text the loop returns when it ends on these events, `None` when it runs
/// on.
pub open spec fn loop_outcome(events: Seq<SeenEvent>, exit: Option<Seq<char>>) -> Option<Option<Seq<char>>>
    decreases events.len(),
{
    if events.len() == 0 {
        None
    } else {
        let e = events[0];
        let x = exit_after(e, exit);
        if loop_step(e.action, e.open_dialogs > 0).stop {
            Some(x)
        } else {
            loop_outcome(events.drop_first(), x)
        }
    }
}

/// The exit text after the first `n` events, from `exit`.
pub open spec fn exit_through(events: Seq<SeenEvent>, n: int, exit: Option<Seq<char>>) -> Option<Seq<char>>
    decreases n,
{
    if n <= 0 {
        exit
    } else {
        exit_after(events[n - 1], exit_through(events, n - 1, exit))
    }
}

/// The event ends the loop: a close with no dialog open.
pub open spec fn ends_loop(e: SeenEvent) -> bool {
    e.action.close && e.open_dialogs == 0
}

proof fn lemma_exit_through_shift(events: Seq<SeenEvent>, n: int, exit: Option<Seq<char>>)
    requires
        events.len() > 0,
        1 <= n <= events.len(),
    ensures
        exit_through(events, n, exit) == exit_through(
            events.drop_first(),
            n - 1,
            exit_after(events[0], exit),
        ),
    decreases n,
{
    let rest = events.drop_first();
    let x = exit_after(events[0], exit);
    assert(exit_through(events, 0, exit) == exit);
    assert(exit_through(rest, 0, x) == x);
    if n > 1 {
        lemma_exit_through_shift(events, n - 1, exit);
        assert(rest[n - 2] == events[n - 1]);
        assert(exit_through(rest, n - 1, x) == exit_after(rest[n - 2], exit_through(rest, n - 2, x)));
    }
}

proof fn lemma_outcome_at(events: Seq<SeenEvent>, exit: Option<Seq<char>>, i: int)
    requires
        0 <= i < events.len(),
        ends_loop(events[i]),
        forall|j: int| 0 <= j < i ==> !ends_loop(#[trigger] events[j]),
    ensures
        loop_outcome(events, exit) == Some(exit_through(events, i + 1, exit)),
    decreases i,
{
    let rest = events.drop_first();
    let x = exit_after(events[0], exit);
    lemma_exit_through_shift(events, i + 1, exit);
    if i == 0 {
        assert(exit_through(rest, 0, x) == x);
    } else {
        assert(!ends_loop(events[0]));
        assert(rest[i - 1] == events[i]);
        assert forall|j: int| 0 <= j < i - 1 implies !ends_loop(#[trigger] rest[j]) by {
            assert(rest[j] == events[j + 1]);
        }
        lemma_outcome_at(rest, x, i - 1);
    }
}

proof fn lemma_outcome_some(events: Seq<SeenEvent>, exit: Option<Seq<char>>)
    ensures
        loop_outcome(events, exit) is Some <==> exists|i: int|
            0 <= i < events.len() && #[trigger] ends_loop(events[i]),
    decreases events.len(),
{
    if events.len() > 0 {
        let rest = events.drop_first();
        let x = exit_after(events[0], exit);
        lemma_outcome_some(rest, x);
        if !ends_loop(events[0]) {
            if loop_outcome(rest, x) is Some {
                let k = choose|k: int| 0 <= k < rest.len() && #[trigger] ends_loop(rest[k]);
                assert(rest[k] == events[k + 1]);
                assert(ends_loop(events[k + 1]));
            }
            if exists|i: int| 0 <= i < events.len() && #[trigger] ends_loop(events[i]) {
                let i = choose|i: int| 0 <= i < events.len() && #[trigger] ends_loop(events[i]);
                assert(i > 0);
                assert(rest[i - 1] == events[i]);
                assert(ends_loop(rest[i - 1]));
            }
        } else {
            assert(ends_loop(events[0]));
        }
    }
}

/// The event loop ends exactly at the first close that finds no dialog
/// open, and returns the text of the last exit request up to it, or none;
/// a close with a dialog open only closes the topmost dialog and the loop
/// goes on.
pub proof fn law_loop_ends_at_first_close_without_dialog(
    events: Seq<SeenEvent>,
    exit: Option<Seq<char>>,
)
    ensures
        loop_outcome(events, exit) is Some <==> exists|i: int|
            0 <= i < events.len() && #[trigger] ends_loop(events[i]),
        forall|i: int|
            0 <= i < events.len() && #[trigger] ends_loop(events[i]) && (forall|j: int|
                0 <= j < i ==> !ends_loop(#[trigger] events[j])) ==> loop_outcome(events, exit)
                == Some(exit_through(events, i + 1, exit)),
        forall|i: int|
            #![trigger events[i]]
            0 <= i < events.len() && events[i].action.close && events[i].open_dialogs > 0 ==> {
                let step = loop_step(events[i].action, events[i].open_dialogs > 0);
                step.close_modal && !step.stop
            },
{
    lemma_outcome_some(events, exit);
    assert forall|i: int|
        0 <= i < events.len() && #[trigger] ends_loop(events[i]) && (forall|j: int|
            0 <= j < i ==> !ends_loop(#[trigger] events[j])) implies loop_outcome(events, exit)
            == Some(exit_through(events, i + 1, exit)) by {
        lemma_outcome_at(events, exit, i);
    }
}

/// Two actions merged: each flag set in either.
pub open spec fn merged_action(a: ManagerAction, b: ManagerAction) -> ManagerAction {
    ManagerAction { redraw: a.redraw || b.redraw, resize: a.resize || b.resize, close: a.close || b.close }
}

/// The answer to a key handed along the active path, leaf first, as
/// `key_handled` decides at each view: `answers` are what the views answered,
/// `merged` the merge so far; the first view that captures the key gives
/// the answer, and when none does the answer is the merge of all.
pub open spec fn key_answer(answers: Seq<(EventCaptured, ManagerAction)>, merged: ManagerAction) -> ManagerAction
    decreases answers.len(),
{
    if answers.len() == 0 {
        merged
    } else if answers[0].0 == EventCaptured::Yes {
        answers[0].1
    } else {
        key_answer(answers.drop_first(), merged_action(merged, answers[0].1))
    }
}

/// The merge of `merged` with the actions of all `answers`.
pub open spec fn merge_all(answers: Seq<(EventCaptured, ManagerAction)>, merged: ManagerAction) -> ManagerAction
    decreases answers.len(),
{
    if answers.len() == 0 {
        merged
    } else {
        merge_all(answers.drop_first(), merged_action(merged, answers[0].1))
    }
}

proof fn lemma_first_capture(answers: Seq<(EventCaptured, ManagerAction)>, merged: ManagerAction, i: int)
    requires
        0 <= i < answers.len(),
        answers[i].0 == EventCaptured::Yes,
        forall|j: int| 0 <= j < i ==> (#[trigger] answers[j]).0 == EventCaptured::No,
    ensures
        key_answer(answers, merged) == answers[i].1,
    decreases i,
{
    if i > 0 {
        let rest = answers.drop_first();
        assert(answers[0].0 == EventCaptured::No);
        assert(rest[i - 1] == answers[i]);
        assert forall|j: int| 0 <= j < i - 1 implies (#[trigger] rest[j]).0 == EventCaptured::No by {
            assert(rest[j] == answers[j + 1]);
        }
        lemma_first_capture(rest, merged_action(merged, answers[0].1), i - 1);
    }
}

proof fn lemma_no_capture(answers: Seq<(EventCaptured, ManagerAction)>, merged: ManagerAction)
    requires
        forall|j: int| 0 <= j < answers.len() ==> (#[trigger] answers[j]).0 == EventCaptured::No,
    ensures
        key_answer(answers, merged) == merge_all(answers, merged),
    decreases answers.len(),
{
    if answers.len() > 0 {
        let rest = answers.drop_first();
        assert(answers[0].0 == EventCaptured::No);
        assert forall|j: int| 0 <= j < rest.len() implies (#[trigger] rest[j]).0 == EventCaptured::No by {
            assert(rest[j] == answers[j + 1]);
        }
        lemma_no_capture(rest, merged_action(merged, answers[0].1));
    }
}

/// A key handed along the active path: when a view captures it, the first
/// such view, leaf first, gives the answer; when none does, the answer is
/// the merge of what all of them asked for.
pub proof fn law_first_capture_answers(
    answers: Seq<(EventCaptured, ManagerAction)>,
    merged: ManagerAction,
)
    ensures
        forall|i: int|
            0 <= i < answers.len() && (#[trigger] answers[i]).0 == EventCaptured::Yes && (forall|j: int|
                0 <= j < i ==> (#[trigger] answers[j]).0 == EventCaptured::No) ==> key_answer(
                answers,
                merged,
            ) == answers[i].1,
        (forall|j: int| 0 <= j < answers.len() ==> (#[trigger] answers[j]).0 == EventCaptured::No)
            ==> key_answer(answers, merged) == merge_all(answers, merged),
{
    assert forall|i: int|
        0 <= i < answers.len() && (#[trigger] answers[i]).0 == EventCaptured::Yes && (forall|j: int|
            0 <= j < i ==> (#[trigger] answers[j]).0 == EventCaptured::No) implies key_answer(
            answers,
            merged,
        ) == answers[i].1 by {
        lemma_first_capture(answers, merged, i);
    }
    if forall|j: int| 0 <= j < answers.len() ==> (#[trigger] answers[j]).0 == EventCaptured::No {
        lemma_no_capture(answers, merged);
    }
}

} // verus!
