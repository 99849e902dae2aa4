use vstd::prelude::*;
use vstd::string::*;

use crate::app::{
    next_index, prev_index, spec_constraint_lens, App, AppView, constraint_len_calculator,
};
use crate::pagerduty::{
    placeholder_incident, placeholder_view, spec_incident_open_url, Incident, IncidentView,
};

verus! {

/// Frames per second are derived from this fixed poll window, in
/// milliseconds: the input poller waits at most this long for a key before
/// it emits a no-op action.
pub const REFRESH_RATE: i64 = 250;

/// Everything the dispatcher reacts to: key-driven commands and the results
/// that background jobs post back.
pub enum Action {
    UpdateIncidents,
    Increment,
    Decrement,
    Top,
    Open,
    Acknowledge,
    AcknowledgeAll,
    HideAck,
    ShowAll,
    Quit,
    UpdateResult(Vec<Incident>),
    UpdateFailed,
    Noop,
}

/// Mathematical image of an [`Action`].
pub ghost enum ActionView {
    UpdateIncidents,
    Increment,
    Decrement,
    Top,
    Open,
    Acknowledge,
    AcknowledgeAll,
    HideAck,
    ShowAll,
    Quit,
    UpdateResult(Seq<IncidentView>),
    UpdateFailed,
    Noop,
}

impl View for Action {
    type V = ActionView;

    open spec fn view(&self) -> ActionView {
        match self {
            Action::UpdateIncidents => ActionView::UpdateIncidents,
            Action::Increment => ActionView::Increment,
            Action::Decrement => ActionView::Decrement,
            Action::Top => ActionView::Top,
            Action::Open => ActionView::Open,
            Action::Acknowledge => ActionView::Acknowledge,
            Action::AcknowledgeAll => ActionView::AcknowledgeAll,
            Action::HideAck => ActionView::HideAck,
            Action::ShowAll => ActionView::ShowAll,
            Action::Quit => ActionView::Quit,
            Action::UpdateResult(list) => ActionView::UpdateResult(list.deep_view()),
            Action::UpdateFailed => ActionView::UpdateFailed,
            Action::Noop => ActionView::Noop,
        }
    }
}

/// The background work one dispatch asks for: the dispatcher itself never
/// blocks, it only hands these out for the surrounding loop to launch.
pub enum Effect {
    Fetch { all_incidents: bool },
    Ack { id: String },
    OpenUrl { url: String },
}

/// Mathematical image of an [`Effect`].
pub ghost enum EffectView {
    Fetch { all_incidents: bool },
    Ack { id: Seq<char> },
    OpenUrl { url: Seq<char> },
}

impl View for Effect {
    type V = EffectView;

    open spec fn view(&self) -> EffectView {
        match self {
            Effect::Fetch { all_incidents } => EffectView::Fetch { all_incidents: *all_incidents },
            Effect::Ack { id } => EffectView::Ack { id: id@ },
            Effect::OpenUrl { url } => EffectView::OpenUrl { url: url@ },
        }
    }
}

impl DeepView for Effect {
    type V = EffectView;

    open spec fn deep_view(&self) -> EffectView {
        self.view()
    }
}

/// One key press, reduced to what the keymap distinguishes.
#[derive(Clone, Copy, PartialEq, Eq, Debug)]
pub enum Key {
    Char(char),
    Up,
    Down,
    Home,
    Enter,
    Esc,
    F(u8),
    Other,
}

/// The fixed keymap: which action one key press stands for.
pub open spec fn key_action(key: Key) -> ActionView {
    match key {
        Key::Char(c) => {
            if c == 'j' {
                ActionView::Increment
            } else if c == 'k' {
                ActionView::Decrement
            } else if c == 'r' {
                ActionView::UpdateIncidents
            } else if c == 'o' {
                ActionView::Open
            } else if c == ' ' {
                ActionView::Acknowledge
            } else if c == 'a' {
                ActionView::AcknowledgeAll
            } else if c == 'h' {
                ActionView::HideAck
            } else if c == 'g' {
                ActionView::ShowAll
            } else if c == 'q' {
                ActionView::Quit
            } else {
                ActionView::Noop
            }
        },
        Key::Down => ActionView::Increment,
        Key::Up => ActionView::Decrement,
        Key::Home => ActionView::Top,
        Key::Enter => ActionView::Open,
        Key::Esc => ActionView::Quit,
        Key::F(n) => {
            if n == 5 {
                ActionView::UpdateIncidents
            } else {
                ActionView::Noop
            }
        },
        Key::Other => ActionView::Noop,
    }
}

/// Maps one key press to its action; see [`key_action`].
pub fn map_key(key: Key) -> (a: Action)
    ensures
        a@ == key_action(key),
{
    match key {
        Key::Char(c) => {
            if c == 'j' {
                Action::Increment
            } else if c == 'k' {
                Action::Decrement
            } else if c == 'r' {
                Action::UpdateIncidents
            } else if c == 'o' {
                Action::Open
            } else if c == ' ' {
                Action::Acknowledge
            } else if c == 'a' {
                Action::AcknowledgeAll
            } else if c == 'h' {
                Action::HideAck
            } else if c == 'g' {
                Action::ShowAll
            } else if c == 'q' {
                Action::Quit
            } else {
                Action::Noop
            }
        },
        Key::Down => Action::Increment,
        Key::Up => Action::Decrement,
        Key::Home => Action::Top,
        Key::Enter => Action::Open,
        Key::Esc => Action::Quit,
        Key::F(n) => {
            if n == 5 {
                Action::UpdateIncidents
            } else {
                Action::Noop
            }
        },
        Key::Other => Action::Noop,
    }
}

/// An optimistically acknowledged row: the triggered flag falls and the
/// status gains the pending-acknowledge note, before the provider confirms.
pub open spec fn acked_view(v: IncidentView) -> IncidentView {
    IncidentView { status: v.status + "\nSending Ack"@, triggered: false, ..v }
}

/// Every triggered row of one service, optimistically acknowledged; all
/// other rows untouched.
pub open spec fn bulk_acked(items: Seq<IncidentView>, svc: Seq<char>) -> Seq<IncidentView> {
    items.map_values(
        |v: IncidentView|
            if v.service == svc && v.triggered {
                acked_view(v)
            } else {
                v
            },
    )
}

/// The acknowledge jobs a service-wide acknowledge launches: one per
/// triggered row of the service, in display order.
pub open spec fn ack_effects(items: Seq<IncidentView>, svc: Seq<char>) -> Seq<EffectView>
    decreases items.len(),
{
    if items.len() == 0 {
        Seq::empty()
    } else {
        ack_effects(items.drop_last(), svc) + (if items.last().service == svc
            && items.last().triggered {
            seq![EffectView::Ack { id: items.last().id }]
        } else {
            Seq::empty()
        })
    }
}

/// The next state after one action. This is the whole dispatcher, stated
/// over the mathematical state; [`update`] is proved against it.
pub open spec fn step(s: AppView, msg: ActionView) -> AppView {
    match msg {
        ActionView::UpdateIncidents => AppView { refreshing: true, ..s },
        ActionView::Increment => AppView {
            selected_index: next_index(s.selected_index, s.items.len() as int),
            ..s
        },
        ActionView::Decrement => AppView {
            selected_index: prev_index(s.selected_index, s.items.len() as int),
            ..s
        },
        ActionView::Top => AppView { selected_index: 0, ..s },
        ActionView::Open => s,
        ActionView::Acknowledge => {
            if s.items[s.selected_index].triggered {
                AppView {
                    items: s.items.update(
                        s.selected_index,
                        acked_view(s.items[s.selected_index]),
                    ),
                    ..s
                }
            } else {
                s
            }
        },
        ActionView::AcknowledgeAll => AppView {
            items: bulk_acked(s.items, s.items[s.selected_index].service),
            ..s
        },
        ActionView::HideAck => AppView { hide_ack: !s.hide_ack, ..s },
        ActionView::ShowAll => AppView {
            show_all_incidents: !s.show_all_incidents,
            refreshing: true,
            ..s
        },
        ActionView::Quit => AppView { should_quit: true, ..s },
        ActionView::UpdateResult(list) => {
            let items = if list.len() == 0 {
                seq![placeholder_view()]
            } else {
                list
            };
            AppView {
                items: items,
                selected_index: if s.selected_index < items.len() {
                    s.selected_index
                } else {
                    0
                },
                refreshing: false,
                stale: false,
                longest_item_lens: spec_constraint_lens(items),
                ..s
            }
        },
        ActionView::UpdateFailed => AppView { refreshing: false, stale: true, ..s },
        ActionView::Noop => s,
    }
}

/// The background jobs one action launches.
pub open spec fn step_effects(s: AppView, msg: ActionView) -> Seq<EffectView> {
    match msg {
        ActionView::UpdateIncidents => seq![
            EffectView::Fetch { all_incidents: s.show_all_incidents },
        ],
        ActionView::Open => seq![
            EffectView::OpenUrl {
                url: spec_incident_open_url(s.pager_duty.domain, s.items[s.selected_index].id),
            },
        ],
        ActionView::Acknowledge => {
            if s.items[s.selected_index].triggered {
                seq![EffectView::Ack { id: s.items[s.selected_index].id }]
            } else {
                Seq::empty()
            }
        },
        ActionView::AcknowledgeAll => ack_effects(s.items, s.items[s.selected_index].service),
        ActionView::ShowAll => seq![EffectView::Fetch { all_incidents: !s.show_all_incidents }],
        _ => Seq::empty(),
    }
}

/// Applies one action to the state and returns the background jobs to
/// launch, exactly as [`step`] and [`step_effects`] state them.
pub fn update(app: &mut App, msg: Action) -> (effects: Vec<Effect>)
    requires
        old(app)@.wf(),
    ensures
        final(app)@ == step(old(app)@, msg@),
        effects.deep_view() == step_effects(old(app)@, msg@),
        final(app)@.wf(),
{
    proof {
        lemma_step_preserves_wf(old(app)@, msg@);
    }
    match msg {
        Action::UpdateIncidents => {
            app.refreshing = true;
            let mut effects: Vec<Effect> = Vec::new();
            effects.push(Effect::Fetch { all_incidents: app.show_all_incidents });
            proof {
                assert(effects.deep_view() =~= step_effects(old(app)@, ActionView::UpdateIncidents));
            }
            effects
        },
        Action::Increment => {
            app.next();
            Vec::new()
        },
        Action::Decrement => {
            app.previous();
            Vec::new()
        },
        Action::Top => {
            app.top();
            Vec::new()
        },
        Action::Open => {
            let sel: usize = app.selected_index;
            let url: String = crate::pagerduty::incident_open_url(
                app.pager_duty.get_pagerduty_domain(),
                app.items[sel].id.as_str(),
            );
            let mut effects: Vec<Effect> = Vec::new();
            effects.push(Effect::OpenUrl { url });
            proof {
                assert(effects.deep_view() =~= step_effects(old(app)@, ActionView::Open));
            }
            effects
        },
        Action::Acknowledge => {
            let sel: usize = app.selected_index;
            let mut effects: Vec<Effect> = Vec::new();
            if app.items[sel].triggered {
                let id: String = app.items[sel].id.clone();
                let appended: String = app.items[sel].status.clone().concat("\nSending Ack");
                app.items[sel].status = appended;
                app.items[sel].triggered = false;
                effects.push(Effect::Ack { id });
                proof {
                    let target = step(old(app)@, ActionView::Acknowledge);
                    assert forall|j: int| 0 <= j < app.items@.len() implies app.items.deep_view()[j]
                        == target.items[j] by {
                        assert(app.items.deep_view()[j] == app.items@[j].deep_view());
                    }
                    assert(app.items.deep_view() =~= target.items);
                    assert(effects.deep_view() =~= step_effects(old(app)@, ActionView::Acknowledge));
                }
            } else {
                proof {
                    assert(app.items.deep_view() =~= old(app)@.items);
                    assert(effects.deep_view() =~= step_effects(old(app)@, ActionView::Acknowledge));
                }
            }
            effects
        },
        Action::AcknowledgeAll => {
            let sel: usize = app.selected_index;
            let service: String = app.items[sel].service.clone();
            let ghost svc: Seq<char> = service@;
            let ghost items0: Seq<IncidentView> = app.items.deep_view();
            let n: usize = app.items.len();
            let mut effects: Vec<Effect> = Vec::new();
            let mut i: usize = 0;
            while i < n
                invariant
                    i <= n,
                    n == app.items@.len(),
                    items0.len() == n,
                    svc == service@,
                    app@ == (AppView { items: app@.items, ..old(app)@ }),
                    forall|j: int|
                        0 <= j < i ==> app.items.deep_view()[j] == (if items0[j].service == svc
                            && items0[j].triggered {
                            acked_view(items0[j])
                        } else {
                            items0[j]
                        }),
                    forall|j: int| i <= j < n ==> app.items.deep_view()[j] == items0[j],
                    effects.deep_view() =~= ack_effects(items0.subrange(0, i as int), svc),
                decreases n - i,
            {
                let ghost items_pre: Seq<IncidentView> = app.items.deep_view();
                let ghost items_pre_elems: Seq<Incident> = app.items@;
                let ghost effects_pre: Seq<EffectView> = effects.deep_view();
                let ghost effects_pre_elems: Seq<Effect> = effects@;
                proof {
                    assert(items0.subrange(0, i + 1).drop_last() =~= items0.subrange(0, i as int));
                    assert(items0.subrange(0, i + 1).last() == items0[i as int]);
                    assert(items_pre[i as int] == items_pre_elems[i as int].deep_view());
                }
                let matches_service: bool = app.items[i].service == service;
                let row_triggered: bool = app.items[i].triggered;
                proof {
                    assert(app.items@[i as int].deep_view() == items0[i as int]);
                    assert(matches_service == (items0[i as int].service == svc));
                    assert(row_triggered == items0[i as int].triggered);
                }
                if matches_service && row_triggered {
                    let id: String = app.items[i].id.clone();
                    let appended: String = app.items[i].status.clone().concat("\nSending Ack");
                    app.items[i].status = appended;
                    app.items[i].triggered = false;
                    effects.push(Effect::Ack { id });
                    proof {
                        assert forall|j: int| 0 <= j < n && j != i implies app.items.deep_view()[j]
                            == items_pre[j] by {
                            assert(app.items.deep_view()[j] == app.items@[j].deep_view());
                            assert(app.items@[j] == items_pre_elems[j]);
                        }
                        assert(app.items.deep_view()[i as int] == app.items@[
                            i as int
                        ].deep_view());
                        assert(app.items.deep_view()[i as int] == acked_view(items0[i as int]));
                        assert forall|k: int| 0 <= k < effects@.len() implies effects.deep_view()[k]
                            == effects_pre.push(EffectView::Ack { id: items0[i as int].id })[k] by {
                            assert(effects.deep_view()[k] == effects@[k].deep_view());
                            if k < effects@.len() - 1 {
                                assert(effects@[k] == effects_pre_elems[k]);
                                assert(effects_pre[k] == effects_pre_elems[k].deep_view());
                            }
                        }
                        assert(effects.deep_view() =~= effects_pre.push(
                            EffectView::Ack { id: items0[i as int].id },
                        ));
                        assert(effects.deep_view() =~= ack_effects(items0.subrange(0, i as int), svc)
                            + seq![EffectView::Ack { id: items0[i as int].id }]);
                        assert forall|j: int|
                            0 <= j < i + 1 implies app.items.deep_view()[j] == (if items0[j].service
                            == svc && items0[j].triggered {
                            acked_view(items0[j])
                        } else {
                            items0[j]
                        }) by {
                            if j < i {
                                assert(app.items.deep_view()[j] == items_pre[j]);
                            } else {
                                assert(app.items.deep_view()[j] == acked_view(items0[j]));
                            }
                        }
                    }
                } else {
                    proof {
                        assert(items_pre[i as int] == items0[i as int]);
                        assert(!(items0[i as int].service == svc && items0[i as int].triggered));
                        assert(ack_effects(items0.subrange(0, i + 1), svc) =~= ack_effects(
                            items0.subrange(0, i as int),
                            svc,
                        ));
                        assert forall|j: int|
                            0 <= j < i + 1 implies app.items.deep_view()[j] == (if items0[j].service
                            == svc && items0[j].triggered {
                            acked_view(items0[j])
                        } else {
                            items0[j]
                        }) by {
                            if j == i {
                                assert(app.items.deep_view()[j] == items0[j]);
                            }
                        }
                    }
                }
                i = i + 1;
                proof {
                    assert(effects.deep_view() =~= ack_effects(items0.subrange(0, i as int), svc));
                }
            }
            proof {
                let target = step(old(app)@, ActionView::AcknowledgeAll);
                assert(items0.subrange(0, n as int) =~= items0);
                assert(svc == items0[old(app)@.selected_index].service);
                assert(app.items.deep_view() =~= target.items);
                assert(effects.deep_view() =~= step_effects(old(app)@, ActionView::AcknowledgeAll));
            }
            effects
        },
        Action::HideAck => {
            app.hide_ack = !app.hide_ack;
            Vec::new()
        },
        Action::ShowAll => {
            app.show_all_incidents = !app.show_all_incidents;
            app.refreshing = true;
            let mut effects: Vec<Effect> = Vec::new();
            effects.push(Effect::Fetch { all_incidents: app.show_all_incidents });
            proof {
                assert(effects.deep_view() =~= step_effects(old(app)@, ActionView::ShowAll));
            }
            effects
        },
        Action::Quit => {
            app.should_quit = true;
            Vec::new()
        },
        Action::UpdateResult(list) => {
            let ghost list_view: Seq<IncidentView> = list.deep_view();
            let mut items: Vec<Incident> = list;
            if items.len() == 0 {
                items.push(placeholder_incident());
                proof {
                    assert(items.deep_view() =~= seq![placeholder_view()]);
                }
            }
            if app.selected_index >= items.len() {
                app.selected_index = 0;
            }
            app.longest_item_lens = constraint_len_calculator(&items);
            app.items = items;
            app.refreshing = false;
            app.stale = false;
            Vec::new()
        },
        Action::UpdateFailed => {
            app.refreshing = false;
            app.stale = true;
            Vec::new()
        },
        Action::Noop => {
            Vec::new()
        },
    }
}

/// Law: the dispatcher preserves the standing invariant for every action
/// from every well-formed state; in particular the cursor stays on a valid
/// row after any run of actions.
pub proof fn lemma_step_preserves_wf(s: AppView, msg: ActionView)
    requires
        s.wf(),
    ensures
        step(s, msg).wf(),
{
    match msg {
        ActionView::UpdateResult(list) => {
            let items = if list.len() == 0 {
                seq![placeholder_view()]
            } else {
                list
            };
            assert(items.len() >= 1);
        },
        _ => {},
    }
}

/// Law: acknowledging a row whose triggered flag is already down changes
/// nothing and launches no job — the pending-acknowledge note is never
/// appended twice.
pub proof fn lemma_acknowledge_idempotent(s: AppView)
    requires
        s.wf(),
        !s.items[s.selected_index].triggered,
    ensures
        step(s, ActionView::Acknowledge) == s,
        step_effects(s, ActionView::Acknowledge) == Seq::<EffectView>::empty(),
{
}

/// Law: two hide-acknowledged toggles return the whole state to where it
/// started.
pub proof fn lemma_hide_ack_round_trip(s: AppView)
    ensures
        step(step(s, ActionView::HideAck), ActionView::HideAck) == s,
{
}

/// Law: two show-all toggles return the scope flag to where it started
/// (each toggle still marks a refresh outstanding).
pub proof fn lemma_show_all_round_trip(s: AppView)
    ensures
        step(step(s, ActionView::ShowAll), ActionView::ShowAll).show_all_incidents
            == s.show_all_incidents,
{
}

/// Law: an empty provider response leaves exactly the one placeholder row,
/// with the cursor on it and the refresh no longer outstanding.
pub proof fn lemma_empty_result_placeholder(s: AppView)
    requires
        s.wf(),
    ensures
        step(s, ActionView::UpdateResult(Seq::empty())).items == seq![placeholder_view()],
        step(s, ActionView::UpdateResult(Seq::empty())).selected_index == 0,
        step(s, ActionView::UpdateResult(Seq::empty())).refreshing == false,
{
    assert(Seq::<IncidentView>::empty().len() == 0);
}

/// Law: a failed refresh keeps the last-known incident list and cursor,
/// clears the outstanding-refresh flag and marks the view stale; a later
/// successful refresh result clears the staleness again.
pub proof fn lemma_failed_refresh_keeps_list(s: AppView, list: Seq<IncidentView>)
    requires
        s.wf(),
    ensures
        step(s, ActionView::UpdateFailed).items == s.items,
        step(s, ActionView::UpdateFailed).selected_index == s.selected_index,
        step(s, ActionView::UpdateFailed).refreshing == false,
        step(s, ActionView::UpdateFailed).stale == true,
        step_effects(s, ActionView::UpdateFailed) == Seq::<EffectView>::empty(),
        step(step(s, ActionView::UpdateFailed), ActionView::UpdateResult(list)).stale == false,
{
}

/// Law: a service-wide acknowledge flips exactly the triggered rows that
/// share the selected row's service, and leaves every other row untouched.
pub proof fn lemma_bulk_ack_scoping(s: AppView, j: int)
    requires
        s.wf(),
        0 <= j < s.items.len(),
    ensures
        ({
            let svc = s.items[s.selected_index].service;
            step(s, ActionView::AcknowledgeAll).items[j] == (if s.items[j].service == svc
                && s.items[j].triggered {
                acked_view(s.items[j])
            } else {
                s.items[j]
            })
        }),
{
}

} // verus!

