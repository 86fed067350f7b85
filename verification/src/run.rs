//! The run as a state machine: each step takes the outcome of one external
//! action and decides the next state and the next action. The surrounding
//! binary performs the actions (spawning the picker, the background setter,
//! the notifier, touching the link) and feeds their outcomes back as events.

use vstd::prelude::*;
use crate::catalog::Catalog;
use crate::messages::{
    no_wallpapers_message, spec_no_wallpapers_message, spec_success_message, success_message,
};
use crate::scan::{catalog_of, find_wallpapers, FileEntry};
use crate::select::{resolve_selection, spec_selection};

verus! {

/// What removing the old link reported: it was removed, it was not there
/// (also fine), or removal failed for another reason.
#[derive(Clone, Copy, PartialEq, Eq, Structural)]
pub enum RemoveOutcome {
    Removed,
    Missing,
    Failed,
}

/// Where a run stands: which external action is outstanding.
pub enum RunState {
    /// The wallpaper directory is being read.
    Scanning { dir: String },
    /// The picker is running over the catalog's filenames.
    Picking { catalog: Catalog },
    /// The background setter is running on the selected path.
    Setting { selected: String },
    /// The old link is being removed.
    Removing { selected: String },
    /// The new link is being created.
    Linking { selected: String },
    /// The run is over; no action is outstanding.
    Finished,
}

/// The outcome of the outstanding external action.
pub enum Event {
    /// The directory listing, entries already decoded as text.
    Scanned { entries: Vec<FileEntry> },
    /// The picker finished with this exit status and standard output.
    PickerDone { exit_ok: bool, output: String },
    /// The background setter finished with this exit status.
    SetterDone { exit_ok: bool },
    /// Removing the old link finished.
    RemoveDone { outcome: RemoveOutcome },
    /// Creating the new link finished.
    LinkDone { ok: bool },
}

/// The next external action to perform.
pub enum Action {
    /// Print the message, send it as a notification, and stop.
    NotifyNoWallpapers { message: String },
    /// Run the picker, feeding it one filename per line.
    RunPicker { names: Vec<String> },
    /// Report that no selection was made, and stop.
    ReportNoSelection,
    /// Run the background setter on this path.
    RunSetter { path: String },
    /// Remove the well-known link, tolerating its absence.
    RemoveLink,
    /// Create the well-known link pointing at this target.
    CreateLink { target: String },
    /// Send the success notification, and stop.
    NotifySuccess { message: String },
    /// Report that the background setter failed, and stop.
    ReportSetterFailed,
    /// Report that removing the old link failed, and stop.
    ReportRemoveFailed,
    /// Report that creating the new link failed, and stop.
    ReportLinkFailed,
}

/// The mathematical image of a [`RunState`].
pub enum StateModel {
    Scanning { dir: Seq<char> },
    Picking { catalog: Map<Seq<char>, Seq<char>> },
    Setting { selected: Seq<char> },
    Removing { selected: Seq<char> },
    Linking { selected: Seq<char> },
    Finished,
}

/// The mathematical image of an [`Event`].
pub enum EventModel {
    Scanned { entries: Seq<FileEntry> },
    PickerDone { exit_ok: bool, output: Seq<char> },
    SetterDone { exit_ok: bool },
    RemoveDone { outcome: RemoveOutcome },
    LinkDone { ok: bool },
}

/// The mathematical image of an [`Action`]. The picker's candidate list is a
/// set: in what order the filenames are offered is not specified.
pub enum ActionModel {
    NotifyNoWallpapers { message: Seq<char> },
    RunPicker { names: Set<Seq<char>> },
    ReportNoSelection,
    RunSetter { path: Seq<char> },
    RemoveLink,
    CreateLink { target: Seq<char> },
    NotifySuccess { message: Seq<char> },
    ReportSetterFailed,
    ReportRemoveFailed,
    ReportLinkFailed,
}

impl View for RunState {
    type V = StateModel;

    open spec fn view(&self) -> StateModel {
        match self {
            RunState::Scanning { dir } => StateModel::Scanning { dir: dir@ },
            RunState::Picking { catalog } => StateModel::Picking { catalog: catalog.as_map() },
            RunState::Setting { selected } => StateModel::Setting { selected: selected@ },
            RunState::Removing { selected } => StateModel::Removing { selected: selected@ },
            RunState::Linking { selected } => StateModel::Linking { selected: selected@ },
            RunState::Finished => StateModel::Finished,
        }
    }
}

impl RunState {
    /// The catalog carried by a state is well-formed.
    pub open spec fn wf(self) -> bool {
        match self {
            RunState::Picking { catalog } => catalog.wf(),
            _ => true,
        }
    }
}

impl View for Event {
    type V = EventModel;

    open spec fn view(&self) -> EventModel {
        match self {
            Event::Scanned { entries } => EventModel::Scanned { entries: entries@ },
            Event::PickerDone { exit_ok, output } => EventModel::PickerDone {
                exit_ok: *exit_ok,
                output: output@,
            },
            Event::SetterDone { exit_ok } => EventModel::SetterDone { exit_ok: *exit_ok },
            Event::RemoveDone { outcome } => EventModel::RemoveDone { outcome: *outcome },
            Event::LinkDone { ok } => EventModel::LinkDone { ok: *ok },
        }
    }
}

impl View for Action {
    type V = ActionModel;

    open spec fn view(&self) -> ActionModel {
        match self {
            Action::NotifyNoWallpapers { message } => ActionModel::NotifyNoWallpapers {
                message: message@,
            },
            Action::RunPicker { names } => ActionModel::RunPicker {
                names: names@.map_values(|s: String| s@).to_set(),
            },
            Action::ReportNoSelection => ActionModel::ReportNoSelection,
            Action::RunSetter { path } => ActionModel::RunSetter { path: path@ },
            Action::RemoveLink => ActionModel::RemoveLink,
            Action::CreateLink { target } => ActionModel::CreateLink { target: target@ },
            Action::NotifySuccess { message } => ActionModel::NotifySuccess { message: message@ },
            Action::ReportSetterFailed => ActionModel::ReportSetterFailed,
            Action::ReportRemoveFailed => ActionModel::ReportRemoveFailed,
            Action::ReportLinkFailed => ActionModel::ReportLinkFailed,
        }
    }
}

/// Which event answers which state's outstanding action.
pub open spec fn event_fits(s: StateModel, e: EventModel) -> bool {
    match (s, e) {
        (StateModel::Scanning { .. }, EventModel::Scanned { .. }) => true,
        (StateModel::Picking { .. }, EventModel::PickerDone { .. }) => true,
        (StateModel::Setting { .. }, EventModel::SetterDone { .. }) => true,
        (StateModel::Removing { .. }, EventModel::RemoveDone { .. }) => true,
        (StateModel::Linking { .. }, EventModel::LinkDone { .. }) => true,
        _ => false,
    }
}

/// The transition relation of the run, over the mathematical images: from a
/// state and the outcome of its outstanding action to the next state and the
/// next action.
pub open spec fn step_model(s: StateModel, e: EventModel) -> (StateModel, ActionModel) {
    match (s, e) {
        (StateModel::Scanning { dir }, EventModel::Scanned { entries }) => {
            let cat = catalog_of(entries);
            if cat =~= Map::<Seq<char>, Seq<char>>::empty() {
                (
                    StateModel::Finished,
                    ActionModel::NotifyNoWallpapers { message: spec_no_wallpapers_message(dir) },
                )
            } else {
                (StateModel::Picking { catalog: cat }, ActionModel::RunPicker { names: cat.dom() })
            }
        },
        (StateModel::Picking { catalog }, EventModel::PickerDone { exit_ok, output }) => {
            match spec_selection(catalog, exit_ok, output) {
                Option::Some(p) => (
                    StateModel::Setting { selected: p },
                    ActionModel::RunSetter { path: p },
                ),
                Option::None => (StateModel::Finished, ActionModel::ReportNoSelection),
            }
        },
        (StateModel::Setting { selected }, EventModel::SetterDone { exit_ok }) => {
            if exit_ok {
                (StateModel::Removing { selected }, ActionModel::RemoveLink)
            } else {
                (StateModel::Finished, ActionModel::ReportSetterFailed)
            }
        },
        (StateModel::Removing { selected }, EventModel::RemoveDone { outcome }) => {
            if outcome is Failed {
                (StateModel::Finished, ActionModel::ReportRemoveFailed)
            } else {
                (StateModel::Linking { selected }, ActionModel::CreateLink { target: selected })
            }
        },
        (StateModel::Linking { selected }, EventModel::LinkDone { ok }) => {
            if ok {
                (
                    StateModel::Finished,
                    ActionModel::NotifySuccess { message: spec_success_message(selected) },
                )
            } else {
                (StateModel::Finished, ActionModel::ReportLinkFailed)
            }
        },
        _ => (StateModel::Finished, ActionModel::ReportNoSelection),
    }
}

/// Performs one step of the run: consumes the outcome of the outstanding
/// action and returns the next state and the next action, exactly as the
/// transition relation prescribes.
pub fn step(s: RunState, e: Event) -> (r: (RunState, Action))
    requires
        s.wf(),
        event_fits(s@, e@),
    ensures
        r.0.wf(),
        r.0@ == step_model(s@, e@).0,
        r.1@ == step_model(s@, e@).1,
{
    match (s, e) {
        (RunState::Scanning { dir }, Event::Scanned { entries }) => {
            let cat = find_wallpapers(&entries);
            if cat.is_empty() {
                let message = no_wallpapers_message(dir.as_str());
                (RunState::Finished, Action::NotifyNoWallpapers { message })
            } else {
                let names = cat.names();
                proof {
                    let dom = cat.as_map().dom();
                    let nset = names@.map_values(|s: String| s@).to_set();
                    assert forall|k: Seq<char>| nset.contains(k) implies dom.contains(k) by {
                        let vs = names@.map_values(|s: String| s@);
                        let w = choose|i: int| 0 <= i < vs.len() && vs[i] == k;
                        assert(names@[w]@ == k);
                    }
                    assert forall|k: Seq<char>| dom.contains(k) implies nset.contains(k) by {
                        let w = choose|i: int| 0 <= i < names@.len() && names@[i]@ == k;
                        let vs = names@.map_values(|s: String| s@);
                        assert(vs[w] == k);
                    }
                    assert(nset =~= dom);
                }
                (RunState::Picking { catalog: cat }, Action::RunPicker { names })
            }
        },
        (RunState::Picking { catalog }, Event::PickerDone { exit_ok, output }) => {
            match resolve_selection(&catalog, exit_ok, output.as_str()) {
                Option::Some(p) => {
                    let path = p.clone();
                    (RunState::Setting { selected: p }, Action::RunSetter { path })
                },
                Option::None => (RunState::Finished, Action::ReportNoSelection),
            }
        },
        (RunState::Setting { selected }, Event::SetterDone { exit_ok }) => {
            if exit_ok {
                (RunState::Removing { selected }, Action::RemoveLink)
            } else {
                (RunState::Finished, Action::ReportSetterFailed)
            }
        },
        (RunState::Removing { selected }, Event::RemoveDone { outcome }) => {
            match outcome {
                RemoveOutcome::Failed => (RunState::Finished, Action::ReportRemoveFailed),
                _ => {
                    let target = selected.clone();
                    (RunState::Linking { selected }, Action::CreateLink { target })
                },
            }
        },
        (RunState::Linking { selected }, Event::LinkDone { ok }) => {
            if ok {
                let message = success_message(selected.as_str());
                (RunState::Finished, Action::NotifySuccess { message })
            } else {
                (RunState::Finished, Action::ReportLinkFailed)
            }
        },
        _ => {
            proof {
                assert(false);
            }
            (RunState::Finished, Action::ReportNoSelection)
        },
    }
}

/// The whole run at the mathematical level: from a state through a sequence
/// of events to the final state and the actions taken, in order.
pub open spec fn run_model(s: StateModel, events: Seq<EventModel>) -> (StateModel, Seq<ActionModel>)
    decreases events.len(),
{
    if events.len() == 0 {
        (s, Seq::empty())
    } else {
        let first = step_model(s, events[0]);
        let rest = run_model(first.0, events.drop_first());
        (rest.0, seq![first.1] + rest.1)
    }
}

/// Whether an action moves the well-known link.
pub open spec fn touches_link(a: ActionModel) -> bool {
    a is RemoveLink || a is CreateLink
}

/// The link's target after a sequence of actions: removing clears it,
/// creating points it, every other action leaves it alone.
pub open spec fn link_after(
    link: Option<Seq<char>>,
    actions: Seq<ActionModel>,
) -> Option<Seq<char>>
    decreases actions.len(),
{
    if actions.len() == 0 {
        link
    } else {
        let next = match actions[0] {
            ActionModel::RemoveLink => Option::<Seq<char>>::None,
            ActionModel::CreateLink { target } => Option::Some(target),
            _ => link,
        };
        link_after(next, actions.drop_first())
    }
}

/// If no action of a sequence touches the link, the link is unchanged.
pub proof fn lemma_untouched_link(link: Option<Seq<char>>, actions: Seq<ActionModel>)
    requires
        forall|i: int| 0 <= i < actions.len() ==> !touches_link(#[trigger] actions[i]),
    ensures
        link_after(link, actions) == link,
    decreases actions.len(),
{
    if actions.len() > 0 {
        assert(!touches_link(actions[0]));
        assert forall|i: int| 0 <= i < actions.drop_first().len() implies !touches_link(
            #[trigger] actions.drop_first()[i],
        ) by {
            assert(actions.drop_first()[i] == actions[i + 1]);
        }
        lemma_untouched_link(link, actions.drop_first());
    }
}

/// A directory with nothing to offer ends the run at once: the one action is
/// the no-wallpapers notification naming the scanned directory, and the link
/// is never touched.
pub proof fn lemma_empty_scan_run(
    dir: Seq<char>,
    entries: Seq<FileEntry>,
    link: Option<Seq<char>>,
)
    requires
        catalog_of(entries) =~= Map::<Seq<char>, Seq<char>>::empty(),
    ensures
        ({
            let r = run_model(
                StateModel::Scanning { dir },
                seq![EventModel::Scanned { entries }],
            );
            &&& r.0 == StateModel::Finished
            &&& r.1 =~= seq![
                ActionModel::NotifyNoWallpapers { message: spec_no_wallpapers_message(dir) },
            ]
            &&& link_after(link, r.1) == link
        }),
{
    reveal_with_fuel(run_model, 8);
    reveal_with_fuel(link_after, 8);
    let events = seq![EventModel::Scanned { entries }];
    assert(events.drop_first().len() == 0);
    let r = run_model(StateModel::Scanning { dir }, events);
    assert(r.1 =~= seq![
        ActionModel::NotifyNoWallpapers { message: spec_no_wallpapers_message(dir) },
    ]);
    assert(link_after(link, r.1) == link) by {
        assert(r.1.drop_first().len() == 0);
    }
}

/// A picker that exits with failure ends the run with no selection: after
/// offering the candidates, the one remaining action is the no-selection
/// report, and the link is never touched.
pub proof fn lemma_cancelled_picker_run(
    dir: Seq<char>,
    entries: Seq<FileEntry>,
    output: Seq<char>,
    link: Option<Seq<char>>,
)
    requires
        !(catalog_of(entries) =~= Map::<Seq<char>, Seq<char>>::empty()),
    ensures
        ({
            let r = run_model(
                StateModel::Scanning { dir },
                seq![
                    EventModel::Scanned { entries },
                    EventModel::PickerDone { exit_ok: false, output },
                ],
            );
            &&& r.0 == StateModel::Finished
            &&& r.1 =~= seq![
                ActionModel::RunPicker { names: catalog_of(entries).dom() },
                ActionModel::ReportNoSelection,
            ]
            &&& link_after(link, r.1) == link
        }),
{
    reveal_with_fuel(run_model, 8);
    reveal_with_fuel(link_after, 8);
    let events = seq![
        EventModel::Scanned { entries },
        EventModel::PickerDone { exit_ok: false, output },
    ];
    let cat = catalog_of(entries);
    let s1 = StateModel::Picking { catalog: cat };
    assert(step_model(StateModel::Scanning { dir }, events[0]) == (
        s1,
        ActionModel::RunPicker { names: cat.dom() },
    ));
    let rest = events.drop_first();
    assert(rest =~= seq![EventModel::PickerDone { exit_ok: false, output }]);
    assert(spec_selection(cat, false, output) is None);
    assert(rest.drop_first().len() == 0);
    let r = run_model(StateModel::Scanning { dir }, events);
    assert(r.1 =~= seq![
        ActionModel::RunPicker { names: cat.dom() },
        ActionModel::ReportNoSelection,
    ]);
    lemma_untouched_link(
        link,
        seq![ActionModel::RunPicker { names: cat.dom() }, ActionModel::ReportNoSelection],
    );
}

/// A background setter that fails stops the apply: the run ends after the
/// failure report, no success notification is sent, and the link is never
/// touched.
pub proof fn lemma_setter_failure_run(
    dir: Seq<char>,
    entries: Seq<FileEntry>,
    output: Seq<char>,
    link: Option<Seq<char>>,
)
    requires
        !(catalog_of(entries) =~= Map::<Seq<char>, Seq<char>>::empty()),
        spec_selection(catalog_of(entries), true, output) is Some,
    ensures
        ({
            let p = spec_selection(catalog_of(entries), true, output)->Some_0;
            let r = run_model(
                StateModel::Scanning { dir },
                seq![
                    EventModel::Scanned { entries },
                    EventModel::PickerDone { exit_ok: true, output },
                    EventModel::SetterDone { exit_ok: false },
                ],
            );
            &&& r.0 == StateModel::Finished
            &&& r.1 =~= seq![
                ActionModel::RunPicker { names: catalog_of(entries).dom() },
                ActionModel::RunSetter { path: p },
                ActionModel::ReportSetterFailed,
            ]
            &&& link_after(link, r.1) == link
        }),
{
    reveal_with_fuel(run_model, 8);
    reveal_with_fuel(link_after, 8);
    let events = seq![
        EventModel::Scanned { entries },
        EventModel::PickerDone { exit_ok: true, output },
        EventModel::SetterDone { exit_ok: false },
    ];
    let cat = catalog_of(entries);
    let p = spec_selection(cat, true, output)->Some_0;
    let e1 = events.drop_first();
    assert(e1 =~= seq![
        EventModel::PickerDone { exit_ok: true, output },
        EventModel::SetterDone { exit_ok: false },
    ]);
    let e2 = e1.drop_first();
    assert(e2 =~= seq![EventModel::SetterDone { exit_ok: false }]);
    assert(e2.drop_first().len() == 0);
    let r = run_model(StateModel::Scanning { dir }, events);
    let acts = seq![
        ActionModel::RunPicker { names: cat.dom() },
        ActionModel::RunSetter { path: p },
        ActionModel::ReportSetterFailed,
    ];
    assert(r.1 =~= acts);
    lemma_untouched_link(link, acts);
}

/// A fully successful run offers the candidates, applies the selection,
/// repoints the link at it, and sends the success notification naming it:
/// afterwards the link points at the selected path, whatever it was before.
pub proof fn lemma_success_run(
    dir: Seq<char>,
    entries: Seq<FileEntry>,
    output: Seq<char>,
    outcome: RemoveOutcome,
    link: Option<Seq<char>>,
)
    requires
        !(catalog_of(entries) =~= Map::<Seq<char>, Seq<char>>::empty()),
        spec_selection(catalog_of(entries), true, output) is Some,
        !(outcome is Failed),
    ensures
        ({
            let p = spec_selection(catalog_of(entries), true, output)->Some_0;
            let r = run_model(
                StateModel::Scanning { dir },
                seq![
                    EventModel::Scanned { entries },
                    EventModel::PickerDone { exit_ok: true, output },
                    EventModel::SetterDone { exit_ok: true },
                    EventModel::RemoveDone { outcome },
                    EventModel::LinkDone { ok: true },
                ],
            );
            &&& r.0 == StateModel::Finished
            &&& r.1 =~= seq![
                ActionModel::RunPicker { names: catalog_of(entries).dom() },
                ActionModel::RunSetter { path: p },
                ActionModel::RemoveLink,
                ActionModel::CreateLink { target: p },
                ActionModel::NotifySuccess { message: spec_success_message(p) },
            ]
            &&& link_after(link, r.1) == Option::Some(p)
        }),
{
    reveal_with_fuel(run_model, 8);
    reveal_with_fuel(link_after, 8);
    let events = seq![
        EventModel::Scanned { entries },
        EventModel::PickerDone { exit_ok: true, output },
        EventModel::SetterDone { exit_ok: true },
        EventModel::RemoveDone { outcome },
        EventModel::LinkDone { ok: true },
    ];
    let cat = catalog_of(entries);
    let p = spec_selection(cat, true, output)->Some_0;
    let e1 = events.drop_first();
    assert(e1 =~= seq![
        EventModel::PickerDone { exit_ok: true, output },
        EventModel::SetterDone { exit_ok: true },
        EventModel::RemoveDone { outcome },
        EventModel::LinkDone { ok: true },
    ]);
    let e2 = e1.drop_first();
    assert(e2 =~= seq![
        EventModel::SetterDone { exit_ok: true },
        EventModel::RemoveDone { outcome },
        EventModel::LinkDone { ok: true },
    ]);
    let e3 = e2.drop_first();
    assert(e3 =~= seq![EventModel::RemoveDone { outcome }, EventModel::LinkDone { ok: true }]);
    let e4 = e3.drop_first();
    assert(e4 =~= seq![EventModel::LinkDone { ok: true }]);
    assert(e4.drop_first().len() == 0);
    let r = run_model(StateModel::Scanning { dir }, events);
    let acts = seq![
        ActionModel::RunPicker { names: cat.dom() },
        ActionModel::RunSetter { path: p },
        ActionModel::RemoveLink,
        ActionModel::CreateLink { target: p },
        ActionModel::NotifySuccess { message: spec_success_message(p) },
    ];
    assert(r.1 =~= acts);
    assert(link_after(link, acts) == Option::Some(p)) by {
        let a1 = acts.drop_first();
        assert(a1 =~= acts.subrange(1, 5));
        let a2 = a1.drop_first();
        let a3 = a2.drop_first();
        let a4 = a3.drop_first();
        assert(a4.drop_first().len() == 0);
    }
}

/// Running the tool twice with two successful selections leaves the link
/// pointing at the second selection only: each run removes the old link and
/// creates the new one afresh.
pub proof fn lemma_rerun_keeps_last(
    dir: Seq<char>,
    entries1: Seq<FileEntry>,
    output1: Seq<char>,
    outcome1: RemoveOutcome,
    entries2: Seq<FileEntry>,
    output2: Seq<char>,
    outcome2: RemoveOutcome,
    link: Option<Seq<char>>,
)
    requires
        !(catalog_of(entries1) =~= Map::<Seq<char>, Seq<char>>::empty()),
        spec_selection(catalog_of(entries1), true, output1) is Some,
        !(outcome1 is Failed),
        !(catalog_of(entries2) =~= Map::<Seq<char>, Seq<char>>::empty()),
        spec_selection(catalog_of(entries2), true, output2) is Some,
        !(outcome2 is Failed),
    ensures
        ({
            let r1 = run_model(
                StateModel::Scanning { dir },
                seq![
                    EventModel::Scanned { entries: entries1 },
                    EventModel::PickerDone { exit_ok: true, output: output1 },
                    EventModel::SetterDone { exit_ok: true },
                    EventModel::RemoveDone { outcome: outcome1 },
                    EventModel::LinkDone { ok: true },
                ],
            );
            let r2 = run_model(
                StateModel::Scanning { dir },
                seq![
                    EventModel::Scanned { entries: entries2 },
                    EventModel::PickerDone { exit_ok: true, output: output2 },
                    EventModel::SetterDone { exit_ok: true },
                    EventModel::RemoveDone { outcome: outcome2 },
                    EventModel::LinkDone { ok: true },
                ],
            );
            link_after(link_after(link, r1.1), r2.1) == Option::Some(
                spec_selection(catalog_of(entries2), true, output2)->Some_0,
            )
        }),
{
    lemma_success_run(dir, entries1, output1, outcome1, link);
    let r1 = run_model(
        StateModel::Scanning { dir },
        seq![
            EventModel::Scanned { entries: entries1 },
            EventModel::PickerDone { exit_ok: true, output: output1 },
            EventModel::SetterDone { exit_ok: true },
            EventModel::RemoveDone { outcome: outcome1 },
            EventModel::LinkDone { ok: true },
        ],
    );
    lemma_success_run(dir, entries2, output2, outcome2, link_after(link, r1.1));
}

} // verus!
