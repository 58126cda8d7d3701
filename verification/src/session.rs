//! The session controller: what the launcher does on each event.
//!
//! The controller owns the catalog, the current view, the settings and the
//! usage store. An event changes that state and yields an action for the
//! surrounding program to perform: nothing, the launch of a command, the
//! report of a failure, or the end of the program.

use vstd::prelude::*;
use vstd::utf8::encode_utf8;
use crate::command::{
    custom_argv,
    custom_command,
    desktop_argv,
    desktop_command,
    shell_split,
    substituted,
    LaunchError,
};
use crate::config::{find_mode, CustomMode, OnagreSettings};
use crate::db::entity::{next_weight, DesktopEntryEntity};
use crate::db::Database;
use crate::entries::{
    desktop_matches,
    extended,
    first_entries,
    fresh_pools,
    mode_first_entries,
    mode_matches,
    Entries,
    MatchedEntries,
    VIEW_LIMIT,
};
use crate::freedesktop::{DesktopEntry, IconPath};
use crate::mode::Mode;
use crate::pools::Pools;
use crate::text::texts;

verus! {

/// A key that the launcher knows.
#[derive(Clone, Copy, Debug, PartialEq, Eq, Structural)]
pub enum KeyCode {
    Up,
    Down,
    Enter,
    Tab,
    Escape,
    Other,
}

/// What the window reports.
#[derive(Clone, Copy, Debug, PartialEq, Eq, Structural)]
pub enum Event {
    KeyPressed(KeyCode),
    Other,
}

/// What reaches the session.
#[derive(Debug, PartialEq, Eq)]
pub enum Message {
    /// The input line now holds this text.
    InputChanged(String),
    /// The scan found a desktop entry.
    DesktopEntryEvent(DesktopEntry),
    /// The source command of the mode with this name gave these lines.
    CustomModeEvent(String, Vec<String>),
    /// The window reported an event.
    EventOccurred(Event),
}

/// What the surrounding program is to do after an event.
#[derive(Debug, PartialEq, Eq)]
pub enum Action {
    /// Nothing.
    Idle,
    /// Start `argv` as a process. `usage` is the record that the usage store
    /// now holds for the launched entry, to be written out. With `exit` the
    /// program ends once the process was started.
    Launch { argv: Vec<String>, usage: Option<DesktopEntryEntity>, exit: bool },
    /// Report that the selection cannot be launched.
    Fail(LaunchError),
    /// End the program because the user left.
    Quit,
}

/// A source of events that is to be listened to.
#[derive(Debug, PartialEq, Eq)]
pub enum Feed {
    /// The window's own events.
    Events,
    /// The scan for desktop entries.
    DesktopEntries,
    /// The output lines of the source command of a custom mode.
    Command { mode: String, source: String },
}

/// A row of the view.
#[derive(Debug, PartialEq, Eq)]
pub struct Row {
    pub content: String,
    pub icon: Option<IconPath>,
    pub selected: bool,
}

/// An item of the mode menu.
#[derive(Debug, PartialEq, Eq)]
pub struct MenuItem {
    pub label: String,
    pub selected: bool,
}

/// What the window shows: the mode menu, the input line and the rows.
#[derive(Debug, PartialEq, Eq)]
pub struct Screen {
    pub menu: Vec<MenuItem>,
    pub input_value: String,
    pub rows: Vec<Row>,
}

/// What the interface shows and what the user has typed and selected.
pub struct State {
    pub loading: bool,
    /// The place of the active mode among the modes.
    pub mode_button_idx: usize,
    /// The place of the selected entry in the view.
    pub selected: usize,
    pub matches: MatchedEntries,
    pub input_value: String,
}

/// The state in which a session starts.
pub open spec fn is_initial_state(state: State) -> bool {
    &&& state.loading
    &&& state.mode_button_idx == 0
    &&& state.selected == 0
    &&& state.matches.desktop_entries@ == Seq::<DesktopEntry>::empty()
    &&& state.matches.custom_entries@ == Map::<Seq<char>, Seq<Seq<char>>>::empty().insert(
        "placeholder"@,
        Seq::empty(),
    )
    &&& state.input_value@ == Seq::<char>::empty()
}

impl Default for State {
    fn default() -> (state: Self)
        ensures
            is_initial_state(state),
    {
        let mut custom_entries = Pools::new();
        let none: Vec<String> = Vec::new();
        assert(texts(none@) =~= Seq::<Seq<char>>::empty());
        custom_entries.insert("placeholder".to_string(), none);
        State {
            loading: true,
            mode_button_idx: 0,
            selected: 0,
            matches: MatchedEntries { desktop_entries: Vec::new(), custom_entries },
            input_value: String::new(),
        }
    }
}

/// The launcher's session.
pub struct Onagre {
    pub modes: Vec<Mode>,
    pub entries: Entries,
    pub state: State,
    pub settings: OnagreSettings,
    pub db: Database<DesktopEntryEntity>,
}

/// The modes of a session with these custom modes: the desktop mode first,
/// then the custom modes in their order.
pub open spec fn initial_modes(custom: Seq<CustomMode>) -> Seq<Mode> {
    seq![Mode::Drun] + Seq::new(custom.len(), |i: int| Mode::Custom(custom[i].name))
}

/// The view of the desktop pool for an input: the first entries for the
/// empty input, else what matches.
pub open spec fn desktop_view(
    pool: Seq<DesktopEntry>,
    store: Map<Seq<u8>, DesktopEntryEntity>,
    input: Seq<char>,
) -> Seq<DesktopEntry> {
    if input.len() == 0 {
        first_entries(pool)
    } else {
        desktop_matches(pool, store, input)
    }
}

/// The view of a custom mode for an input: the first lines of its pool for
/// the empty input, else what matches; nothing for a mode without a pool.
pub open spec fn custom_view(
    pools: Map<Seq<char>, Seq<Seq<char>>>,
    mode: Seq<char>,
    input: Seq<char>,
) -> Seq<Seq<char>> {
    if input.len() == 0 {
        mode_first_entries(pools, mode)
    } else {
        mode_matches(pools, mode, input)
    }
}

/// `after` is `before` in all but the selection and the view.
pub open spec fn same_but_view(before: Onagre, after: Onagre) -> bool {
    &&& after.modes == before.modes
    &&& after.entries == before.entries
    &&& after.settings == before.settings
    &&& after.db == before.db
    &&& after.state.loading == before.state.loading
    &&& after.state.mode_button_idx == before.state.mode_button_idx
    &&& after.state.input_value == before.state.input_value
}

/// `after` is `before` with the view of the active mode made anew from the
/// catalog and the input, and the first entry selected. The views of the
/// other modes stay.
pub open spec fn refreshed(before: Onagre, after: Onagre) -> bool {
    &&& same_but_view(before, after)
    &&& after.state.selected == 0
    &&& match before.current_mode() {
        Mode::Drun => {
            &&& after.state.matches.desktop_entries@ == desktop_view(
                before.entries.desktop_entries@,
                before.db@,
                before.state.input_value@,
            )
            &&& after.state.matches.custom_entries@ == before.state.matches.custom_entries@
        },
        Mode::Custom(name) => {
            &&& after.state.matches.desktop_entries@ == before.state.matches.desktop_entries@
            &&& after.state.matches.custom_entries@
                == before.state.matches.custom_entries@.insert(
                name@,
                custom_view(before.entries.custom_entries@, name@, before.state.input_value@),
            )
        },
    }
}

/// The place of the mode that follows the mode at `idx` among `count`
/// modes: the first follows the last.
pub open spec fn next_mode_idx(idx: usize, count: usize) -> usize {
    if idx + 1 >= count {
        0
    } else {
        (idx + 1) as usize
    }
}

/// `before` with the mode at `idx` active.
pub open spec fn with_mode(before: Onagre, idx: usize) -> Onagre {
    Onagre { state: State { mode_button_idx: idx, ..before.state }, ..before }
}

/// `after` is `before` in all but the usage store.
pub open spec fn same_but_db(before: Onagre, after: Onagre) -> bool {
    &&& after.modes == before.modes
    &&& after.entries == before.entries
    &&& after.settings == before.settings
    &&& after.state == before.state
}

/// The selected entry of the desktop view, if the selection points at one.
pub open spec fn selected_entry(app: Onagre) -> Option<DesktopEntry> {
    if app.state.selected < app.state.matches.desktop_entries.len() {
        Some(app.state.matches.desktop_entries[app.state.selected as int])
    } else {
        None
    }
}

/// The selected text of the view of mode `mode`, if the selection points at
/// one.
pub open spec fn selected_text(app: Onagre, mode: Seq<char>) -> Option<Seq<char>> {
    let views = app.state.matches.custom_entries@;
    if views.contains_key(mode) && app.state.selected < views[mode].len() {
        Some(views[mode][app.state.selected as int])
    } else {
        None
    }
}

/// The argument vector that a confirmed selection launches, or why it
/// launches none.
pub open spec fn planned_command(app: Onagre) -> Result<Seq<Seq<char>>, LaunchError> {
    match app.current_mode() {
        Mode::Drun => match selected_entry(app) {
            Some(entry) => desktop_command(shell_split(entry.exec_command@)),
            None => Err(LaunchError::NothingSelected),
        },
        Mode::Custom(name) => match selected_text(app, name@) {
            Some(text) => match find_mode(app.settings.modes@, name@) {
                Some(mode) => custom_command(shell_split(substituted(mode.target@, text))),
                None => Err(LaunchError::NoTarget),
            },
            None => Err(LaunchError::NothingSelected),
        },
    }
}

/// The record that the usage store holds for `entry` once it was launched
/// from a store that held `store`.
pub open spec fn is_usage_of(
    record: DesktopEntryEntity,
    entry: DesktopEntry,
    store: Map<Seq<u8>, DesktopEntryEntity>,
) -> bool {
    &&& record.name == entry.name
    &&& record.icon == entry.icon
    &&& record.path@ == entry.path@
    &&& record.weight == next_weight(
        if store.contains_key(encode_utf8(entry.name@)) {
            Some(store[encode_utf8(entry.name@)].weight)
        } else {
            None
        },
    )
}

/// Confirming the selection of `before` gives `action` and leaves `after`:
/// the planned command is launched, or the failure reported. A launched
/// desktop entry has its usage recorded under its name; nothing else
/// changes, and nothing at all where nothing is launched.
pub open spec fn ran(before: Onagre, after: Onagre, action: Action) -> bool {
    &&& same_but_db(before, after)
    &&& match planned_command(before) {
        Ok(words) => {
            &&& action matches Action::Launch { argv, usage, exit }
            &&& texts(argv@) == words
            &&& exit == before.settings.exit_after_launch
            &&& match before.current_mode() {
                Mode::Drun => {
                    &&& usage matches Some(record)
                    &&& is_usage_of(record, selected_entry(before)->0, before.db@)
                    &&& after.db@ == before.db@.insert(encode_utf8(record.name@), record)
                },
                Mode::Custom(_) => usage is None && after.db == before.db,
            }
        },
        Err(e) => action == Action::Fail(e) && after.db == before.db,
    }
}

/// The number of entries in the view of the active mode.
pub open spec fn view_len(app: Onagre) -> nat {
    match app.current_mode() {
        Mode::Drun => app.state.matches.desktop_entries@.len(),
        Mode::Custom(name) => if app.state.matches.custom_entries@.contains_key(name@) {
            app.state.matches.custom_entries@[name@].len()
        } else {
            0
        },
    }
}

/// `before` with the entry at `selected` selected.
pub open spec fn with_selected(before: Onagre, selected: usize) -> Onagre {
    Onagre { state: State { selected, ..before.state }, ..before }
}

/// The selection after a step up: it stays on the first entry.
pub open spec fn step_up(selected: usize) -> usize {
    if selected != 0 {
        (selected - 1) as usize
    } else {
        selected
    }
}

/// The selection after a step down in a view of `len` entries: it stays on
/// the last entry.
pub open spec fn step_down(selected: usize, len: nat) -> usize {
    if len != 0 && selected < len - 1 {
        (selected + 1) as usize
    } else {
        selected
    }
}

/// The window's event `event` takes `before` to `after` and gives `action`.
pub open spec fn handled(before: Onagre, event: Event, after: Onagre, action: Action) -> bool {
    match event {
        Event::KeyPressed(KeyCode::Up) => {
            &&& after == with_selected(before, step_up(before.state.selected))
            &&& action is Idle
        },
        Event::KeyPressed(KeyCode::Down) => {
            &&& after == with_selected(before, step_down(before.state.selected, view_len(before)))
            &&& action is Idle
        },
        Event::KeyPressed(KeyCode::Enter) => ran(before, after, action),
        Event::KeyPressed(KeyCode::Tab) => {
            &&& refreshed(
                with_mode(before, next_mode_idx(before.state.mode_button_idx, before.modes.len())),
                after,
            )
            &&& action is Idle
        },
        Event::KeyPressed(KeyCode::Escape) => after == before && action is Quit,
        _ => after == before && action is Idle,
    }
}

/// `before` with `input` in the input line.
pub open spec fn with_input(before: Onagre, input: String) -> Onagre {
    Onagre { state: State { input_value: input, ..before.state }, ..before }
}

/// The message `message` takes `before` to `after` and gives `action`.
pub open spec fn updated(before: Onagre, message: Message, after: Onagre, action: Action) -> bool {
    match message {
        Message::CustomModeEvent(mode_name, lines) => {
            let mode = mode_name@;
            let pools = before.entries.custom_entries@;
            &&& after.modes == before.modes
            &&& after.settings == before.settings
            &&& after.db == before.db
            &&& after.state == before.state
            &&& after.entries.desktop_entries@ == before.entries.desktop_entries@
            &&& after.entries.custom_entries@ == extended(pools, mode, texts(lines@))
            &&& action is Idle
        },
        Message::InputChanged(input) => {
            &&& refreshed(with_input(before, input), after)
            &&& action is Idle
        },
        Message::EventOccurred(event) => handled(before, event, after, action),
        Message::DesktopEntryEvent(entry) => {
            &&& after.modes == before.modes
            &&& after.settings == before.settings
            &&& after.db == before.db
            &&& after.state == before.state
            &&& after.entries.desktop_entries@ == before.entries.desktop_entries@.push(entry)
            &&& after.entries.custom_entries@ == before.entries.custom_entries@
            &&& action is Idle
        },
    }
}

/// The feeds that a session in this state listens to: the window and the
/// scan, and the source command of the active mode if that is a custom mode
/// that the settings name.
pub open spec fn feeds_of(app: Onagre) -> Seq<Feed> {
    let base = seq![Feed::Events, Feed::DesktopEntries];
    match app.current_mode() {
        Mode::Drun => base,
        Mode::Custom(name) => match find_mode(app.settings.modes@, name@) {
            Some(mode) => base.push(Feed::Command { mode: name, source: mode.source }),
            None => base,
        },
    }
}

/// `menu` shows `modes` in their order, the one at `idx` marked.
pub open spec fn is_menu_of(menu: Seq<MenuItem>, modes: Seq<Mode>, idx: usize) -> bool {
    &&& menu.len() == modes.len()
    &&& forall|i: int|
        0 <= i < menu.len() ==> (#[trigger] menu[i]).label@ == modes[i].label() && menu[i].selected
            == (i == idx)
}

/// `rows` shows the desktop entries `view` in their order, each with its
/// name and icon, the one at `selected` marked.
pub open spec fn is_desktop_rows(rows: Seq<Row>, view: Seq<DesktopEntry>, selected: usize) -> bool {
    &&& rows.len() == view.len()
    &&& forall|i: int|
        0 <= i < rows.len() ==> {
            &&& (#[trigger] rows[i]).content@ == view[i].name@
            &&& rows[i].icon == view[i].icon
            &&& rows[i].selected == (i == selected)
        }
}

/// `rows` shows the first texts of `view`, up to the view limit, in their
/// order and without icons, the one at `selected` marked.
pub open spec fn is_custom_rows(rows: Seq<Row>, view: Seq<Seq<char>>, selected: usize) -> bool {
    &&& rows.len() == first_entries(view).len()
    &&& forall|i: int|
        0 <= i < rows.len() ==> {
            &&& (#[trigger] rows[i]).content@ == view[i]
            &&& rows[i].icon is None
            &&& rows[i].selected == (i == selected)
        }
}

/// `screen` shows the session `app`.
pub open spec fn is_screen_of(screen: Screen, app: Onagre) -> bool {
    &&& is_menu_of(screen.menu@, app.modes@, app.state.mode_button_idx)
    &&& screen.input_value@ == app.state.input_value@
    &&& match app.current_mode() {
        Mode::Drun => is_desktop_rows(
            screen.rows@,
            app.state.matches.desktop_entries@,
            app.state.selected,
        ),
        Mode::Custom(name) => is_custom_rows(
            screen.rows@,
            if app.state.matches.custom_entries@.contains_key(name@) {
                app.state.matches.custom_entries@[name@]
            } else {
                Seq::empty()
            },
            app.state.selected,
        ),
    }
}

/// `shorter` is the beginning of `longer`.
pub open spec fn begins_with<T>(longer: Seq<T>, shorter: Seq<T>) -> bool {
    shorter.len() <= longer.len() && longer.take(shorter.len() as int) == shorter
}

/// Whatever reaches the session, the catalog only grows: every pool keeps
/// the entries it had, in their order, and what is new stands behind them.
/// And the usage store changes only by the record of a launched desktop
/// entry.
pub proof fn lemma_catalog_only_grows(
    before: Onagre,
    message: Message,
    after: Onagre,
    action: Action,
)
    requires
        updated(before, message, after, action),
    ensures
        begins_with(after.entries.desktop_entries@, before.entries.desktop_entries@),
        forall|mode: Seq<char>| #[trigger]
            before.entries.custom_entries@.contains_key(mode)
                ==> after.entries.custom_entries@.contains_key(mode) && begins_with(
                after.entries.custom_entries@[mode],
                before.entries.custom_entries@[mode],
            ),
        after.db@ != before.db@ ==> action is Launch && action->usage is Some,
{
    let pool = before.entries.desktop_entries@;
    assert(pool.take(pool.len() as int) =~= pool);
    assert forall|mode: Seq<char>| #[trigger]
        before.entries.custom_entries@.contains_key(mode) implies after.entries.custom_entries@.contains_key(
        mode,
    ) && begins_with(
        after.entries.custom_entries@[mode],
        before.entries.custom_entries@[mode],
    ) by {
        let lines = before.entries.custom_entries@[mode];
        assert(lines.take(lines.len() as int) =~= lines);
        match message {
            Message::CustomModeEvent(name, added) => {
                if name@ == mode {
                    assert((lines + texts(added@)).take(lines.len() as int) =~= lines);
                }
            },
            Message::DesktopEntryEvent(entry) => {},
            _ => {},
        }
    }
    match message {
        Message::DesktopEntryEvent(entry) => {
            assert(pool.push(entry).take(pool.len() as int) =~= pool);
        },
        _ => {},
    }
}

impl Onagre {
    /// The active mode is one of the modes.
    pub open spec fn wf(&self) -> bool {
        self.state.mode_button_idx < self.modes.len()
    }

    /// The active mode.
    pub open spec fn current_mode(&self) -> Mode {
        self.modes[self.state.mode_button_idx as int]
    }

    /// Whether the active mode is one of the modes, which every session
    /// that `new` made and that only the methods below changed has.
    pub fn is_well_formed(&self) -> (r: bool)
        ensures
            r == self.wf(),
    {
        self.state.mode_button_idx < self.modes.len()
    }

    /// A session over `settings` and the usage store `db`: the desktop mode
    /// and the configured custom modes, an empty catalog with a pool for
    /// each custom mode, the desktop mode active and nothing typed.
    pub fn new(settings: OnagreSettings, db: Database<DesktopEntryEntity>) -> (app: Self)
        ensures
            app.wf(),
            app.modes@ == initial_modes(settings.modes@),
            app.entries.desktop_entries@ == Seq::<DesktopEntry>::empty(),
            app.entries.custom_entries@ == fresh_pools(app.modes@),
            is_initial_state(app.state),
            app.settings == settings,
            app.db == db,
    {
        let mut modes: Vec<Mode> = Vec::new();
        modes.push(Mode::Drun);
        let mut i: usize = 0;
        while i < settings.modes.len()
            invariant
                i <= settings.modes.len(),
                modes@ == initial_modes(settings.modes@.take(i as int)),
            decreases settings.modes.len() - i,
        {
            modes.push(Mode::Custom(settings.modes[i].name.clone()));
            assert(modes@ =~= initial_modes(settings.modes@.take(i + 1)));
            i = i + 1;
        }
        assert(settings.modes@.take(settings.modes.len() as int) =~= settings.modes@);
        let entries = Entries::new(modes.as_slice());
        Onagre { modes, entries, state: State::default(), settings, db }
    }

    /// The active mode.
    pub fn get_current_mode(&self) -> (mode: &Mode)
        requires
            self.wf(),
        ensures
            *mode == self.current_mode(),
    {
        &self.modes[self.state.mode_button_idx]
    }

    /// Replaces the view of desktop entries.
    pub fn set_desktop_matches(&mut self, matches: Vec<DesktopEntry>)
        ensures
            same_but_view(*old(self), *final(self)),
            final(self).state.selected == old(self).state.selected,
            final(self).state.matches.desktop_entries == matches,
            final(self).state.matches.custom_entries == old(self).state.matches.custom_entries,
    {
        self.state.matches.desktop_entries = matches;
    }

    /// Replaces the view of mode `mode_key`.
    pub fn set_custom_matches(&mut self, mode_key: &str, matches: Vec<String>)
        ensures
            same_but_view(*old(self), *final(self)),
            final(self).state.selected == old(self).state.selected,
            final(self).state.matches.desktop_entries == old(self).state.matches.desktop_entries,
            final(self).state.matches.custom_entries@
                == old(self).state.matches.custom_entries@.insert(mode_key@, texts(matches@)),
    {
        self.state.matches.custom_entries.insert(mode_key.to_string(), matches);
    }

    /// Makes the view of the active mode anew from the catalog and the
    /// input, and selects its first entry.
    pub fn reset_matches(&mut self)
        requires
            old(self).wf(),
        ensures
            final(self).wf(),
            refreshed(*old(self), *final(self)),
    {
        self.state.selected = 0;
        let mode = self.modes[self.state.mode_button_idx].clone();
        match mode {
            Mode::Drun => {
                if self.state.input_value.as_str().is_empty() {
                    let matches = self.entries.take_50_desktop_entries();
                    self.set_desktop_matches(matches);
                } else {
                    let matches = self.entries.get_matches(self.state.input_value.as_str(), &self.db);
                    self.set_desktop_matches(matches);
                }
            },
            Mode::Custom(mode_name) => {
                if self.state.input_value.as_str().is_empty() {
                    let matches = self.entries.take_50_custom_entries(mode_name.as_str());
                    self.set_custom_matches(mode_name.as_str(), matches);
                } else {
                    let matches = self.entries.get_matches_custom_mode(
                        mode_name.as_str(),
                        self.state.input_value.as_str(),
                    );
                    self.set_custom_matches(mode_name.as_str(), matches);
                }
            },
        }
    }

    /// Makes the next mode the active one, the first after the last, and
    /// makes that mode's view anew.
    pub fn cycle_mode(&mut self)
        requires
            old(self).wf(),
        ensures
            final(self).wf(),
            refreshed(
                with_mode(
                    *old(self),
                    next_mode_idx(old(self).state.mode_button_idx, old(self).modes.len()),
                ),
                *final(self),
            ),
    {
        if self.state.mode_button_idx == self.modes.len() - 1 {
            self.state.mode_button_idx = 0;
        } else {
            self.state.mode_button_idx = self.state.mode_button_idx + 1;
        }
        self.reset_matches();
    }

    /// Turns the selection into a command. A desktop entry that can be
    /// launched has one more use recorded in the usage store.
    pub fn run_command(&mut self) -> (action: Action)
        requires
            old(self).wf(),
        ensures
            final(self).wf(),
            ran(*old(self), *final(self), action),
    {
        let exit = self.settings.exit_after_launch;
        match &self.modes[self.state.mode_button_idx] {
            Mode::Drun => {
                let selected = self.state.selected;
                if selected >= self.state.matches.desktop_entries.len() {
                    return Action::Fail(LaunchError::NothingSelected);
                }
                let entry = &self.state.matches.desktop_entries[selected];
                let planned = desktop_argv(entry.exec_command.as_str());
                match planned {
                    Ok(argv) => {
                        let record = DesktopEntryEntity::persist(
                            entry,
                            entry.path.as_str(),
                            &mut self.db,
                        );
                        Action::Launch { argv, usage: Some(record), exit }
                    },
                    Err(e) => Action::Fail(e),
                }
            },
            Mode::Custom(mode_name) => {
                let selected = self.state.selected;
                let text = match self.state.matches.custom_entries.get(mode_name.as_str()) {
                    Some(lines) => {
                        if selected >= lines.len() {
                            return Action::Fail(LaunchError::NothingSelected);
                        }
                        &lines[selected]
                    },
                    None => {
                        return Action::Fail(LaunchError::NothingSelected);
                    },
                };
                let target = match self.settings.get(mode_name.as_str()) {
                    Some(mode) => &mode.target,
                    None => {
                        return Action::Fail(LaunchError::NoTarget);
                    },
                };
                match custom_argv(target.as_str(), text.as_str()) {
                    Ok(argv) => Action::Launch { argv, usage: None, exit },
                    Err(e) => Action::Fail(e),
                }
            },
        }
    }

    /// Reacts to an event of the window: the arrow keys move the selection,
    /// the enter key confirms it, the tabulator key goes to the next mode,
    /// the escape key ends the program. Any other event changes nothing.
    pub fn handle_input(&mut self, event: Event) -> (action: Action)
        requires
            old(self).wf(),
        ensures
            final(self).wf(),
            handled(*old(self), event, *final(self), action),
    {
        match event {
            Event::KeyPressed(key_code) => match key_code {
                KeyCode::Up => {
                    if self.state.selected != 0 {
                        self.state.selected = self.state.selected - 1;
                    }
                    Action::Idle
                },
                KeyCode::Down => {
                    let max_idx = match &self.modes[self.state.mode_button_idx] {
                        Mode::Drun => self.state.matches.desktop_entries.len(),
                        Mode::Custom(name) => match self.state.matches.custom_entries.get(
                            name.as_str(),
                        ) {
                            Some(lines) => lines.len(),
                            None => 0,
                        },
                    };
                    if max_idx != 0 && self.state.selected < max_idx - 1 {
                        self.state.selected = self.state.selected + 1;
                    }
                    Action::Idle
                },
                KeyCode::Enter => self.run_command(),
                KeyCode::Tab => {
                    self.cycle_mode();
                    Action::Idle
                },
                KeyCode::Escape => Action::Quit,
                KeyCode::Other => Action::Idle,
            },
            Event::Other => Action::Idle,
        }
    }

    /// Takes in a message: lines of a mode's source go behind that mode's
    /// pool, whichever mode is active; a desktop entry goes behind the
    /// desktop pool; a changed input makes the view anew; and an event of the
    /// window is handled.
    pub fn update(&mut self, message: Message) -> (action: Action)
        requires
            old(self).wf(),
        ensures
            final(self).wf(),
            updated(*old(self), message, *final(self), action),
    {
        match message {
            Message::CustomModeEvent(mode_name, lines) => {
                self.entries.extend_custom_entries(mode_name.as_str(), lines);
                Action::Idle
            },
            Message::InputChanged(input) => {
                self.state.input_value = input;
                self.reset_matches();
                Action::Idle
            },
            Message::EventOccurred(event) => self.handle_input(event),
            Message::DesktopEntryEvent(entry) => {
                self.entries.push_desktop_entry(entry);
                Action::Idle
            },
        }
    }

    /// The feeds to listen to in this state.
    pub fn subscription(&self) -> (feeds: Vec<Feed>)
        requires
            self.wf(),
        ensures
            feeds@ == feeds_of(*self),
    {
        let mut feeds: Vec<Feed> = Vec::new();
        feeds.push(Feed::Events);
        feeds.push(Feed::DesktopEntries);
        if let Mode::Custom(name) = &self.modes[self.state.mode_button_idx] {
            if let Some(mode) = self.settings.get(name.as_str()) {
                feeds.push(Feed::Command { mode: name.clone(), source: mode.source.clone() });
            }
        }
        assert(feeds@ =~= feeds_of(*self));
        feeds
    }

    /// The window's title.
    pub fn title(&self) -> (title: String)
        ensures
            title@ == "Onagre"@,
    {
        "Onagre".to_string()
    }

    /// The items of the mode menu: one for each mode, the one at `mode_idx`
    /// marked.
    pub fn build_mode_menu(mode_idx: usize, modes: &[Mode]) -> (menu: Vec<MenuItem>)
        ensures
            is_menu_of(menu@, modes@, mode_idx),
    {
        let mut menu: Vec<MenuItem> = Vec::new();
        let mut idx: usize = 0;
        while idx < modes.len()
            invariant
                idx <= modes.len(),
                menu.len() == idx,
                forall|i: int|
                    0 <= i < idx ==> (#[trigger] menu[i]).label@ == modes[i].label()
                        && menu[i].selected == (i == mode_idx),
            decreases modes.len() - idx,
        {
            menu.push(MenuItem { label: modes[idx].to_string(), selected: idx == mode_idx });
            idx = idx + 1;
        }
        menu
    }

    /// A row that is not selected.
    pub fn build_row(content: &str, icon: Option<&IconPath>) -> (row: Row)
        ensures
            row.content@ == content@,
            match icon {
                Some(icon) => row.icon == Some(*icon),
                None => row.icon is None,
            },
            !row.selected,
    {
        let icon = match icon {
            Some(icon) => Some(icon.clone()),
            None => None,
        };
        Row { content: content.to_string(), icon, selected: false }
    }

    /// The selected row.
    pub fn build_row_selected(content: &str, icon: Option<&IconPath>) -> (row: Row)
        ensures
            row.content@ == content@,
            match icon {
                Some(icon) => row.icon == Some(*icon),
                None => row.icon is None,
            },
            row.selected,
    {
        let icon = match icon {
            Some(icon) => Some(icon.clone()),
            None => None,
        };
        Row { content: content.to_string(), icon, selected: true }
    }

    /// What the window shows in this state: the mode menu, the input line,
    /// and a row for each entry of the active mode's view. A custom mode
    /// shows no more rows than the view limit.
    pub fn view(&self) -> (screen: Screen)
        requires
            self.wf(),
        ensures
            is_screen_of(screen, *self),
    {
        let menu = Self::build_mode_menu(self.state.mode_button_idx, self.modes.as_slice());
        let mut rows: Vec<Row> = Vec::new();
        match &self.modes[self.state.mode_button_idx] {
            Mode::Drun => {
                let entries = &self.state.matches.desktop_entries;
                let mut idx: usize = 0;
                while idx < entries.len()
                    invariant
                        idx <= entries.len(),
                        is_desktop_rows(rows@, entries@.take(idx as int), self.state.selected),
                    decreases entries.len() - idx,
                {
                    let entry = &entries[idx];
                    let row = if idx == self.state.selected {
                        Self::build_row_selected(entry.name.as_str(), entry.icon.as_ref())
                    } else {
                        Self::build_row(entry.name.as_str(), entry.icon.as_ref())
                    };
                    rows.push(row);
                    idx = idx + 1;
                }
                assert(entries@.take(entries.len() as int) =~= entries@);
            },
            Mode::Custom(name) => {
                if let Some(lines) = self.state.matches.custom_entries.get(name.as_str()) {
                    let shown = if lines.len() <= VIEW_LIMIT {
                        lines.len()
                    } else {
                        VIEW_LIMIT
                    };
                    let mut idx: usize = 0;
                    while idx < shown
                        invariant
                            idx <= shown <= lines.len(),
                            shown == first_entries(texts(lines@)).len(),
                            rows.len() == idx,
                            forall|i: int|
                                0 <= i < idx ==> {
                                    &&& (#[trigger] rows[i]).content@ == lines[i]@
                                    &&& rows[i].icon is None
                                    &&& rows[i].selected == (i == self.state.selected)
                                },
                        decreases shown - idx,
                    {
                        let row = if idx == self.state.selected {
                            Self::build_row_selected(lines[idx].as_str(), None)
                        } else {
                            Self::build_row(lines[idx].as_str(), None)
                        };
                        rows.push(row);
                        idx = idx + 1;
                    }
                }
            },
        }
        Screen { menu, input_value: self.state.input_value.clone(), rows }
    }
}

} // verus!
