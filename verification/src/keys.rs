//! What keys do to the dashboard.

use vstd::prelude::*;

use crate::app::{AccountInfo, App, Shell};
use crate::chat::opt;
use crate::config_editor::{place_in, FloatCheck};
use crate::config_pane::{
    can_be_typed, drop_last_char, edit_confirmed, edit_ended, edit_started, enum_cycled, is_changed,
    is_enum, text_typed, turned, value_set, without_last, ConfigPane,
};
use crate::log_pane::{filters_cleared, level_turned, minus, LogPane};
use crate::tabs::{tab_after, tab_before, Tab};
use crate::text::{same, views};

verus! {

/// A key that was pressed.
#[derive(Debug, Clone, Copy, PartialEq, Eq, Structural)]
pub enum Key {
    Char(char),
    Enter,
    Esc,
    Up,
    Down,
    Left,
    Right,
    Tab,
    BackTab,
    Backspace,
    PageUp,
    PageDown,
    Home,
    End,
    Other,
}

/// What is left to be done outside the dashboard's state.
#[derive(Debug, Clone, PartialEq)]
pub enum Action {
    Nothing,
    /// Turn an account on or off, and read the accounts anew.
    ToggleAccount(String),
    /// Make an account the active one, and read the accounts anew.
    ActivateAccount(String),
    /// Read the accounts anew.
    RefreshAccounts,
    SaveConfig,
    RestartDaemon,
    /// Open the project's page.
    OpenLink,
    /// Take hold of the scrollbar, in this row.
    GrabScrollbar(u16),
    /// Scroll to where the scrollbar's thumb would be in this row.
    DragScrollbar(u16),
}

/// Where an email stands in the list of accounts: behind the entry for all of them; at that
/// entry where it is not in the list or there is none.
pub open spec fn dropdown_place(emails: Seq<Seq<char>>, filter: Option<Seq<char>>) -> int {
    match filter {
        Some(e) => match place_in(emails, e, 0) {
            Some(i) => i + 1,
            None => 0,
        },
        None => 0,
    }
}

/// Where an email stands in the list of accounts.
fn find_place(emails: &Vec<String>, filter: &Option<String>) -> (r: usize)
    ensures
        r == dropdown_place(views(emails@), opt(*filter)),
{
    match filter {
        Some(e) => {
            let n: usize = emails.len();
            let mut i: usize = 0;
            while i < n
                invariant
                    i <= n == emails@.len(),
                    *filter == Some(*e),
                    place_in(views(emails@), e@, 0) == place_in(views(emails@), e@, i as int),
                decreases n - i,
            {
                assert(views(emails@)[i as int] == emails@[i as int]@);
                if same(&emails[i], e) {
                    return i + 1;
                }
                i = i + 1;
            }
            0
        },
        None => 0,
    }
}

/// The filter that an entry of the list of accounts stands for: none for the first, and as it
/// was for one that is not there.
pub open spec fn chosen(
    emails: Seq<Seq<char>>,
    selected: int,
    was: Option<Seq<char>>,
) -> Option<Seq<char>> {
    if selected == 0 {
        None
    } else if selected - 1 < emails.len() {
        Some(emails[selected - 1])
    } else {
        was
    }
}

/// Whether `b` is `a` filtered by an entry of the list of accounts, which is closed.
pub open spec fn account_chosen(
    a: LogPane,
    emails: Seq<Seq<char>>,
    selected: int,
    b: LogPane,
) -> bool {
    &&& b == (LogPane {
        account_filter: b.account_filter,
        dropdown_open: false,
        filtered_indices: b.filtered_indices,
        ..a
    })
    &&& opt(b.account_filter) == chosen(emails, selected, opt(a.account_filter))
    &&& b.is_refiltered()
}

/// Filters by an entry of the list of accounts, and closes it.
pub fn choose_account(pane: &mut LogPane, emails: &Vec<String>, selected: usize)
    ensures
        account_chosen(*old(pane), views(emails@), selected as int, *final(pane)),
{
    if selected == 0 {
        pane.account_filter = None;
    } else if selected - 1 < emails.len() {
        pane.account_filter = Some(emails[selected - 1].clone());
    }
    pane.dropdown_open = false;
    pane.refilter();
}

/// What a key does in the list of accounts.
pub open spec fn dropdown_key(a: LogPane, emails: Seq<Seq<char>>, key: Key, b: LogPane) -> bool {
    match key {
        Key::Esc => b == (LogPane { dropdown_open: false, ..a }),
        Key::Up | Key::Char('k') => b == (LogPane {
            dropdown_selected: minus(a.dropdown_selected as int, 1) as usize,
            ..a
        }),
        Key::Down | Key::Char('j') => b == (LogPane {
            dropdown_selected: if a.dropdown_selected < emails.len() {
                (a.dropdown_selected + 1) as usize
            } else {
                a.dropdown_selected
            },
            ..a
        }),
        Key::Enter => account_chosen(a, emails, a.dropdown_selected as int, b),
        _ => b == a,
    }
}

/// A key in the list of accounts.
fn press_in_dropdown(pane: &mut LogPane, emails: &Vec<String>, key: Key)
    ensures
        dropdown_key(*old(pane), views(emails@), key, *final(pane)),
{
    match key {
        Key::Esc => {
            pane.dropdown_open = false;
        },
        Key::Up | Key::Char('k') => {
            if pane.dropdown_selected > 0 {
                pane.dropdown_selected = pane.dropdown_selected - 1;
            }
        },
        Key::Down | Key::Char('j') => {
            if pane.dropdown_selected < emails.len() {
                pane.dropdown_selected = pane.dropdown_selected + 1;
            }
        },
        Key::Enter => {
            let selected = pane.dropdown_selected;
            choose_account(pane, emails, selected);
        },
        _ => {},
    }
}

/// Whether `b` is `a` with another text searched for.
pub open spec fn searched(a: LogPane, query: Seq<char>, b: LogPane) -> bool {
    &&& b == (LogPane {
        search_query: b.search_query,
        filtered_indices: b.filtered_indices,
        ..a
    })
    &&& b.search_query@ == query
    &&& b.is_refiltered()
}

/// What a key does while a search is typed. What was typed stays when that ends.
pub open spec fn search_key(a: LogPane, key: Key, b: LogPane) -> bool {
    match key {
        Key::Esc | Key::Enter => b == (LogPane { search_active: false, ..a }),
        Key::Backspace => searched(a, without_last(a.search_query@), b),
        Key::Char(c) => searched(a, a.search_query@.push(c), b),
        _ => b == a,
    }
}

/// A key while a search is typed.
fn press_in_search(pane: &mut LogPane, key: Key)
    ensures
        search_key(*old(pane), key, *final(pane)),
{
    match key {
        Key::Esc | Key::Enter => {
            pane.search_active = false;
        },
        Key::Backspace => {
            pane.search_query = drop_last_char(&pane.search_query);
            pane.refilter();
        },
        Key::Char(c) => {
            pane.search_query.push(c);
            pane.refilter();
        },
        _ => {},
    }
}

/// What a key does to the log.
pub open spec fn log_key(a: LogPane, emails: Seq<Seq<char>>, key: Key, b: LogPane) -> bool {
    match key {
        Key::Up | Key::Char('k') => b == a.up(1),
        Key::Down | Key::Char('j') => b == a.down(1),
        Key::PageUp => b == a.up(10),
        Key::PageDown => b == a.down(10),
        Key::Home => b == a.scrolled_to(minus(a.entries@.len() as int, 1), false),
        Key::End => b == a.scrolled_to(0, true),
        Key::Char('/') => b == (LogPane { search_active: true, ..a }),
        Key::Char('d') => level_turned(a, 0, b),
        Key::Char('i') => level_turned(a, 1, b),
        Key::Char('w') => level_turned(a, 2, b),
        Key::Char('e') => level_turned(a, 3, b),
        Key::Char('a') => b == (LogPane {
            dropdown_open: true,
            dropdown_selected: dropdown_place(emails, opt(a.account_filter)) as usize,
            ..a
        }),
        Key::Char('c') => filters_cleared(a, b),
        _ => b == a,
    }
}

/// Opens the list of accounts, with the filter that is set selected.
pub fn open_dropdown(pane: &mut LogPane, emails: &Vec<String>)
    ensures
        *final(pane) == (LogPane {
            dropdown_open: true,
            dropdown_selected: dropdown_place(
                views(emails@),
                opt(old(pane).account_filter),
            ) as usize,
            ..*old(pane)
        }),
{
    let place = find_place(emails, &pane.account_filter);
    pane.dropdown_open = true;
    pane.dropdown_selected = place;
}

/// A key in the log.
fn press_in_log(pane: &mut LogPane, emails: &Vec<String>, key: Key)
    ensures
        log_key(*old(pane), views(emails@), key, *final(pane)),
{
    match key {
        Key::Up | Key::Char('k') => pane.scroll_up(1),
        Key::Down | Key::Char('j') => pane.scroll_down(1),
        Key::PageUp => pane.scroll_up(10),
        Key::PageDown => pane.scroll_down(10),
        Key::Home => {
            let n: usize = pane.entries.len();
            let most: usize = if n >= 1 {
                n - 1
            } else {
                0
            };
            pane.set_scroll(most, false);
        },
        Key::End => pane.set_scroll(0, true),
        Key::Char('/') => {
            pane.search_active = true;
        },
        Key::Char('d') => pane.toggle_level(0),
        Key::Char('i') => pane.toggle_level(1),
        Key::Char('w') => pane.toggle_level(2),
        Key::Char('e') => pane.toggle_level(3),
        Key::Char('a') => open_dropdown(pane, emails),
        Key::Char('c') => pane.clear_filters(),
        _ => {},
    }
}

/// What a key does to the settings, and what is left to be done.
pub open spec fn config_key(
    a: ConfigPane,
    key: Key,
    check: FloatCheck,
    b: ConfigPane,
    act: Action,
) -> bool {
    if key == Key::Enter {
        &&& act == Action::Nothing
        &&& if a.editing {
            edit_confirmed(a, check, b)
        } else if a.has_selection() && a.current().kind is Bool {
            value_set(a, turned(a.current().value), b)
        } else {
            edit_started(a, b)
        }
    } else if a.editing {
        act == Action::Nothing && b == a
    } else {
        match key {
            Key::Up | Key::Char('k') => act == Action::Nothing && b == (ConfigPane {
                selected: minus(a.selected as int, 1) as usize,
                ..a
            }),
            Key::Down | Key::Char('j') => act == Action::Nothing && b == (ConfigPane {
                selected: if a.selected + 1 < a.fields@.len() {
                    (a.selected + 1) as usize
                } else {
                    a.selected
                },
                ..a
            }),
            Key::Char(' ') => {
                &&& act == Action::Nothing
                &&& if a.has_selection() && a.current().kind is Bool {
                    value_set(a, turned(a.current().value), b)
                } else {
                    b == a
                }
            },
            Key::Char('s') => act == Action::SaveConfig && b == a,
            Key::Char('r') => b == a && act == (if a.needs_restart {
                Action::RestartDaemon
            } else {
                Action::Nothing
            }),
            _ => act == Action::Nothing && b == a,
        }
    }
}

/// A key in the settings.
fn press_in_config(pane: &mut ConfigPane, key: Key, check: FloatCheck) -> (act: Action)
    ensures
        config_key(*old(pane), key, check, *final(pane), act),
{
    if key == Key::Enter {
        pane.enter(check);
        return Action::Nothing;
    }
    if pane.editing {
        return Action::Nothing;
    }
    match key {
        Key::Up | Key::Char('k') => {
            pane.prev();
            Action::Nothing
        },
        Key::Down | Key::Char('j') => {
            pane.next();
            Action::Nothing
        },
        Key::Char(' ') => {
            pane.toggle_bool();
            Action::Nothing
        },
        Key::Char('s') => Action::SaveConfig,
        Key::Char('r') => {
            if pane.needs_restart {
                Action::RestartDaemon
            } else {
                Action::Nothing
            }
        },
        _ => Action::Nothing,
    }
}

/// The tab that a key leads to.
pub open spec fn tab_for(t: Tab, key: Key) -> Option<Tab> {
    match key {
        Key::Tab | Key::Right | Key::Char('l') => Some(tab_after(t)),
        Key::BackTab | Key::Left | Key::Char('h') => Some(tab_before(t)),
        Key::Char('1') => Some(Tab::Overview),
        Key::Char('2') => Some(Tab::Logs),
        Key::Char('3') => Some(Tab::Accounts),
        Key::Char('4') => Some(Tab::Config),
        Key::Char('5') => Some(Tab::Quota),
        Key::Char('6') => Some(Tab::About),
        _ => None,
    }
}

/// The tab that a key leads to.
fn find_tab(t: Tab, key: Key) -> (r: Option<Tab>)
    ensures
        r == tab_for(t, key),
{
    match key {
        Key::Tab | Key::Right | Key::Char('l') => Some(t.next()),
        Key::BackTab | Key::Left | Key::Char('h') => Some(t.prev()),
        Key::Char('1') => Some(Tab::Overview),
        Key::Char('2') => Some(Tab::Logs),
        Key::Char('3') => Some(Tab::Accounts),
        Key::Char('4') => Some(Tab::Config),
        Key::Char('5') => Some(Tab::Quota),
        Key::Char('6') => Some(Tab::About),
        _ => None,
    }
}

/// What a key does to the selection among the accounts, and what is left to be done.
pub open spec fn accounts_key(
    accounts: Seq<AccountInfo>,
    selected: usize,
    key: Key,
    next: usize,
    act: Action,
) -> bool {
    match key {
        Key::Up | Key::Char('k') => act == Action::Nothing && next == minus(selected as int, 1),
        Key::Down | Key::Char('j') => act == Action::Nothing && next == (if selected + 1
            < accounts.len() {
            selected + 1
        } else {
            selected as int
        }),
        Key::Char('e') => next == selected && act == (if selected < accounts.len() {
            Action::ToggleAccount(accounts[selected as int].id)
        } else {
            Action::Nothing
        }),
        Key::Enter => next == selected && act == (if selected < accounts.len() {
            Action::ActivateAccount(accounts[selected as int].id)
        } else {
            Action::Nothing
        }),
        Key::Char('r') => next == selected && act == Action::RefreshAccounts,
        _ => next == selected && act == Action::Nothing,
    }
}

/// A key among the accounts.
fn press_in_accounts(accounts: &Vec<AccountInfo>, selected: usize, key: Key) -> (r: (usize, Action))
    ensures
        accounts_key(accounts@, selected, key, r.0, r.1),
{
    let n: usize = accounts.len();
    match key {
        Key::Up | Key::Char('k') => (
            if selected > 0 {
                selected - 1
            } else {
                0
            },
            Action::Nothing,
        ),
        Key::Down | Key::Char('j') => (
            if n >= 1 && selected < n - 1 {
                selected + 1
            } else {
                selected
            },
            Action::Nothing,
        ),
        Key::Char('e') => {
            if selected < n {
                (selected, Action::ToggleAccount(accounts[selected].id.clone()))
            } else {
                (selected, Action::Nothing)
            }
        },
        Key::Enter => {
            if selected < n {
                (selected, Action::ActivateAccount(accounts[selected].id.clone()))
            } else {
                (selected, Action::Nothing)
            }
        },
        Key::Char('r') => (selected, Action::RefreshAccounts),
        _ => (selected, Action::Nothing),
    }
}

/// What a key does that is not taken by a popup, the list of accounts or a search: what all
/// tabs share comes first, but for what is typed into a setting.
pub open spec fn main_key(a: App, key: Key, check: FloatCheck, b: App, act: Action) -> bool {
    let t = a.shell.current_tab;
    let editing = t == Tab::Config && a.config.editing;
    let on_enum = t == Tab::Config && !a.config.editing && a.config.has_selection() && is_enum(
        a.config.current(),
    );
    if editing && key is Char {
        &&& act == Action::Nothing
        &&& b == (App { config: b.config, ..a })
        &&& if a.config.has_selection() && can_be_typed(a.config.current(), key->Char_0) {
            text_typed(a.config, a.config.edit_buffer@.push(key->Char_0), b.config)
        } else {
            b.config == a.config
        }
    } else if key == Key::Char('q') {
        act == Action::Nothing && b == (App { shell: Shell { running: false, ..a.shell }, ..a })
    } else if key == Key::Esc {
        &&& act == Action::Nothing
        &&& if editing {
            b == (App { config: b.config, ..a }) && edit_ended(a.config, b.config)
        } else if a.shell.show_help {
            b == (App { shell: Shell { show_help: false, ..a.shell }, ..a })
        } else {
            b == (App { shell: Shell { running: false, ..a.shell }, ..a })
        }
    } else if key == Key::Char('?') {
        act == Action::Nothing && b == (App {
            shell: Shell { show_help: !a.shell.show_help, ..a.shell },
            ..a
        })
    } else if editing && key == Key::Backspace {
        &&& act == Action::Nothing
        &&& b == (App { config: b.config, ..a })
        &&& text_typed(a.config, without_last(a.config.edit_buffer@), b.config)
    } else if on_enum && (key == Key::Left || key == Key::Right) {
        &&& act == Action::Nothing
        &&& b == (App { config: b.config, ..a })
        &&& enum_cycled(a.config, key == Key::Right, b.config)
    } else if tab_for(t, key) is Some {
        act == Action::Nothing && b == (App {
            shell: Shell {
                current_tab: tab_for(t, key)->0,
                trigger_tab_effect: true,
                ..a.shell
            },
            ..a
        })
    } else {
        match t {
            Tab::Accounts => {
                &&& b == (App { account_selected: b.account_selected, ..a })
                &&& accounts_key(a.accounts@, a.account_selected, key, b.account_selected, act)
            },
            Tab::Logs => {
                &&& act == Action::Nothing
                &&& b == (App { log: b.log, ..a })
                &&& log_key(a.log, a.emails(), key, b.log)
            },
            Tab::Config => {
                &&& b == (App { config: b.config, ..a })
                &&& config_key(a.config, key, check, b.config, act)
            },
            _ => act == Action::Nothing && b == a,
        }
    }
}

/// What a key does. The popup with the warnings takes it first, then the list of accounts,
/// then a search that is typed.
pub open spec fn key_step(a: App, key: Key, check: FloatCheck, b: App, act: Action) -> bool {
    if a.show_startup_warnings {
        act == Action::Nothing && b == (App {
            show_startup_warnings: key != Key::Enter && key != Key::Esc,
            ..a
        })
    } else if a.log.dropdown_open {
        &&& act == Action::Nothing
        &&& b == (App { log: b.log, ..a })
        &&& dropdown_key(a.log, a.emails(), key, b.log)
    } else if a.log.search_active {
        &&& act == Action::Nothing
        &&& b == (App { log: b.log, ..a })
        &&& search_key(a.log, key, b.log)
    } else {
        main_key(a, key, check, b, act)
    }
}

impl App {
    /// A key that is not taken by a popup, the list of accounts or a search.
    fn press(&mut self, key: Key, check: FloatCheck) -> (act: Action)
        ensures
            main_key(*old(self), key, check, *final(self), act),
    {
        let t = self.shell.current_tab;
        let editing = t == Tab::Config && self.config.editing;
        if editing {
            match key {
                Key::Char(c) => {
                    self.config.type_char(c);
                    return Action::Nothing;
                },
                _ => {},
            }
        }
        if key == Key::Char('q') {
            self.shell.running = false;
            return Action::Nothing;
        }
        if key == Key::Esc {
            if editing {
                self.config.cancel_edit();
            } else if self.shell.show_help {
                self.shell.show_help = false;
            } else {
                self.shell.running = false;
            }
            return Action::Nothing;
        }
        if key == Key::Char('?') {
            self.shell.show_help = !self.shell.show_help;
            return Action::Nothing;
        }
        if editing && key == Key::Backspace {
            self.config.backspace();
            return Action::Nothing;
        }
        if (key == Key::Left || key == Key::Right) && t == Tab::Config && !self.config.editing
            && self.config.selected_is_enum() {
            self.config.cycle_enum(key == Key::Right);
            return Action::Nothing;
        }
        match find_tab(t, key) {
            Some(next) => {
                self.shell.current_tab = next;
                self.shell.trigger_tab_effect = true;
                return Action::Nothing;
            },
            None => {},
        }
        match t {
            Tab::Accounts => {
                let (selected, act) = press_in_accounts(&self.accounts, self.account_selected, key);
                self.account_selected = selected;
                act
            },
            Tab::Logs => {
                let emails = self.log_account_emails();
                press_in_log(&mut self.log, &emails, key);
                Action::Nothing
            },
            Tab::Config => press_in_config(&mut self.config, key, check),
            _ => Action::Nothing,
        }
    }

    /// A key was pressed: changes the state, and says what is left to be done. What is typed
    /// into a setting is as a fraction is handed in.
    pub fn handle_key(&mut self, key: Key, check: FloatCheck) -> (act: Action)
        ensures
            key_step(*old(self), key, check, *final(self), act),
    {
        if self.show_startup_warnings {
            self.show_startup_warnings = key != Key::Enter && key != Key::Esc;
            return Action::Nothing;
        }
        if self.log.dropdown_open {
            let emails = self.log_account_emails();
            press_in_dropdown(&mut self.log, &emails, key);
            return Action::Nothing;
        }
        if self.log.search_active {
            press_in_search(&mut self.log, key);
            return Action::Nothing;
        }
        self.press(key, check)
    }

    /// Selects the setting before, where there is one.
    pub fn config_prev(&mut self)
        ensures
            *final(self) == (App {
                config: ConfigPane {
                    selected: minus(old(self).config.selected as int, 1) as usize,
                    ..old(self).config
                },
                ..*old(self)
            }),
    {
        self.config.prev();
    }

    /// Selects the setting behind, where there is one.
    pub fn config_next(&mut self)
        ensures
            *final(self) == (App {
                config: ConfigPane {
                    selected: if old(self).config.selected + 1 < old(self).config.fields@.len() {
                        (old(self).config.selected + 1) as usize
                    } else {
                        old(self).config.selected
                    },
                    ..old(self).config
                },
                ..*old(self)
            }),
    {
        self.config.next();
    }

    /// Starts to edit the setting that is selected.
    pub fn config_start_edit(&mut self)
        ensures
            *final(self) == (App { config: final(self).config, ..*old(self) }),
            edit_started(old(self).config, final(self).config),
    {
        self.config.start_edit();
    }

    /// Stops editing and leaves the setting as it was.
    pub fn config_cancel_edit(&mut self)
        ensures
            *final(self) == (App { config: final(self).config, ..*old(self) }),
            edit_ended(old(self).config, final(self).config),
    {
        self.config.cancel_edit();
    }

    /// Gives the setting what was typed, where that is valid.
    pub fn config_confirm_edit(&mut self, check: FloatCheck)
        ensures
            *final(self) == (App { config: final(self).config, ..*old(self) }),
            edit_confirmed(old(self).config, check, final(self).config),
    {
        self.config.confirm_edit(check);
    }

    /// Turns the truth value that is selected; nothing where another setting is.
    pub fn config_toggle_bool(&mut self)
        ensures
            *final(self) == (App { config: final(self).config, ..*old(self) }),
            if old(self).config.has_selection() && old(self).config.current().kind is Bool {
                value_set(
                    old(self).config,
                    turned(old(self).config.current().value),
                    final(self).config,
                )
            } else {
                final(self).config == old(self).config
            },
    {
        self.config.toggle_bool();
    }

    /// Takes the next of the values that the selected setting can have, or the one before.
    pub fn config_cycle_enum(&mut self, forward: bool)
        ensures
            *final(self) == (App { config: final(self).config, ..*old(self) }),
            enum_cycled(old(self).config, forward, final(self).config),
    {
        self.config.cycle_enum(forward);
    }

    /// Whether any setting was changed.
    pub fn config_has_changes(&self) -> (r: bool)
        ensures
            r == is_changed(self.config.shown()),
    {
        self.config.has_changes()
    }
}

/// A key that is pressed while the warnings are shown does nothing but dismiss them.
pub proof fn warnings_block_other_input(a: App, key: Key, check: FloatCheck, b: App, act: Action)
    requires
        a.show_startup_warnings,
        key_step(a, key, check, b, act),
    ensures
        act == Action::Nothing,
        b == (App { show_startup_warnings: b.show_startup_warnings, ..a }),
        !b.show_startup_warnings <==> key == Key::Enter || key == Key::Esc,
{
}

/// Only a key that quits, or one that leaves, stops the dashboard.
pub proof fn only_quitting_stops_the_dashboard(
    a: App,
    key: Key,
    check: FloatCheck,
    b: App,
    act: Action,
)
    requires
        key_step(a, key, check, b, act),
        a.shell.running,
        !b.shell.running,
    ensures
        key == Key::Char('q') || key == Key::Esc,
{
}

/// Typing goes into the setting that is edited and does nothing else: no letter, digit or
/// sign is taken as a shortcut, and into a text any character can be typed.
pub proof fn typing_only_types(a: App, c: char, check: FloatCheck, b: App, act: Action)
    requires
        key_step(a, Key::Char(c), check, b, act),
        !a.show_startup_warnings,
        !a.log.dropdown_open,
        !a.log.search_active,
        a.shell.current_tab == Tab::Config,
        a.config.editing,
    ensures
        act == Action::Nothing,
        b == (App { config: b.config, ..a }),
        b.config.editing,
        a.config.has_selection() && !crate::config_editor::takes_number(a.config.current()) ==> b.config.edit_buffer@
            == a.config.edit_buffer@.push(c),
{
}

/// Whether keys go to the tab that is shown: no warning, list or search takes them first, and
/// no setting is edited.
pub open spec fn keys_go_to(a: App, tab: Tab) -> bool {
    &&& a.shell.current_tab == tab
    &&& !a.show_startup_warnings
    &&& !a.log.dropdown_open
    &&& !a.log.search_active
    &&& !a.config.editing
}

/// On the log, up and page up go towards its oldest entry by one and by ten, down and page down
/// back towards its end, home and end all the way; the letters of the levels turn them, and
/// `c` clears all filters. Nothing else of the dashboard changes.
pub proof fn keys_move_the_log(a: App, key: Key, check: FloatCheck, b: App, act: Action)
    requires
        key_step(a, key, check, b, act),
        keys_go_to(a, Tab::Logs),
        a.log.scroll < a.log.entries@.len() <= usize::MAX - 10,
    ensures
        act == Action::Nothing,
        key == Key::Up || key == Key::Char('k') ==> b.log.scroll == (if a.log.scroll + 1
            < a.log.entries@.len() {
            a.log.scroll + 1
        } else {
            a.log.scroll as int
        }) && !b.log.auto_scroll,
        key == Key::PageUp ==> b.log.scroll == (if a.log.scroll + 10 < a.log.entries@.len() {
            a.log.scroll + 10
        } else {
            a.log.entries@.len() - 1
        }) && !b.log.auto_scroll,
        key == Key::Down || key == Key::Char('j') ==> b.log.scroll == (if a.log.scroll > 0 {
            a.log.scroll - 1
        } else {
            0
        }) && (b.log.scroll == 0 ==> b.log.auto_scroll),
        key == Key::PageDown ==> b.log.scroll == (if a.log.scroll > 10 {
            a.log.scroll - 10
        } else {
            0
        }) && (b.log.scroll == 0 ==> b.log.auto_scroll),
        key == Key::Home ==> b.log.scroll == a.log.entries@.len() - 1,
        key == Key::End ==> b.log.scroll == 0 && b.log.auto_scroll,
        key == Key::Char('/') ==> b.log.search_active,
        key == Key::Char('a') ==> b.log.dropdown_open,
        key == Key::Char('d') ==> b.log.level_filter@ == a.log.level_filter@.update(
            0,
            !a.log.level_filter@[0],
        ),
        key == Key::Char('i') ==> b.log.level_filter@ == a.log.level_filter@.update(
            1,
            !a.log.level_filter@[1],
        ),
        key == Key::Char('w') ==> b.log.level_filter@ == a.log.level_filter@.update(
            2,
            !a.log.level_filter@[2],
        ),
        key == Key::Char('e') ==> b.log.level_filter@ == a.log.level_filter@.update(
            3,
            !a.log.level_filter@[3],
        ),
        key == Key::Char('c') ==> b.log.account_filter is None && b.log.search_query@.len() == 0,
        b.accounts == a.accounts,
        b.config == a.config,
        b.log.entries == a.log.entries,
{
}

/// On the accounts, up and down move the selection by one and not past the ends, and the keys
/// act on the account that is selected: `e` turns it on or off, enter makes it the active one;
/// `r` reads all again.
pub proof fn keys_act_on_the_selected_account(
    a: App,
    key: Key,
    check: FloatCheck,
    b: App,
    act: Action,
)
    requires
        key_step(a, key, check, b, act),
        keys_go_to(a, Tab::Accounts),
        a.account_selected < a.accounts@.len(),
    ensures
        key == Key::Char('e') ==> act == Action::ToggleAccount(
            a.accounts@[a.account_selected as int].id,
        ) && b == a,
        key == Key::Enter ==> act == Action::ActivateAccount(
            a.accounts@[a.account_selected as int].id,
        ) && b == a,
        key == Key::Char('r') ==> act == Action::RefreshAccounts && b == a,
        key == Key::Up || key == Key::Char('k') ==> act == Action::Nothing && b.account_selected
            == (if a.account_selected > 0 {
            a.account_selected - 1
        } else {
            0
        }),
        key == Key::Down || key == Key::Char('j') ==> act == Action::Nothing && b.account_selected
            == (if a.account_selected + 1 < a.accounts@.len() {
            a.account_selected + 1
        } else {
            a.account_selected as int
        }),
        b.account_selected < b.accounts@.len(),
        b.accounts == a.accounts,
{
}

/// On the settings, `s` saves them, `r` restarts the server where that is needed, a space or
/// enter turns a truth value, and enter begins to edit any other; up and down move the
/// selection.
pub proof fn keys_act_on_the_selected_setting(
    a: App,
    key: Key,
    check: FloatCheck,
    b: App,
    act: Action,
)
    requires
        key_step(a, key, check, b, act),
        keys_go_to(a, Tab::Config),
        a.config.has_selection(),
        a.config.fields@.len() <= usize::MAX,
    ensures
        key == Key::Char('s') ==> act == Action::SaveConfig && b == a,
        key == Key::Char('r') ==> b == a && (act == Action::RestartDaemon
            <==> a.config.needs_restart),
        act == Action::SaveConfig ==> key == Key::Char('s'),
        (key == Key::Char(' ') || key == Key::Enter) && a.config.current().kind is Bool
            ==> b.config.current().value == turned(a.config.current().value),
        key == Key::Enter && !(a.config.current().kind is Bool) ==> b.config.editing
            && b.config.edit_buffer@ == a.config.current().value,
        key == Key::Up || key == Key::Char('k') ==> b.config.selected == (if a.config.selected > 0 {
            a.config.selected - 1
        } else {
            0
        }),
        key == Key::Down || key == Key::Char('j') ==> b.config.selected == (if a.config.selected + 1
            < a.config.fields@.len() {
            a.config.selected + 1
        } else {
            a.config.selected as int
        }),
{
}

/// A digit shows the tab of its place, wherever it is pressed.
pub proof fn digits_show_their_tab(a: App, key: Key, check: FloatCheck, b: App, act: Action)
    requires
        key_step(a, key, check, b, act),
        keys_go_to(a, a.shell.current_tab),
    ensures
        key == Key::Char('1') ==> b.shell.current_tab == Tab::Overview,
        key == Key::Char('2') ==> b.shell.current_tab == Tab::Logs,
        key == Key::Char('3') ==> b.shell.current_tab == Tab::Accounts,
        key == Key::Char('4') ==> b.shell.current_tab == Tab::Config,
        key == Key::Char('5') ==> b.shell.current_tab == Tab::Quota,
        key == Key::Char('6') ==> b.shell.current_tab == Tab::About,
        key == Key::Char('q') ==> !b.shell.running,
        key == Key::Char('?') ==> b.shell.show_help == !a.shell.show_help,
        key == Key::Tab ==> b.shell.current_tab == tab_after(a.shell.current_tab),
        key == Key::BackTab ==> b.shell.current_tab == tab_before(a.shell.current_tab),
{
}

/// In a search, a character is put behind what is searched for and backspace takes the last one
/// away; what is shown follows, and escape or enter ends the typing.
pub proof fn keys_are_searched_for(a: App, key: Key, check: FloatCheck, b: App, act: Action)
    requires
        key_step(a, key, check, b, act),
        !a.show_startup_warnings,
        !a.log.dropdown_open,
        a.log.search_active,
    ensures
        act == Action::Nothing,
        key matches Key::Char(c) ==> b.log.search_query@ == a.log.search_query@.push(c)
            && b.log.is_refiltered() && b.log.search_active,
        key == Key::Backspace && a.log.search_query@.len() > 0 ==> b.log.search_query@
            == a.log.search_query@.drop_last() && b.log.is_refiltered(),
        key == Key::Esc || key == Key::Enter ==> !b.log.search_active && b.log.search_query
            == a.log.search_query,
{
}

/// From the list of accounts, enter chooses the one that is selected, the first place of the
/// list standing for all of them, and closes the list; escape closes it and chooses nothing.
pub proof fn accounts_are_chosen_from_the_list(
    a: App,
    key: Key,
    check: FloatCheck,
    b: App,
    act: Action,
)
    requires
        key_step(a, key, check, b, act),
        !a.show_startup_warnings,
        a.log.dropdown_open,
        a.emails().len() <= usize::MAX,
    ensures
        act == Action::Nothing,
        key == Key::Esc ==> !b.log.dropdown_open && b.log.account_filter == a.log.account_filter,
        key == Key::Enter && a.log.dropdown_selected == 0 ==> b.log.account_filter is None
            && !b.log.dropdown_open && b.log.is_refiltered(),
        key == Key::Enter && 0 < a.log.dropdown_selected <= a.emails().len() ==> opt(
            b.log.account_filter,
        ) == Some(a.emails()[a.log.dropdown_selected - 1]) && !b.log.dropdown_open
            && b.log.is_refiltered(),
        key == Key::Down && a.log.dropdown_selected < a.emails().len() ==> b.log.dropdown_selected
            == a.log.dropdown_selected + 1,
        key == Key::Up && a.log.dropdown_selected > 0 ==> b.log.dropdown_selected
            == a.log.dropdown_selected - 1,
{
}

} // verus!
