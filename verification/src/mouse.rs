//! What the mouse does to the dashboard.

use vstd::prelude::*;

use crate::app::{App, Areas, Hover, Shell};
use crate::chat::opt;
use crate::config_pane::{field_row, ConfigPane};
use crate::keys::{account_chosen, choose_account, dropdown_place, open_dropdown, Action};
use crate::log_pane::{level_turned, minus, LogPane};
use crate::tabs::{all_tabs, find_hit, first_hit, is_in_rect, Area, Tab};
use crate::text::views;

verus! {

/// What the mouse did.
#[derive(Debug, Clone, Copy, PartialEq, Eq, Structural)]
pub enum Mouse {
    ScrollUp,
    ScrollDown,
    /// The left button was pressed.
    Press,
    /// The mouse was moved with the left button held.
    Drag,
    /// The left button was let go.
    Release,
    Other,
}

/// The row of the project's link on the page about it, which is centred in its height.
pub open spec fn link_row(inner_height: u16) -> int {
    minus(inner_height as int, 17) / 2 + 14
}

/// The row of the project's link on the page about it.
pub fn get_link_row(inner_height: u16) -> (r: u16)
    ensures
        r == link_row(inner_height),
{
    let start: u16 = if inner_height >= 17 {
        (inner_height - 17) / 2
    } else {
        0
    };
    start + 14
}

/// How many characters the project's link has.
pub const LINK_WIDTH: u16 = 33;

/// Whether a place is on the project's link, which is centred in its row.
pub open spec fn on_link(about: Area, column: u16, row: u16) -> bool {
    let start = about.x + minus(about.width as int, LINK_WIDTH as int) / 2;
    &&& about.has(column, row)
    &&& row - about.y == link_row(about.height)
    &&& start <= column < start + LINK_WIDTH
}

/// Whether a place is on the project's link.
fn hits_link(about: Area, column: u16, row: u16) -> (r: bool)
    ensures
        r == on_link(about, column, row),
{
    if !is_in_rect(column, row, about) {
        return false;
    }
    let side: u16 = if about.width >= LINK_WIDTH {
        (about.width - LINK_WIDTH) / 2
    } else {
        0
    };
    let start: u32 = about.x as u32 + side as u32;
    row - about.y == get_link_row(about.height) && column as u32 >= start && (column as u32)
        < start + LINK_WIDTH as u32
}

/// A place in a list, as an index.
pub open spec fn index_of(o: Option<int>) -> Option<usize> {
    match o {
        Some(i) => Some(i as usize),
        None => None,
    }
}

/// The account in a row of the list of `n`, which has a border above it.
pub open spec fn account_at(area: Area, n: nat, column: u16, row: u16) -> Option<usize> {
    let i = minus(row as int, area.y + 1);
    if area.has(column, row) && i < n {
        Some(i as usize)
    } else {
        None
    }
}

/// The account in a row of the list.
fn find_account(area: Area, n: usize, column: u16, row: u16) -> (r: Option<usize>)
    ensures
        r == account_at(area, n as nat, column, row),
{
    if !is_in_rect(column, row, area) {
        return None;
    }
    let top: u32 = area.y as u32 + 1;
    let i: usize = if row as u32 >= top {
        (row as u32 - top) as usize
    } else {
        0
    };
    if i < n {
        Some(i)
    } else {
        None
    }
}

/// Whether `i` is the setting in a row of the list; `None` where the row shows none, the
/// place is elsewhere, or a setting is edited.
pub open spec fn is_config_at(pane: ConfigPane, area: Area, column: u16, row: u16, i: Option<
    usize,
>) -> bool {
    if area.has(column, row) && !pane.editing {
        match i {
            Some(k) => k < pane.fields@.len() && field_row(pane.shown(), k as int) == row - area.y,
            None => forall|k: int|
                0 <= k < pane.fields@.len() ==> #[trigger] field_row(pane.shown(), k) != row
                    - area.y,
        }
    } else {
        i is None
    }
}

/// The setting in a row of the list.
fn find_config(pane: &ConfigPane, area: Area, column: u16, row: u16) -> (r: Option<usize>)
    ensures
        is_config_at(*pane, area, column, row, r),
{
    if is_in_rect(column, row, area) && !pane.editing {
        let relative: u16 = row - area.y;
        pane.row_to_config_index(relative as usize)
    } else {
        None
    }
}

/// Whether `b` is `a` with the mouse at a place: what it is over is noted, and in the list of
/// accounts it selects.
pub open spec fn hovered(a: App, column: u16, row: u16, b: App) -> bool {
    let t = a.shell.current_tab;
    let item = if t == Tab::Logs && a.log.dropdown_open {
        index_of(first_hit(a.areas.dropdown_items@, column, row, 0))
    } else {
        None
    };
    &&& b == (App { log: b.log, hover: b.hover, ..a })
    &&& b.log == (LogPane {
        dropdown_selected: match item {
            Some(i) => i,
            None => a.log.dropdown_selected,
        },
        ..a.log
    })
    &&& b.hover == (Hover {
        column,
        row,
        tab: index_of(first_hit(a.areas.tabs@, column, row, 0)),
        account: if t == Tab::Accounts {
            account_at(a.areas.accounts, a.accounts@.len(), column, row)
        } else {
            None
        },
        config: b.hover.config,
        log_level: if t == Tab::Logs {
            index_of(first_hit(a.areas.level_badges@, column, row, 0))
        } else {
            None
        },
        log_account: t == Tab::Logs && a.areas.account_filter.has(column, row),
        dropdown_item: item,
        about_link: t == Tab::About && on_link(a.areas.about, column, row),
    })
    &&& if t == Tab::Config {
        is_config_at(a.config, a.areas.config, column, row, b.hover.config)
    } else {
        b.hover.config is None
    }
}

/// What a press of the left button does while the list of accounts is open: it chooses what
/// it is on, and closes the list where it is outside.
pub open spec fn dropdown_pressed(
    areas: Areas,
    emails: Seq<Seq<char>>,
    column: u16,
    row: u16,
    a: LogPane,
    b: LogPane,
) -> bool {
    if areas.dropdown.has(column, row) {
        match first_hit(areas.dropdown_items@, column, row, 0) {
            Some(i) => account_chosen(a, emails, i, b),
            None => b == a,
        }
    } else {
        b == (LogPane { dropdown_open: false, ..a })
    }
}

/// Whether a place is on what is above the log: a level, the account or the search.
pub open spec fn on_toolbar(areas: Areas, column: u16, row: u16) -> bool {
    ||| first_hit(areas.level_badges@, column, row, 0) is Some
    ||| areas.account_filter.has(column, row)
    ||| areas.search.has(column, row)
}

/// What a press of the left button does on what is above the log.
pub open spec fn toolbar_pressed(
    areas: Areas,
    emails: Seq<Seq<char>>,
    column: u16,
    row: u16,
    a: LogPane,
    b: LogPane,
) -> bool {
    match first_hit(areas.level_badges@, column, row, 0) {
        Some(i) => level_turned(a, i, b),
        None => if areas.account_filter.has(column, row) {
            b == (LogPane {
                dropdown_open: true,
                dropdown_selected: dropdown_place(emails, opt(a.account_filter)) as usize,
                ..a
            })
        } else {
            b == (LogPane { search_active: true, ..a })
        },
    }
}

/// The tab whose name a place is on.
pub open spec fn tab_at(areas: Areas, column: u16, row: u16) -> Option<Tab> {
    match first_hit(areas.tabs@, column, row, 0) {
        Some(i) => if i < 6 {
            Some(all_tabs()[i])
        } else {
            None
        },
        None => None,
    }
}

/// What a press of the left button does in what a tab lists, and what is left to be done.
pub open spec fn list_pressed(a: App, column: u16, row: u16, b: App, act: Action) -> bool {
    match a.shell.current_tab {
        Tab::Accounts => act == Action::Nothing && b == (App {
            account_selected: match account_at(a.areas.accounts, a.accounts@.len(), column, row) {
                Some(i) => i,
                None => a.account_selected,
            },
            ..a
        }),
        Tab::Config => {
            &&& act == Action::Nothing
            &&& b == (App { config: b.config, ..a })
            &&& b.config == (ConfigPane { selected: b.config.selected, ..a.config })
            &&& (is_config_at(a.config, a.areas.config, column, row, Some(b.config.selected)) || (
            is_config_at(a.config, a.areas.config, column, row, None) && b.config == a.config))
        },
        Tab::About => b == a && act == (if a.hover.about_link {
            Action::OpenLink
        } else {
            Action::Nothing
        }),
        _ => b == a && act == Action::Nothing,
    }
}

/// What a press of the left button does, and what is left to be done. The list of accounts
/// takes it first; then what belongs to the log; then the tabs; then what a tab lists.
pub open spec fn pressed(a: App, column: u16, row: u16, b: App, act: Action) -> bool {
    let on_logs = a.shell.current_tab == Tab::Logs;
    if a.log.dropdown_open {
        &&& act == Action::Nothing
        &&& b == (App { log: b.log, ..a })
        &&& dropdown_pressed(a.areas, a.emails(), column, row, a.log, b.log)
    } else if on_logs && on_toolbar(a.areas, column, row) {
        &&& act == Action::Nothing
        &&& b == (App { log: b.log, ..a })
        &&& toolbar_pressed(a.areas, a.emails(), column, row, a.log, b.log)
    } else if on_logs && a.areas.scrollbar.has(column, row) {
        act == Action::GrabScrollbar(row) && b == (App {
            shell: Shell { dragging_scrollbar: true, ..a.shell },
            ..a
        })
    } else if tab_at(a.areas, column, row) is Some {
        act == Action::Nothing && b == (App {
            shell: Shell {
                current_tab: tab_at(a.areas, column, row)->0,
                trigger_tab_effect: true,
                ..a.shell
            },
            ..a
        })
    } else {
        list_pressed(a, column, row, b, act)
    }
}

/// The left button was pressed while the list of accounts is open.
fn press_dropdown(pane: &mut LogPane, areas: &Areas, emails: &Vec<String>, column: u16, row: u16)
    ensures
        dropdown_pressed(*areas, views(emails@), column, row, *old(pane), *final(pane)),
{
    if is_in_rect(column, row, areas.dropdown) {
        match find_hit(areas.dropdown_items.as_slice(), column, row) {
            Some(i) => choose_account(pane, emails, i),
            None => {},
        }
    } else {
        pane.dropdown_open = false;
    }
}

/// The left button was pressed in the log's tab: whether it was on what is above the log,
/// and has been dealt with.
fn press_toolbar(
    pane: &mut LogPane,
    areas: &Areas,
    emails: &Vec<String>,
    column: u16,
    row: u16,
) -> (r: bool)
    ensures
        r == on_toolbar(*areas, column, row),
        r ==> toolbar_pressed(*areas, views(emails@), column, row, *old(pane), *final(pane)),
        !r ==> *final(pane) == *old(pane),
{
    match find_hit(areas.level_badges.as_slice(), column, row) {
        Some(i) => {
            pane.toggle_level(i);
            return true;
        },
        None => {},
    }
    if is_in_rect(column, row, areas.account_filter) {
        open_dropdown(pane, emails);
        return true;
    }
    if is_in_rect(column, row, areas.search) {
        pane.search_active = true;
        return true;
    }
    false
}

/// The tab whose name a place is on.
fn find_tab(areas: &Areas, column: u16, row: u16) -> (r: Option<Tab>)
    ensures
        r == tab_at(*areas, column, row),
{
    match find_hit(areas.tabs.as_slice(), column, row) {
        Some(i) => {
            if i < 6 {
                let tabs = Tab::all();
                Some(tabs[i])
            } else {
                None
            }
        },
        None => None,
    }
}

/// Whether a drag of the scrollbar to a row can be reckoned with.
pub open spec fn drag_fits(a: App, row: u16) -> bool {
    row <= i16::MAX && i16::MIN <= row + a.shell.scrollbar_drag_offset <= i16::MAX
}

/// The row of the scrollbar's thumb while it is dragged, which stays as far from the mouse as
/// it was. A row above the screen counts as one far below.
pub open spec fn thumb_row(row: u16, offset: i16) -> int {
    if row + offset >= 0 {
        row + offset
    } else {
        row + offset + 65536
    }
}

/// What the mouse does, and what is left to be done.
pub open spec fn mouse_step(a: App, kind: Mouse, column: u16, row: u16, b: App, act: Action) -> bool {
    exists|h: App| #[trigger]
        hovered(a, column, row, h) && after_hover(h, kind, column, row, b, act)
}

/// What the mouse does once what it is over is noted.
pub open spec fn after_hover(a: App, kind: Mouse, column: u16, row: u16, b: App, act: Action) -> bool {
    let on_logs = a.shell.current_tab == Tab::Logs && a.areas.logs.has(column, row);
    let on_activity = a.shell.current_tab == Tab::Overview && a.areas.activity.has(column, row);
    match kind {
        Mouse::ScrollUp => act == Action::Nothing && b == (App {
            log: if on_logs {
                a.log.up(3)
            } else if on_activity {
                a.log.activity_up(3)
            } else {
                a.log
            },
            ..a
        }),
        Mouse::ScrollDown => act == Action::Nothing && b == (App {
            log: if on_logs {
                a.log.down(3)
            } else if on_activity {
                a.log.activity_down(3)
            } else {
                a.log
            },
            ..a
        }),
        Mouse::Press => pressed(a, column, row, b, act),
        Mouse::Drag => b == a && act == (if a.shell.dragging_scrollbar {
            Action::DragScrollbar(thumb_row(row, a.shell.scrollbar_drag_offset) as u16)
        } else {
            Action::Nothing
        }),
        Mouse::Release => act == Action::Nothing && b == (App {
            shell: Shell { dragging_scrollbar: false, ..a.shell },
            ..a
        }),
        Mouse::Other => act == Action::Nothing && b == a,
    }
}

/// The row of the scrollbar's thumb while it is dragged.
fn dragged_row(row: u16, offset: i16) -> (r: u16)
    requires
        row <= i16::MAX,
        i16::MIN <= row + offset <= i16::MAX,
    ensures
        r == thumb_row(row, offset),
{
    let sum: i32 = row as i32 + offset as i32;
    if sum >= 0 {
        sum as u16
    } else {
        (sum + 65536) as u16
    }
}

impl App {
    /// Notes what the mouse is over.
    fn update_hover_state(&mut self, column: u16, row: u16)
        ensures
            hovered(*old(self), column, row, *final(self)),
    {
        let t = self.shell.current_tab;
        let tab = find_hit(self.areas.tabs.as_slice(), column, row);
        let item = if t == Tab::Logs && self.log.dropdown_open {
            find_hit(self.areas.dropdown_items.as_slice(), column, row)
        } else {
            None
        };
        let log_level = if t == Tab::Logs {
            find_hit(self.areas.level_badges.as_slice(), column, row)
        } else {
            None
        };
        let log_account = t == Tab::Logs && is_in_rect(column, row, self.areas.account_filter);
        let account = if t == Tab::Accounts {
            find_account(self.areas.accounts, self.accounts.len(), column, row)
        } else {
            None
        };
        let config = if t == Tab::Config {
            find_config(&self.config, self.areas.config, column, row)
        } else {
            None
        };
        let about_link = t == Tab::About && hits_link(self.areas.about, column, row);
        self.hover =
        Hover {
            column,
            row,
            tab,
            account,
            config,
            log_level,
            log_account,
            dropdown_item: item,
            about_link,
        };
        match item {
            Some(i) => {
                self.log.dropdown_selected = i;
            },
            None => {},
        }
    }

    /// The left button was pressed in what a tab lists.
    fn press_list(&mut self, column: u16, row: u16) -> (act: Action)
        ensures
            list_pressed(*old(self), column, row, *final(self), act),
    {
        match self.shell.current_tab {
            Tab::Accounts => {
                match find_account(self.areas.accounts, self.accounts.len(), column, row) {
                    Some(i) => {
                        self.account_selected = i;
                    },
                    None => {},
                }
                Action::Nothing
            },
            Tab::Config => {
                match find_config(&self.config, self.areas.config, column, row) {
                    Some(i) => {
                        self.config.selected = i;
                    },
                    None => {},
                }
                Action::Nothing
            },
            Tab::About => {
                if self.hover.about_link {
                    Action::OpenLink
                } else {
                    Action::Nothing
                }
            },
            _ => Action::Nothing,
        }
    }

    /// The left button was pressed.
    fn press_left(&mut self, column: u16, row: u16) -> (act: Action)
        ensures
            pressed(*old(self), column, row, *final(self), act),
    {
        let on_logs = self.shell.current_tab == Tab::Logs;
        if self.log.dropdown_open {
            let emails = self.log_account_emails();
            press_dropdown(&mut self.log, &self.areas, &emails, column, row);
            return Action::Nothing;
        }
        if on_logs {
            let emails = self.log_account_emails();
            if press_toolbar(&mut self.log, &self.areas, &emails, column, row) {
                return Action::Nothing;
            }
            if is_in_rect(column, row, self.areas.scrollbar) {
                self.shell.dragging_scrollbar = true;
                return Action::GrabScrollbar(row);
            }
        }
        match find_tab(&self.areas, column, row) {
            Some(tab) => {
                self.shell.current_tab = tab;
                self.shell.trigger_tab_effect = true;
                Action::Nothing
            },
            None => self.press_list(column, row),
        }
    }

    /// What the mouse does once what it is over is noted.
    fn do_mouse(&mut self, kind: Mouse, column: u16, row: u16) -> (act: Action)
        requires
            kind == Mouse::Drag && old(self).shell.dragging_scrollbar ==> drag_fits(
                *old(self),
                row,
            ),
        ensures
            after_hover(*old(self), kind, column, row, *final(self), act),
    {
        let t = self.shell.current_tab;
        match kind {
            Mouse::ScrollUp => {
                if t == Tab::Logs && is_in_rect(column, row, self.areas.logs) {
                    self.log.scroll_up(3);
                } else if t == Tab::Overview && is_in_rect(column, row, self.areas.activity) {
                    self.log.scroll_activity_up(3);
                }
                Action::Nothing
            },
            Mouse::ScrollDown => {
                if t == Tab::Logs && is_in_rect(column, row, self.areas.logs) {
                    self.log.scroll_down(3);
                } else if t == Tab::Overview && is_in_rect(column, row, self.areas.activity) {
                    self.log.scroll_activity_down(3);
                }
                Action::Nothing
            },
            Mouse::Press => self.press_left(column, row),
            Mouse::Drag => {
                if self.shell.dragging_scrollbar {
                    Action::DragScrollbar(dragged_row(row, self.shell.scrollbar_drag_offset))
                } else {
                    Action::Nothing
                }
            },
            Mouse::Release => {
                self.shell.dragging_scrollbar = false;
                Action::Nothing
            },
            Mouse::Other => Action::Nothing,
        }
    }

    /// The mouse was used at a place: changes the state, and says what is left to be done.
    pub fn handle_mouse(&mut self, kind: Mouse, column: u16, row: u16) -> (act: Action)
        requires
            kind == Mouse::Drag && old(self).shell.dragging_scrollbar ==> drag_fits(
                *old(self),
                row,
            ),
        ensures
            mouse_step(*old(self), kind, column, row, *final(self), act),
    {
        self.update_hover_state(column, row);
        let ghost h = *self;
        let act = self.do_mouse(kind, column, row);
        assert(hovered(*old(self), column, row, h));
        act
    }

    /// Takes hold of the scrollbar: notes how far its thumb is from the mouse.
    pub fn grab_scrollbar(&mut self, thumb_y: u16, row: u16)
        requires
            thumb_y <= i16::MAX,
            row <= i16::MAX,
        ensures
            *final(self) == (App {
                shell: Shell {
                    scrollbar_drag_offset: (thumb_y - row) as i16,
                    ..old(self).shell
                },
                ..*old(self)
            }),
    {
        let offset: i16 = thumb_y as i16 - row as i16;
        self.shell.scrollbar_drag_offset = offset;
    }

    /// Scrolls the log to where its scrollbar was dragged. At the newest entry it stays
    /// there.
    pub fn scroll_to_position(&mut self, scroll: usize)
        ensures
            *final(self) == (App {
                log: old(self).log.scrolled_to(scroll as int, scroll == 0),
                ..*old(self)
            }),
    {
        self.log.set_scroll(scroll, scroll == 0);
    }
}

/// A thumb that is taken hold of and dragged within the screen is as far from where it was as
/// the mouse is.
pub proof fn the_thumb_follows_the_mouse(thumb_y: u16, row: u16, to: u16)
    requires
        thumb_y <= i16::MAX,
        row <= i16::MAX,
        to <= i16::MAX,
        0 <= thumb_y + (to - row) <= i16::MAX,
    ensures
        thumb_row(to, (thumb_y - row) as i16) == thumb_y + (to - row),
{
}

/// An account is where it is clicked: the first below the border of the list, and each one a row
/// further down.
pub proof fn accounts_are_where_they_are_clicked(area: Area, n: nat, column: u16, i: int)
    requires
        0 <= i < n <= usize::MAX,
        area.y + 1 + i < area.y + area.height,
        area.fits(),
        area.x <= column < area.x + area.width,
    ensures
        account_at(area, n, column, (area.y + 1 + i) as u16) matches Some(k) && k == i,
{
}

/// A press on a tab shows it; one on a level turns it, one on the account opens the list, one
/// on the scrollbar takes hold of it.
pub proof fn presses_do_what_is_under_them(a: App, column: u16, row: u16, b: App, act: Action)
    requires
        pressed(a, column, row, b, act),
        !a.log.dropdown_open,
    ensures
        a.shell.current_tab == Tab::Logs && first_hit(a.areas.level_badges@, column, row, 0) is Some
            ==> level_turned(
            a.log,
            first_hit(a.areas.level_badges@, column, row, 0)->0,
            b.log,
        ) && b.shell == a.shell,
        a.shell.current_tab == Tab::Logs && first_hit(a.areas.level_badges@, column, row, 0) is None
            && a.areas.account_filter.has(column, row) ==> b.log.dropdown_open,
        a.shell.current_tab == Tab::Logs && !on_toolbar(a.areas, column, row)
            && a.areas.scrollbar.has(column, row) ==> b.shell.dragging_scrollbar && act
            == Action::GrabScrollbar(row),
        a.shell.current_tab != Tab::Logs && tab_at(a.areas, column, row) is Some
            ==> b.shell.current_tab == all_tabs()[first_hit(a.areas.tabs@, column, row, 0)->0],
        b.accounts == a.accounts,
        b.config.fields == a.config.fields,
        b.shell.running == a.shell.running,
{
}

/// A press beside the open list closes it and chooses nothing; one on an item chooses it.
pub proof fn presses_choose_from_the_list(a: App, column: u16, row: u16, b: App, act: Action)
    requires
        pressed(a, column, row, b, act),
        a.log.dropdown_open,
    ensures
        act == Action::Nothing,
        !a.areas.dropdown.has(column, row) ==> !b.log.dropdown_open && b.log.account_filter
            == a.log.account_filter,
        a.areas.dropdown.has(column, row) && first_hit(a.areas.dropdown_items@, column, row, 0)
            == Some(0int) ==> b.log.account_filter is None,
        a.areas.dropdown.has(column, row) && first_hit(a.areas.dropdown_items@, column, row, 0) is Some
            && 0 < first_hit(a.areas.dropdown_items@, column, row, 0)->0 <= a.emails().len() ==> opt(
            b.log.account_filter,
        ) == Some(a.emails()[first_hit(a.areas.dropdown_items@, column, row, 0)->0 - 1]),
{
}

/// The wheel scrolls what is under it, the log or the activity, by three, and nothing else.
pub proof fn the_wheel_scrolls_what_is_under_it(
    a: App,
    kind: Mouse,
    column: u16,
    row: u16,
    b: App,
    act: Action,
)
    requires
        after_hover(a, kind, column, row, b, act),
        kind == Mouse::ScrollUp || kind == Mouse::ScrollDown,
        a.log.scroll < a.log.entries@.len() <= usize::MAX - 3,
        a.log.activity_scroll < a.log.entries@.len(),
    ensures
        act == Action::Nothing,
        ({
            let on_logs = a.shell.current_tab == Tab::Logs && a.areas.logs.has(column, row);
            let on_activity = a.shell.current_tab == Tab::Overview && a.areas.activity.has(
                column,
                row,
            );
            &&& on_logs && kind == Mouse::ScrollUp ==> b.log.scroll == (if a.log.scroll + 3
                < a.log.entries@.len() {
                a.log.scroll + 3
            } else {
                a.log.entries@.len() - 1
            })
            &&& on_logs && kind == Mouse::ScrollDown ==> b.log.scroll == (if a.log.scroll > 3 {
                a.log.scroll - 3
            } else {
                0
            })
            &&& on_activity && kind == Mouse::ScrollUp ==> b.log.activity_scroll == (
            if a.log.activity_scroll + 3 < a.log.entries@.len() {
                a.log.activity_scroll + 3
            } else {
                a.log.entries@.len() - 1
            })
            &&& on_activity && kind == Mouse::ScrollDown ==> b.log.activity_scroll == (
            if a.log.activity_scroll > 3 {
                a.log.activity_scroll - 3
            } else {
                0
            })
            &&& !on_logs && !on_activity ==> b == a
        }),
{
}

} // verus!
