//! The dashboard's tabs, and areas of the screen.

use vstd::prelude::*;

verus! {

/// A rectangle of the screen, in characters.
#[derive(Debug, Clone, Copy, PartialEq, Eq, Structural)]
pub struct Area {
    pub x: u16,
    pub y: u16,
    pub width: u16,
    pub height: u16,
}

impl Area {
    /// Whether a place lies in the area.
    pub open spec fn has(self, x: u16, y: u16) -> bool {
        &&& self.x <= x < self.x + self.width
        &&& self.y <= y < self.y + self.height
    }

    /// Whether the area ends within the largest screen there can be.
    pub open spec fn fits(self) -> bool {
        self.x + self.width <= u16::MAX && self.y + self.height <= u16::MAX
    }

    /// No area.
    pub fn nowhere() -> (r: Area)
        ensures
            r == (Area { x: 0, y: 0, width: 0, height: 0 }),
    {
        Area { x: 0, y: 0, width: 0, height: 0 }
    }

    /// The area within a border of one character.
    pub fn inside(self) -> (r: Area)
        requires
            self.fits(),
        ensures
            r == within_border(self),
    {
        let x: u16 = if self.width >= 1 {
            self.x + 1
        } else {
            self.x
        };
        let y: u16 = if self.height >= 1 {
            self.y + 1
        } else {
            self.y
        };
        Area {
            x,
            y,
            width: if self.width >= 2 {
                self.width - 2
            } else {
                0
            },
            height: if self.height >= 2 {
                self.height - 2
            } else {
                0
            },
        }
    }
}

/// The area within a border of one character.
pub open spec fn within_border(a: Area) -> Area {
    Area {
        x: (if a.width >= 1 {
            a.x + 1
        } else {
            a.x as int
        }) as u16,
        y: (if a.height >= 1 {
            a.y + 1
        } else {
            a.y as int
        }) as u16,
        width: (if a.width >= 2 {
            a.width - 2
        } else {
            0
        }) as u16,
        height: (if a.height >= 2 {
            a.height - 2
        } else {
            0
        }) as u16,
    }
}

/// Whether a place lies in an area.
pub fn is_in_rect(x: u16, y: u16, rect: Area) -> (r: bool)
    ensures
        r == rect.has(x, y),
{
    x >= rect.x && (x as u32) < rect.x as u32 + rect.width as u32 && y >= rect.y && (y as u32)
        < rect.y as u32 + rect.height as u32
}

/// The first of the areas that a place lies in.
pub open spec fn first_hit(areas: Seq<Area>, x: u16, y: u16, i: int) -> Option<int>
    decreases areas.len() - i,
{
    if i < 0 || i >= areas.len() {
        None
    } else if areas[i].has(x, y) {
        Some(i)
    } else {
        first_hit(areas, x, y, i + 1)
    }
}

/// The first of the areas that a place lies in.
pub fn find_hit(areas: &[Area], x: u16, y: u16) -> (r: Option<usize>)
    ensures
        match r {
            Some(i) => first_hit(areas@, x, y, 0) == Some(i as int) && i < areas@.len(),
            None => first_hit(areas@, x, y, 0) is None,
        },
{
    let mut i: usize = 0;
    while i < areas.len()
        invariant
            i <= areas@.len(),
            first_hit(areas@, x, y, 0) == first_hit(areas@, x, y, i as int),
        decreases areas@.len() - i,
    {
        if is_in_rect(x, y, areas[i]) {
            return Some(i);
        }
        i = i + 1;
    }
    None
}

/// `a` less `b`, at least nothing.
fn less(a: u16, b: u16) -> (r: u16)
    ensures
        r == (if a >= b {
            a - b
        } else {
            0
        }),
{
    if a >= b {
        a - b
    } else {
        0
    }
}

/// A popup in the middle of an area, of the given size or as large as there is room with two
/// characters left on each side.
pub open spec fn centered(area: Area, width: u16, height: u16) -> Area {
    let room_w = if area.width >= 4 {
        area.width - 4
    } else {
        0
    };
    let room_h = if area.height >= 4 {
        area.height - 4
    } else {
        0
    };
    let w = if width <= room_w {
        width as int
    } else {
        room_w
    };
    let h = if height <= room_h {
        height as int
    } else {
        room_h
    };
    Area {
        x: (area.x + (area.width - w) / 2) as u16,
        y: (area.y + (area.height - h) / 2) as u16,
        width: w as u16,
        height: h as u16,
    }
}

/// A popup in the middle of an area.
pub fn popup_area(area: Area, width: u16, height: u16) -> (r: Area)
    requires
        area.fits(),
    ensures
        r == centered(area, width, height),
{
    let room_w = less(area.width, 4);
    let room_h = less(area.height, 4);
    let w: u16 = if width <= room_w {
        width
    } else {
        room_w
    };
    let h: u16 = if height <= room_h {
        height
    } else {
        room_h
    };
    Area {
        x: area.x + (area.width - w) / 2,
        y: area.y + (area.height - h) / 2,
        width: w,
        height: h,
    }
}

/// A popup lies within the area that it is centred in.
pub proof fn popups_stay_inside(area: Area, width: u16, height: u16, x: u16, y: u16)
    requires
        area.fits(),
        centered(area, width, height).has(x, y),
    ensures
        area.has(x, y),
{
}

/// The dashboard's tabs.
#[derive(Debug, Clone, Copy, PartialEq, Eq, Structural)]
pub enum Tab {
    Overview,
    Logs,
    Accounts,
    Config,
    Quota,
    About,
}

/// The tabs in order.
pub open spec fn all_tabs() -> Seq<Tab> {
    seq![Tab::Overview, Tab::Logs, Tab::Accounts, Tab::Config, Tab::Quota, Tab::About]
}

/// A tab's place in the order.
pub open spec fn place_of(t: Tab) -> int {
    match t {
        Tab::Overview => 0,
        Tab::Logs => 1,
        Tab::Accounts => 2,
        Tab::Config => 3,
        Tab::Quota => 4,
        Tab::About => 5,
    }
}

/// The tab behind another, the first behind the last.
pub open spec fn tab_after(t: Tab) -> Tab {
    all_tabs()[(place_of(t) + 1) % 6]
}

/// The tab before another, the last before the first.
pub open spec fn tab_before(t: Tab) -> Tab {
    all_tabs()[(place_of(t) + 5) % 6]
}

/// A tab's name.
pub open spec fn tab_name(t: Tab) -> Seq<char> {
    match t {
        Tab::Overview => "Overview"@,
        Tab::Logs => "Logs"@,
        Tab::Accounts => "Accounts"@,
        Tab::Config => "Config"@,
        Tab::Quota => "Quota"@,
        Tab::About => "About"@,
    }
}

impl Default for Tab {
    fn default() -> (r: Tab)
        ensures
            r == Tab::Overview,
    {
        Tab::Overview
    }
}

impl Tab {
    /// The tabs in order.
    pub fn all() -> (r: Vec<Tab>)
        ensures
            r@ == all_tabs(),
    {
        let mut r: Vec<Tab> = Vec::new();
        r.push(Tab::Overview);
        r.push(Tab::Logs);
        r.push(Tab::Accounts);
        r.push(Tab::Config);
        r.push(Tab::Quota);
        r.push(Tab::About);
        assert(r@ =~= all_tabs());
        r
    }

    /// The tab's name.
    pub fn name(&self) -> (r: &'static str)
        ensures
            r@ == tab_name(*self),
    {
        match self {
            Tab::Overview => "Overview",
            Tab::Logs => "Logs",
            Tab::Accounts => "Accounts",
            Tab::Config => "Config",
            Tab::Quota => "Quota",
            Tab::About => "About",
        }
    }

    /// The tab behind this one, the first behind the last.
    pub fn next(&self) -> (r: Tab)
        ensures
            r == tab_after(*self),
    {
        match self {
            Tab::Overview => Tab::Logs,
            Tab::Logs => Tab::Accounts,
            Tab::Accounts => Tab::Config,
            Tab::Config => Tab::Quota,
            Tab::Quota => Tab::About,
            Tab::About => Tab::Overview,
        }
    }

    /// The tab before this one, the last before the first.
    pub fn prev(&self) -> (r: Tab)
        ensures
            r == tab_before(*self),
    {
        match self {
            Tab::Overview => Tab::About,
            Tab::Logs => Tab::Overview,
            Tab::Accounts => Tab::Logs,
            Tab::Config => Tab::Accounts,
            Tab::Quota => Tab::Config,
            Tab::About => Tab::Quota,
        }
    }
}

/// One step back undoes one step on, and the other way round.
pub proof fn stepping_back_undoes_a_step(t: Tab)
    ensures
        tab_before(tab_after(t)) == t,
        tab_after(tab_before(t)) == t,
{
}

/// Every tab stands in the list at its place, and the list holds nothing else.
pub proof fn every_tab_has_its_place(t: Tab, i: int)
    ensures
        0 <= place_of(t) < all_tabs().len(),
        all_tabs()[place_of(t)] == t,
        0 <= i < all_tabs().len() ==> place_of(all_tabs()[i]) == i,
{
}

/// How wide a tab is on the screen: its name, a space on each side and a divider.
pub open spec fn tab_width(t: Tab) -> int {
    match t {
        Tab::Overview => 11,
        Tab::Logs => 7,
        Tab::Accounts => 11,
        Tab::Config => 9,
        Tab::Quota => 8,
        Tab::About => 8,
    }
}

/// The width of a tab is that of its name and three more.
pub proof fn tabs_are_as_wide_as_their_names(t: Tab)
    ensures
        tab_width(t) == tab_name(t).len() + 3,
{
    reveal_strlit("Overview");
    reveal_strlit("Logs");
    reveal_strlit("Accounts");
    reveal_strlit("Config");
    reveal_strlit("Quota");
    reveal_strlit("About");
}

/// How wide the first `n` tabs are together.
pub open spec fn tabs_width(n: int) -> int
    decreases n,
{
    if n <= 0 {
        0
    } else {
        tabs_width(n - 1) + tab_width(all_tabs()[n - 1])
    }
}

/// Where a tab is clicked: its area in the row of the tabs.
pub open spec fn tab_area(row: Area, i: int) -> Area {
    Area {
        x: (row.x + tabs_width(i)) as u16,
        y: row.y,
        width: tab_width(all_tabs()[i]) as u16,
        height: 1,
    }
}

/// Where the tabs are clicked.
pub fn calculate_tab_areas(tabs_area: Area) -> (r: Vec<Area>)
    requires
        tabs_area.x + 54 <= u16::MAX,
    ensures
        r@ == Seq::new(6, |i: int| tab_area(tabs_area, i)),
{
    let tabs = Tab::all();
    let mut r: Vec<Area> = Vec::new();
    let mut x: u16 = tabs_area.x;
    let mut i: usize = 0;
    proof {
        lemma_tabs_width();
    }
    while i < tabs.len()
        invariant
            i <= tabs@.len(),
            tabs@ == all_tabs(),
            tabs_area.x + 54 <= u16::MAX,
            forall|k: int| 0 <= k <= 6 ==> 0 <= #[trigger] tabs_width(k) <= 54,
            x == tabs_area.x + tabs_width(i as int),
            r@ == Seq::new(i as nat, |k: int| tab_area(tabs_area, k)),
        decreases tabs@.len() - i,
    {
        let name_len: u16 = match tabs[i] {
            Tab::Overview => 8,
            Tab::Logs => 4,
            Tab::Accounts => 8,
            Tab::Config => 6,
            Tab::Quota => 5,
            Tab::About => 5,
        };
        let width: u16 = name_len + 3;
        assert(tabs_width(i + 1) == tabs_width(i as int) + width);
        r.push(Area { x, y: tabs_area.y, width, height: 1 });
        x = x + width;
        i = i + 1;
        assert(r@ =~= Seq::new(i as nat, |k: int| tab_area(tabs_area, k)));
    }
    r
}

proof fn lemma_tabs_width()
    ensures
        forall|k: int| 0 <= k <= 6 ==> 0 <= #[trigger] tabs_width(k) <= 54,
{
    reveal_with_fuel(tabs_width, 7);
    assert forall|k: int| 0 <= k <= 6 implies 0 <= #[trigger] tabs_width(k) <= 54 by {
        assert(k == 0 || k == 1 || k == 2 || k == 3 || k == 4 || k == 5 || k == 6);
    }
}

/// No place is in the areas of two tabs.
pub proof fn tab_areas_do_not_overlap(row: Area, i: int, j: int, x: u16, y: u16)
    requires
        row.x + 54 <= u16::MAX,
        0 <= i < j < 6,
        tab_area(row, i).has(x, y),
    ensures
        !tab_area(row, j).has(x, y),
{
    lemma_tabs_width();
    reveal_with_fuel(tabs_width, 7);
    assert(i == 0 || i == 1 || i == 2 || i == 3 || i == 4);
    assert(j == 1 || j == 2 || j == 3 || j == 4 || j == 5);
}

/// The keys that a footer offers, each with what it does.
#[derive(Debug, Clone, PartialEq)]
pub struct Footer {
    pub keybinds: Vec<(&'static str, &'static str)>,
}

/// The keys and what they do, as texts.
pub open spec fn binds_view(b: Seq<(&'static str, &'static str)>) -> Seq<(Seq<char>, Seq<char>)> {
    Seq::new(b.len(), |i: int| (b[i].0@, b[i].1@))
}

/// The keys that the footer of a tab offers.
pub open spec fn footer_of(t: Tab) -> Seq<(Seq<char>, Seq<char>)> {
    let head = seq![("q"@, "Quit"@), ("Tab"@, "Switch"@)];
    let tail = seq![("?"@, "Help"@)];
    match t {
        Tab::Accounts => head + seq![
            ("Enter"@, "Activate"@),
            ("e"@, "Toggle"@),
            ("r"@, "Refresh"@),
            ("/"@, "Search"@),
            ("s"@, "Sort"@),
            ("c"@, "Clear"@),
        ] + tail,
        Tab::Logs => head + seq![
            ("d/i/w/e"@, "Levels"@),
            ("/"@, "Search"@),
            ("a"@, "Account"@),
            ("c"@, "Clear"@),
        ] + tail,
        Tab::Config => seq![
            ("\u{2191}/\u{2193}"@, "Navigate"@),
            ("Enter"@, "Edit"@),
            ("Space"@, "Toggle"@),
            ("\u{25c0}/\u{25b6}"@, "Cycle"@),
            ("s"@, "Save"@),
            ("r"@, "Restart"@),
            ("?"@, "Help"@),
        ],
        _ => head + tail,
    }
}

impl Footer {
    /// A footer that offers these keys.
    pub fn new(keybinds: Vec<(&'static str, &'static str)>) -> (r: Footer)
        ensures
            r.keybinds == keybinds,
    {
        Footer { keybinds }
    }

    /// The footer of a tab.
    pub fn for_tab(tab: Tab) -> (r: Footer)
        ensures
            binds_view(r.keybinds@) == footer_of(tab),
    {
        let mut binds: Vec<(&'static str, &'static str)> = Vec::new();
        if tab == Tab::Config {
            binds.push(("\u{2191}/\u{2193}", "Navigate"));
            binds.push(("Enter", "Edit"));
            binds.push(("Space", "Toggle"));
            binds.push(("\u{25c0}/\u{25b6}", "Cycle"));
            binds.push(("s", "Save"));
            binds.push(("r", "Restart"));
        } else {
            binds.push(("q", "Quit"));
            binds.push(("Tab", "Switch"));
            if tab == Tab::Accounts {
                binds.push(("Enter", "Activate"));
                binds.push(("e", "Toggle"));
                binds.push(("r", "Refresh"));
                binds.push(("/", "Search"));
                binds.push(("s", "Sort"));
                binds.push(("c", "Clear"));
            }
            if tab == Tab::Logs {
                binds.push(("d/i/w/e", "Levels"));
                binds.push(("/", "Search"));
                binds.push(("a", "Account"));
                binds.push(("c", "Clear"));
            }
        }
        binds.push(("?", "Help"));
        assert(binds_view(binds@) =~= footer_of(tab));
        Footer::new(binds)
    }
}

/// What is hit is the first area that has the place, and nothing is hit only where none has it.
pub proof fn the_first_area_is_hit(areas: Seq<Area>, x: u16, y: u16, from: int)
    requires
        0 <= from <= areas.len(),
    ensures
        match first_hit(areas, x, y, from) {
            Some(k) => from <= k < areas.len() && areas[k].has(x, y) && forall|j: int|
                from <= j < k ==> !(#[trigger] areas[j]).has(x, y),
            None => forall|j: int| from <= j < areas.len() ==> !(#[trigger] areas[j]).has(x, y),
        },
    decreases areas.len() - from,
{
    if from < areas.len() {
        let a = areas[from];
        if !a.has(x, y) {
            the_first_area_is_hit(areas, x, y, from + 1);
        }
    }
}

/// An area has the places from its corner on, as far as it is wide and high, and a border takes
/// one on each side.
pub proof fn areas_have_their_places(a: Area, x: u16, y: u16)
    requires
        a.fits(),
    ensures
        a.has(x, y) <==> a.x <= x && x - a.x < a.width && a.y <= y && y - a.y < a.height,
        a.width >= 2 && a.height >= 2 ==> (within_border(a).has(x, y) <==> a.x < x < a.x + a.width
            - 1 && a.y < y < a.y + a.height - 1),
        within_border(a).has(x, y) ==> a.has(x, y),
{
}

/// One step on goes to the next tab, behind the last to the first.
pub proof fn steps_go_to_the_next_tab(t: Tab)
    ensures
        place_of(tab_after(t)) == (if place_of(t) < 5 {
            place_of(t) + 1
        } else {
            0
        }),
        place_of(tab_before(t)) == (if place_of(t) > 0 {
            place_of(t) - 1
        } else {
            5
        }),
        place_of(Tab::Overview) == 0 && place_of(Tab::Logs) == 1 && place_of(Tab::Accounts) == 2
            && place_of(Tab::Config) == 3 && place_of(Tab::Quota) == 4 && place_of(Tab::About) == 5,
{
}

/// Every footer tells how to get help, and all but that of the settings how to leave.
pub proof fn footers_tell_how_to_get_help(t: Tab)
    ensures
        footer_of(t).last() == ("?"@, "Help"@),
        t != Tab::Config ==> footer_of(t)[0] == ("q"@, "Quit"@),
        t == Tab::Config ==> footer_of(t).contains(("s"@, "Save"@)) && footer_of(t).contains(
            ("Enter"@, "Edit"@),
        ),
        t == Tab::Accounts ==> footer_of(t).contains(("Enter"@, "Activate"@)),
        t == Tab::Logs ==> footer_of(t).contains(("/"@, "Search"@)),
{
    if t == Tab::Config {
        assert(footer_of(t)[4] == ("s"@, "Save"@));
        assert(footer_of(t)[1] == ("Enter"@, "Edit"@));
    }
    if t == Tab::Accounts {
        assert(footer_of(t)[2] == ("Enter"@, "Activate"@));
    }
    if t == Tab::Logs {
        assert(footer_of(t)[3] == ("/"@, "Search"@));
    }
}

} // verus!
