//! The launcher's window: its pages, what each control shows and what each click does.
use crate::launcher::updater::State;
use crate::launcher::Status;
use crate::settings;
use crate::settings::Config;
use crate::text::same_text;
use crate::utf16;
use crate::utf16::encode;
use vstd::prelude::*;

verus! {

// Colours are 0x00BBGGRR.
pub const ACCENT: u32 = 0x003c72ce;
pub const ACCENT_HOVERED: u32 = 0x00588ee5;
pub const DARK: u32 = 0x00191715;
pub const PANEL: u32 = 0x00262320;
pub const INPUT: u32 = 0x001e1c19;
pub const BORDER: u32 = 0x003d3833;
pub const TEXT: u32 = 0x00edeef0;
pub const MUTED: u32 = 0x00aaa6a1;
pub const GREEN: u32 = 0x0093c58c;
pub const ERROR: u32 = 0x008386ef;

pub const WIDTH: i32 = 640;
pub const HEIGHT: i32 = 560;

pub const NAME: u32 = 101;
pub const PASSWORD: u32 = 102;
pub const FRIENDS: u32 = 103;
pub const LINK: u32 = 104;
pub const CLOSE: u32 = 105;
pub const STATUS: u32 = 106;
pub const UPDATE_CHECK: u32 = 107;
pub const UPDATE_INSTALL: u32 = 108;
pub const UPDATE_STATUS: u32 = 109;
pub const MINIMIZE: u32 = 110;
pub const SAVED: u32 = 111;
pub const STATUS_DETAILS: u32 = 112;
pub const UPDATE_DETAILS: u32 = 113;
pub const TABS: u32 = 114;
pub const SOURCE_LINK: u32 = 115;
pub const RELATED_LINK: u32 = 116;
pub const RUST_LINK: u32 = 117;
pub const MINHOOK_LINK: u32 = 118;
pub const LABEL: u32 = 120;
pub const HINT: u32 = 121;
pub const HEADING: u32 = 122;
pub const HISTORY: u32 = 123;
pub const HISTORY_SUMMARY: u32 = 124;
pub const HISTORY_FILTER: u32 = 125;
pub const HISTORY_NOTICE: u32 = 126;

/// How long typing must pause before the settings are saved.
pub const SAVE_DELAY_MS: u64 = 400;
/// How long the window of a trial stays open.
pub const SMOKE_MS: u64 = 2000;

// Notifications of Windows controls.
pub const CLICKED: u16 = 0;
pub const FOCUS_GAINED: u16 = 0x100;
pub const FOCUS_LOST: u16 = 0x200;
pub const CHANGED: u16 = 0x300;

/// A tab of the window.
#[derive(Clone, Copy, Debug, PartialEq, Eq, Structural)]
pub enum Page {
    Settings,
    Updates,
    Credits,
    Protection,
}

impl Page {
    pub open spec fn spec_title(self) -> Seq<char> {
        match self {
            Page::Settings => "Settings"@,
            Page::Updates => "Updates"@,
            Page::Credits => "Credits"@,
            Page::Protection => "Protection"@,
        }
    }

    pub fn title(self) -> (r: &'static str)
        ensures
            r@ == self.spec_title(),
    {
        match self {
            Page::Settings => "Settings",
            Page::Updates => "Updates",
            Page::Credits => "Credits",
            Page::Protection => "Protection",
        }
    }

    /// The position of the tab, from the left.
    pub open spec fn place(self) -> int {
        match self {
            Page::Settings => 0,
            Page::Updates => 1,
            Page::Credits => 2,
            Page::Protection => 3,
        }
    }

    pub fn index(self) -> (r: usize)
        ensures
            r == self.place(),
    {
        match self {
            Page::Settings => 0,
            Page::Updates => 1,
            Page::Credits => 2,
            Page::Protection => 3,
        }
    }

    /// The page at a position, if there is one.
    pub fn at(index: usize) -> (r: Option<Page>)
        ensures
            r is Some <==> index < 4,
            r is Some ==> r->Some_0.place() == index,
    {
        match index {
            0 => Some(Page::Settings),
            1 => Some(Page::Updates),
            2 => Some(Page::Credits),
            3 => Some(Page::Protection),
            _ => None,
        }
    }

    /// The page to the right, or to the left with `back`, going round at the ends.
    pub open spec fn beside(self, back: bool) -> Page {
        match (self, back) {
            (Page::Settings, false) => Page::Updates,
            (Page::Updates, false) => Page::Credits,
            (Page::Credits, false) => Page::Protection,
            (Page::Protection, false) => Page::Settings,
            (Page::Settings, true) => Page::Protection,
            (Page::Updates, true) => Page::Settings,
            (Page::Credits, true) => Page::Updates,
            (Page::Protection, true) => Page::Credits,
        }
    }

    /// Where the keyboard leads from this page.
    pub fn step(self, back: bool) -> (r: Page)
        ensures
            r == self.beside(back),
    {
        let by: usize = if back {
            3
        } else {
            1
        };
        match Page::at((self.index() + by) % 4) {
            Some(page) => page,
            None => self,
        }
    }
}

/// Going on and going back undo each other, and going on reaches every page before it comes
/// round.
pub proof fn lemma_pages_go_round(page: Page)
    ensures
        page.beside(false).beside(true) == page,
        page.beside(true).beside(false) == page,
        page.beside(false).place() == (page.place() + 1) % 4,
        page.beside(false).beside(false).beside(false).beside(false) == page,
{
}

/// The page of the web that a link opens.
pub open spec fn link_of(id: u32) -> Option<Seq<char>> {
    if id == LINK {
        Some("https://github.com/shiversoftdev/t7patch"@)
    } else if id == SOURCE_LINK {
        Some("https://github.com/Scroptss/T7Patch-src"@)
    } else if id == RELATED_LINK {
        Some("https://github.com/Scroptss/T7Patch"@)
    } else if id == RUST_LINK {
        Some("https://github.com/staFF6773/T7Patch-Rs"@)
    } else if id == MINHOOK_LINK {
        Some("https://github.com/TsudaKageyu/minhook"@)
    } else {
        None
    }
}

pub fn credit_url(id: u32) -> (r: Option<&'static str>)
    ensures
        match link_of(id) {
            Some(url) => r is Some && r->Some_0@ == url,
            None => r is None,
        },
{
    if id == LINK {
        Some("https://github.com/shiversoftdev/t7patch")
    } else if id == SOURCE_LINK {
        Some("https://github.com/Scroptss/T7Patch-src")
    } else if id == RELATED_LINK {
        Some("https://github.com/Scroptss/T7Patch")
    } else if id == RUST_LINK {
        Some("https://github.com/staFF6773/T7Patch-Rs")
    } else if id == MINHOOK_LINK {
        Some("https://github.com/TsudaKageyu/minhook")
    } else {
        None
    }
}

/// A text in UTF-16 with a terminator, as Windows takes it.
pub fn wide(text: &str) -> (r: Vec<u16>)
    ensures
        r@ == utf16::encoded(text@).push(0),
{
    let mut units: Vec<u16> = encode(text);
    units.push(0);
    units
}

/// What a control is.
#[derive(Clone, Copy, Debug, PartialEq, Eq, Structural)]
pub enum Class {
    /// A text that never takes a click.
    Label,
    /// A text that is cut short where it does not fit, and takes clicks.
    Text,
    Button,
    Edit,
    Check,
    Tabs,
}

/// A rectangle in units of the layout, before scaling.
#[derive(Clone, Copy, Debug, PartialEq, Eq, Structural)]
pub struct Place {
    pub x: i32,
    pub y: i32,
    pub w: i32,
    pub h: i32,
}

/// A control to create, on a page or on all of them.
#[derive(Debug)]
pub struct Control {
    pub class: Class,
    pub text: String,
    pub id: u32,
    pub place: Place,
    pub page: Option<Page>,
}

/// What a control shows and where.
#[verifier::ext_equal]
pub struct Shown {
    pub class: Class,
    pub text: Seq<char>,
    pub id: u32,
    pub place: Place,
    pub page: Option<Page>,
}

impl View for Control {
    type V = Shown;

    open spec fn view(&self) -> Shown {
        Shown {
            class: self.class,
            text: self.text@,
            id: self.id,
            place: self.place,
            page: self.page,
        }
    }
}

pub open spec fn views(controls: Seq<Control>) -> Seq<Shown> {
    controls.map_values(|c: Control| c@)
}

pub open spec fn shown(
    class: Class,
    text: Seq<char>,
    id: u32,
    place: (i32, i32, i32, i32),
    page: Option<Page>,
) -> Shown {
    Shown {
        class,
        text,
        id,
        place: Place { x: place.0, y: place.1, w: place.2, h: place.3 },
        page,
    }
}

fn push(
    out: &mut Vec<Control>,
    class: Class,
    text: &str,
    id: u32,
    place: (i32, i32, i32, i32),
    page: Option<Page>,
)
    ensures
        views(final(out)@) == views(old(out)@).push(shown(class, text@, id, place, page)),
{
    out.push(
        Control {
            class,
            text: text.to_owned(),
            id,
            place: Place { x: place.0, y: place.1, w: place.2, h: place.3 },
            page,
        },
    );
    assert(views(out@) =~= views(old(out)@).push(shown(class, text@, id, place, page)));
}

pub open spec fn header_layout() -> Seq<Shown> {
    seq![
        shown(Class::Label, "GAME CONNECTION"@, HEADING, (44, 112, 350, 20), None),
        shown(Class::Text, "No game process found."@, STATUS, (44, 140, 552, 24), None),
        shown(Class::Label, "Start Black Ops III. The patch connects automatically."@, HINT, (44, 173, 552, 18), None),
        shown(Class::Button, "Details"@, STATUS_DETAILS, (520, 105, 80, 28), None),
        shown(Class::Tabs, "Launcher sections"@, TABS, (24, 212, 592, 44), None),
    ]
}

/// The state of the game and the tabs.
fn push_header(out: &mut Vec<Control>)
    ensures
        views(final(out)@) == views(old(out)@) + header_layout(),
{
    let mut part: Vec<Control> = Vec::new();
    push(&mut part, Class::Label, "GAME CONNECTION", HEADING, (44, 112, 350, 20), None);
    push(&mut part, Class::Text, "No game process found.", STATUS, (44, 140, 552, 24), None);
    push(&mut part, Class::Label, "Start Black Ops III. The patch connects automatically.", HINT, (44, 173, 552, 18), None);
    push(&mut part, Class::Button, "Details", STATUS_DETAILS, (520, 105, 80, 28), None);
    push(&mut part, Class::Tabs, "Launcher sections", TABS, (24, 212, 592, 44), None);
    assert(views(part@) =~= header_layout());
    let ghost start = out@;
    let ghost added = part@;
    out.append(&mut part);
    assert(views(start + added) =~= views(start) + views(added));
}

pub open spec fn settings_layout(name: Seq<char>, password: Seq<char>) -> Seq<Shown> {
    seq![
        shown(Class::Label, "PLAYER SETTINGS"@, HEADING, (44, 284, 320, 20), Some(Page::Settings)),
        shown(Class::Label, ""@, SAVED, (420, 285, 176, 18), Some(Page::Settings)),
        shown(Class::Label, "Your identity and connection preferences."@, HINT, (44, 314, 552, 20), Some(Page::Settings)),
        shown(Class::Label, "Player name"@, LABEL, (44, 348, 252, 21), Some(Page::Settings)),
        shown(Class::Edit, name, NAME, (56, 381, 228, 24), Some(Page::Settings)),
        shown(Class::Label, "Network password"@, LABEL, (320, 348, 276, 21), Some(Page::Settings)),
        shown(Class::Edit, password, PASSWORD, (332, 381, 252, 24), Some(Page::Settings)),
        shown(Class::Label, "Up to 15 characters."@, HINT, (44, 423, 252, 18), Some(Page::Settings)),
        shown(Class::Label, "Use the same password as your party."@, HINT, (320, 423, 276, 18), Some(Page::Settings)),
        shown(Class::Check, "Friends only"@, FRIENDS, (44, 474, 132, 24), Some(Page::Settings)),
        shown(Class::Label, "Limit incoming connections to your friends."@, HINT, (196, 477, 400, 20), Some(Page::Settings)),
    ]
}

/// The page of the settings.
fn push_settings(out: &mut Vec<Control>, name: &str, password: &str)
    ensures
        views(final(out)@) == views(old(out)@) + settings_layout(name@, password@),
{
    let mut part: Vec<Control> = Vec::new();
    push(&mut part, Class::Label, "PLAYER SETTINGS", HEADING, (44, 284, 320, 20), Some(Page::Settings));
    push(&mut part, Class::Label, "", SAVED, (420, 285, 176, 18), Some(Page::Settings));
    push(&mut part, Class::Label, "Your identity and connection preferences.", HINT, (44, 314, 552, 20), Some(Page::Settings));
    push(&mut part, Class::Label, "Player name", LABEL, (44, 348, 252, 21), Some(Page::Settings));
    push(&mut part, Class::Edit, name, NAME, (56, 381, 228, 24), Some(Page::Settings));
    push(&mut part, Class::Label, "Network password", LABEL, (320, 348, 276, 21), Some(Page::Settings));
    push(&mut part, Class::Edit, password, PASSWORD, (332, 381, 252, 24), Some(Page::Settings));
    push(&mut part, Class::Label, "Up to 15 characters.", HINT, (44, 423, 252, 18), Some(Page::Settings));
    push(&mut part, Class::Label, "Use the same password as your party.", HINT, (320, 423, 276, 18), Some(Page::Settings));
    push(&mut part, Class::Check, "Friends only", FRIENDS, (44, 474, 132, 24), Some(Page::Settings));
    push(&mut part, Class::Label, "Limit incoming connections to your friends.", HINT, (196, 477, 400, 20), Some(Page::Settings));
    assert(views(part@) =~= settings_layout(name@, password@));
    let ghost start = out@;
    let ghost added = part@;
    out.append(&mut part);
    assert(views(start + added) =~= views(start) + views(added));
}

pub open spec fn updates_layout(installed: Seq<char>) -> Seq<Shown> {
    seq![
        shown(Class::Label, "LAUNCHER UPDATES"@, HEADING, (44, 284, 350, 20), Some(Page::Updates)),
        shown(Class::Label, "Installed v"@ + installed + " · stable releases from GitHub"@, HINT, (44, 314, 552, 20), Some(Page::Updates)),
        shown(Class::Text, ""@, UPDATE_STATUS, (44, 354, 552, 46), Some(Page::Updates)),
        shown(Class::Button, "Check for updates"@, UPDATE_CHECK, (44, 440, 200, 36), Some(Page::Updates)),
        shown(Class::Button, "Download update"@, UPDATE_INSTALL, (396, 440, 200, 36), Some(Page::Updates)),
        shown(Class::Button, "Details"@, UPDATE_DETAILS, (520, 277, 80, 28), Some(Page::Updates)),
        shown(Class::Label, "Game detection continues while you browse other tabs."@, HINT, (44, 500, 552, 18), Some(Page::Updates)),
    ]
}

/// The page of the updates.
fn push_updates(out: &mut Vec<Control>, installed: &str)
    ensures
        views(final(out)@) == views(old(out)@) + updates_layout(installed@),
{
    let mut part: Vec<Control> = Vec::new();
    push(&mut part, Class::Label, "LAUNCHER UPDATES", HEADING, (44, 284, 350, 20), Some(Page::Updates));
    let mut note = "Installed v".to_owned();
    note.append(installed);
    note.append(" · stable releases from GitHub");
    push(&mut part, Class::Label, note.as_str(), HINT, (44, 314, 552, 20), Some(Page::Updates));
    push(&mut part, Class::Text, "", UPDATE_STATUS, (44, 354, 552, 46), Some(Page::Updates));
    push(&mut part, Class::Button, "Check for updates", UPDATE_CHECK, (44, 440, 200, 36), Some(Page::Updates));
    push(&mut part, Class::Button, "Download update", UPDATE_INSTALL, (396, 440, 200, 36), Some(Page::Updates));
    push(&mut part, Class::Button, "Details", UPDATE_DETAILS, (520, 277, 80, 28), Some(Page::Updates));
    push(&mut part, Class::Label, "Game detection continues while you browse other tabs.", HINT, (44, 500, 552, 18), Some(Page::Updates));
    assert(views(part@) =~= updates_layout(installed@));
    let ghost start = out@;
    let ghost added = part@;
    out.append(&mut part);
    assert(views(start + added) =~= views(start) + views(added));
}

pub open spec fn credits_layout() -> Seq<Shown> {
    seq![
        shown(Class::Label, "CREDITS & ACKNOWLEDGMENTS"@, HEADING, (44, 284, 552, 20), Some(Page::Credits)),
        shown(Class::Label, "Serious / shiversoftdev"@, LABEL, (44, 322, 370, 21), Some(Page::Credits)),
        shown(Class::Label, "Creator of the original T7 community patch."@, HINT, (44, 344, 370, 18), Some(Page::Credits)),
        shown(Class::Button, "Original project  ↗"@, LINK, (440, 326, 156, 30), Some(Page::Credits)),
        shown(Class::Label, "Scroptss"@, LABEL, (44, 368, 370, 21), Some(Page::Credits)),
        shown(Class::Label, "Source reference and related T7 Patch repository."@, HINT, (44, 390, 370, 18), Some(Page::Credits)),
        shown(Class::Button, "Source ↗"@, SOURCE_LINK, (424, 372, 82, 30), Some(Page::Credits)),
        shown(Class::Button, "Related ↗"@, RELATED_LINK, (514, 372, 82, 30), Some(Page::Credits)),
        shown(Class::Label, "T7Patch-Rs"@, LABEL, (44, 414, 370, 21), Some(Page::Credits)),
        shown(Class::Label, "Launcher and patch reimplementation in Rust."@, HINT, (44, 436, 370, 18), Some(Page::Credits)),
        shown(Class::Button, "Rust project  ↗"@, RUST_LINK, (440, 418, 156, 30), Some(Page::Credits)),
        shown(Class::Label, "MinHook · Tsuda Kageyu"@, LABEL, (44, 460, 370, 21), Some(Page::Credits)),
        shown(Class::Label, "Native function hooks used by the patch."@, HINT, (44, 482, 370, 18), Some(Page::Credits)),
        shown(Class::Button, "MinHook  ↗"@, MINHOOK_LINK, (440, 464, 156, 30), Some(Page::Credits)),
        shown(Class::Label, "All dependencies retain their respective authorship and licenses."@, HINT, (44, 512, 552, 18), Some(Page::Credits)),
    ]
}

/// The page of the credits.
fn push_credits(out: &mut Vec<Control>)
    ensures
        views(final(out)@) == views(old(out)@) + credits_layout(),
{
    let mut part: Vec<Control> = Vec::new();
    push(&mut part, Class::Label, "CREDITS & ACKNOWLEDGMENTS", HEADING, (44, 284, 552, 20), Some(Page::Credits));
    push(&mut part, Class::Label, "Serious / shiversoftdev", LABEL, (44, 322, 370, 21), Some(Page::Credits));
    push(&mut part, Class::Label, "Creator of the original T7 community patch.", HINT, (44, 344, 370, 18), Some(Page::Credits));
    push(&mut part, Class::Button, "Original project  ↗", LINK, (440, 326, 156, 30), Some(Page::Credits));
    push(&mut part, Class::Label, "Scroptss", LABEL, (44, 368, 370, 21), Some(Page::Credits));
    push(&mut part, Class::Label, "Source reference and related T7 Patch repository.", HINT, (44, 390, 370, 18), Some(Page::Credits));
    push(&mut part, Class::Button, "Source ↗", SOURCE_LINK, (424, 372, 82, 30), Some(Page::Credits));
    push(&mut part, Class::Button, "Related ↗", RELATED_LINK, (514, 372, 82, 30), Some(Page::Credits));
    push(&mut part, Class::Label, "T7Patch-Rs", LABEL, (44, 414, 370, 21), Some(Page::Credits));
    push(&mut part, Class::Label, "Launcher and patch reimplementation in Rust.", HINT, (44, 436, 370, 18), Some(Page::Credits));
    push(&mut part, Class::Button, "Rust project  ↗", RUST_LINK, (440, 418, 156, 30), Some(Page::Credits));
    push(&mut part, Class::Label, "MinHook · Tsuda Kageyu", LABEL, (44, 460, 370, 21), Some(Page::Credits));
    push(&mut part, Class::Label, "Native function hooks used by the patch.", HINT, (44, 482, 370, 18), Some(Page::Credits));
    push(&mut part, Class::Button, "MinHook  ↗", MINHOOK_LINK, (440, 464, 156, 30), Some(Page::Credits));
    push(&mut part, Class::Label, "All dependencies retain their respective authorship and licenses.", HINT, (44, 512, 552, 18), Some(Page::Credits));
    assert(views(part@) =~= credits_layout());
    let ghost start = out@;
    let ghost added = part@;
    out.append(&mut part);
    assert(views(start + added) =~= views(start) + views(added));
}

pub open spec fn protection_layout() -> Seq<Shown> {
    seq![
        shown(Class::Label, "PROTECTION HISTORY"@, HEADING, (44, 284, 350, 20), Some(Page::Protection)),
        shown(Class::Label, ""@, HISTORY_SUMMARY, (44, 314, 552, 20), Some(Page::Protection)),
        shown(Class::Text, ""@, HISTORY, (44, 344, 552, 128), Some(Page::Protection)),
        shown(Class::Label, ""@, HISTORY_NOTICE, (44, 492, 340, 18), Some(Page::Protection)),
        shown(Class::Button, "All"@, HISTORY_FILTER, (396, 484, 200, 36), Some(Page::Protection)),
    ]
}

/// The page of the recorded events.
fn push_protection(out: &mut Vec<Control>)
    ensures
        views(final(out)@) == views(old(out)@) + protection_layout(),
{
    let mut part: Vec<Control> = Vec::new();
    push(&mut part, Class::Label, "PROTECTION HISTORY", HEADING, (44, 284, 350, 20), Some(Page::Protection));
    push(&mut part, Class::Label, "", HISTORY_SUMMARY, (44, 314, 552, 20), Some(Page::Protection));
    push(&mut part, Class::Text, "", HISTORY, (44, 344, 552, 128), Some(Page::Protection));
    push(&mut part, Class::Label, "", HISTORY_NOTICE, (44, 492, 340, 18), Some(Page::Protection));
    push(&mut part, Class::Button, "All", HISTORY_FILTER, (396, 484, 200, 36), Some(Page::Protection));
    assert(views(part@) =~= protection_layout());
    let ghost start = out@;
    let ghost added = part@;
    out.append(&mut part);
    assert(views(start + added) =~= views(start) + views(added));
}

pub open spec fn frame_layout() -> Seq<Shown> {
    seq![
        shown(Class::Button, "Minimize"@, MINIMIZE, (536, 20, 36, 32), None),
        shown(Class::Button, "Close"@, CLOSE, (580, 20, 36, 32), None),
    ]
}

/// The window's own buttons.
fn push_frame(out: &mut Vec<Control>)
    ensures
        views(final(out)@) == views(old(out)@) + frame_layout(),
{
    let mut part: Vec<Control> = Vec::new();
    push(&mut part, Class::Button, "Minimize", MINIMIZE, (536, 20, 36, 32), None);
    push(&mut part, Class::Button, "Close", CLOSE, (580, 20, 36, 32), None);
    assert(views(part@) =~= frame_layout());
    let ghost start = out@;
    let ghost added = part@;
    out.append(&mut part);
    assert(views(start + added) =~= views(start) + views(added));
}

/// Every control of the window, in the order of creation.
pub open spec fn layout(name: Seq<char>, password: Seq<char>, installed: Seq<char>) -> Seq<Shown> {
    header_layout() + settings_layout(name, password) + updates_layout(installed)
        + credits_layout() + protection_layout() + frame_layout()
}

/// Lays the window out, for settings with `name` and `password`.
pub fn create_controls(name: &str, password: &str, installed: &str) -> (r: Vec<Control>)
    ensures
        views(r@) == layout(name@, password@, installed@),
{
    let mut out: Vec<Control> = Vec::new();
    assert(views(out@) =~= Seq::<Shown>::empty());
    push_header(&mut out);
    assert(views(out@) =~= header_layout());
    push_settings(&mut out, name, password);
    push_updates(&mut out, installed);
    push_credits(&mut out);
    push_protection(&mut out);
    push_frame(&mut out);
    out
}

/// The panel that a page fills.
pub open spec fn content() -> Place {
    Place { x: 24, y: 264, w: 592, h: 272 }
}

pub open spec fn lies_within(inner: Place, outer: Place) -> bool {
    &&& outer.x <= inner.x
    &&& outer.y <= inner.y
    &&& inner.x + inner.w <= outer.x + outer.w
    &&& inner.y + inner.h <= outer.y + outer.h
}

pub open spec fn well_placed(c: Shown) -> bool {
    &&& c.place.w > 0
    &&& c.place.h > 0
    &&& lies_within(c.place, Place { x: 0, y: 0, w: WIDTH, h: HEIGHT })
    &&& c.page is Some ==> lies_within(c.place, content())
}

/// Every control lies inside the window, and every control of a page inside the panel that the
/// pages share.
pub proof fn lemma_layout_fits(
    name: Seq<char>,
    password: Seq<char>,
    installed: Seq<char>,
    i: int,
)
    requires
        0 <= i < layout(name, password, installed).len(),
    ensures
        well_placed(layout(name, password, installed)[i]),
{
    let h = header_layout();
    let s = settings_layout(name, password);
    let u = updates_layout(installed);
    let c = credits_layout();
    let p = protection_layout();
    let f = frame_layout();
    assert(forall|k: int| 0 <= k < h.len() ==> well_placed(#[trigger] h[k]));
    assert(forall|k: int| 0 <= k < s.len() ==> well_placed(#[trigger] s[k]));
    assert(forall|k: int| 0 <= k < u.len() ==> well_placed(#[trigger] u[k]));
    assert(forall|k: int| 0 <= k < c.len() ==> well_placed(#[trigger] c[k]));
    assert(forall|k: int| 0 <= k < p.len() ==> well_placed(#[trigger] p[k]));
    assert(forall|k: int| 0 <= k < f.len() ==> well_placed(#[trigger] f[k]));
}

/// The fonts of the window.
#[derive(Clone, Copy, Debug, PartialEq, Eq, Structural)]
pub enum Font {
    Regular,
    Small,
    Mono,
}

/// The font of a label.
pub open spec fn label_font_of(id: u32) -> Font {
    if id == HEADING {
        Font::Mono
    } else if id == HINT || id == SAVED {
        Font::Small
    } else {
        Font::Regular
    }
}

/// The font of a label.
pub fn label_font(id: u32) -> (r: Font)
    ensures
        r == label_font_of(id),
{
    if id == HEADING {
        Font::Mono
    } else if id == HINT || id == SAVED {
        Font::Small
    } else {
        Font::Regular
    }
}

/// What showing a page takes: which of its controls are visible, and whether the focus must
/// leave a control that disappears.
#[derive(Debug)]
pub struct Turn {
    pub visible: Vec<bool>,
    pub refocus: bool,
}

/// Whether the focus is on a control of another page.
pub open spec fn loses_focus(controls: Seq<(Page, u64)>, page: Page, focus: u64) -> bool {
    exists|i: int|
        0 <= i < controls.len() && (#[trigger] controls[i]).0 != page && controls[i].1 == focus
}

/// A page was turned to.
pub open spec fn turned(controls: Seq<(Page, u64)>, page: Page, focus: u64, r: Turn) -> bool {
    &&& r.visible@.len() == controls.len()
    &&& forall|i: int|
        0 <= i < controls.len() ==> #[trigger] r.visible@[i] == (controls[i].0 == page)
    &&& r.refocus == loses_focus(controls, page, focus)
}

/// Turns to `page`. The controls of the other pages are hidden, not discarded, so that edits
/// survive.
pub fn show_page(controls: &Vec<(Page, u64)>, page: Page, focus: u64) -> (r: Turn)
    ensures
        turned(controls@, page, focus, r),
{
    let mut visible: Vec<bool> = Vec::new();
    let mut refocus: bool = false;
    let mut i: usize = 0;
    while i < controls.len()
        invariant
            i <= controls@.len(),
            visible@.len() == i,
            forall|k: int| 0 <= k < i ==> #[trigger] visible@[k] == (controls@[k].0 == page),
            refocus == exists|k: int|
                0 <= k < i && (#[trigger] controls@[k]).0 != page && controls@[k].1 == focus,
        decreases controls@.len() - i,
    {
        let (owner, control): (Page, u64) = controls[i];
        if owner != page && control == focus {
            assert(controls@[i as int].0 != page && controls@[i as int].1 == focus);
            refocus = true;
        }
        visible.push(owner == page);
        i = i + 1;
    }
    Turn { visible, refocus }
}

/// What came of reading the settings at the start.
#[derive(Debug)]
pub enum Loaded {
    /// The window is only tried out.
    Skipped,
    Read(Config),
    Missing,
    Failed(String),
}

/// What the window starts with.
pub open spec fn started_with(loaded: Loaded, r: (Config, bool, String)) -> bool {
    match loaded {
        Loaded::Skipped => r.0@ == settings::default_settings() && !r.1 && r.2@ == ""@,
        Loaded::Read(config) => r.0 == config && !r.1 && r.2@ == ""@,
        Loaded::Missing => r.0@ == settings::default_settings() && r.1 && r.2@ == ""@,
        Loaded::Failed(error) => {
            &&& r.0@ == settings::default_settings()
            &&& !r.1
            &&& r.2@ == "Cannot read settings: "@ + error@
        },
    }
}

/// The settings to start with, whether they are to be written at once, and what to complain of.
pub fn initial_settings(loaded: Loaded) -> (r: (Config, bool, String))
    ensures
        started_with(loaded, r),
{
    match loaded {
        Loaded::Skipped => (Config::default(), false, "".to_owned()),
        Loaded::Read(config) => (config, false, "".to_owned()),
        Loaded::Missing => (Config::default(), true, "".to_owned()),
        Loaded::Failed(error) => {
            let mut text = "Cannot read settings: ".to_owned();
            text.append(error.as_str());
            (Config::default(), false, text)
        },
    }
}

/// What the window remembers.
#[derive(Debug)]
pub struct Form {
    pub smoke: bool,
    pub error: String,
    pub dirty: Option<u64>,
    pub last_status: String,
    pub status_active: bool,
    pub last_update: String,
    pub page: Page,
    pub initialized: bool,
    pub restarting: bool,
}

#[verifier::ext_equal]
pub struct FormState {
    pub smoke: bool,
    pub error: Seq<char>,
    pub dirty: Option<u64>,
    pub last_status: Seq<char>,
    pub status_active: bool,
    pub last_update: Seq<char>,
    pub page: Page,
    pub initialized: bool,
    pub restarting: bool,
}

impl View for Form {
    type V = FormState;

    open spec fn view(&self) -> FormState {
        FormState {
            smoke: self.smoke,
            error: self.error@,
            dirty: self.dirty,
            last_status: self.last_status@,
            status_active: self.status_active,
            last_update: self.last_update@,
            page: self.page,
            initialized: self.initialized,
            restarting: self.restarting,
        }
    }
}

/// What a click or a change asks for.
#[derive(Debug)]
pub enum Command {
    Nothing,
    /// A setting was typed into.
    Edited,
    /// The border of a field is to be drawn anew.
    FocusMoved,
    CheckUpdates,
    Update,
    ShowUpdate,
    Save,
    Minimize,
    Close,
    Open(&'static str),
    ShowStatus,
    NextFilter,
}

/// What the button for updates does.
#[derive(Debug)]
pub enum UpdateAction {
    /// The window is only tried out.
    Ignore,
    /// Only show the state again.
    Refresh,
    Download,
    Tell(String),
    /// Restart into the update, after saving what was typed.
    Install { save: bool },
}

/// What the page of the updates shows.
#[derive(Debug)]
pub struct UpdateView {
    /// The text, if it changed.
    pub text: Option<String>,
    /// Whether the activity bar is to be drawn anew.
    pub progress: bool,
    pub check_enabled: bool,
    pub install_enabled: bool,
    pub install_text: &'static str,
    pub settings_enabled: bool,
}

/// What follows an attempt to start the updater's helper.
#[derive(Debug)]
pub enum Restart {
    Close,
    /// Detection goes on, and the error is shown.
    Resume(String),
}

/// The text beside the settings.
pub open spec fn saved_state(f: FormState) -> Seq<char> {
    if f.smoke {
        "Preview · not saved"@
    } else if f.error.len() > 0 {
        "Could not save settings"@
    } else if f.dirty is Some {
        "Saving changes…"@
    } else {
        "All changes saved"@
    }
}

/// Whether a control that changed is to be saved now.
pub open spec fn save_is_due(dirty: Option<u64>, now: u64) -> bool {
    match dirty {
        Some(last) => now - last >= SAVE_DELAY_MS,
        None => false,
    }
}

pub open spec fn is_field(id: int) -> bool {
    id == NAME || id == PASSWORD
}

/// What a message of a control asks a window for that shows `page`.
pub open spec fn asked_for(initialized: bool, page: Page, wparam: u64, r: Command) -> bool {
    let id = (wparam % 0x10000) as u32;
    let note = (wparam / 0x10000) % 0x10000;
    if !initialized {
        r is Nothing
    } else if note == CHANGED {
        if is_field(id as int) {
            r is Edited
        } else {
            r is Nothing
        }
    } else if note == FOCUS_GAINED || note == FOCUS_LOST {
        if is_field(id as int) && page == Page::Settings {
            r is FocusMoved
        } else {
            r is Nothing
        }
    } else if note != CLICKED {
        r is Nothing
    } else {
        match link_of(id) {
            Some(url) => r matches Command::Open(u) && u@ == url,
            None => if id == UPDATE_CHECK {
                r is CheckUpdates
            } else if id == UPDATE_INSTALL {
                r is Update
            } else if id == UPDATE_STATUS || id == UPDATE_DETAILS {
                r is ShowUpdate
            } else if id == FRIENDS {
                r is Save
            } else if id == MINIMIZE {
                r is Minimize
            } else if id == CLOSE {
                r is Close
            } else if id == STATUS || id == STATUS_DETAILS {
                r is ShowStatus
            } else if id == HISTORY_FILTER {
                r is NextFilter
            } else {
                r is Nothing
            },
        }
    }
}

/// What the button for updates does.
pub open spec fn update_asked(
    smoke: bool,
    unsaved: bool,
    state: State,
    game: Result<Option<u32>, String>,
    r: UpdateAction,
) -> bool {
    if smoke {
        r is Ignore
    } else if state is Available {
        r is Download
    } else if state is Ready {
        match game {
            Ok(None) => r == (UpdateAction::Install { save: unsaved }),
            Ok(Some(_)) => r matches UpdateAction::Tell(text) && text@
                == "Close BO3 before installing the update."@,
            Err(e) => r matches UpdateAction::Tell(text) && text@ == e@,
        }
    } else {
        r is Refresh
    }
}

/// The colour of a control's text, with a complaint or an active patch.
pub open spec fn text_color_of(complaint: bool, active: bool, id: u32, state: State) -> u32 {
    if id == STATUS {
        if complaint {
            ERROR
        } else if active {
            GREEN
        } else {
            TEXT
        }
    } else if id == SAVED {
        if complaint {
            ERROR
        } else {
            MUTED
        }
    } else if id == UPDATE_STATUS && state is Error {
        ERROR
    } else if id == HEADING {
        ACCENT
    } else if id == HINT {
        MUTED
    } else {
        TEXT
    }
}

/// How a button is drawn.
pub open spec fn styled(
    id: u32,
    disabled: bool,
    pressed: bool,
    focused: bool,
    hovered: bool,
    r: ButtonStyle,
) -> bool {
    &&& r.base == (if is_frame_button(id) {
        DARK
    } else {
        PANEL
    })
    &&& r.fill == button_fill(id, disabled, pressed, hovered)
    &&& r.border == (if focused {
        ACCENT
    } else if is_quiet(id) {
        r.fill
    } else {
        BORDER
    })
    &&& r.text == (if disabled {
        MUTED
    } else if id == UPDATE_INSTALL && !pressed {
        DARK
    } else if is_quiet(id) {
        ACCENT
    } else {
        TEXT
    })
}

/// What the page of the updates shows.
pub open spec fn update_shown(
    f: FormState,
    state: State,
    installed: Seq<char>,
    r: UpdateView,
) -> bool {
    let text = state.text_of(installed);
    let changed = f.last_update != text;
    &&& r.text is Some <==> changed
    &&& r.text is Some ==> r.text->Some_0@ == text
    &&& r.progress == (f.page == Page::Updates && (changed || state.is_busy()))
    &&& r.check_enabled == (!f.smoke && !state.is_busy() && !(state is Ready))
    &&& r.install_enabled == (!f.smoke && (state is Available || state is Ready))
    &&& r.install_text@ == (if state is Ready || state is Handoff {
        "Install & restart"@
    } else {
        "Download update"@
    })
    &&& r.settings_enabled == !(state is Handoff)
}

fn is_empty(s: &String) -> (r: bool)
    ensures
        r == (s@.len() == 0),
{
    s.as_str().unicode_len() == 0
}

/// What the status line shows.
pub open spec fn status_shown(
    before: FormState,
    after: FormState,
    status: Status,
    r: Option<String>,
) -> bool {
    let text = if before.error.len() > 0 {
        before.error
    } else {
        status.text@
    };
    let active = before.error.len() == 0 && status.active;
    &&& after == (FormState {
        last_status: text,
        status_active: active,
        ..before
    })
    &&& r is Some <==> before.last_status != text || before.status_active
        != active
    &&& r is Some ==> r->Some_0@ == text
}

/// A trial of the window has lasted long enough.
pub open spec fn trial_over(smoke: bool, started: u64, now: u64, r: bool) -> bool {
    r == (smoke && now - started >= SMOKE_MS)
}

/// The helper is to be started.
pub open spec fn helper_due(restarting: bool, state: State, quiescent: bool, r: bool) -> bool {
    r == (state is Handoff && quiescent && !restarting)
}

/// The settings were written, or not.
pub open spec fn was_saved(
    before: FormState,
    after: FormState,
    outcome: Result<(), String>,
    r: bool,
) -> bool {
    &&& r == outcome is Ok
    &&& after == (FormState {
        error: match outcome {
            Ok(_) => ""@,
            Err(e) => "Settings not saved: "@ + e@,
        },
        ..before
    })
}

impl Form {
    /// A window that is about to open, with what there is to complain of.
    pub fn new(smoke: bool, error: String) -> (r: Self)
        ensures
            r@ == (FormState {
                smoke,
                error: error@,
                dirty: None,
                last_status: ""@,
                status_active: false,
                last_update: ""@,
                page: Page::Settings,
                initialized: false,
                restarting: false,
            }),
    {
        Form {
            smoke,
            error,
            dirty: None,
            last_status: "".to_owned(),
            status_active: false,
            last_update: "".to_owned(),
            page: Page::Settings,
            initialized: false,
            restarting: false,
        }
    }

    /// What a message of the control `wparam % 0x10000` asks for, whose notification is in the
    /// next sixteen bits.
    pub fn command(&self, wparam: u64) -> (r: Command)
        ensures
            asked_for(self.initialized, self.page, wparam, r),
    {
        let id: u32 = (wparam % 0x10000) as u32;
        let note: u16 = ((wparam / 0x10000) % 0x10000) as u16;
        if !self.initialized {
            return Command::Nothing;
        }
        let field: bool = id == NAME || id == PASSWORD;
        if note == CHANGED {
            return if field {
                Command::Edited
            } else {
                Command::Nothing
            };
        }
        if note == FOCUS_GAINED || note == FOCUS_LOST {
            return if field && self.page == Page::Settings {
                Command::FocusMoved
            } else {
                Command::Nothing
            };
        }
        if note != CLICKED {
            return Command::Nothing;
        }
        match credit_url(id) {
            Some(url) => return Command::Open(url),
            None => {},
        }
        if id == UPDATE_CHECK {
            Command::CheckUpdates
        } else if id == UPDATE_INSTALL {
            Command::Update
        } else if id == UPDATE_STATUS || id == UPDATE_DETAILS {
            Command::ShowUpdate
        } else if id == FRIENDS {
            Command::Save
        } else if id == MINIMIZE {
            Command::Minimize
        } else if id == CLOSE {
            Command::Close
        } else if id == STATUS || id == STATUS_DETAILS {
            Command::ShowStatus
        } else if id == HISTORY_FILTER {
            Command::NextFilter
        } else {
            Command::Nothing
        }
    }

    /// Notes that a setting was typed into.
    pub fn edit(&mut self, now: u64)
        ensures
            final(self)@ == (FormState { dirty: Some(now), ..old(self)@ }),
    {
        self.dirty = Some(now);
    }

    /// Starts saving, and says whether the settings are to be written.
    pub fn begin_save(&mut self) -> (r: bool)
        ensures
            r == !old(self).smoke,
            final(self)@ == (FormState { dirty: None, ..old(self)@ }),
    {
        self.dirty = None;
        !self.smoke
    }

    /// Takes the outcome of writing the settings, and says whether there are valid ones now.
    pub fn saved(&mut self, outcome: Result<(), String>) -> (r: bool)
        ensures
            was_saved(old(self)@, final(self)@, outcome, r),
    {
        match outcome {
            Ok(()) => {
                self.error = "".to_owned();
                true
            },
            Err(e) => {
                let mut text = "Settings not saved: ".to_owned();
                text.append(e.as_str());
                self.error = text;
                false
            },
        }
    }

    pub fn saved_text(&self) -> (r: &'static str)
        ensures
            r@ == saved_state(self@),
    {
        if self.smoke {
            "Preview · not saved"
        } else if !is_empty(&self.error) {
            "Could not save settings"
        } else if self.dirty.is_some() {
            "Saving changes…"
        } else {
            "All changes saved"
        }
    }

    /// What the status line shows now, if that or its colour changed: the complaint, if there
    /// is one, else the state of the game.
    pub fn refresh(&mut self, status: &Status) -> (r: Option<String>)
        ensures
            status_shown(old(self)@, final(self)@, *status, r),
    {
        let empty: bool = is_empty(&self.error);
        let active: bool = empty && status.active;
        let text: String = if empty {
            status.text.clone()
        } else {
            self.error.clone()
        };
        let changed: bool = !same_text(self.last_status.as_str(), text.as_str())
            || self.status_active != active;
        self.status_active = active;
        if !changed {
            return None;
        }
        self.last_status = text.clone();
        Some(text)
    }

    pub fn save_due(&self, now: u64) -> (r: bool)
        ensures
            r == save_is_due(self.dirty, now),
    {
        match self.dirty {
            Some(last) => now >= last && now - last >= SAVE_DELAY_MS,
            None => false,
        }
    }

    /// Whether a window that is only tried out has been open long enough.
    pub fn close_due(&self, started: u64, now: u64) -> (r: bool)
        ensures
            trial_over(self.smoke, started, now, r),
    {
        self.smoke && now >= started && now - started >= SMOKE_MS
    }

    /// What the button for updates does in `state`, where `game` is what a search for the game
    /// found.
    pub fn update_action(&self, state: &State, game: Result<Option<u32>, String>) -> (r:
        UpdateAction)
        ensures
            update_asked(self.smoke, self.dirty is Some, *state, game, r),
    {
        if self.smoke {
            return UpdateAction::Ignore;
        }
        match state {
            State::Available(_) => UpdateAction::Download,
            State::Ready(_) => match game {
                Ok(None) => UpdateAction::Install { save: self.dirty.is_some() },
                Ok(Some(_)) => UpdateAction::Tell(
                    "Close BO3 before installing the update.".to_owned(),
                ),
                Err(e) => UpdateAction::Tell(e),
            },
            _ => UpdateAction::Refresh,
        }
    }

    /// Whether the settings are in order, so that the program may restart.
    pub fn may_restart(&self) -> (r: Result<(), String>)
        ensures
            r is Ok <==> self@.error.len() == 0,
            r is Err ==> r->Err_0@ == "Save valid settings before restarting to update."@,
    {
        if !is_empty(&self.error) {
            return Err("Save valid settings before restarting to update.".to_owned());
        }
        Ok(())
    }

    /// What the page of the updates shows in `state`.
    pub fn refresh_update(&mut self, state: &State, installed: &str) -> (r: UpdateView)
        ensures
            final(self)@ == (FormState { last_update: state.text_of(installed@), ..old(self)@ }),
            update_shown(old(self)@, *state, installed@, r),
    {
        let text: String = state.text(installed);
        let changed: bool = !same_text(self.last_update.as_str(), text.as_str());
        let busy: bool = state.busy();
        let (available, ready, handoff): (bool, bool, bool) = match state {
            State::Available(_) => (true, false, false),
            State::Ready(_) => (false, true, false),
            State::Handoff(_) => (false, false, true),
            _ => (false, false, false),
        };
        let shown_text: Option<String> = if changed {
            Some(text.clone())
        } else {
            None
        };
        self.last_update = text;
        UpdateView {
            text: shown_text,
            progress: self.page == Page::Updates && (changed || busy),
            check_enabled: !self.smoke && !busy && !ready,
            install_enabled: !self.smoke && (available || ready),
            install_text: if ready || handoff {
                "Install & restart"
            } else {
                "Download update"
            },
            settings_enabled: !handoff,
        }
    }

    /// Whether to start the updater's helper: once detection is at rest, and only once.
    pub fn restart_due(&self, state: &State, quiescent: bool) -> (r: bool)
        ensures
            helper_due(self.restarting, *state, quiescent, r),
    {
        match state {
            State::Handoff(_) => quiescent && !self.restarting,
            _ => false,
        }
    }

    /// Takes the outcome of starting the helper.
    pub fn restarted(&mut self, outcome: Result<(), String>) -> (r: Restart)
        ensures
            match outcome {
                Ok(_) => r is Close && final(self)@ == (FormState { restarting: true, ..old(self)@
                }),
                Err(e) => (r matches Restart::Resume(text) && text@ == e@) && final(self)@
                    == old(self)@,
            },
    {
        match outcome {
            Ok(()) => {
                self.restarting = true;
                Restart::Close
            },
            Err(e) => Restart::Resume(e),
        }
    }

    pub open spec fn spec_status_color(self) -> u32 {
        if self.error@.len() > 0 {
            ERROR
        } else if self.status_active {
            GREEN
        } else {
            ACCENT
        }
    }

    /// The colour of the bar beside the status.
    pub fn status_color(&self) -> (r: u32)
        ensures
            r == self.spec_status_color(),
    {
        if !is_empty(&self.error) {
            ERROR
        } else if self.status_active {
            GREEN
        } else {
            ACCENT
        }
    }

    /// The colour of a control's text.
    pub fn text_color(&self, id: u32, state: &State) -> (r: u32)
        ensures
            r == text_color_of(self.error@.len() > 0, self.status_active, id, *state),
    {
        let wrong: bool = !is_empty(&self.error);
        if (id == STATUS || id == SAVED) && wrong {
            return ERROR;
        }
        if id == STATUS && self.status_active {
            return GREEN;
        }
        if id == UPDATE_STATUS {
            match state {
                State::Error(_) => return ERROR,
                _ => {},
            }
        }
        if id == HEADING {
            ACCENT
        } else if id == HINT || id == SAVED {
            MUTED
        } else {
            TEXT
        }
    }
}

/// What is typed is saved once typing has paused for the delay, and not before. Meanwhile the
/// window says so, and a complaint goes before either.
pub proof fn lemma_edits_are_saved(f: FormState, now: u64, later: u64)
    requires
        later - now >= SAVE_DELAY_MS,
        f.smoke == false,
    ensures
        save_is_due((FormState { dirty: Some(now), ..f }).dirty, later),
        forall|t: u64| t - now < SAVE_DELAY_MS ==> !save_is_due(Some(now), t),
        f.error.len() == 0 ==> saved_state(FormState { dirty: Some(now), ..f })
            == "Saving changes…"@,
        f.error.len() == 0 ==> saved_state(FormState { dirty: None, ..f })
            == "All changes saved"@,
        f.error.len() > 0 ==> saved_state(f) == "Could not save settings"@,
{
}

/// The colour behind a control.
pub open spec fn background_color_of(id: u32) -> u32 {
    if is_field(id as int) {
        INPUT
    } else {
        PANEL
    }
}

/// The colour behind a control.
pub fn background_color(id: u32) -> (r: u32)
    ensures
        r == background_color_of(id),
{
    if id == NAME || id == PASSWORD {
        INPUT
    } else {
        PANEL
    }
}

/// How a button is drawn.
#[derive(Clone, Copy, Debug, PartialEq, Eq, Structural)]
pub struct ButtonStyle {
    /// The colour around it.
    pub base: u32,
    pub fill: u32,
    pub border: u32,
    pub text: u32,
}

pub open spec fn is_frame_button(id: u32) -> bool {
    id == CLOSE || id == MINIMIZE
}

/// A button that shows no border of its own.
pub open spec fn is_quiet(id: u32) -> bool {
    link_of(id) is Some || is_frame_button(id) || id == STATUS_DETAILS || id == UPDATE_DETAILS
}

pub open spec fn button_fill(id: u32, disabled: bool, pressed: bool, hovered: bool) -> u32 {
    let primary = id == UPDATE_INSTALL && !disabled;
    if pressed {
        BORDER
    } else if hovered && !disabled {
        if primary {
            ACCENT_HOVERED
        } else {
            BORDER
        }
    } else if primary {
        ACCENT
    } else if is_frame_button(id) {
        DARK
    } else {
        PANEL
    }
}

pub fn button_style(id: u32, disabled: bool, pressed: bool, focused: bool, hovered: bool) -> (r:
    ButtonStyle)
    ensures
        styled(id, disabled, pressed, focused, hovered, r),
{
    let frame: bool = id == CLOSE || id == MINIMIZE;
    let quiet: bool = credit_url(id).is_some() || frame || id == STATUS_DETAILS
        || id == UPDATE_DETAILS;
    let primary: bool = id == UPDATE_INSTALL && !disabled;
    let lit: bool = hovered && !disabled;
    let base: u32 = if frame {
        DARK
    } else {
        PANEL
    };
    let fill: u32 = if pressed {
        BORDER
    } else if lit && primary {
        ACCENT_HOVERED
    } else if lit {
        BORDER
    } else if primary {
        ACCENT
    } else {
        base
    };
    ButtonStyle {
        base,
        fill,
        border: if focused {
            ACCENT
        } else if quiet {
            fill
        } else {
            BORDER
        },
        text: if disabled {
            MUTED
        } else if primary && !pressed {
            DARK
        } else if quiet {
            ACCENT
        } else {
            TEXT
        },
    }
}

/// What a button shows.
pub open spec fn captioned(id: u32, r: Option<&'static str>) -> bool {
    if id == CLOSE {
        r is Some && r->Some_0@ == "×"@
    } else if id == MINIMIZE {
        r is Some && r->Some_0@ == "−"@
    } else {
        r is None
    }
}

/// What is drawn on a button in place of its text.
pub fn button_caption(id: u32) -> (r: Option<&'static str>)
    ensures
        captioned(id, r),
{
    if id == CLOSE {
        Some("×")
    } else if id == MINIMIZE {
        Some("−")
    } else {
        None
    }
}

/// The colours of a tab.
pub open spec fn tab_colors_of(selected: bool) -> (u32, u32) {
    if selected {
        (ACCENT, ACCENT)
    } else {
        (MUTED, BORDER)
    }
}

/// The colours of a tab: of its text, and of the line below it.
pub fn tab_colors(selected: bool) -> (r: (u32, u32))
    ensures
        r == tab_colors_of(selected),
{
    if selected {
        (ACCENT, ACCENT)
    } else {
        (MUTED, BORDER)
    }
}

/// The button below the pointer. No button has the handle 0.
#[derive(Debug)]
pub struct Hover {
    pub window: u64,
}

/// The pointer has moved.
pub open spec fn pointer_moved(before: Hover, after: Hover, window: u64, r: bool) -> bool {
    &&& after.window == window
    &&& r == (before.window != window)
}

/// The pointer has left.
pub open spec fn pointer_left(before: Hover, after: Hover, window: u64) -> bool {
    after.window == (if before.window == window {
        0
    } else {
        before.window
    })
}

impl Hover {
    /// The pointer moves over `window`: whether it has just entered it.
    pub fn moved(&mut self, window: u64) -> (r: bool)
        ensures
            pointer_moved(*old(self), *final(self), window, r),
    {
        if self.window == window {
            return false;
        }
        self.window = window;
        true
    }

    /// The pointer leaves `window`, or `window` is destroyed.
    pub fn left(&mut self, window: u64)
        ensures
            pointer_left(*old(self), *final(self), window),
    {
        if self.window == window {
            self.window = 0;
        }
    }
}

/// Sixteen bits with a sign.
pub open spec fn signed16(v: int) -> int {
    if v < 0x8000 {
        v
    } else {
        v - 0x10000
    }
}

fn signed(v: u64) -> (r: i32)
    requires
        v < 0x10000,
    ensures
        r == signed16(v as int),
{
    if v < 0x8000 {
        v as i32
    } else {
        v as i32 - 0x10000
    }
}

/// The point of a message.
pub open spec fn points_to(lparam: u64, r: (i32, i32)) -> bool {
    &&& r.0 == signed16((lparam % 0x10000) as int)
    &&& r.1 == signed16(((lparam / 0x10000) % 0x10000) as int)
}

/// The point of the screen that a mouse message is about.
pub fn point_of(lparam: u64) -> (r: (i32, i32))
    ensures
        points_to(lparam, r),
{
    (signed(lparam % 0x10000), signed((lparam / 0x10000) % 0x10000))
}

/// Where the window can be moved.
pub open spec fn in_caption_of(x: i32, y: i32, right: i32, bottom: i32) -> bool {
    y < bottom && x < right
}

/// Whether a point of the window is where the window is moved by: above `bottom` and left of
/// `right`.
pub fn in_caption(x: i32, y: i32, right: i32, bottom: i32) -> (r: bool)
    ensures
        r == in_caption_of(x, y, right, bottom),
{
    y < bottom && x < right
}

/// The left edge of the bar that shows activity, which runs to and fro.
pub open spec fn bar_at(elapsed: nat) -> int {
    let phase = (elapsed / 12) % 904;
    44 + if phase <= 452 {
        phase as int
    } else {
        904 - phase
    }
}

pub fn activity(elapsed: u64) -> (r: Place)
    ensures
        r == (Place { x: bar_at(elapsed as nat) as i32, y: 412, w: 100, h: 3 }),
        44 <= r.x <= 496,
{
    let phase: u64 = (elapsed / 12) % 904;
    let x: u64 = if phase <= 452 {
        phase
    } else {
        904 - phase
    };
    Place { x: 44 + x as i32, y: 412, w: 100, h: 3 }
}

/// The bar stays on its track and moves by at most one unit in twelve milliseconds.
pub proof fn lemma_bar_stays_on_track(elapsed: nat)
    ensures
        lies_within(
            Place { x: bar_at(elapsed) as i32, y: 412, w: 100, h: 3 },
            Place { x: 44, y: 412, w: 552, h: 3 },
        ),
        -1 <= bar_at(elapsed + 12) - bar_at(elapsed) <= 1,
{
    assert((elapsed + 12) / 12 == elapsed / 12 + 1);
}

/// Where something centred starts.
pub open spec fn is_centered(low: i32, high: i32, size: i32, r: i32) -> bool {
    &&& high - low >= size ==> r == low + (high - low - size) / 2
    &&& high - low < size ==> r == low
}

/// Where something of `size` starts so that it is centred between `low` and `high`, or at `low`
/// if it does not fit.
pub fn centered(low: i32, high: i32, size: i32) -> (r: i32)
    requires
        i32::MIN <= high - low <= i32::MAX,
        i32::MIN <= high - low - size <= i32::MAX,
        low + (high - low - size) / 2 <= i32::MAX,
    ensures
        is_centered(low, high, size, r),
{
    let room: i32 = high - low - size;
    if room <= 0 {
        return low;
    }
    low + room / 2
}

} // verus!
