//! What the window of the launcher shows, and what each of its controls does.
use crate::launcher::ui;
use crate::launcher::ui::{
    ButtonStyle, Class, Command, Font, FormState, Page, Place, Shown, UpdateAction, UpdateView,
};
use crate::launcher::updater::State;
use vstd::prelude::*;

verus! {

/// The controls of the window, by text, number and place.
pub proof fn lemma_controls(name: Seq<char>, password: Seq<char>, installed: Seq<char>)
    ensures
        ui::header_layout().len() == 5,
        ui::header_layout()[0] == (Shown {
            class: Class::Label,
            text: "GAME CONNECTION"@,
            id: 122,
            place: Place { x: 44, y: 112, w: 350, h: 20 },
            page: None,
        }),
        ui::header_layout()[1] == (Shown {
            class: Class::Text,
            text: "No game process found."@,
            id: 106,
            place: Place { x: 44, y: 140, w: 552, h: 24 },
            page: None,
        }),
        ui::header_layout()[2] == (Shown {
            class: Class::Label,
            text: "Start Black Ops III. The patch connects automatically."@,
            id: 121,
            place: Place { x: 44, y: 173, w: 552, h: 18 },
            page: None,
        }),
        ui::header_layout()[3] == (Shown {
            class: Class::Button,
            text: "Details"@,
            id: 112,
            place: Place { x: 520, y: 105, w: 80, h: 28 },
            page: None,
        }),
        ui::header_layout()[4] == (Shown {
            class: Class::Tabs,
            text: "Launcher sections"@,
            id: 114,
            place: Place { x: 24, y: 212, w: 592, h: 44 },
            page: None,
        }),
        ui::settings_layout(name, password).len() == 11,
        ui::settings_layout(name, password)[0] == (Shown {
            class: Class::Label,
            text: "PLAYER SETTINGS"@,
            id: 122,
            place: Place { x: 44, y: 284, w: 320, h: 20 },
            page: Some(Page::Settings),
        }),
        ui::settings_layout(name, password)[1] == (Shown {
            class: Class::Label,
            text: ""@,
            id: 111,
            place: Place { x: 420, y: 285, w: 176, h: 18 },
            page: Some(Page::Settings),
        }),
        ui::settings_layout(name, password)[2] == (Shown {
            class: Class::Label,
            text: "Your identity and connection preferences."@,
            id: 121,
            place: Place { x: 44, y: 314, w: 552, h: 20 },
            page: Some(Page::Settings),
        }),
        ui::settings_layout(name, password)[3] == (Shown {
            class: Class::Label,
            text: "Player name"@,
            id: 120,
            place: Place { x: 44, y: 348, w: 252, h: 21 },
            page: Some(Page::Settings),
        }),
        ui::settings_layout(name, password)[4] == (Shown {
            class: Class::Edit,
            text: name,
            id: 101,
            place: Place { x: 56, y: 381, w: 228, h: 24 },
            page: Some(Page::Settings),
        }),
        ui::settings_layout(name, password)[5] == (Shown {
            class: Class::Label,
            text: "Network password"@,
            id: 120,
            place: Place { x: 320, y: 348, w: 276, h: 21 },
            page: Some(Page::Settings),
        }),
        ui::settings_layout(name, password)[6] == (Shown {
            class: Class::Edit,
            text: password,
            id: 102,
            place: Place { x: 332, y: 381, w: 252, h: 24 },
            page: Some(Page::Settings),
        }),
        ui::settings_layout(name, password)[7] == (Shown {
            class: Class::Label,
            text: "Up to 15 characters."@,
            id: 121,
            place: Place { x: 44, y: 423, w: 252, h: 18 },
            page: Some(Page::Settings),
        }),
        ui::settings_layout(name, password)[8] == (Shown {
            class: Class::Label,
            text: "Use the same password as your party."@,
            id: 121,
            place: Place { x: 320, y: 423, w: 276, h: 18 },
            page: Some(Page::Settings),
        }),
        ui::settings_layout(name, password)[9] == (Shown {
            class: Class::Check,
            text: "Friends only"@,
            id: 103,
            place: Place { x: 44, y: 474, w: 132, h: 24 },
            page: Some(Page::Settings),
        }),
        ui::settings_layout(name, password)[10] == (Shown {
            class: Class::Label,
            text: "Limit incoming connections to your friends."@,
            id: 121,
            place: Place { x: 196, y: 477, w: 400, h: 20 },
            page: Some(Page::Settings),
        }),
        ui::updates_layout(installed).len() == 7,
        ui::updates_layout(installed)[0] == (Shown {
            class: Class::Label,
            text: "LAUNCHER UPDATES"@,
            id: 122,
            place: Place { x: 44, y: 284, w: 350, h: 20 },
            page: Some(Page::Updates),
        }),
        ui::updates_layout(installed)[1] == (Shown {
            class: Class::Label,
            text: "Installed v"@ + installed + " · stable releases from GitHub"@,
            id: 121,
            place: Place { x: 44, y: 314, w: 552, h: 20 },
            page: Some(Page::Updates),
        }),
        ui::updates_layout(installed)[2] == (Shown {
            class: Class::Text,
            text: ""@,
            id: 109,
            place: Place { x: 44, y: 354, w: 552, h: 46 },
            page: Some(Page::Updates),
        }),
        ui::updates_layout(installed)[3] == (Shown {
            class: Class::Button,
            text: "Check for updates"@,
            id: 107,
            place: Place { x: 44, y: 440, w: 200, h: 36 },
            page: Some(Page::Updates),
        }),
        ui::updates_layout(installed)[4] == (Shown {
            class: Class::Button,
            text: "Download update"@,
            id: 108,
            place: Place { x: 396, y: 440, w: 200, h: 36 },
            page: Some(Page::Updates),
        }),
        ui::updates_layout(installed)[5] == (Shown {
            class: Class::Button,
            text: "Details"@,
            id: 113,
            place: Place { x: 520, y: 277, w: 80, h: 28 },
            page: Some(Page::Updates),
        }),
        ui::updates_layout(installed)[6] == (Shown {
            class: Class::Label,
            text: "Game detection continues while you browse other tabs."@,
            id: 121,
            place: Place { x: 44, y: 500, w: 552, h: 18 },
            page: Some(Page::Updates),
        }),
        ui::credits_layout().len() == 15,
        ui::credits_layout()[0] == (Shown {
            class: Class::Label,
            text: "CREDITS & ACKNOWLEDGMENTS"@,
            id: 122,
            place: Place { x: 44, y: 284, w: 552, h: 20 },
            page: Some(Page::Credits),
        }),
        ui::credits_layout()[1] == (Shown {
            class: Class::Label,
            text: "Serious / shiversoftdev"@,
            id: 120,
            place: Place { x: 44, y: 322, w: 370, h: 21 },
            page: Some(Page::Credits),
        }),
        ui::credits_layout()[2] == (Shown {
            class: Class::Label,
            text: "Creator of the original T7 community patch."@,
            id: 121,
            place: Place { x: 44, y: 344, w: 370, h: 18 },
            page: Some(Page::Credits),
        }),
        ui::credits_layout()[3] == (Shown {
            class: Class::Button,
            text: "Original project  ↗"@,
            id: 104,
            place: Place { x: 440, y: 326, w: 156, h: 30 },
            page: Some(Page::Credits),
        }),
        ui::credits_layout()[4] == (Shown {
            class: Class::Label,
            text: "Scroptss"@,
            id: 120,
            place: Place { x: 44, y: 368, w: 370, h: 21 },
            page: Some(Page::Credits),
        }),
        ui::credits_layout()[5] == (Shown {
            class: Class::Label,
            text: "Source reference and related T7 Patch repository."@,
            id: 121,
            place: Place { x: 44, y: 390, w: 370, h: 18 },
            page: Some(Page::Credits),
        }),
        ui::credits_layout()[6] == (Shown {
            class: Class::Button,
            text: "Source ↗"@,
            id: 115,
            place: Place { x: 424, y: 372, w: 82, h: 30 },
            page: Some(Page::Credits),
        }),
        ui::credits_layout()[7] == (Shown {
            class: Class::Button,
            text: "Related ↗"@,
            id: 116,
            place: Place { x: 514, y: 372, w: 82, h: 30 },
            page: Some(Page::Credits),
        }),
        ui::credits_layout()[8] == (Shown {
            class: Class::Label,
            text: "T7Patch-Rs"@,
            id: 120,
            place: Place { x: 44, y: 414, w: 370, h: 21 },
            page: Some(Page::Credits),
        }),
        ui::credits_layout()[9] == (Shown {
            class: Class::Label,
            text: "Launcher and patch reimplementation in Rust."@,
            id: 121,
            place: Place { x: 44, y: 436, w: 370, h: 18 },
            page: Some(Page::Credits),
        }),
        ui::credits_layout()[10] == (Shown {
            class: Class::Button,
            text: "Rust project  ↗"@,
            id: 117,
            place: Place { x: 440, y: 418, w: 156, h: 30 },
            page: Some(Page::Credits),
        }),
        ui::credits_layout()[11] == (Shown {
            class: Class::Label,
            text: "MinHook · Tsuda Kageyu"@,
            id: 120,
            place: Place { x: 44, y: 460, w: 370, h: 21 },
            page: Some(Page::Credits),
        }),
        ui::credits_layout()[12] == (Shown {
            class: Class::Label,
            text: "Native function hooks used by the patch."@,
            id: 121,
            place: Place { x: 44, y: 482, w: 370, h: 18 },
            page: Some(Page::Credits),
        }),
        ui::credits_layout()[13] == (Shown {
            class: Class::Button,
            text: "MinHook  ↗"@,
            id: 118,
            place: Place { x: 440, y: 464, w: 156, h: 30 },
            page: Some(Page::Credits),
        }),
        ui::credits_layout()[14] == (Shown {
            class: Class::Label,
            text: "All dependencies retain their respective authorship and licenses."@,
            id: 121,
            place: Place { x: 44, y: 512, w: 552, h: 18 },
            page: Some(Page::Credits),
        }),
        ui::protection_layout().len() == 5,
        ui::protection_layout()[0] == (Shown {
            class: Class::Label,
            text: "PROTECTION HISTORY"@,
            id: 122,
            place: Place { x: 44, y: 284, w: 350, h: 20 },
            page: Some(Page::Protection),
        }),
        ui::protection_layout()[1] == (Shown {
            class: Class::Label,
            text: ""@,
            id: 124,
            place: Place { x: 44, y: 314, w: 552, h: 20 },
            page: Some(Page::Protection),
        }),
        ui::protection_layout()[2] == (Shown {
            class: Class::Text,
            text: ""@,
            id: 123,
            place: Place { x: 44, y: 344, w: 552, h: 128 },
            page: Some(Page::Protection),
        }),
        ui::protection_layout()[3] == (Shown {
            class: Class::Label,
            text: ""@,
            id: 126,
            place: Place { x: 44, y: 492, w: 340, h: 18 },
            page: Some(Page::Protection),
        }),
        ui::protection_layout()[4] == (Shown {
            class: Class::Button,
            text: "All"@,
            id: 125,
            place: Place { x: 396, y: 484, w: 200, h: 36 },
            page: Some(Page::Protection),
        }),
        ui::frame_layout().len() == 2,
        ui::frame_layout()[0] == (Shown {
            class: Class::Button,
            text: "Minimize"@,
            id: 110,
            place: Place { x: 536, y: 20, w: 36, h: 32 },
            page: None,
        }),
        ui::frame_layout()[1] == (Shown {
            class: Class::Button,
            text: "Close"@,
            id: 105,
            place: Place { x: 580, y: 20, w: 36, h: 32 },
            page: None,
        }),
{
}

/// The window holds the controls that all pages share, those of each page, and its own buttons.
pub proof fn lemma_all_controls(name: Seq<char>, password: Seq<char>, installed: Seq<char>)
    ensures
        ui::layout(name, password, installed).len() == ui::header_layout().len()
            + ui::settings_layout(name, password).len() + ui::updates_layout(installed).len()
            + ui::credits_layout().len() + ui::protection_layout().len() + ui::frame_layout().len(),
        ui::layout(name, password, installed) == ui::header_layout() + ui::settings_layout(
            name,
            password,
        ) + ui::updates_layout(installed) + ui::credits_layout() + ui::protection_layout()
            + ui::frame_layout(),
{
}

/// The pages from left to right, and where the keyboard leads from each.
pub proof fn lemma_pages(page: Page)
    ensures
        Page::Settings.place() == 0 && Page::Settings.spec_title() == "Settings"@,
        Page::Updates.place() == 1 && Page::Updates.spec_title() == "Updates"@,
        Page::Credits.place() == 2 && Page::Credits.spec_title() == "Credits"@,
        Page::Protection.place() == 3 && Page::Protection.spec_title() == "Protection"@,
        page.beside(false).place() == (if page.place() == 3 {
            0
        } else {
            page.place() + 1
        }),
        page.beside(true).place() == (if page.place() == 0 {
            3
        } else {
            page.place() - 1
        }),
{
}

/// The pages of the web that the credits lead to.
pub proof fn lemma_links(id: u32)
    ensures
        ui::link_of(104) == Some("https://github.com/shiversoftdev/t7patch"@),
        ui::link_of(115) == Some("https://github.com/Scroptss/T7Patch-src"@),
        ui::link_of(116) == Some("https://github.com/Scroptss/T7Patch"@),
        ui::link_of(117) == Some("https://github.com/staFF6773/T7Patch-Rs"@),
        ui::link_of(118) == Some("https://github.com/TsudaKageyu/minhook"@),
        ui::link_of(id) is Some <==> id == 104 || 115 <= id <= 118,
{
}

/// What a click on each control asks for; on no other does it ask for anything.
pub proof fn lemma_clicks(page: Page, id: u64, r: Command)
    requires
        id < 65_536,
        ui::asked_for(true, page, id, r),
    ensures
        r is CheckUpdates <==> id == 107,
        r is Update <==> id == 108,
        r is ShowUpdate <==> id == 109 || id == 113,
        r is Save <==> id == 103,
        r is Minimize <==> id == 110,
        r is Close <==> id == 105,
        r is ShowStatus <==> id == 106 || id == 112,
        r is NextFilter <==> id == 125,
        r is Open <==> id == 104 || 115 <= id <= 118,
        r matches Command::Open(url) ==> ui::link_of(id as u32) == Some(url@),
        !(r is Edited) && !(r is FocusMoved),
{
}

/// Typing is noticed in the two fields of the settings, and so is the focus while they are shown;
/// nothing is before the window is complete.
pub proof fn lemma_typing(page: Page, id: u64, r: Command)
    requires
        id < 65_536,
    ensures
        ui::asked_for(true, page, (0x300_0000 + id) as u64, r) ==> (r is Edited <==> id == 101 || id == 102)
            && (r is Nothing <==> id != 101 && id != 102),
        ui::asked_for(true, page, (0x100_0000 + id) as u64, r) || ui::asked_for(
            true,
            page,
            (0x200_0000 + id) as u64,
            r,
        ) ==> (r is FocusMoved <==> (id == 101 || id == 102) && page == Page::Settings) && (r
            is Nothing <==> !((id == 101 || id == 102) && page == Page::Settings)),
        ui::asked_for(false, page, id, r) ==> r is Nothing,
{
}

/// The button for updates downloads what is available and installs what is ready, once the game
/// is closed.
pub proof fn lemma_update_button(
    unsaved: bool,
    state: State,
    pid: u32,
    error: String,
    r: UpdateAction,
    game: Result<Option<u32>, String>,
)
    ensures
        ui::update_asked(true, unsaved, state, game, r) ==> r is Ignore,
        ui::update_asked(false, unsaved, state, game, r) ==> {
            &&& r is Download <==> state is Available
            &&& r is Refresh <==> !(state is Available) && !(state is Ready)
            &&& r is Install <==> state is Ready && game == Ok::<Option<u32>, String>(None)
            &&& r matches UpdateAction::Install { save } ==> save == unsaved
            &&& state is Ready && game == Ok::<Option<u32>, String>(Some(pid)) ==> (r
                matches UpdateAction::Tell(text) && text@
                == "Close BO3 before installing the update."@)
            &&& state is Ready && game == Err::<Option<u32>, String>(error) ==> (r
                matches UpdateAction::Tell(text) && text@ == error@)
        },
{
}

/// What the page of the updates lets be done.
pub proof fn lemma_update_page(f: FormState, state: State, installed: Seq<char>, r: UpdateView)
    requires
        ui::update_shown(f, state, installed, r),
    ensures
        r.check_enabled <==> !f.smoke && (state is Idle || state is Available || state is Error),
        r.install_enabled <==> !f.smoke && (state is Available || state is Ready),
        r.settings_enabled <==> !(state is Handoff),
        state is Ready || state is Handoff ==> r.install_text@ == "Install & restart"@,
        !(state is Ready || state is Handoff) ==> r.install_text@ == "Download update"@,
        r.text is None <==> f.last_update == state.text_of(installed),
        state is Checking && f.page == Page::Updates ==> r.progress,
        f.page != Page::Updates ==> !r.progress,
{
}

/// Settings are saved 400 milliseconds after the last change.
pub proof fn lemma_saving(last: u64, now: u64)
    ensures
        ui::save_is_due(Some(last), now) <==> now >= last + 400,
        !ui::save_is_due(None, now),
{
}

/// What is said of the settings: that the window is a preview before anything else, a complaint
/// before a change, and a change before nothing.
pub proof fn lemma_saved_texts(f: FormState)
    ensures
        f.smoke ==> ui::saved_state(f) == "Preview · not saved"@,
        !f.smoke && f.error.len() > 0 ==> ui::saved_state(f) == "Could not save settings"@,
        !f.smoke && f.error.len() == 0 && f.dirty is Some ==> ui::saved_state(f)
            == "Saving changes…"@,
        !f.smoke && f.error.len() == 0 && f.dirty is None ==> ui::saved_state(f)
            == "All changes saved"@,
{
}

/// The colour of a text: red for a complaint and a failed update, green for an active patch.
pub proof fn lemma_text_colors(complaint: bool, active: bool, id: u32, state: State)
    ensures
        ({
            let color = ui::text_color_of(complaint, active, id, state);
            &&& color == 0x8386ef <==> (complaint && (id == 106 || id == 111)) || (id == 109 && state
                is Error)
            &&& color == 0x93c58c <==> id == 106 && active && !complaint
            &&& color == 0x3c72ce <==> id == 122
            &&& color == 0xaaa6a1 <==> id == 121 || (id == 111 && !complaint)
            &&& color == 0xedeef0 || color == 0x8386ef || color == 0x93c58c || color == 0x3c72ce
                || color == 0xaaa6a1
        }),
{
}

/// The fonts of labels, and the colours behind controls and of tabs.
pub proof fn lemma_looks(id: u32)
    ensures
        ui::label_font_of(id) == Font::Mono <==> id == 122,
        ui::label_font_of(id) == Font::Small <==> id == 121 || id == 111,
        ui::background_color_of(id) == (if id == 101 || id == 102 {
            0x1e1c19u32
        } else {
            0x262320u32
        }),
        ui::tab_colors_of(true) == (0x3c72ceu32, 0x3c72ceu32),
        ui::tab_colors_of(false) == (0xaaa6a1u32, 0x3d3833u32),
{
}

/// How a button is drawn. The one that installs is filled while it can be used, those of the frame
/// are dark, a pressed button and one below the pointer stand out, and the focus is shown by the
/// border.
pub proof fn lemma_buttons(
    id: u32,
    disabled: bool,
    pressed: bool,
    focused: bool,
    hovered: bool,
    r: ButtonStyle,
)
    requires
        ui::styled(id, disabled, pressed, focused, hovered, r),
    ensures
        ({
            let frame = id == 105 || id == 110;
            let quiet = frame || id == 104 || 115 <= id <= 118 || id == 112 || id == 113;
            &&& r.base == (if frame {
                0x191715u32
            } else {
                0x262320
            })
            &&& pressed ==> r.fill == 0x3d3833
            &&& !pressed && hovered && !disabled ==> r.fill == (if id == 108 {
                0x588ee5u32
            } else {
                0x3d3833
            })
            &&& !pressed && (!hovered || disabled) ==> r.fill == (if id == 108 && !disabled {
                0x3c72ceu32
            } else {
                r.base
            })
            &&& focused ==> r.border == 0x3c72ce
            &&& !focused ==> r.border == (if quiet {
                r.fill
            } else {
                0x3d3833
            })
            &&& disabled ==> r.text == 0xaaa6a1
            &&& !disabled && id == 108 ==> r.text == (if pressed {
                0xedeef0u32
            } else {
                0x191715
            })
            &&& !disabled && id != 108 ==> r.text == (if quiet {
                0x3c72ceu32
            } else {
                0xedeef0
            })
        }),
{
}

/// The window is moved by what lies above and left of two edges.
pub proof fn lemma_caption(x: i32, y: i32, right: i32, bottom: i32)
    ensures
        ui::in_caption_of(x, y, right, bottom) <==> x + 1 <= right && y + 1 <= bottom,
{
}

/// The bar of activity goes one way for 5424 milliseconds and back in the same time.
pub proof fn lemma_bar(round: nat, step: nat)
    ensures
        step <= 452 ==> ui::bar_at(10_848 * round + 12 * step) == 44 + step,
        452 <= step < 904 ==> ui::bar_at(10_848 * round + 12 * step) == 44 + 904 - step,
{
    let elapsed = 10_848 * round + 12 * step;
    assert(elapsed / 12 == 904 * round + step);
    assert(step < 904 ==> (904 * round + step) % 904 == step);
}

/// Sixteen bits of a mouse message with their sign.
pub proof fn lemma_signed(v: int)
    requires
        0 <= v < 65_536,
    ensures
        -32_768 <= ui::signed16(v) <= 32_767,
        ui::signed16(v) == v || ui::signed16(v) == v - 65_536,
{
}

} // verus!
