//! The launcher's window.
use t7patch::launcher::ui::{
    activity, background_color, button_caption, button_style, centered, create_controls,
    credit_url, in_caption, initial_settings, label_font, point_of, show_page, tab_colors, wide,
    Class, Command, Font, Form, Hover, Loaded, Page, Place, Restart, UpdateAction, ACCENT,
    ACCENT_HOVERED, BORDER, CLOSE, DARK, ERROR, FRIENDS, GREEN, HEADING, HINT, INPUT, LABEL, LINK,
    MINIMIZE, MUTED, NAME, PANEL, PASSWORD, RUST_LINK, SAVED, STATUS, TEXT, UPDATE_CHECK,
    UPDATE_DETAILS, UPDATE_INSTALL, UPDATE_STATUS,
};
use t7patch::launcher::updater::install::Prepared;
use t7patch::launcher::updater::package::Release;
use t7patch::launcher::updater::State;
use t7patch::launcher::Status;
use t7patch::settings::Config;

fn form(smoke: bool) -> Form {
    let mut form = Form::new(smoke, String::new());
    form.initialized = true;
    form
}

fn ready() -> State {
    State::Ready(Prepared {
        stage: "stage".to_owned(),
        version: "2.0.0".to_owned(),
    })
}

fn available() -> State {
    State::Available(Release {
        tag_name: "v2.0.0".to_owned(),
        draft: false,
        prerelease: false,
        assets: vec![],
    })
}

#[test]
fn pages_go_round() {
    assert_eq!(Page::Settings.step(false), Page::Updates);
    assert_eq!(Page::Settings.step(true), Page::Protection);
    let mut page = Page::Settings;
    let mut titles = Vec::new();
    for _ in 0..4 {
        titles.push(page.title());
        assert_eq!(Page::at(page.index()), Some(page));
        page = page.step(false);
    }
    assert_eq!(page, Page::Settings);
    assert_eq!(titles, ["Settings", "Updates", "Credits", "Protection"]);
    assert_eq!(Page::at(4), None);
}

#[test]
fn links_and_texts() {
    assert_eq!(
        credit_url(LINK),
        Some("https://github.com/shiversoftdev/t7patch")
    );
    assert_eq!(
        credit_url(RUST_LINK),
        Some("https://github.com/staFF6773/T7Patch-Rs")
    );
    assert_eq!(credit_url(NAME), None);
    assert_eq!(wide("a↗"), [0x61, 0x2197, 0]);
    assert_eq!(button_caption(CLOSE), Some("×"));
    assert_eq!(button_caption(MINIMIZE), Some("−"));
    assert_eq!(button_caption(LINK), None);
    assert_eq!(label_font(HEADING), Font::Mono);
    assert_eq!(label_font(SAVED), Font::Small);
    assert_eq!(label_font(LABEL), Font::Regular);
}

#[test]
fn every_control_lies_in_the_window() {
    let controls = create_controls("me", "secret", "1.0.0");
    assert_eq!(controls.len(), 45);
    for c in &controls {
        assert!(c.place.x >= 0 && c.place.x + c.place.w <= 640, "{c:?}");
        assert!(c.place.y >= 0 && c.place.y + c.place.h <= 560, "{c:?}");
    }
    let name = controls.iter().find(|c| c.id == NAME).unwrap();
    assert_eq!(name.text, "me");
    assert_eq!(name.class, Class::Edit);
    assert_eq!(name.page, Some(Page::Settings));
    assert_eq!(
        name.place,
        Place {
            x: 56,
            y: 381,
            w: 228,
            h: 24
        }
    );
    assert!(controls
        .iter()
        .any(|c| c.text == "Installed v1.0.0 · stable releases from GitHub"));
}

#[test]
fn turning_a_page_hides_the_others() {
    let controls = vec![(Page::Settings, 1), (Page::Updates, 2), (Page::Settings, 3)];
    let turn = show_page(&controls, Page::Settings, 2);
    assert_eq!(turn.visible, [true, false, true]);
    assert!(turn.refocus);
    assert!(!show_page(&controls, Page::Settings, 1).refocus);
    assert!(!show_page(&controls, Page::Settings, 99).refocus);
}

#[test]
fn settings_at_the_start() {
    let (config, write, error) = initial_settings(Loaded::Missing);
    assert_eq!(config, Config::default());
    assert!(write);
    assert_eq!(error, "");
    let (config, write, error) = initial_settings(Loaded::Failed("denied".to_owned()));
    assert_eq!(config, Config::default());
    assert!(!write);
    assert_eq!(error, "Cannot read settings: denied");
    let mut mine = Config::default();
    mine.name = b"me".to_vec();
    let (config, write, _) = initial_settings(Loaded::Read(mine.clone()));
    assert_eq!(config, mine);
    assert!(!write);
    assert!(!initial_settings(Loaded::Skipped).1);
}

fn message(id: u32, note: u64) -> u64 {
    note << 16 | id as u64
}

#[test]
fn clicks_and_edits() {
    let mut f = form(false);
    assert!(matches!(f.command(message(NAME, 0x300)), Command::Edited));
    assert!(matches!(f.command(message(FRIENDS, 0x300)), Command::Nothing));
    assert!(matches!(f.command(message(PASSWORD, 0x100)), Command::FocusMoved));
    assert!(matches!(f.command(message(FRIENDS, 0)), Command::Save));
    assert!(matches!(f.command(message(UPDATE_CHECK, 0)), Command::CheckUpdates));
    assert!(matches!(f.command(message(UPDATE_INSTALL, 0)), Command::Update));
    assert!(matches!(f.command(message(UPDATE_STATUS, 0)), Command::ShowUpdate));
    assert!(matches!(f.command(message(STATUS, 0)), Command::ShowStatus));
    assert!(matches!(f.command(message(CLOSE, 0)), Command::Close));
    assert!(matches!(f.command(message(MINIMIZE, 0)), Command::Minimize));
    assert!(matches!(
        f.command(message(LINK, 0)),
        Command::Open("https://github.com/shiversoftdev/t7patch")
    ));
    assert!(matches!(f.command(message(125, 0)), Command::NextFilter));
    assert!(matches!(f.command(message(LABEL, 0)), Command::Nothing));
    assert!(matches!(f.command(message(CLOSE, 7)), Command::Nothing));
    f.page = Page::Credits;
    assert!(matches!(f.command(message(PASSWORD, 0x200)), Command::Nothing));
    f.initialized = false;
    assert!(matches!(f.command(message(CLOSE, 0)), Command::Nothing));
}

#[test]
fn edits_are_saved_after_a_pause() {
    let mut f = form(false);
    assert_eq!(f.saved_text(), "All changes saved");
    f.edit(1000);
    assert_eq!(f.saved_text(), "Saving changes…");
    assert!(!f.save_due(1399));
    assert!(f.save_due(1400));
    assert!(f.begin_save());
    assert!(!f.save_due(9999));
    assert!(!f.saved(Err("full".to_owned())));
    assert_eq!(f.error, "Settings not saved: full");
    assert_eq!(f.saved_text(), "Could not save settings");
    assert!(f.saved(Ok(())));
    assert_eq!(f.error, "");
    let mut trial = form(true);
    assert!(!trial.begin_save());
    assert_eq!(trial.saved_text(), "Preview · not saved");
    assert!(!trial.close_due(0, 1999));
    assert!(trial.close_due(0, 2000));
    assert!(!f.close_due(0, 2000));
}

#[test]
fn the_status_shows_complaints_first() {
    let mut f = form(false);
    let status = Status {
        text: "Patch active".to_owned(),
        active: true,
    };
    assert_eq!(f.refresh(&status), Some("Patch active".to_owned()));
    assert_eq!(f.refresh(&status), None);
    assert_eq!(f.status_color(), GREEN);
    f.error = "broken".to_owned();
    assert_eq!(f.refresh(&status), Some("broken".to_owned()));
    assert!(!f.status_active);
    assert_eq!(f.status_color(), ERROR);
    assert_eq!(f.text_color(STATUS, &State::Checking), ERROR);
    assert_eq!(f.text_color(SAVED, &State::Checking), ERROR);
    f.error = String::new();
    assert_eq!(f.text_color(STATUS, &State::Checking), TEXT);
    assert_eq!(f.text_color(SAVED, &State::Checking), MUTED);
    assert_eq!(f.text_color(HINT, &State::Checking), MUTED);
    assert_eq!(f.text_color(HEADING, &State::Checking), ACCENT);
    assert_eq!(
        f.text_color(UPDATE_STATUS, &State::Error("x".to_owned())),
        ERROR
    );
    assert_eq!(f.text_color(UPDATE_STATUS, &State::Checking), TEXT);
    assert_eq!(f.status_color(), ACCENT);
}

#[test]
fn the_update_button() {
    let mut f = form(false);
    assert!(matches!(
        f.update_action(&available(), Ok(None)),
        UpdateAction::Download
    ));
    assert!(matches!(
        f.update_action(&ready(), Ok(None)),
        UpdateAction::Install { save: false }
    ));
    f.edit(0);
    assert!(matches!(
        f.update_action(&ready(), Ok(None)),
        UpdateAction::Install { save: true }
    ));
    assert!(matches!(
        f.update_action(&ready(), Ok(Some(3))),
        UpdateAction::Tell(text) if text == "Close BO3 before installing the update."
    ));
    assert!(matches!(
        f.update_action(&State::Checking, Ok(None)),
        UpdateAction::Refresh
    ));
    assert!(matches!(
        form(true).update_action(&ready(), Ok(None)),
        UpdateAction::Ignore
    ));
    assert!(f.may_restart().is_ok());
    f.error = "bad".to_owned();
    assert_eq!(
        f.may_restart().unwrap_err(),
        "Save valid settings before restarting to update."
    );
}

#[test]
fn the_update_page() {
    let mut f = form(false);
    f.page = Page::Updates;
    let view = f.refresh_update(&available(), "1.0.0");
    assert_eq!(
        view.text,
        Some("v2.0.0 available (installed v1.0.0).".to_owned())
    );
    assert!(view.progress && view.check_enabled && view.install_enabled && view.settings_enabled);
    assert_eq!(view.install_text, "Download update");
    let view = f.refresh_update(&available(), "1.0.0");
    assert_eq!(view.text, None);
    assert!(!view.progress);
    let view = f.refresh_update(&ready(), "1.0.0");
    assert_eq!(view.install_text, "Install & restart");
    assert!(!view.check_enabled);
    let State::Ready(update) = ready() else {
        panic!("ready")
    };
    let handoff = State::Handoff(update);
    let view = f.refresh_update(&handoff, "1.0.0");
    assert!(!view.settings_enabled && !view.install_enabled && view.progress);
    assert!(!f.restart_due(&handoff, false));
    assert!(f.restart_due(&handoff, true));
    assert!(matches!(
        f.restarted(Err("no".to_owned())),
        Restart::Resume(text) if text == "no"
    ));
    assert!(matches!(f.restarted(Ok(())), Restart::Close));
    assert!(!f.restart_due(&handoff, true));
}

#[test]
fn buttons_are_drawn_by_their_state() {
    let plain = button_style(UPDATE_CHECK, false, false, false, false);
    assert_eq!((plain.base, plain.fill, plain.border, plain.text), (PANEL, PANEL, BORDER, TEXT));
    let primary = button_style(UPDATE_INSTALL, false, false, false, true);
    assert_eq!((primary.fill, primary.text), (ACCENT_HOVERED, DARK));
    let off = button_style(UPDATE_INSTALL, true, false, false, true);
    assert_eq!((off.fill, off.text), (PANEL, MUTED));
    let close = button_style(CLOSE, false, true, true, false);
    assert_eq!((close.base, close.fill, close.border, close.text), (DARK, BORDER, ACCENT, ACCENT));
    let details = button_style(UPDATE_DETAILS, false, false, false, false);
    assert_eq!((details.fill, details.border), (PANEL, PANEL));
    assert_eq!(background_color(NAME), INPUT);
    assert_eq!(background_color(STATUS), PANEL);
    assert_eq!(tab_colors(true), (ACCENT, ACCENT));
    assert_eq!(tab_colors(false), (MUTED, BORDER));
}

#[test]
fn the_pointer_enters_and_leaves() {
    let mut hover = Hover { window: 0 };
    assert!(hover.moved(5));
    assert!(!hover.moved(5));
    hover.left(6);
    assert_eq!(hover.window, 5);
    hover.left(5);
    assert_eq!(hover.window, 0);
}

#[test]
fn places_and_points() {
    assert_eq!(point_of(0xffff_fffb_0003), (3, -5));
    assert!(in_caption(527, 87, 528, 88));
    assert!(!in_caption(528, 87, 528, 88));
    assert!(!in_caption(527, 88, 528, 88));
    assert_eq!(activity(0).x, 44);
    assert_eq!(activity(12 * 452).x, 496);
    assert_eq!(activity(12 * 453).x, 495);
    assert_eq!(activity(12 * 904).x, 44);
    assert_eq!(centered(100, 1000, 640), 230);
    assert_eq!(centered(100, 500, 640), 100);
}
