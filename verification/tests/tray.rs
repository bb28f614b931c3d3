use realingo::tray::{click_shows_window, menu_action, menu_layout, mode_item_id, MenuAction, MenuEntry, TrayMode, TrayState};
use realingo::{with_stored_key, Source};
use realingo::config::{Region, Settings};

#[test]
fn clicks_on_show_and_quit_stay_in_the_tray() {
    assert!(matches!(menu_action("show"), MenuAction::ShowWindow));
    assert!(matches!(menu_action("quit"), MenuAction::Quit));
    match menu_action("mode:both") {
        MenuAction::Forward(id) => assert_eq!(id, "mode:both"),
        _ => panic!("other items go to the UI"),
    }
    assert!(click_shows_window(true, true));
    assert!(!click_shows_window(true, false));
    assert!(!click_shows_window(false, true));
}

#[test]
fn the_menu_is_laid_out_from_the_state() {
    let s = TrayState {
        tooltip: "ReaLingo".into(),
        show_label: "Show".into(),
        run_label: "Stop".into(),
        overlay_label: "Overlay".into(),
        overlay_on: true,
        click_through_label: "Click-through".into(),
        click_through_on: false,
        mode_label: "Subtitles".into(),
        modes: vec![
            TrayMode { id: "both".into(), label: "Both".into(), on: true },
            TrayMode { id: "target".into(), label: "Translation".into(), on: false },
        ],
        quit_label: "Quit".into(),
    };
    let m = menu_layout(&s);
    assert_eq!(m.len(), 8);
    assert!(matches!(&m[0], MenuEntry::Item(id, l) if id == "show" && l == "Show"));
    assert!(matches!(&m[1], MenuEntry::Separator));
    assert!(matches!(&m[2], MenuEntry::Item(id, l) if id == "run" && l == "Stop"));
    assert!(matches!(&m[3], MenuEntry::Check(c) if c.id == "overlay" && c.on));
    assert!(matches!(&m[4], MenuEntry::Check(c) if c.id == "click-through" && !c.on));
    match &m[5] {
        MenuEntry::Submenu(label, items) => {
            assert_eq!(label, "Subtitles");
            assert_eq!(items.len(), 2);
            assert_eq!(items[1].id, "mode:target");
            assert_eq!(items[1].label, "Translation");
            assert!(items[0].on);
        }
        _ => panic!("the modes are a submenu"),
    }
    assert!(matches!(&m[7], MenuEntry::Item(id, _) if id == "quit"));
    assert_eq!(mode_item_id("x"), "mode:x");
}

#[test]
fn the_stored_key_wins_over_the_front_end() {
    let s = Settings {
        api_key: "from-ui".into(),
        workspace_id: "w".into(),
        region: Region::Singapore,
        source_lang: "zh".into(),
        target_lang: "en".into(),
    };
    let kept = with_stored_key(s.clone(), None);
    assert_eq!(kept.api_key, "from-ui");
    let replaced = with_stored_key(s, Some("from-store".into()));
    assert_eq!(replaced.api_key, "from-store");
    assert_eq!(replaced.workspace_id, "w");
    assert_eq!(replaced.region, Region::Singapore);
    let src = Source::File { path: "a.wav".into() };
    assert!(matches!(src, Source::File { .. }));
}
