use chippy::keypad::key2btn;
use chippy::rom::{rom_list, RomEntry};
use chippy::settings::ThemeType;

#[test]
fn keypad_layout() {
    let layout = [
        ('1', 0x1), ('2', 0x2), ('3', 0x3), ('4', 0xC),
        ('q', 0x4), ('w', 0x5), ('e', 0x6), ('r', 0xD),
        ('a', 0x7), ('s', 0x8), ('d', 0x9), ('f', 0xE),
        ('z', 0xA), ('x', 0x0), ('c', 0xB), ('v', 0xF),
    ];
    for (key, pad) in layout {
        assert_eq!(key2btn(key as i32), Some(pad));
    }
    assert_eq!(key2btn('5' as i32), None);
    assert_eq!(key2btn('Q' as i32), None);
    assert_eq!(key2btn(27), None);
}

#[test]
fn all_themes_lists_each_once() {
    let themes = ThemeType::all_themes();
    assert_eq!(themes.len(), 12);
    assert_eq!(themes[0], ThemeType::RetroNeon);
    assert_eq!(themes[11], ThemeType::TokyoDay);
    for (i, a) in themes.iter().enumerate() {
        for b in &themes[i + 1..] {
            assert_ne!(a, b);
        }
    }
}

#[test]
fn theme_names_and_brightness() {
    assert_eq!(ThemeType::Catppuccin.name(), "Catppuccin Mocha");
    assert_eq!(ThemeType::Gruvbox.name(), "Gruvbox Dark");
    assert_eq!(ThemeType::TokyoDay.name(), "Tokyo Day");
    assert!(ThemeType::RetroNeon.is_dark());
    assert!(ThemeType::Nord.is_dark());
    assert!(!ThemeType::SolarizedLight.is_dark());
    assert!(!ThemeType::CatppuccinLatte.is_dark());
    let light = ThemeType::all_themes().iter().filter(|t| !t.is_dark()).count();
    assert_eq!(light, 4);
}

#[test]
fn rom_entry_keeps_name_and_path() {
    let e = RomEntry::new("pong.ch8".to_string(), "assets/pong.ch8".to_string());
    assert_eq!(e.name, "pong.ch8");
    assert_eq!(e.path, "assets/pong.ch8");
}

#[test]
fn rom_list_keeps_programs_in_name_order() {
    let found = vec![
        RomEntry::new("tetris.ch8".to_string(), "assets/tetris.ch8".to_string()),
        RomEntry::new("readme.txt".to_string(), "assets/readme.txt".to_string()),
        RomEntry::new("Pong.ch8".to_string(), "assets/Pong.ch8".to_string()),
        RomEntry::new("brix.ch8".to_string(), "assets/brix.ch8".to_string()),
        RomEntry::new("ch8".to_string(), "assets/ch8".to_string()),
        RomEntry::new("brick.ch8".to_string(), "assets/brick.ch8".to_string()),
        RomEntry::new("game.ch8.bak".to_string(), "assets/game.ch8.bak".to_string()),
    ];
    let names: Vec<String> = rom_list(found).into_iter().map(|e| e.name).collect();
    assert_eq!(names, vec!["Pong.ch8", "brick.ch8", "brix.ch8", "tetris.ch8"]);
}

#[test]
fn rom_list_of_nothing_is_empty() {
    assert!(rom_list(Vec::new()).is_empty());
}
