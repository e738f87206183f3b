use std::path::{Path, PathBuf};

use handheld_frontend::menu::catalog::{classify, scan, DirectoryEntry, Platform};

fn file(dir: &str, name: &str) -> DirectoryEntry {
    DirectoryEntry {
        path: Path::new(dir).join(name),
        file_name: Some(String::from(name)),
        is_file: true,
    }
}

#[test]
fn scan_keeps_games_and_strips_extensions() {
    let mut subdirectory = file("/roms", "d");
    subdirectory.is_file = false;
    let entries = vec![
        file("/roms", "a.gb"),
        file("/roms", "b.gbc"),
        file("/roms", "c.unknown"),
        subdirectory,
    ];
    let games = scan(&entries);
    assert_eq!(games.len(), 2);
    assert_eq!(games[0].name, "a");
    assert_eq!(games[0].path, PathBuf::from("/roms/a.gb"));
    assert_eq!(games[0].platform, Platform::GameBoy);
    assert_eq!(games[1].name, "b");
    assert_eq!(games[1].path, PathBuf::from("/roms/b.gbc"));
    assert_eq!(games[1].platform, Platform::GameBoyColor);
}

#[test]
fn scan_keeps_the_order_of_the_listing() {
    let entries = vec![file("/r", "z.gbc"), file("/r", "m.gb"), file("/r", "a.gb")];
    let names: Vec<String> = scan(&entries).into_iter().map(|g| g.name).collect();
    assert_eq!(names, vec!["z", "m", "a"]);
}

#[test]
fn scan_skips_directories_with_a_game_extension() {
    let mut entry = file("/r", "folder.gb");
    entry.is_file = false;
    assert!(scan(&vec![entry]).is_empty());
}

#[test]
fn scan_skips_names_that_are_no_text() {
    let entry = DirectoryEntry { path: PathBuf::from("/r/x.gb"), file_name: None, is_file: true };
    assert!(scan(&vec![entry]).is_empty());
}

#[test]
fn scan_hands_the_path_on_as_it_is() {
    // the path is neither read nor rebuilt from the file name
    let path = PathBuf::from("/roms/./sub/../Other Name.bin");
    let entry = DirectoryEntry {
        path: path.clone(),
        file_name: Some(String::from("game.gb")),
        is_file: true,
    };
    let games = scan(&vec![entry]);
    assert_eq!(games.len(), 1);
    assert_eq!(games[0].name, "game");
    assert_eq!(games[0].path.as_os_str(), path.as_os_str());
}

#[test]
fn scan_of_an_empty_listing_is_empty() {
    assert!(scan(&vec![]).is_empty());
}

#[test]
fn classify_ignores_the_case_of_the_extension() {
    assert_eq!(classify("Tetris.GB"), Some((String::from("Tetris"), Platform::GameBoy)));
    assert_eq!(classify("Zelda.Gbc"), Some((String::from("Zelda"), Platform::GameBoyColor)));
    assert_eq!(classify("x.gB"), Some((String::from("x"), Platform::GameBoy)));
    assert_eq!(classify("x.GBC"), Some((String::from("x"), Platform::GameBoyColor)));
}

#[test]
fn classify_takes_what_follows_the_last_dot() {
    assert_eq!(classify("a.b.gb"), Some((String::from("a.b"), Platform::GameBoy)));
    assert_eq!(classify("a.gbc.gb"), Some((String::from("a.gbc"), Platform::GameBoy)));
    assert_eq!(classify("a.gb.txt"), None);
    assert_eq!(classify("..gb"), Some((String::from("."), Platform::GameBoy)));
}

#[test]
fn classify_rejects_files_without_a_known_extension() {
    assert_eq!(classify(""), None);
    assert_eq!(classify("gb"), None);
    assert_eq!(classify("readme"), None);
    assert_eq!(classify("game."), None);
    assert_eq!(classify("game.g"), None);
    assert_eq!(classify("game.gba"), None);
    assert_eq!(classify("game.gbcc"), None);
    assert_eq!(classify("game.zip"), None);
    assert_eq!(classify("game.gb "), None);
    assert_eq!(classify("game.g\u{e9}"), None);
    assert_eq!(classify("game.'B"), None);
}

#[test]
fn classify_treats_a_leading_dot_as_part_of_the_name() {
    assert_eq!(classify(".gb"), None);
    assert_eq!(classify(".gbc"), None);
    assert_eq!(classify("."), None);
}

#[test]
fn classify_counts_characters_not_bytes() {
    assert_eq!(
        classify("Pok\u{e9}mon \u{9ec4}.gbc"),
        Some((String::from("Pok\u{e9}mon \u{9ec4}"), Platform::GameBoyColor))
    );
}
