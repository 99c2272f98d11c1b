use resource_installer::steam::{
    choose_library_path, collapse_double_backslashes, library_folder_from_line, locate_game,
    parse_library_path, scan_processes, LibraryChoice, ProcessIndices, SearchStep, GAME_SUBDIRECTORY,
};

const PATTERN: &str = "^\\s+\"path\"\\s+\"(?P<directory>.+)\"$";

fn by_pattern(line: &str) -> Option<String> {
    let re = regex::Regex::new(PATTERN).unwrap();
    re.captures(line).map(|c| c["directory"].to_string())
}

#[test]
fn path_line_value() {
    assert_eq!(
        parse_library_path("\t\t\"path\"\t\t\"C:\\\\Program Files (x86)\\\\Steam\""),
        Some("C:\\\\Program Files (x86)\\\\Steam".to_string())
    );
}

#[test]
fn library_folder_collapses_backslashes() {
    assert_eq!(
        library_folder_from_line("\t\t\"path\"\t\t\"D:\\\\SteamLibrary\""),
        Some("D:\\SteamLibrary".to_string())
    );
}

#[test]
fn other_lines_give_nothing() {
    for line in [
        "",
        "\"libraryfolders\"",
        "{",
        "\t\t\"label\"\t\t\"\"",
        "\"path\"\t\t\"C:\\\\Steam\"",
        "\t\t\"path\"\"C:\\\\Steam\"",
        "\t\t\"path\"\t\t\"\"",
        "\t\t\"path\"\t\t\"C:\\\\Steam\" ",
        "\t\t\"Path\"\t\t\"C:\\\\Steam\"",
        "\t\t\"path\"\t\t\"a\nb\"",
    ] {
        assert_eq!(parse_library_path(line), None, "{:?}", line);
    }
}

#[test]
fn parser_agrees_with_the_pattern() {
    let lines = [
        "\t\t\"path\"\t\t\"C:\\\\Program Files (x86)\\\\Steam\"",
        " \"path\" \"x\"",
        "\u{3000}\"path\"\u{a0}\"x\"",
        "\t\"path\"\t\"\"\"",
        "\t\"path\"\t\"a\"b\"",
        "\t\"path\"\t\"\"",
        "\t\"path\"\t\"a",
        "\t\"path\"\"a\"",
        "\"path\" \"a\"",
        "\t\"path\"\t\"a\rb\"",
        "\t\"path\"\t\"a\nb\"",
        "\n\"path\"\n\"ab\"",
        "\t\t\"label\"\t\t\"\"",
        "\t\t\"contentid\"\t\t\"123\"",
        "\t\"path\"\t\"é\"",
        "\t\"pat\"\t\"x\"",
        "",
        " ",
    ];
    for line in lines {
        assert_eq!(parse_library_path(line), by_pattern(line), "{:?}", line);
    }
}

#[test]
fn collapse_reads_pairs_from_the_left() {
    for s in ["", "a", "\\", "\\\\", "\\\\\\", "\\\\\\\\", "a\\\\b\\c", "C:\\\\x\\\\y"] {
        assert_eq!(collapse_double_backslashes(s), s.replace("\\\\", "\\"), "{:?}", s);
    }
    assert_eq!(collapse_double_backslashes("\\\\\\"), "\\\\");
}

#[test]
fn game_subdirectory_text() {
    assert_eq!(GAME_SUBDIRECTORY, "steamapps\\common\\Counter-Strike Global Offensive\\csgo");
}

fn names(list: &[&str]) -> Vec<String> {
    list.iter().map(|n| n.to_string()).collect()
}

#[test]
fn scan_takes_the_last_process_of_each_name() {
    let found = scan_processes(&names(&["explorer.exe", "steam.exe", "csgo.exe", "steam.exe"]));
    assert_eq!(found.game, Some(2));
    assert_eq!(found.steam, Some(3));
}

#[test]
fn scan_without_matches() {
    let found = scan_processes(&names(&["CSGO.EXE", "steam"]));
    assert_eq!(found.game, None);
    assert_eq!(found.steam, None);
    let found = scan_processes(&Vec::new());
    assert!(found.game.is_none() && found.steam.is_none());
}

#[test]
fn one_candidate_is_chosen() {
    match choose_library_path(vec!["E:\\lib\\csgo".to_string()]) {
        LibraryChoice::Found(p) => assert_eq!(p, "E:\\lib\\csgo"),
        _ => panic!("one candidate is found"),
    }
}

#[test]
fn several_or_no_candidates_choose_nothing() {
    match choose_library_path(vec![1, 2, 3]) {
        LibraryChoice::Several(all) => assert_eq!(all, vec![1, 2, 3]),
        _ => panic!("several candidates"),
    }
    assert!(matches!(choose_library_path(Vec::<u8>::new()), LibraryChoice::NotFound));
}

#[test]
fn search_prefers_the_game_directory() {
    let both = ProcessIndices { game: Some(0), steam: Some(1) };
    assert_eq!(locate_game(&both, true), SearchStep::UseGameDirectory);
    assert_eq!(locate_game(&both, false), SearchStep::SearchLibraries);
    let steam_only = ProcessIndices { game: None, steam: Some(4) };
    assert_eq!(locate_game(&steam_only, true), SearchStep::SearchLibraries);
    let game_only = ProcessIndices { game: Some(2), steam: None };
    assert_eq!(locate_game(&game_only, true), SearchStep::UseGameDirectory);
    assert_eq!(locate_game(&game_only, false), SearchStep::GiveUp);
    let none = ProcessIndices { game: None, steam: None };
    assert_eq!(locate_game(&none, false), SearchStep::GiveUp);
}
