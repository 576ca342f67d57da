use lzcr::error::AppError;
use lzcr::paths::HostPath;
use lzcr::steam_registry::{
    detect_game_path_info, detected_system_label, find_limbus_company_path, find_steam_path,
    find_steam_path_in_registry, game_not_found, get_lang_folder_path, lang_folder, output_folder, steam_candidates,
    steam_keys, GameSearch, Platform, Question, SteamKey,
};
use lzcr::vdf::{extract_quoted_value, parse_library_paths};

fn show(path: &HostPath) -> String {
    let mut out = path.base.clone();
    for name in &path.names {
        out.push('/');
        out.push_str(name);
    }
    out
}

/// Runs a search on a machine on which some paths exist, the library list has
/// a text, and registry keys have locations. Gives the outcome and what was
/// asked.
fn search(
    mut search: GameSearch,
    exists: &[&str],
    vdf: Option<&str>,
    registry: &[(&str, &str)],
) -> (Option<String>, Vec<String>) {
    let mut asked = vec![];
    loop {
        match search.question() {
            Question::Exists(path) => {
                let path = show(&path);
                search.answer_exists(exists.contains(&path.as_str()));
                asked.push(path);
            }
            Question::ReadFile(path) => {
                asked.push(format!("read {}", show(&path)));
                search.answer_text(vdf.map(|v| v.to_string()));
            }
            Question::ReadRegistry(key) => {
                let found = registry.iter().find(|(k, _)| *k == key).map(|(_, v)| v.to_string());
                asked.push(format!("key {key}"));
                search.answer_text(found);
            }
            Question::Found(path) => return (Some(show(&path)), asked),
            Question::NotFound => return (None, asked),
        }
    }
}

fn begin(platform: Platform, steam: &str) -> GameSearch {
    find_limbus_company_path(platform, Ok(HostPath::new(steam))).unwrap()
}

const VDF: &str = "\"libraryfolders\"\r\n{\r\n\t\"0\"\r\n\t{\r\n\t\t\"path\"\t\t\"C:\\\\Steam\"\r\n\t}\r\n\t\"1\"\r\n\t{\r\n\t\t\"path\"\t\t\"D:\\\\Games\"\r\n\t}\r\n}\r\n\"other\"\r\n{\r\n\t\"path\"\t\t\"E:\\\\No\"\r\n}\r\n";

#[test]
fn systems_have_labels() {
    assert_eq!(detected_system_label(Platform::Windows), "⊞ Windows");
    assert_eq!(detected_system_label(Platform::Linux), "🐧 Linux");
    assert_eq!(detected_system_label(Platform::MacOs), "\u{f8ff} macOS");
    assert_eq!(detected_system_label(Platform::Other), "• Unknown");
}

#[test]
fn steam_is_looked_for_in_order() {
    let places: Vec<String> = steam_candidates(Platform::Linux, "/home/u").iter().map(show).collect();
    assert_eq!(places, vec!["/home/u/.steam/steam", "/home/u/.local/share/Steam", "/usr/share/steam"]);
    let found = |flags: [bool; 3]| find_steam_path(Platform::Linux, Some("/home/u"), &flags.to_vec());
    assert_eq!(show(&found([true, true, true]).unwrap()), "/home/u/.steam/steam");
    assert_eq!(show(&found([false, false, true]).unwrap()), "/usr/share/steam");
    assert_eq!(
        found([false, false, false]).unwrap_err().message(),
        "Other error: Could not find Steam installation directory"
    );
    assert_eq!(
        find_steam_path(Platform::Linux, None, &vec![]).unwrap_err().message(),
        "Other error: Could not get HOME directory"
    );
    let mac = find_steam_path(Platform::MacOs, Some("/Users/u"), &vec![true]).unwrap();
    assert_eq!(show(&mac), "/Users/u/Library/Application Support/Steam");
    assert!(find_steam_path(Platform::Other, Some("/home/u"), &vec![]).is_err());
}

#[test]
fn the_registry_says_where_steam_is() {
    assert_eq!(steam_keys(), vec!["SOFTWARE\\WOW6432Node\\Valve\\Steam", "SOFTWARE\\Valve\\Steam"]);
    let path = find_steam_path_in_registry(SteamKey::InstallPath("C:\\Steam".to_string())).unwrap();
    assert_eq!(show(&path), "C:\\Steam");
    assert_eq!(
        find_steam_path_in_registry(SteamKey::Missing("e".to_string())).unwrap_err().message(),
        "Other error: Could not find Steam registry key: e"
    );
    assert_eq!(
        find_steam_path_in_registry(SteamKey::Unreadable("e".to_string())).unwrap_err().message(),
        "Other error: Could not read Steam installation path: e"
    );
}

#[test]
fn quoted_values() {
    assert_eq!(extract_quoted_value("\"path\"    \"C:\\\\Games\\\\Steam\""), Some("C:\\\\Games\\\\Steam".to_string()));
    assert_eq!(extract_quoted_value("\"path\""), None);
    assert_eq!(extract_quoted_value("\"path\" \"open"), Some("open".to_string()));
    assert_eq!(extract_quoted_value(""), None);
}

#[test]
fn library_lists_are_read() {
    assert_eq!(parse_library_paths(VDF), vec!["C:\\Steam", "D:\\Games"]);
    assert_eq!(parse_library_paths(""), Vec::<String>::new());
    assert_eq!(parse_library_paths("\"path\" \"C:\\\\Steam\""), Vec::<String>::new());
    // The list ends with the first line that leaves no brace open.
    assert_eq!(parse_library_paths("\"libraryfolders\"\n\"path\" \"a\"\n\"path\" \"b\""), vec!["a"]);
}

#[test]
fn a_named_folder_reads_back() {
    let folder = "\\\\server\\share\\Steam 語";
    let text = format!("\"libraryfolders\"\n{{\n\"path\"\t \"{}\"\n}}", folder.replace('\\', "\\\\"));
    assert_eq!(parse_library_paths(&text), vec![folder]);
}

#[test]
fn the_game_is_found_beside_steam() {
    let game = "/s/steamapps/common/Limbus Company";
    let (found, asked) = search(begin(Platform::Linux, "/s"), &[game], Some(VDF), &[]);
    assert_eq!(found.as_deref(), Some(game));
    assert_eq!(asked, vec![game]);
}

#[test]
fn the_game_is_found_in_a_library() {
    let list = "/s/steamapps/libraryfolders.vdf";
    let alt = "D:\\Games/SteamApps/common/Limbus Company";
    let usual = "D:\\Games/steamapps/common/Limbus Company";
    let exists = [list, "D:\\Games", alt];
    let (found, asked) = search(begin(Platform::Windows, "/s"), &exists, Some(VDF), &[]);
    assert_eq!(found.as_deref(), Some(alt));
    let expected = [
        "/s/steamapps/common/Limbus Company",
        list,
        "read /s/steamapps/libraryfolders.vdf",
        "C:\\Steam",
        "D:\\Games",
        usual,
        alt,
    ];
    assert_eq!(asked, expected);
    // Elsewhere only the usual spelling counts.
    assert_eq!(search(begin(Platform::Linux, "/s"), &exists, Some(VDF), &[]).0, None);
    assert_eq!(search(begin(Platform::Linux, "/s"), &[list, "D:\\Games", usual], Some(VDF), &[]).0.as_deref(), Some(usual));
    assert_eq!(search(begin(Platform::Linux, "/s"), &[list, "D:\\Games", usual], None, &[]).0, None);
}

#[test]
fn the_game_is_found_through_the_registry() {
    let first = "SOFTWARE\\Microsoft\\Windows\\CurrentVersion\\Uninstall\\Steam App 1973530";
    let second = "SOFTWARE\\WOW6432Node\\Microsoft\\Windows\\CurrentVersion\\Uninstall\\Steam App 1973530";
    let keys = [(first, "X:\\gone"), (second, "X:\\here")];
    let (found, _) = search(begin(Platform::Windows, "/s"), &["X:\\here"], None, &keys);
    assert_eq!(found.as_deref(), Some("X:\\here"));
    let place = "E:\\Steam\\steamapps\\common\\Limbus Company";
    let (found, asked) = search(begin(Platform::Windows, "/s"), &[place], None, &[]);
    assert_eq!(found.as_deref(), Some(place));
    assert_eq!(asked.len(), 8);
    assert_eq!(search(begin(Platform::Windows, "/s"), &[], None, &[]).0, None);
}

#[test]
fn without_steam_there_is_no_search() {
    let e = find_limbus_company_path(Platform::Linux, Err(AppError::Other("no".to_string()))).unwrap_err();
    assert_eq!(e.message(), "Other error: no");
    assert_eq!(game_not_found().message(), "Other error: Could not find Limbus Company game directory");
}

#[test]
fn the_language_folder_is_below_the_game() {
    let game = HostPath::new("/g");
    assert_eq!(show(&lang_folder(&game)), "/g/LimbusCompany_Data/Lang");
    assert_eq!(show(&output_folder(&lang_folder(&game))), "/g/LimbusCompany_Data/Lang/LLC_zh-Hant");
    assert_eq!(show(&get_lang_folder_path(Ok(game.copy()), Ok(())).unwrap()), "/g/LimbusCompany_Data/Lang");
    assert_eq!(
        get_lang_folder_path(Ok(game), Err("denied".to_string())).unwrap_err().message(),
        "Other error: Failed to create Lang folder: denied"
    );
    assert_eq!(get_lang_folder_path(Err(game_not_found()), Ok(())).unwrap_err().message(), game_not_found().message());
}

#[test]
fn the_game_place_is_shown() {
    let info = detect_game_path_info(Some(("/g".to_string(), "/g/out".to_string())));
    assert!(info.found);
    assert_eq!(info.game_path.as_deref(), Some("/g"));
    assert_eq!(info.output_path.as_deref(), Some("/g/out"));
    let info = detect_game_path_info(None);
    assert!(!info.found && info.game_path.is_none() && info.output_path.is_none());
}
