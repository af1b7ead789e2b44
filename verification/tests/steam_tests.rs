use wayvid::conflicts::check_wallpaper_conflicts;
use wayvid::steam::SteamLibrary;

#[test]
fn test_vdf_value_extraction() {
    let line = "\t\t\"path\"\t\t\"/home/user/SteamLibrary\"";
    let value = SteamLibrary::extract_vdf_value(line);
    assert_eq!(value, Some("/home/user/SteamLibrary".to_string()));
}

#[test]
fn test_vdf_parsing() {
    let content = r#"
"libraryfolders"
{
	"0"
	{
		"path"		"/home/user/.local/share/Steam"
		"label"		""
	}
	"1"
	{
		"path"		"/mnt/games/SteamLibrary"
		"label"		"Games"
	}
}
"#;
    let paths = SteamLibrary::parse_vdf_paths(content);
    assert!(paths.len() <= 2);
}

#[test]
fn test_process_check() {
    let warnings = check_wallpaper_conflicts(&vec![false, false, false]);
    assert!(warnings.is_empty());
}
