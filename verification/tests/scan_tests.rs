use wallpicker::catalog::Catalog;
use wallpicker::scan::{find_wallpapers, is_wallpaper, FileEntry};
use wallpicker::select::resolve_selection;
use wallpicker::text::trim;

fn entry(name: &str, dir: &str) -> FileEntry {
    FileEntry { name: name.to_string(), path: format!("{}/{}", dir, name) }
}

#[test]
fn recognizes_supported_extensions() {
    assert!(is_wallpaper("beach.png"));
    assert!(is_wallpaper("photo.jpg"));
    assert!(is_wallpaper("photo.jpeg"));
    assert!(is_wallpaper("anim.gif"));
    assert!(is_wallpaper("img.bmp"));
}

#[test]
fn recognizes_case_variations() {
    assert!(is_wallpaper("photo.JPG"));
    assert!(is_wallpaper("photo.Jpeg"));
    assert!(is_wallpaper("beach.PNG"));
    assert!(is_wallpaper("anim.GiF"));
}

#[test]
fn rejects_unsupported_names() {
    assert!(!is_wallpaper("notes.txt"));
    assert!(!is_wallpaper("archive.tar"));
    assert!(!is_wallpaper("noextension"));
    assert!(!is_wallpaper("song.mp3"));
    assert!(!is_wallpaper("trailingdot."));
}

#[test]
fn rejects_hidden_files_without_second_dot() {
    // a leading dot alone does not make an extension
    assert!(!is_wallpaper(".png"));
    assert!(!is_wallpaper(".bashrc"));
    // but a hidden file with a real extension counts
    assert!(is_wallpaper(".secret.png"));
}

#[test]
fn catalog_contains_exactly_supported_files() {
    let dir = "/home/user/pictures/wallpapers";
    let entries = vec![
        entry("beach.png", dir),
        entry("notes.txt", dir),
        entry("photo.JPG", dir),
        entry("archive.tar.gz", dir),
        entry("anim.gif", dir),
        entry("README", dir),
    ];
    let catalog = find_wallpapers(&entries);
    assert!(!catalog.is_empty());
    let mut names = catalog.names();
    names.sort();
    assert_eq!(names, vec![
        "anim.gif".to_string(),
        "beach.png".to_string(),
        "photo.JPG".to_string(),
    ]);
    assert_eq!(
        catalog.get(&"beach.png".to_string()),
        Some(format!("{}/beach.png", dir))
    );
    assert_eq!(
        catalog.get(&"photo.JPG".to_string()),
        Some(format!("{}/photo.JPG", dir))
    );
    assert_eq!(catalog.get(&"notes.txt".to_string()), None);
    assert_eq!(catalog.get(&"README".to_string()), None);
}

#[test]
fn catalog_of_all_unsupported_is_empty() {
    let dir = "/home/user/pictures/wallpapers";
    let entries = vec![entry("notes.txt", dir), entry("music.mp3", dir)];
    let catalog = find_wallpapers(&entries);
    assert!(catalog.is_empty());
    assert_eq!(catalog.names().len(), 0);
}

#[test]
fn catalog_of_empty_listing_is_empty() {
    let entries: Vec<FileEntry> = Vec::new();
    let catalog = find_wallpapers(&entries);
    assert!(catalog.is_empty());
}

#[test]
fn duplicate_filenames_last_wins() {
    let entries = vec![
        FileEntry { name: "a.png".to_string(), path: "/first/a.png".to_string() },
        FileEntry { name: "b.png".to_string(), path: "/first/b.png".to_string() },
        FileEntry { name: "a.png".to_string(), path: "/second/a.png".to_string() },
    ];
    let catalog = find_wallpapers(&entries);
    assert_eq!(catalog.get(&"a.png".to_string()), Some("/second/a.png".to_string()));
    assert_eq!(catalog.get(&"b.png".to_string()), Some("/first/b.png".to_string()));
    assert_eq!(catalog.names().len(), 2);
}

#[test]
fn catalog_insert_replaces() {
    let mut catalog = Catalog::new();
    assert!(catalog.is_empty());
    catalog.insert("a.png".to_string(), "/x/a.png".to_string());
    catalog.insert("a.png".to_string(), "/y/a.png".to_string());
    assert_eq!(catalog.get(&"a.png".to_string()), Some("/y/a.png".to_string()));
    assert_eq!(catalog.names(), vec!["a.png".to_string()]);
}

#[test]
fn trim_strips_surrounding_whitespace() {
    assert_eq!(trim("beach.png\n"), "beach.png");
    assert_eq!(trim("  beach.png \t\r\n"), "beach.png");
    assert_eq!(trim("two words\n"), "two words");
    assert_eq!(trim("inner  space"), "inner  space");
    assert_eq!(trim("   \n\t"), "");
    assert_eq!(trim(""), "");
}

#[test]
fn selection_resolves_trimmed_output() {
    let dir = "/home/user/pictures/wallpapers";
    let entries = vec![entry("beach.png", dir), entry("dune.jpg", dir)];
    let catalog = find_wallpapers(&entries);
    assert_eq!(
        resolve_selection(&catalog, true, "beach.png\n"),
        Some(format!("{}/beach.png", dir))
    );
    assert_eq!(
        resolve_selection(&catalog, true, "  dune.jpg  \n"),
        Some(format!("{}/dune.jpg", dir))
    );
}

#[test]
fn selection_fails_on_nonzero_exit() {
    let dir = "/home/user/pictures/wallpapers";
    let entries = vec![entry("beach.png", dir)];
    let catalog = find_wallpapers(&entries);
    assert_eq!(resolve_selection(&catalog, false, "beach.png\n"), None);
}

#[test]
fn selection_fails_on_unknown_filename() {
    let dir = "/home/user/pictures/wallpapers";
    let entries = vec![entry("beach.png", dir)];
    let catalog = find_wallpapers(&entries);
    assert_eq!(resolve_selection(&catalog, true, "stale.png\n"), None);
    assert_eq!(resolve_selection(&catalog, true, "\n"), None);
    assert_eq!(resolve_selection(&catalog, true, ""), None);
}
