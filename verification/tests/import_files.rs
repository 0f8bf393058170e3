use petiglyph_tui::import_files::next_available_import_destination;

fn taken(names: &'static [&'static str]) -> impl Fn(&String) -> bool {
    move |path: &String| names.iter().any(|name| path == name)
}

#[test]
fn free_names_are_kept() {
    let (path, renamed) = next_available_import_destination("/p/icons", "cat.png", taken(&[]));
    assert_eq!(path, "/p/icons/cat.png");
    assert!(!renamed);
}

#[test]
fn taken_names_are_numbered_from_one() {
    let (path, renamed) = next_available_import_destination(
        "/p/icons",
        "cat.png",
        taken(&["/p/icons/cat.png", "/p/icons/cat-1.png"]),
    );
    assert_eq!(path, "/p/icons/cat-2.png");
    assert!(renamed);
    let (path, _) = next_available_import_destination("/p/icons", "README", taken(&["/p/icons/README"]));
    assert_eq!(path, "/p/icons/README-1");
    let (path, _) = next_available_import_destination("/p/icons", ".png", taken(&["/p/icons/.png"]));
    assert_eq!(path, "/p/icons/.png-1");
}
