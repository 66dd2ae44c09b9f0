use ronmmgr::mods::{Entry, EntryKind, ListingError, Mod, ModsError, ModsIo};
use ronmmgr::path::join_segment;

const CONTENT: &str = "steamapps/common/Ready Or Not/ReadyOrNot/Content/Paks/mod.io";

fn entry(name: &str, kind: EntryKind) -> Entry {
    Entry { name: name.to_string(), kind }
}

fn dir(name: &str) -> Entry {
    entry(name, EntryKind::Directory)
}

fn file(name: &str) -> Entry {
    entry(name, EntryKind::NotDirectory)
}

#[test]
fn join_inserts_separator() {
    assert_eq!(join_segment("/opt", "x86", '/'), "/opt/x86");
}

#[test]
fn join_keeps_trailing_separator() {
    assert_eq!(join_segment("/opt/", "x86", '/'), "/opt/x86");
}

#[test]
fn join_on_empty_base_gives_segment() {
    assert_eq!(join_segment("", "x86", '/'), "x86");
}

#[test]
fn join_with_backslash() {
    assert_eq!(join_segment(r"C:\Games", "Steam", '\\'), r"C:\Games\Steam");
}

#[test]
fn content_path_appends_segments_in_order() {
    let io = ModsIo::with_separator("/opt/x86/Steam", '/');
    assert_eq!(io.dir(), format!("/opt/x86/Steam/{CONTENT}"));
    assert_eq!(io.separator(), '/');
}

#[test]
fn content_path_after_trailing_separator() {
    let io = ModsIo::with_separator("/opt/x86/Steam/", '/');
    assert_eq!(io.dir(), format!("/opt/x86/Steam/{CONTENT}"));
}

#[test]
fn content_path_with_backslash() {
    let io = ModsIo::with_separator(r"C:\Steam", '\\');
    assert_eq!(
        io.dir(),
        r"C:\Steam\steamapps\common\Ready Or Not\ReadyOrNot\Content\Paks\mod.io"
    );
}

#[test]
fn content_path_on_empty_base() {
    let io = ModsIo::with_separator("", '/');
    assert_eq!(io.dir(), CONTENT);
}

#[test]
fn new_uses_platform_separator() {
    let io = ModsIo::new("/opt/x86/Steam");
    let sep = std::path::MAIN_SEPARATOR;
    assert_eq!(io.separator(), sep);
    assert_eq!(io.dir(), format!("/opt/x86/Steam{sep}{}", CONTENT.replace('/', &sep.to_string())));
}

#[test]
fn from_program_files_given_root() {
    let io = ModsIo::from_program_files(Some("/opt/x86"));
    let sep = io.separator();
    let steam = join_segment("/opt/x86", "Steam", sep);
    assert_eq!(io.dir(), ModsIo::with_separator(&steam, sep).dir());
    if sep == '/' {
        assert_eq!(io.dir(), format!("/opt/x86/Steam/{CONTENT}"));
    }
}

#[test]
fn from_program_files_default_root() {
    let io = ModsIo::from_program_files(None);
    let sep = io.separator();
    let steam = join_segment("C:/Program Files (x86)", "Steam", sep);
    assert_eq!(io.dir(), ModsIo::with_separator(&steam, sep).dir());
    if sep == '/' {
        assert_eq!(io.dir(), format!("C:/Program Files (x86)/Steam/{CONTENT}"));
    }
}

#[test]
fn example_scenario_record_names() {
    let io = ModsIo::with_separator("/opt/x86/Steam", '/');
    let mods_dir = io.mods_dir(&Ok(vec![dir("12345")]));
    let mods = io.mods(&mods_dir, &Ok(vec![dir("alpha"), file("notes.txt"), dir("beta")])).unwrap();
    assert_eq!(mods.len(), 2);
    for m in &mods {
        assert_eq!(m.name(), "TODO");
    }
    let base = format!("/opt/x86/Steam/{CONTENT}/12345/mods");
    assert_eq!(mods[0].to_line(), format!("TODO:\t{base}/alpha"));
}

#[test]
fn top_dir_picks_single_subdirectory() {
    let io = ModsIo::with_separator("/opt/x86/Steam", '/');
    let listing = Ok(vec![file("a.txt"), dir("12345"), file("b.pak"), entry("c", EntryKind::Unknown)]);
    assert_eq!(
        io.top_dir(&listing),
        Some(format!("/opt/x86/Steam/{CONTENT}/12345"))
    );
}

#[test]
fn top_dir_takes_first_of_several() {
    let io = ModsIo::with_separator("/s", '/');
    let listing = Ok(vec![file("x"), dir("111"), dir("222")]);
    assert_eq!(io.top_dir(&listing), Some(format!("/s/{CONTENT}/111")));
}

#[test]
fn top_dir_absent_without_subdirectory() {
    let io = ModsIo::with_separator("/s", '/');
    assert_eq!(io.top_dir(&Ok(vec![file("a"), file("b")])), None);
    assert_eq!(io.top_dir(&Ok(vec![])), None);
    assert_eq!(io.mods_dir(&Ok(vec![file("a")])), None);
}

#[test]
fn top_dir_absent_when_listing_fails() {
    let io = ModsIo::with_separator("/s", '/');
    assert_eq!(io.top_dir(&Err(ListingError::NotFound)), None);
    assert_eq!(io.mods_dir(&Err(ListingError::PermissionDenied)), None);
}

#[test]
fn mods_dir_below_publisher_directory() {
    let io = ModsIo::with_separator("/opt/x86/Steam", '/');
    let listing = Ok(vec![dir("12345")]);
    assert_eq!(
        io.mods_dir(&listing),
        Some(format!("/opt/x86/Steam/{CONTENT}/12345/mods"))
    );
}

fn dirs_of(mods: &[Mod]) -> Vec<String> {
    mods.iter().map(|m| m.dir_name().to_string()).collect()
}

#[test]
fn example_scenario_two_mods() {
    let io = ModsIo::with_separator("/opt/x86/Steam", '/');
    let mods_dir = io.mods_dir(&Ok(vec![dir("12345")]));
    let listing = Ok(vec![dir("alpha"), dir("beta")]);
    let mods = io.mods(&mods_dir, &listing).unwrap();
    let base = format!("/opt/x86/Steam/{CONTENT}/12345/mods");
    assert_eq!(dirs_of(&mods), vec![format!("{base}/alpha"), format!("{base}/beta")]);
    assert!(mods[0].dir_name().ends_with("/mods/alpha"));
    assert!(mods[1].dir_name().ends_with("/mods/beta"));
}

#[test]
fn mods_skip_non_directories() {
    let io = ModsIo::with_separator("/s", '/');
    let mods_dir = Some("/m".to_string());
    let listing = Ok(vec![file("readme"), dir("a"), file("x.pak"), dir("b"), file("y")]);
    let mods = io.mods(&mods_dir, &listing).unwrap();
    assert_eq!(dirs_of(&mods), vec!["/m/a", "/m/b"]);
}

#[test]
fn mods_skip_unknown_entries() {
    let io = ModsIo::with_separator("/s", '/');
    let mods_dir = Some("/m".to_string());
    let listing = Ok(vec![dir("a"), entry("broken", EntryKind::Unknown), dir("c")]);
    let mods = io.mods(&mods_dir, &listing).unwrap();
    assert_eq!(dirs_of(&mods), vec!["/m/a", "/m/c"]);
}

#[test]
fn mods_of_empty_listing() {
    let io = ModsIo::with_separator("/s", '/');
    let mods = io.mods(&Some("/m".to_string()), &Ok(vec![])).unwrap();
    assert!(mods.is_empty());
}

#[test]
fn mods_without_mods_dir() {
    let io = ModsIo::with_separator("/s", '/');
    let r = io.mods(&None, &Ok(vec![dir("a")]));
    assert_eq!(r.err(), Some(ModsError::ModsDirNotFound));
}

#[test]
fn mods_when_listing_fails() {
    let io = ModsIo::with_separator("/s", '/');
    let m = Some("/m".to_string());
    assert_eq!(
        io.mods(&m, &Err(ListingError::PermissionDenied)).err(),
        Some(ModsError::Listing(ListingError::PermissionDenied))
    );
    assert_eq!(
        io.mods(&m, &Err(ListingError::NotFound)).err(),
        Some(ModsError::Listing(ListingError::NotFound))
    );
    assert_eq!(
        io.mods(&m, &Err(ListingError::Other)).err(),
        Some(ModsError::Listing(ListingError::Other))
    );
}

#[test]
fn two_listings_in_other_order_agree() {
    let io = ModsIo::with_separator("/s", '/');
    let m = Some("/m".to_string());
    let first = io.mods(&m, &Ok(vec![dir("a"), file("f"), dir("b")])).unwrap();
    let second = io.mods(&m, &Ok(vec![dir("b"), dir("a"), file("f")])).unwrap();
    let mut d1 = dirs_of(&first);
    let mut d2 = dirs_of(&second);
    d1.sort();
    d2.sort();
    assert_eq!(d1, d2);
}

#[test]
fn mod_record_fields() {
    let m = Mod::from_dir("/m/alpha".to_string());
    assert_eq!(m.name(), "TODO");
    assert_eq!(m.dir_name(), "/m/alpha");
    assert_eq!(m.to_line(), "TODO:\t/m/alpha");
}

#[test]
fn skipped_entries_counts_unknown() {
    let listing = vec![dir("a"), entry("x", EntryKind::Unknown), file("f"), entry("y", EntryKind::Unknown)];
    assert_eq!(ronmmgr::mods::skipped_entries(&listing), 2);
    assert_eq!(ronmmgr::mods::skipped_entries(&vec![dir("a"), file("b")]), 0);
}
