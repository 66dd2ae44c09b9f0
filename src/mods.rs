use vstd::prelude::*;

use crate::path::{join, join_segment, lemma_join_join, main_separator};

verus! {

/// Directory of the Steam library below the Steam root.
pub const STEAMAPPS_DIR: &'static str = "steamapps";

/// Directory holding installed games below the Steam library.
pub const COMMON_DIR: &'static str = "common";

/// Install directory of the game.
pub const GAME_DIR: &'static str = "Ready Or Not";

/// Project directory inside the install directory.
pub const PROJECT_DIR: &'static str = "ReadyOrNot";

/// Content directory of the project.
pub const CONTENT_DIR: &'static str = "Content";

/// Package directory of the content.
pub const PAKS_DIR: &'static str = "Paks";

/// Directory where the mod hosting service keeps its downloads.
pub const MOD_IO_DIR: &'static str = "mod.io";

/// Directory below the publisher directory that holds one folder per mod.
pub const MODS_DIR: &'static str = "mods";

/// Steam's directory below the 32-bit program install root.
pub const STEAM_DIR: &'static str = "Steam";

/// Program install root assumed when none is configured.
pub const DEFAULT_PROGRAM_FILES: &'static str = "C:/Program Files (x86)";

/// Display label given to every mod record.
pub const MOD_NAME: &'static str = "TODO";

/// The mod content directory below the Steam root `steam`.
pub open spec fn content_path(steam: Seq<char>, sep: char) -> Seq<char> {
    join(
        join(
            join(
                join(
                    join(join(join(steam, STEAMAPPS_DIR@, sep), COMMON_DIR@, sep), GAME_DIR@, sep),
                    PROJECT_DIR@,
                    sep,
                ),
                CONTENT_DIR@,
                sep,
            ),
            PAKS_DIR@,
            sep,
        ),
        MOD_IO_DIR@,
        sep,
    )
}

/// The fixed relative segments of the content directory, separated by `sep`.
pub open spec fn relative_content_path(sep: char) -> Seq<char> {
    STEAMAPPS_DIR@.push(sep) + COMMON_DIR@ + seq![sep] + GAME_DIR@ + seq![sep] + PROJECT_DIR@
        + seq![sep] + CONTENT_DIR@ + seq![sep] + PAKS_DIR@ + seq![sep] + MOD_IO_DIR@
}

/// The content directory is the Steam root with the fixed segments appended in
/// order, each separated by the platform separator.
pub proof fn lemma_content_path_layout(steam: Seq<char>, sep: char)
    requires
        sep == '/' || sep == '\\',
    ensures
        content_path(steam, sep) == join(steam, relative_content_path(sep), sep),
{
    reveal_strlit("steamapps");
    reveal_strlit("common");
    reveal_strlit("Ready Or Not");
    reveal_strlit("ReadyOrNot");
    reveal_strlit("Content");
    reveal_strlit("Paks");
    let s1 = STEAMAPPS_DIR@;
    let s2 = s1.push(sep) + COMMON_DIR@;
    let s3 = s2.push(sep) + GAME_DIR@;
    let s4 = s3.push(sep) + PROJECT_DIR@;
    let s5 = s4.push(sep) + CONTENT_DIR@;
    let s6 = s5.push(sep) + PAKS_DIR@;
    let s7 = s6.push(sep) + MOD_IO_DIR@;
    lemma_join_join(steam, s1, COMMON_DIR@, sep);
    assert(s2.last() == COMMON_DIR@.last());
    lemma_join_join(steam, s2, GAME_DIR@, sep);
    assert(s3.last() == GAME_DIR@.last());
    lemma_join_join(steam, s3, PROJECT_DIR@, sep);
    assert(s4.last() == PROJECT_DIR@.last());
    lemma_join_join(steam, s4, CONTENT_DIR@, sep);
    assert(s5.last() == CONTENT_DIR@.last());
    lemma_join_join(steam, s5, PAKS_DIR@, sep);
    assert(s6.last() == PAKS_DIR@.last());
    lemma_join_join(steam, s6, MOD_IO_DIR@, sep);
    assert(s7 =~= relative_content_path(sep));
}

/// What a directory listing could tell of an entry's type.
#[derive(Clone, Copy, Debug, PartialEq, Eq, Structural)]
pub enum EntryKind {
    /// The entry is a directory.
    Directory,
    /// The entry is a file, a link or anything else that is not a directory.
    NotDirectory,
    /// The entry's type could not be determined.
    Unknown,
}

/// One entry of a directory listing: its file name and its type.
pub struct Entry {
    pub name: String,
    pub kind: EntryKind,
}

/// Why a directory could not be listed.
#[derive(Clone, Copy, Debug, PartialEq, Eq, Structural)]
pub enum ListingError {
    /// The directory does not exist or is not a directory.
    NotFound,
    /// The directory exists but cannot be read.
    PermissionDenied,
    /// Any other failure of the listing.
    Other,
}

/// Why the installed mods could not be listed.
#[derive(Clone, Copy, Debug, PartialEq, Eq, Structural)]
pub enum ModsError {
    /// No publisher directory was found below the content directory.
    ModsDirNotFound,
    /// The `mods` directory could not be listed.
    Listing(ListingError),
}

/// Whether the entry is known to be a directory.
pub open spec fn is_directory(e: Entry) -> bool {
    e.kind == EntryKind::Directory
}

/// The entries of a listing that are directories, in listing order.
pub open spec fn directories(entries: Seq<Entry>) -> Seq<Entry> {
    entries.filter(|e: Entry| is_directory(e))
}

/// The names of the directories of a listing, in listing order.
pub open spec fn directory_names(entries: Seq<Entry>) -> Seq<Seq<char>> {
    directories(entries).map_values(|e: Entry| e.name@)
}

/// The name of the first directory of a listing, if there is one.
pub open spec fn first_directory(entries: Seq<Entry>) -> Option<Seq<char>> {
    if directories(entries).len() > 0 {
        Some(directories(entries)[0].name@)
    } else {
        None
    }
}

/// The paths of the mod directories found in the listing `entries` of
/// `mods_dir`, in listing order.
pub open spec fn mod_dirs(mods_dir: Seq<char>, entries: Seq<Entry>, sep: char) -> Seq<Seq<char>> {
    directory_names(entries).map_values(|n: Seq<char>| join(mods_dir, n, sep))
}

/// The view of an optional path.
pub open spec fn path_view(p: Option<String>) -> Option<Seq<char>> {
    match p {
        Some(s) => Some(s@),
        None => None,
    }
}

/// The view of a listing.
pub open spec fn listing_view(l: Result<Vec<Entry>, ListingError>) -> Result<Seq<Entry>, ListingError> {
    match l {
        Ok(v) => Ok(v@),
        Err(e) => Err(e),
    }
}

/// The directory entries of a listing, split after the first `i + 1` entries.
proof fn lemma_directories_split(entries: Seq<Entry>, i: int)
    requires
        0 <= i < entries.len(),
    ensures
        directories(entries) == directories(entries.subrange(0, i + 1)) + directories(
            entries.subrange(i + 1, entries.len() as int),
        ),
{
    let a = entries.subrange(0, i + 1);
    let b = entries.subrange(i + 1, entries.len() as int);
    assert(entries =~= a + b);
    Seq::filter_distributes_over_add(a, b, |e: Entry| is_directory(e));
}

/// The directories of a listing grown by one entry.
proof fn lemma_directories_step(entries: Seq<Entry>, i: int)
    requires
        0 <= i < entries.len(),
    ensures
        directories(entries.subrange(0, i + 1)) == if is_directory(entries[i]) {
            directories(entries.subrange(0, i)).push(entries[i])
        } else {
            directories(entries.subrange(0, i))
        },
{
    reveal(Seq::filter);
    let s = entries.subrange(0, i + 1);
    assert(s.drop_last() =~= entries.subrange(0, i));
    assert(s.len() > 0);
    assert(s.last() == entries[i]);
    assert(directories(s) == if is_directory(s.last()) {
        directories(s.drop_last()).push(s.last())
    } else {
        directories(s.drop_last())
    });
}

/// The entries of a listing whose type could not be determined.
pub open spec fn unknown_entries(entries: Seq<Entry>) -> Seq<Entry> {
    entries.filter(|e: Entry| e.kind == EntryKind::Unknown)
}

/// The number of entries of `listing` that are skipped when mods are listed
/// because their type could not be determined.
pub fn skipped_entries(listing: &Vec<Entry>) -> (r: usize)
    ensures
        r == unknown_entries(listing@).len(),
{
    let mut n: usize = 0;
    let mut i: usize = 0;
    while i < listing.len()
        invariant
            i <= listing@.len(),
            n == unknown_entries(listing@.subrange(0, i as int)).len(),
        decreases listing@.len() - i,
    {
        proof {
            reveal(Seq::filter);
            let s = listing@.subrange(0, i + 1);
            assert(s.drop_last() =~= listing@.subrange(0, i as int));
            assert(s.last() == listing@[i as int]);
            Seq::lemma_filter_len(listing@.subrange(0, i as int), |e: Entry| e.kind == EntryKind::Unknown);
        }
        if listing[i].kind == EntryKind::Unknown {
            n += 1;
        }
        i += 1;
    }
    assert(listing@.subrange(0, listing@.len() as int) =~= listing@);
    n
}

/// One installed modification: a display label and the path of its directory.
pub struct Mod {
    name: String,
    dir: String,
}

impl Mod {
    /// The display label of this mod.
    pub closed spec fn spec_name(&self) -> Seq<char> {
        self.name@
    }

    /// The path of this mod's directory.
    pub closed spec fn spec_dir(&self) -> Seq<char> {
        self.dir@
    }

    /// Creates the record of the mod in directory `dir`.
    pub fn from_dir(dir: String) -> (r: Mod)
        ensures
            r.spec_name() == MOD_NAME@,
            r.spec_dir() == dir@,
    {
        Mod { name: MOD_NAME.to_string(), dir }
    }

    /// The display label of this mod.
    pub fn name(&self) -> (r: &str)
        ensures
            r@ == self.spec_name(),
    {
        self.name.as_str()
    }

    /// The path of this mod's directory.
    #[must_use]
    pub fn dir_name(&self) -> (r: &str)
        ensures
            r@ == self.spec_dir(),
    {
        self.dir.as_str()
    }

    /// The line shown for this mod: its label, a colon and a tab, then its path.
    pub fn to_line(&self) -> (r: String)
        ensures
            r@ == self.spec_name() + ":\t"@ + self.spec_dir(),
    {
        let mut r = self.name.clone();
        r.append(":\t");
        r.append(self.dir.as_str());
        r
    }
}

/// Locates the mod content directory of the game below a Steam root.
pub struct ModsIo {
    dir: String,
    separator: char,
}

impl ModsIo {
    /// The content directory this locator reads from.
    pub closed spec fn spec_dir(&self) -> Seq<char> {
        self.dir@
    }

    /// The path separator used to build paths.
    pub closed spec fn spec_separator(&self) -> char {
        self.separator
    }

    /// The publisher directory found in the listing of the content directory.
    pub open spec fn spec_top_dir(&self, listing: Result<Seq<Entry>, ListingError>) -> Option<Seq<char>> {
        match listing {
            Ok(entries) => match first_directory(entries) {
                Some(n) => Some(join(self.spec_dir(), n, self.spec_separator())),
                None => None,
            },
            Err(_) => None,
        }
    }

    /// The `mods` directory below the publisher directory found in the listing
    /// of the content directory.
    pub open spec fn spec_mods_dir(&self, listing: Result<Seq<Entry>, ListingError>) -> Option<Seq<char>> {
        match self.spec_top_dir(listing) {
            Some(t) => Some(join(t, MODS_DIR@, self.spec_separator())),
            None => None,
        }
    }

    /// The publisher directory: the first directory in `listing`, the listing
    /// of the content directory. None where the listing failed or holds no
    /// directory.
    pub fn top_dir(&self, listing: &Result<Vec<Entry>, ListingError>) -> (r: Option<String>)
        ensures
            path_view(r) == self.spec_top_dir(listing_view(*listing)),
    {
        match listing {
            Err(_) => None,
            Ok(entries) => {
                let mut i: usize = 0;
                while i < entries.len()
                    invariant
                        i <= entries@.len(),
                        directories(entries@.subrange(0, i as int)).len() == 0,
                        listing_view(*listing) == Ok::<Seq<Entry>, ListingError>(entries@),
                    decreases entries@.len() - i,
                {
                    proof {
                        lemma_directories_step(entries@, i as int);
                    }
                    if entries[i].kind == EntryKind::Directory {
                        proof {
                            lemma_directories_split(entries@, i as int);
                            assert(directories(entries@.subrange(0, i + 1)) =~= seq![entries@[i as int]]);
                            assert(directories(entries@)[0] == entries@[i as int]);
                        }
                        let p = join_segment(self.dir.as_str(), entries[i].name.as_str(), self.separator);
                        assert(first_directory(entries@) == Some(entries@[i as int].name@));
                        return Some(p);
                    }
                    i += 1;
                }
                assert(entries@.subrange(0, entries@.len() as int) =~= entries@);
                None
            },
        }
    }

    /// The `mods` directory below the publisher directory found in `listing`,
    /// the listing of the content directory.
    #[must_use]
    pub fn mods_dir(&self, listing: &Result<Vec<Entry>, ListingError>) -> (r: Option<String>)
        ensures
            path_view(r) == self.spec_mods_dir(listing_view(*listing)),
    {
        match self.top_dir(listing) {
            Some(t) => Some(join_segment(t.as_str(), MODS_DIR, self.separator)),
            None => None,
        }
    }

    /// The installed mods: one record per directory in `listing`, the listing
    /// of `mods_dir`, in listing order. Entries that are not directories, or
    /// whose type is unknown, are skipped. Fails where no `mods` directory was
    /// found or where it could not be listed.
    pub fn mods(&self, mods_dir: &Option<String>, listing: &Result<Vec<Entry>, ListingError>) -> (r:
        Result<Vec<Mod>, ModsError>)
        ensures
            mods_dir.is_none() ==> r == Err::<Vec<Mod>, ModsError>(ModsError::ModsDirNotFound),
            mods_dir.is_some() && listing.is_err() ==> r == Err::<Vec<Mod>, ModsError>(
                ModsError::Listing(listing->Err_0),
            ),
            mods_dir.is_some() && listing.is_ok() ==> r.is_ok(),
            r.is_ok() ==> {
                &&& r->Ok_0@.map_values(|m: Mod| m.spec_dir()) == mod_dirs(
                    mods_dir->Some_0@,
                    listing->Ok_0@,
                    self.spec_separator(),
                )
                &&& forall|k: int|
                    0 <= k < r->Ok_0@.len() ==> #[trigger] r->Ok_0@[k].spec_name() == MOD_NAME@
            },
    {
        let dir = match mods_dir {
            Some(d) => d,
            None => {
                return Err(ModsError::ModsDirNotFound);
            },
        };
        let entries = match listing {
            Ok(v) => v,
            Err(e) => {
                return Err(ModsError::Listing(*e));
            },
        };
        let ghost md = dir@;
        let ghost sep = self.separator;
        let mut out: Vec<Mod> = Vec::new();
        let mut i: usize = 0;
        while i < entries.len()
            invariant
                i <= entries@.len(),
                out@.map_values(|m: Mod| m.spec_dir()) == mod_dirs(md, entries@.subrange(0, i as int), sep),
                forall|k: int| 0 <= k < out@.len() ==> #[trigger] out@[k].spec_name() == MOD_NAME@,
                dir@ == md,
                *mods_dir == Some(*dir),
                *listing == Ok::<Vec<Entry>, ListingError>(*entries),
                sep == self.separator,
            decreases entries@.len() - i,
        {
            proof {
                lemma_directories_step(entries@, i as int);
            }
            if entries[i].kind == EntryKind::Directory {
                let m = Mod::from_dir(join_segment(dir.as_str(), entries[i].name.as_str(), self.separator));
                let ghost before = out@;
                out.push(m);
                proof {
                    assert(out@.map_values(|m: Mod| m.spec_dir()) =~= before.map_values(|m: Mod| m.spec_dir()).push(m.spec_dir()));
                    assert(mod_dirs(md, entries@.subrange(0, i + 1), sep) =~= mod_dirs(md, entries@.subrange(0, i as int), sep).push(join(md, entries@[i as int].name@, sep)));
                }
            } else {
                assert(mod_dirs(md, entries@.subrange(0, i + 1), sep) =~= mod_dirs(md, entries@.subrange(0, i as int), sep));
            }
            i += 1;
        }
        assert(entries@.subrange(0, entries@.len() as int) =~= entries@);
        Ok(out)
    }

    /// Creates a locator for the Steam root `steam_dir`, joining paths with the
    /// platform's separator.
    pub fn new(steam_dir: &str) -> (r: ModsIo)
        ensures
            r.spec_separator() == '/' || r.spec_separator() == '\\',
            r.spec_dir() == content_path(steam_dir@, r.spec_separator()),
    {
        ModsIo::with_separator(steam_dir, main_separator())
    }

    /// Creates a locator for the Steam root `steam_dir`, joining paths with
    /// `separator`.
    pub fn with_separator(steam_dir: &str, separator: char) -> (r: ModsIo)
        ensures
            r.spec_separator() == separator,
            r.spec_dir() == content_path(steam_dir@, separator),
    {
        let d = join_segment(steam_dir, STEAMAPPS_DIR, separator);
        let d = join_segment(d.as_str(), COMMON_DIR, separator);
        let d = join_segment(d.as_str(), GAME_DIR, separator);
        let d = join_segment(d.as_str(), PROJECT_DIR, separator);
        let d = join_segment(d.as_str(), CONTENT_DIR, separator);
        let d = join_segment(d.as_str(), PAKS_DIR, separator);
        let d = join_segment(d.as_str(), MOD_IO_DIR, separator);
        ModsIo { dir: d, separator }
    }

    /// Creates a locator below the 32-bit program install root
    /// `program_files`, or below the conventional default root where none is
    /// given, joining paths with the platform's separator.
    pub fn from_program_files(program_files: Option<&str>) -> (r: ModsIo)
        ensures
            r.spec_separator() == '/' || r.spec_separator() == '\\',
            r.spec_dir() == content_path(
                join(
                    match program_files {
                        Some(p) => p@,
                        None => DEFAULT_PROGRAM_FILES@,
                    },
                    STEAM_DIR@,
                    r.spec_separator(),
                ),
                r.spec_separator(),
            ),
    {
        let separator = main_separator();
        let root = match program_files {
            Some(p) => p,
            None => DEFAULT_PROGRAM_FILES,
        };
        let steam = join_segment(root, STEAM_DIR, separator);
        ModsIo::with_separator(steam.as_str(), separator)
    }

    /// The content directory this locator reads from.
    pub fn dir(&self) -> (r: &str)
        ensures
            r@ == self.spec_dir(),
    {
        self.dir.as_str()
    }

    /// The path separator used to build paths.
    pub fn separator(&self) -> (r: char)
        ensures
            r == self.spec_separator(),
    {
        self.separator
    }
}

/// The view of an entry: its name and its type.
pub open spec fn entry_view(e: Entry) -> (Seq<char>, EntryKind) {
    (e.name@, e.kind)
}

/// A listing without directories has no directory entries.
proof fn lemma_no_directories(entries: Seq<Entry>)
    requires
        forall|j: int| 0 <= j < entries.len() ==> !is_directory(#[trigger] entries[j]),
    ensures
        directories(entries).len() == 0,
    decreases entries.len(),
{
    reveal(Seq::filter);
    if entries.len() > 0 {
        let rest = entries.drop_last();
        assert forall|j: int| 0 <= j < rest.len() implies !is_directory(#[trigger] rest[j]) by {
            assert(rest[j] == entries[j]);
        }
        lemma_no_directories(rest);
        assert(!is_directory(entries[entries.len() - 1]));
    }
}

/// Where a listing holds exactly one directory, among any number of other
/// entries, the publisher directory is that one directory.
pub proof fn lemma_single_subdirectory(io: ModsIo, entries: Seq<Entry>, i: int)
    requires
        0 <= i < entries.len(),
        is_directory(entries[i]),
        forall|j: int| 0 <= j < entries.len() && j != i ==> !is_directory(#[trigger] entries[j]),
    ensures
        first_directory(entries) == Some(entries[i].name@),
        io.spec_top_dir(Ok(entries)) == Some(join(io.spec_dir(), entries[i].name@, io.spec_separator())),
{
    let a = entries.subrange(0, i);
    assert forall|j: int| 0 <= j < a.len() implies !is_directory(#[trigger] a[j]) by {
        assert(a[j] == entries[j]);
    }
    lemma_no_directories(a);
    lemma_directories_step(entries, i);
    lemma_directories_split(entries, i);
    assert(directories(entries.subrange(0, i + 1)) =~= seq![entries[i]]);
    assert(directories(entries)[0] == entries[i]);
}

/// Where a listing holds no directory, no publisher directory is found, and so
/// no `mods` directory either.
pub proof fn lemma_no_subdirectory(io: ModsIo, entries: Seq<Entry>)
    requires
        forall|j: int| 0 <= j < entries.len() ==> !is_directory(#[trigger] entries[j]),
    ensures
        first_directory(entries) is None,
        io.spec_top_dir(Ok(entries)) is None,
        io.spec_mods_dir(Ok(entries)) is None,
{
    lemma_no_directories(entries);
}

/// Keeping the directories of a listing keeps all of them.
proof fn lemma_directories_idempotent(entries: Seq<Entry>)
    ensures
        directories(directories(entries)) == directories(entries),
    decreases entries.len(),
{
    reveal(Seq::filter);
    if entries.len() > 0 {
        let rest = entries.drop_last();
        lemma_directories_idempotent(rest);
        if is_directory(entries.last()) {
            let d = directories(entries);
            assert(d.drop_last() =~= directories(rest));
        }
    }
}

/// Whether `p` is the path of a directory of the listing `entries` of
/// `mods_dir`.
pub open spec fn is_mod_dir_of(mods_dir: Seq<char>, entries: Seq<Entry>, sep: char, p: Seq<char>) -> bool {
    exists|i: int|
        0 <= i < entries.len() && is_directory(#[trigger] entries[i]) && p == join(mods_dir, entries[i].name@, sep)
}

/// Listing a `mods` directory with N subdirectories yields exactly N paths, one
/// for each subdirectory, whatever other entries the listing holds.
pub proof fn lemma_enumeration_complete(mods_dir: Seq<char>, entries: Seq<Entry>, sep: char)
    ensures
        mod_dirs(mods_dir, entries, sep).len() == directories(entries).len(),
        mod_dirs(mods_dir, entries, sep) == mod_dirs(mods_dir, directories(entries), sep),
        forall|i: int|
            0 <= i < entries.len() && is_directory(entries[i]) ==> mod_dirs(mods_dir, entries, sep).contains(
                join(mods_dir, #[trigger] entries[i].name@, sep),
            ),
        forall|k: int|
            0 <= k < mod_dirs(mods_dir, entries, sep).len() ==> is_mod_dir_of(
                mods_dir,
                entries,
                sep,
                #[trigger] mod_dirs(mods_dir, entries, sep)[k],
            ),
{
    let d = directories(entries);
    let out = mod_dirs(mods_dir, entries, sep);
    broadcast use vstd::seq_lib::group_filter_ensures;

    lemma_directories_idempotent(entries);
    assert forall|i: int|
        0 <= i < entries.len() && is_directory(entries[i]) implies out.contains(
        join(mods_dir, #[trigger] entries[i].name@, sep),
    ) by {
        assert(d.contains(entries[i]));
        let j = choose|j: int| 0 <= j < d.len() && d[j] == entries[i];
        assert(out[j] == join(mods_dir, entries[i].name@, sep));
    }
    assert forall|k: int| 0 <= k < out.len() implies is_mod_dir_of(
        mods_dir,
        entries,
        sep,
        #[trigger] out[k],
    ) by {
        assert(d.contains(d[k]));
        entries.lemma_filter_contains_rev(|e: Entry| is_directory(e), d[k]);
        let i = choose|i: int| 0 <= i < entries.len() && entries[i] == d[k];
        assert(is_directory(entries[i]));
        assert(out[k] == join(mods_dir, d[k].name@, sep));
        assert(is_directory(entries[i]) && out[k] == join(mods_dir, entries[i].name@, sep));
    }
}

/// An entry whose type could not be determined is left out of the mods, and
/// the other entries are listed as without it.
pub proof fn lemma_unknown_entry_skipped(mods_dir: Seq<char>, entries: Seq<Entry>, i: int, sep: char)
    requires
        0 <= i < entries.len(),
        entries[i].kind == EntryKind::Unknown,
    ensures
        mod_dirs(mods_dir, entries, sep) == mod_dirs(mods_dir, entries.remove(i), sep),
{
    reveal(Seq::filter);
    let a = entries.subrange(0, i);
    let e = seq![entries[i]];
    let b = entries.subrange(i + 1, entries.len() as int);
    assert(entries =~= a + e + b);
    assert(entries.remove(i) =~= a + b);
    Seq::filter_distributes_over_add(a + e, b, |x: Entry| is_directory(x));
    Seq::filter_distributes_over_add(a, e, |x: Entry| is_directory(x));
    Seq::filter_distributes_over_add(a, b, |x: Entry| is_directory(x));
    assert(e.drop_last() =~= Seq::<Entry>::empty());
    assert(!is_directory(e.last()));
    reveal_with_fuel(Seq::filter, 2);
    assert(directories(e) =~= Seq::<Entry>::empty());
    assert(directories(entries) =~= directories(entries.remove(i)));
}

/// Two listings of one unchanged `mods` directory, which hold the same entries
/// in whatever order, give the same set of mod paths.
pub proof fn lemma_snapshot_agreement(mods_dir: Seq<char>, first: Seq<Entry>, second: Seq<Entry>, sep: char)
    requires
        first.map_values(|e: Entry| entry_view(e)).to_set() == second.map_values(
            |e: Entry| entry_view(e),
        ).to_set(),
    ensures
        mod_dirs(mods_dir, first, sep).to_set() == mod_dirs(mods_dir, second, sep).to_set(),
{
    lemma_snapshot_subset(mods_dir, first, second, sep);
    lemma_snapshot_subset(mods_dir, second, first, sep);
    assert(mod_dirs(mods_dir, first, sep).to_set() =~= mod_dirs(mods_dir, second, sep).to_set());
}

/// Each mod path of the first listing is one of the second, where the second
/// holds every entry of the first.
proof fn lemma_snapshot_subset(mods_dir: Seq<char>, first: Seq<Entry>, second: Seq<Entry>, sep: char)
    requires
        first.map_values(|e: Entry| entry_view(e)).to_set() == second.map_values(
            |e: Entry| entry_view(e),
        ).to_set(),
    ensures
        forall|p: Seq<char>|
            mod_dirs(mods_dir, first, sep).to_set().contains(p) ==> mod_dirs(
                mods_dir,
                second,
                sep,
            ).to_set().contains(p),
{
    lemma_enumeration_complete(mods_dir, first, sep);
    lemma_enumeration_complete(mods_dir, second, sep);
    let v1 = first.map_values(|e: Entry| entry_view(e));
    let v2 = second.map_values(|e: Entry| entry_view(e));
    assert forall|p: Seq<char>|
        mod_dirs(mods_dir, first, sep).to_set().contains(p) implies mod_dirs(
        mods_dir,
        second,
        sep,
    ).to_set().contains(p) by {
        let out1 = mod_dirs(mods_dir, first, sep);
        assert(out1.contains(p));
        let k = choose|k: int| 0 <= k < out1.len() && out1[k] == p;
        assert(is_mod_dir_of(mods_dir, first, sep, out1[k]));
        let i = choose|i: int|
            0 <= i < first.len() && is_directory(#[trigger] first[i]) && out1[k] == join(
                mods_dir,
                first[i].name@,
                sep,
            );
        assert(v1[i] == entry_view(first[i]));
        assert(v1.to_set().contains(v1[i]));
        assert(v2.to_set().contains(v1[i]));
        let j = choose|j: int| 0 <= j < v2.len() && v2[j] == v1[i];
        assert(v2[j] == entry_view(second[j]));
        assert(is_directory(second[j]));
        assert(second[j].name@ == first[i].name@);
        assert(mod_dirs(mods_dir, second, sep).contains(join(mods_dir, second[j].name@, sep)));
    }
}

} // verus!
