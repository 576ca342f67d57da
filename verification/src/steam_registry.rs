//! Finding Steam, the game and its language folder.
use vstd::prelude::*;

use crate::error::{AppError, ErrorView};
use crate::paths::{HostPath, PathView};
use crate::text::{concat, opt_text, texts};
use crate::vdf::{library_folders, parse_library_paths};

verus! {

/// The system that the program runs on.
#[derive(Debug, Clone, Copy, PartialEq, Eq, Structural)]
pub enum Platform {
    Windows,
    Linux,
    MacOs,
    Other,
}

/// The name of the system, as it is shown.
pub open spec fn system_label(platform: Platform) -> Seq<char> {
    match platform {
        Platform::Windows => "⊞ Windows"@,
        Platform::Linux => "🐧 Linux"@,
        Platform::MacOs => "\u{f8ff} macOS"@,
        Platform::Other => "• Unknown"@,
    }
}

/// The name of the system, as it is shown.
pub fn detected_system_label(platform: Platform) -> (r: &'static str)
    ensures
        r@ == system_label(platform),
{
    match platform {
        Platform::Windows => "⊞ Windows",
        Platform::Linux => "🐧 Linux",
        Platform::MacOs => "\u{f8ff} macOS",
        Platform::Other => "• Unknown",
    }
}

/// Paths by their characters.
pub open spec fn path_views(v: Seq<HostPath>) -> Seq<PathView> {
    Seq::new(v.len(), |i: int| v[i]@)
}

// ---------------------------------------------------------------------------
// Steam
// ---------------------------------------------------------------------------

/// Where Steam may be installed, outside Windows, for a user with this home
/// folder, in the order in which to look.
pub open spec fn steam_places(platform: Platform, home: Seq<char>) -> Seq<PathView> {
    match platform {
        Platform::Linux => seq![
            PathView::of(home + "/.steam/steam"@),
            PathView::of(home + "/.local/share/Steam"@),
            PathView::of("/usr/share/steam"@),
        ],
        Platform::MacOs => seq![PathView::of(home + "/Library/Application Support/Steam"@)],
        _ => Seq::empty(),
    }
}

/// Where Steam may be installed, outside Windows.
pub fn steam_candidates(platform: Platform, home: &str) -> (r: Vec<HostPath>)
    ensures
        path_views(r@) == steam_places(platform, home@),
{
    let mut out: Vec<HostPath> = Vec::new();
    match platform {
        Platform::Linux => {
            out.push(HostPath::new(concat(home, "/.steam/steam").as_str()));
            out.push(HostPath::new(concat(home, "/.local/share/Steam").as_str()));
            out.push(HostPath::new("/usr/share/steam"));
        },
        Platform::MacOs => {
            out.push(
                HostPath::new(concat(home, "/Library/Application Support/Steam").as_str()),
            );
        },
        _ => {},
    }
    assert(path_views(out@) =~= steam_places(platform, home@));
    out
}

/// The first of the paths that is marked as existing.
pub open spec fn first_existing(paths: Seq<PathView>, exists: Seq<bool>) -> Option<PathView>
    decreases paths.len(),
{
    if paths.len() == 0 || exists.len() == 0 {
        None
    } else if exists[0] {
        Some(paths[0])
    } else {
        first_existing(paths.drop_first(), exists.drop_first())
    }
}

/// Where Steam is, outside Windows. `exists` says of each place in
/// [`steam_candidates`] whether it exists.
pub fn find_steam_path(platform: Platform, home: Option<&str>, exists: &Vec<bool>) -> (r: Result<
    HostPath,
    AppError,
>)
    requires
        home matches Some(h) ==> exists@.len() == steam_places(platform, h@).len(),
    ensures
        match home {
            None => r matches Err(e) && e@ == ErrorView::Other("Could not get HOME directory"@),
            Some(h) => match first_existing(steam_places(platform, h@), exists@) {
                Some(place) => r matches Ok(path) && path@ == place,
                None => r matches Err(e) && e@ == ErrorView::Other(
                    "Could not find Steam installation directory"@,
                ),
            },
        },
{
    match home {
        None => Err(AppError::Other("Could not get HOME directory".to_string())),
        Some(h) => {
            let places = steam_candidates(platform, h);
            let ghost all = path_views(places@);
            assert(all.len() == places@.len());
            let mut i: usize = 0;
            assert(all.skip(0) == all);
            assert(exists@.skip(0) == exists@);
            while i < places.len()
                invariant
                    home == Some(h),
                    all == steam_places(platform, h@),
                    all == path_views(places@),
                    places@.len() == exists@.len(),
                    i <= places@.len(),
                    first_existing(all, exists@) == first_existing(
                        all.skip(i as int),
                        exists@.skip(i as int),
                    ),
                decreases places@.len() - i,
            {
                assert(all.skip(i as int)[0] == places@[i as int]@);
                if exists[i] {
                    return Ok(places[i].copy());
                }
                assert(all.skip(i as int).drop_first() == all.skip(i + 1));
                assert(exists@.skip(i as int).drop_first() == exists@.skip(i + 1));
                i += 1;
            }
            Err(AppError::Other("Could not find Steam installation directory".to_string()))
        },
    }
}

/// What the registry of Windows says about Steam.
#[derive(Debug)]
pub enum SteamKey {
    /// Neither of the keys can be opened; why the second cannot.
    Missing(String),
    /// The key has no installation path that can be read; why.
    Unreadable(String),
    /// The installation path.
    InstallPath(String),
}

/// The keys under the machine's part of the registry that may hold Steam's
/// installation path, in the order in which to look.
pub fn steam_keys() -> (r: Vec<String>)
    ensures
        texts(r@) == seq!["SOFTWARE\\WOW6432Node\\Valve\\Steam"@, "SOFTWARE\\Valve\\Steam"@],
{
    let mut out: Vec<String> = Vec::new();
    out.push("SOFTWARE\\WOW6432Node\\Valve\\Steam".to_string());
    out.push("SOFTWARE\\Valve\\Steam".to_string());
    assert(texts(out@) =~= seq![
        "SOFTWARE\\WOW6432Node\\Valve\\Steam"@,
        "SOFTWARE\\Valve\\Steam"@,
    ]);
    out
}

/// Where Steam is on Windows.
pub fn find_steam_path_in_registry(key: SteamKey) -> (r: Result<HostPath, AppError>)
    ensures
        match key {
            SteamKey::Missing(e) => r matches Err(err) && err@ == ErrorView::Other(
                "Could not find Steam registry key: "@ + e@,
            ),
            SteamKey::Unreadable(e) => r matches Err(err) && err@ == ErrorView::Other(
                "Could not read Steam installation path: "@ + e@,
            ),
            SteamKey::InstallPath(path) => r matches Ok(p) && p@ == PathView::of(path@),
        },
{
    match key {
        SteamKey::Missing(e) => Err(
            AppError::other("Could not find Steam registry key: ", e.as_str()),
        ),
        SteamKey::Unreadable(e) => Err(
            AppError::other("Could not read Steam installation path: ", e.as_str()),
        ),
        SteamKey::InstallPath(path) => Ok(HostPath::new(path.as_str())),
    }
}

// ---------------------------------------------------------------------------
// The search for the game
// ---------------------------------------------------------------------------

/// One thing to look into in the search for the game.
#[derive(Debug)]
pub enum Probe {
    /// The game is here if this path exists.
    Place(HostPath),
    /// This file lists Steam's library folders.
    LibraryList(HostPath),
    /// This library folder may hold the game.
    Library(String),
    /// This registry key may hold the game's location.
    Registry(String),
}

/// A [`Probe`] by its characters.
#[verifier::ext_equal]
pub enum ProbeView {
    Place(PathView),
    LibraryList(PathView),
    Library(Seq<char>),
    Registry(Seq<char>),
}

impl View for Probe {
    type V = ProbeView;

    open spec fn view(&self) -> ProbeView {
        match *self {
            Probe::Place(p) => ProbeView::Place(p@),
            Probe::LibraryList(p) => ProbeView::LibraryList(p@),
            Probe::Library(d) => ProbeView::Library(d@),
            Probe::Registry(k) => ProbeView::Registry(k@),
        }
    }
}

/// Probes by their characters.
pub open spec fn probe_views(v: Seq<Probe>) -> Seq<ProbeView> {
    Seq::new(v.len(), |i: int| v[i]@)
}

/// Where a search stands.
#[derive(Debug)]
pub enum Stage {
    /// It waits for the first answer about a probe.
    Asking(Probe),
    /// It waits for the text of a list of library folders that exists.
    Reading(HostPath),
    /// It found the game.
    Found(HostPath),
    /// It found nothing.
    NotFound,
}

/// A [`Stage`] by its characters.
#[verifier::ext_equal]
pub enum StageView {
    Asking(ProbeView),
    Reading(PathView),
    Found(PathView),
    NotFound,
}

impl View for Stage {
    type V = StageView;

    open spec fn view(&self) -> StageView {
        match *self {
            Stage::Asking(p) => StageView::Asking(p@),
            Stage::Reading(p) => StageView::Reading(p@),
            Stage::Found(p) => StageView::Found(p@),
            Stage::NotFound => StageView::NotFound,
        }
    }
}

/// A search for the game: where it stands, and what is left to look into.
#[derive(Debug)]
pub struct GameSearch {
    platform: Platform,
    stage: Stage,
    rest: Vec<Probe>,
}

/// A [`GameSearch`] by its characters.
#[verifier::ext_equal]
pub struct SearchView {
    pub platform: Platform,
    pub stage: StageView,
    pub rest: Seq<ProbeView>,
}

impl View for GameSearch {
    type V = SearchView;

    closed spec fn view(&self) -> SearchView {
        SearchView {
            platform: self.platform,
            stage: self.stage@,
            rest: probe_views(self.rest@),
        }
    }
}

/// What a search wants to know next, or what it came to.
#[derive(Debug)]
pub enum Question {
    /// Does this path exist?
    Exists(HostPath),
    /// What text does this file hold?
    ReadFile(HostPath),
    /// What location does this registry key hold?
    ReadRegistry(String),
    /// The game is here.
    Found(HostPath),
    /// The game is nowhere.
    NotFound,
}

/// A [`Question`] by its characters.
#[verifier::ext_equal]
pub enum QuestionView {
    Exists(PathView),
    ReadFile(PathView),
    ReadRegistry(Seq<char>),
    Found(PathView),
    NotFound,
}

impl View for Question {
    type V = QuestionView;

    open spec fn view(&self) -> QuestionView {
        match *self {
            Question::Exists(p) => QuestionView::Exists(p@),
            Question::ReadFile(p) => QuestionView::ReadFile(p@),
            Question::ReadRegistry(k) => QuestionView::ReadRegistry(k@),
            Question::Found(p) => QuestionView::Found(p@),
            Question::NotFound => QuestionView::NotFound,
        }
    }
}

/// The game's folder below a Steam folder whose folder for applications has
/// this name.
pub open spec fn game_below(steam: PathView, apps: Seq<char>) -> PathView {
    steam.join(apps).join("common"@).join("Limbus Company"@)
}

/// Where the game may be in a library folder, in the order in which to look.
pub open spec fn library_places(platform: Platform, dir: Seq<char>) -> Seq<ProbeView> {
    let usual = ProbeView::Place(game_below(PathView::of(dir), "steamapps"@));
    if platform == Platform::Windows {
        seq![usual, ProbeView::Place(game_below(PathView::of(dir), "SteamApps"@))]
    } else {
        seq![usual]
    }
}

/// What to look into, given where Steam is, in order.
pub open spec fn search_plan(platform: Platform, steam: PathView) -> Seq<ProbeView> {
    let usual = seq![
        ProbeView::Place(game_below(steam, "steamapps"@)),
        ProbeView::LibraryList(steam.join("steamapps"@).join("libraryfolders.vdf"@)),
    ];
    if platform == Platform::Windows {
        usual + seq![
            ProbeView::Registry(
                "SOFTWARE\\Microsoft\\Windows\\CurrentVersion\\Uninstall\\Steam App 1973530"@,
            ),
            ProbeView::Registry(
                "SOFTWARE\\WOW6432Node\\Microsoft\\Windows\\CurrentVersion\\Uninstall\\Steam App 1973530"@,
            ),
            ProbeView::Place(
                PathView::of(
                    "C:\\Program Files (x86)\\Steam\\steamapps\\common\\Limbus Company"@,
                ),
            ),
            ProbeView::Place(
                PathView::of("C:\\Program Files\\Steam\\steamapps\\common\\Limbus Company"@),
            ),
            ProbeView::Place(PathView::of("D:\\Steam\\steamapps\\common\\Limbus Company"@)),
            ProbeView::Place(PathView::of("E:\\Steam\\steamapps\\common\\Limbus Company"@)),
        ]
    } else {
        usual
    }
}

impl SearchView {
    /// The search that begins with nothing but things to look into.
    pub open spec fn advanced(self) -> SearchView {
        if self.rest.len() == 0 {
            SearchView { stage: StageView::NotFound, ..self }
        } else {
            SearchView {
                stage: StageView::Asking(self.rest[0]),
                rest: self.rest.drop_first(),
                ..self
            }
        }
    }

    /// The search with more to look into first.
    pub open spec fn with_first(self, more: Seq<ProbeView>) -> SearchView {
        SearchView { rest: more + self.rest, ..self }
    }

    /// What the search wants to know, or what it came to.
    pub open spec fn question(self) -> QuestionView {
        match self.stage {
            StageView::Asking(ProbeView::Place(p)) => QuestionView::Exists(p),
            StageView::Asking(ProbeView::LibraryList(p)) => QuestionView::Exists(p),
            StageView::Asking(ProbeView::Library(d)) => QuestionView::Exists(PathView::of(d)),
            StageView::Asking(ProbeView::Registry(k)) => QuestionView::ReadRegistry(k),
            StageView::Reading(p) => QuestionView::ReadFile(p),
            StageView::Found(p) => QuestionView::Found(p),
            StageView::NotFound => QuestionView::NotFound,
        }
    }

    /// The search once it knows whether the path that it asked about exists.
    pub open spec fn after_exists(self, yes: bool) -> SearchView {
        match self.stage {
            StageView::Asking(ProbeView::Place(p)) if yes => SearchView {
                stage: StageView::Found(p),
                ..self
            },
            StageView::Asking(ProbeView::LibraryList(p)) if yes => SearchView {
                stage: StageView::Reading(p),
                ..self
            },
            StageView::Asking(ProbeView::Library(d)) if yes => self.with_first(
                library_places(self.platform, d),
            ).advanced(),
            _ => self.advanced(),
        }
    }

    /// The search once it knows the text that it asked for, if there is one.
    pub open spec fn after_text(self, text: Option<Seq<char>>) -> SearchView {
        match (self.stage, text) {
            (StageView::Reading(_), Some(content)) => self.with_first(
                library_folders(content).map_values(|d: Seq<char>| ProbeView::Library(d)),
            ).advanced(),
            (StageView::Asking(_), Some(location)) => SearchView {
                stage: StageView::Asking(ProbeView::Place(PathView::of(location))),
                ..self
            },
            _ => self.advanced(),
        }
    }
}

/// A search that has not asked anything yet.
fn ready(platform: Platform, rest: Vec<Probe>) -> (r: GameSearch)
    ensures
        r@ == (SearchView {
            platform,
            stage: StageView::NotFound,
            rest: probe_views(rest@),
        }).advanced(),
{
    let mut search = GameSearch { platform, stage: Stage::NotFound, rest };
    search.advance();
    search
}

/// The game's folder below a Steam folder.
fn game_folder(steam: &HostPath, apps: &str) -> (r: HostPath)
    ensures
        r@ == game_below(steam@, apps@),
{
    steam.join(apps).join("common").join("Limbus Company")
}

impl GameSearch {
    /// Goes on to the next thing to look into.
    fn advance(&mut self)
        ensures
            final(self)@ == old(self)@.advanced(),
    {
        if self.rest.len() == 0 {
            self.stage = Stage::NotFound;
        } else {
            let ghost had = probe_views(self.rest@);
            let probe = self.rest.remove(0);
            assert(probe_views(self.rest@) == had.drop_first());
            self.stage = Stage::Asking(probe);
        }
    }

    /// Puts more to look into first.
    fn put_first(&mut self, more: Vec<Probe>)
        ensures
            final(self)@ == old(self)@.with_first(probe_views(more@)),
    {
        let ghost had = probe_views(self.rest@);
        let ghost front = probe_views(more@);
        let mut all = more;
        all.append(&mut self.rest);
        assert(probe_views(all@) == front + had);
        self.rest = all;
    }

    /// What the search wants to know next, or what it came to.
    pub fn question(&self) -> (r: Question)
        ensures
            r@ == self@.question(),
    {
        match &self.stage {
            Stage::Asking(Probe::Place(p)) => Question::Exists(p.copy()),
            Stage::Asking(Probe::LibraryList(p)) => Question::Exists(p.copy()),
            Stage::Asking(Probe::Library(d)) => Question::Exists(HostPath::new(d.as_str())),
            Stage::Asking(Probe::Registry(k)) => Question::ReadRegistry(
                k.as_str().to_string(),
            ),
            Stage::Reading(p) => Question::ReadFile(p.copy()),
            Stage::Found(p) => Question::Found(p.copy()),
            Stage::NotFound => Question::NotFound,
        }
    }

    /// Goes on, knowing whether the path that it asked about exists.
    pub fn answer_exists(&mut self, yes: bool)
        requires
            old(self)@.question() is Exists,
        ensures
            final(self)@ == old(self)@.after_exists(yes),
    {
        if !yes {
            self.advance();
            return;
        }
        let mut stage = Stage::NotFound;
        std::mem::swap(&mut stage, &mut self.stage);
        match stage {
            Stage::Asking(Probe::Place(p)) => {
                self.stage = Stage::Found(p);
            },
            Stage::Asking(Probe::LibraryList(p)) => {
                self.stage = Stage::Reading(p);
            },
            Stage::Asking(Probe::Library(d)) => {
                let dir = HostPath::new(d.as_str());
                let mut more: Vec<Probe> = Vec::new();
                more.push(Probe::Place(game_folder(&dir, "steamapps")));
                if self.platform == Platform::Windows {
                    more.push(Probe::Place(game_folder(&dir, "SteamApps")));
                }
                assert(probe_views(more@) == library_places(self.platform, d@));
                self.put_first(more);
                self.advance();
            },
            _ => {
                self.advance();
            },
        }
    }

    /// Goes on, knowing the text of the file or the location in the registry
    /// that it asked for, if there is one.
    pub fn answer_text(&mut self, text: Option<String>)
        requires
            old(self)@.question() is ReadFile || old(self)@.question() is ReadRegistry,
        ensures
            final(self)@ == old(self)@.after_text(opt_text(text)),
    {
        match text {
            None => {
                self.advance();
            },
            Some(content) => {
                let reading = match &self.stage {
                    Stage::Reading(_) => true,
                    _ => false,
                };
                if reading {
                    let folders = parse_library_paths(content.as_str());
                    let ghost all = texts(folders@);
                    let ghost f = |d: Seq<char>| ProbeView::Library(d);
                    let mut more: Vec<Probe> = Vec::new();
                    let mut i: usize = 0;
                    while i < folders.len()
                        invariant
                            all == texts(folders@),
                            f == |d: Seq<char>| ProbeView::Library(d),
                            i <= folders@.len(),
                            probe_views(more@) == all.take(i as int).map_values(f),
                        decreases folders@.len() - i,
                    {
                        let ghost had = probe_views(more@);
                        let folder = folders[i].as_str().to_string();
                        more.push(Probe::Library(folder));
                        assert(probe_views(more@) == had.push(f(folder@)));
                        assert(all.take(i + 1).map_values(f) == all.take(i as int).map_values(
                            f,
                        ).push(f(all[i as int])));
                        i += 1;
                    }
                    assert(all.take(i as int) == all);
                    self.put_first(more);
                    self.advance();
                } else {
                    self.stage = Stage::Asking(Probe::Place(HostPath::new(content.as_str())));
                }
            },
        }
    }
}

/// The search for the game, once Steam has been looked for.
pub fn find_limbus_company_path(platform: Platform, steam: Result<HostPath, AppError>) -> (r:
    Result<GameSearch, AppError>)
    ensures
        match steam {
            Ok(path) => r matches Ok(search) && search@ == (SearchView {
                platform,
                stage: StageView::NotFound,
                rest: search_plan(platform, path@),
            }).advanced(),
            Err(e) => r matches Err(err) && err == e,
        },
{
    let steam = match steam {
        Ok(path) => path,
        Err(e) => {
            return Err(e);
        },
    };
    let mut rest: Vec<Probe> = Vec::new();
    rest.push(Probe::Place(game_folder(&steam, "steamapps")));
    rest.push(Probe::LibraryList(steam.join("steamapps").join("libraryfolders.vdf")));
    if platform == Platform::Windows {
        rest.push(
            Probe::Registry(
                "SOFTWARE\\Microsoft\\Windows\\CurrentVersion\\Uninstall\\Steam App 1973530".to_string(),
            ),
        );
        rest.push(
            Probe::Registry(
                "SOFTWARE\\WOW6432Node\\Microsoft\\Windows\\CurrentVersion\\Uninstall\\Steam App 1973530".to_string(),
            ),
        );
        rest.push(
            Probe::Place(
                HostPath::new("C:\\Program Files (x86)\\Steam\\steamapps\\common\\Limbus Company"),
            ),
        );
        rest.push(
            Probe::Place(
                HostPath::new("C:\\Program Files\\Steam\\steamapps\\common\\Limbus Company"),
            ),
        );
        rest.push(
            Probe::Place(HostPath::new("D:\\Steam\\steamapps\\common\\Limbus Company")),
        );
        rest.push(
            Probe::Place(HostPath::new("E:\\Steam\\steamapps\\common\\Limbus Company")),
        );
    }
    assert(probe_views(rest@) == search_plan(platform, steam@));
    Ok(ready(platform, rest))
}

// ---------------------------------------------------------------------------
// What the search comes to
// ---------------------------------------------------------------------------

/// A machine, as far as a search asks about it.
pub struct Machine {
    /// Whether a path exists.
    pub exists: spec_fn(PathView) -> bool,
    /// The text of a file, if it can be read.
    pub file: spec_fn(PathView) -> Option<Seq<char>>,
    /// The location that a registry key holds, if it holds one.
    pub registry: spec_fn(Seq<char>) -> Option<Seq<char>>,
}

impl Machine {
    /// The first of the places that exists.
    pub open spec fn first_place(self, places: Seq<ProbeView>) -> Option<PathView>
        decreases places.len(),
    {
        if places.len() == 0 {
            None
        } else {
            match places[0] {
                ProbeView::Place(p) if (self.exists)(p) => Some(p),
                _ => self.first_place(places.drop_first()),
            }
        }
    }

    /// Where the game is in the first of the library folders that has it.
    pub open spec fn in_libraries(self, platform: Platform, dirs: Seq<Seq<char>>) -> Option<
        PathView,
    >
        decreases dirs.len(),
    {
        if dirs.len() == 0 {
            None
        } else {
            let here = if (self.exists)(PathView::of(dirs[0])) {
                self.first_place(library_places(platform, dirs[0]))
            } else {
                None
            };
            if here is Some {
                here
            } else {
                self.in_libraries(platform, dirs.drop_first())
            }
        }
    }

    /// Where one probe finds the game, if it does.
    pub open spec fn hit(self, platform: Platform, probe: ProbeView) -> Option<PathView> {
        match probe {
            ProbeView::Place(p) => if (self.exists)(p) {
                Some(p)
            } else {
                None
            },
            ProbeView::LibraryList(p) => match (self.file)(p) {
                Some(content) if (self.exists)(p) => self.in_libraries(
                    platform,
                    library_folders(content),
                ),
                _ => None,
            },
            ProbeView::Library(d) => self.in_libraries(platform, seq![d]),
            ProbeView::Registry(k) => match (self.registry)(k) {
                Some(location) if (self.exists)(PathView::of(location)) => Some(
                    PathView::of(location),
                ),
                _ => None,
            },
        }
    }

    /// Where the first probe that finds the game finds it.
    pub open spec fn first_hit(self, platform: Platform, probes: Seq<ProbeView>) -> Option<PathView>
        decreases probes.len(),
    {
        if probes.len() == 0 {
            None
        } else if self.hit(platform, probes[0]) is Some {
            self.hit(platform, probes[0])
        } else {
            self.first_hit(platform, probes.drop_first())
        }
    }

    /// What a search comes to on this machine.
    pub open spec fn outcome(self, search: SearchView) -> Option<PathView> {
        let rest = self.first_hit(search.platform, search.rest);
        match search.stage {
            StageView::Asking(probe) => if self.hit(search.platform, probe) is Some {
                self.hit(search.platform, probe)
            } else {
                rest
            },
            StageView::Reading(p) => {
                let here = match (self.file)(p) {
                    Some(content) => self.in_libraries(search.platform, library_folders(content)),
                    None => None,
                };
                if here is Some {
                    here
                } else {
                    rest
                }
            },
            StageView::Found(p) => Some(p),
            StageView::NotFound => None,
        }
    }

    /// What the machine answers to a question about existence.
    pub open spec fn says_exists(self, question: QuestionView) -> bool {
        question matches QuestionView::Exists(p) && (self.exists)(p)
    }

    /// What the machine answers to a question for text.
    pub open spec fn says_text(self, question: QuestionView) -> Option<Seq<char>> {
        match question {
            QuestionView::ReadFile(p) => (self.file)(p),
            QuestionView::ReadRegistry(k) => (self.registry)(k),
            _ => None,
        }
    }

    /// Going on to the next probe leaves out nothing but the stage.
    proof fn lemma_advanced(self, search: SearchView)
        ensures
            self.outcome(search.advanced()) == self.first_hit(search.platform, search.rest),
    {
    }

    /// Probes in front are looked into before the others.
    proof fn lemma_first_hit_concat(
        self,
        platform: Platform,
        a: Seq<ProbeView>,
        b: Seq<ProbeView>,
    )
        ensures
            self.first_hit(platform, a + b) == (if self.first_hit(platform, a) is Some {
                self.first_hit(platform, a)
            } else {
                self.first_hit(platform, b)
            }),
        decreases a.len(),
    {
        if a.len() == 0 {
            assert(a + b == b);
        } else {
            assert((a + b)[0] == a[0]);
            assert((a + b).drop_first() == a.drop_first() + b);
            self.lemma_first_hit_concat(platform, a.drop_first(), b);
        }
    }

    /// Looking into the places of a library folder one by one finds the first
    /// that exists.
    proof fn lemma_places(self, platform: Platform, places: Seq<ProbeView>)
        requires
            forall|i: int| 0 <= i < places.len() ==> #[trigger] places[i] is Place,
        ensures
            self.first_hit(platform, places) == self.first_place(places),
        decreases places.len(),
    {
        if places.len() > 0 {
            self.lemma_places(platform, places.drop_first());
            assert(places[0] is Place);
        }
    }

    /// Looking into library folders one by one finds the first that has the
    /// game.
    proof fn lemma_libraries(self, platform: Platform, dirs: Seq<Seq<char>>)
        ensures
            self.first_hit(platform, dirs.map_values(|d: Seq<char>| ProbeView::Library(d)))
                == self.in_libraries(platform, dirs),
        decreases dirs.len(),
    {
        let f = |d: Seq<char>| ProbeView::Library(d);
        if dirs.len() > 0 {
            self.lemma_libraries(platform, dirs.drop_first());
            assert(dirs.map_values(f).drop_first() == dirs.drop_first().map_values(f));
            let one = seq![dirs[0]];
            assert(one.drop_first() == Seq::<Seq<char>>::empty());
            reveal_with_fuel(Machine::in_libraries, 2);
        }
    }
}

/// On every machine, a true answer about existence leaves what the search
/// comes to as it was.
pub proof fn law_answer_exists_keeps_outcome(search: SearchView, machine: Machine)
    requires
        search.question() is Exists,
    ensures
        machine.outcome(search.after_exists(machine.says_exists(search.question())))
            == machine.outcome(search),
{
    let yes = machine.says_exists(search.question());
    machine.lemma_advanced(search);
    if let StageView::Asking(ProbeView::Library(d)) = search.stage {
        let places = library_places(search.platform, d);
        machine.lemma_places(search.platform, places);
        machine.lemma_first_hit_concat(search.platform, places, search.rest);
        machine.lemma_advanced(search.with_first(places));
        assert(seq![d].drop_first() == Seq::<Seq<char>>::empty());
        reveal_with_fuel(Machine::in_libraries, 2);
    }
}

/// On every machine, a true answer with text leaves what the search comes to
/// as it was.
pub proof fn law_answer_text_keeps_outcome(search: SearchView, machine: Machine)
    requires
        search.question() is ReadFile || search.question() is ReadRegistry,
    ensures
        machine.outcome(search.after_text(machine.says_text(search.question())))
            == machine.outcome(search),
{
    machine.lemma_advanced(search);
    if let StageView::Reading(p) = search.stage {
        if let Some(content) = (machine.file)(p) {
            let dirs = library_folders(content);
            let more = dirs.map_values(|d: Seq<char>| ProbeView::Library(d));
            machine.lemma_libraries(search.platform, dirs);
            machine.lemma_first_hit_concat(search.platform, more, search.rest);
            machine.lemma_advanced(search.with_first(more));
        }
    }
}

impl SearchView {
    /// How many lists of library folders are still to be read.
    pub open spec fn lists_left(self) -> nat {
        let here: nat = match self.stage {
            StageView::Asking(ProbeView::LibraryList(_)) => 1,
            StageView::Reading(_) => 1,
            _ => 0,
        };
        here + self.rest.filter(|p: ProbeView| p is LibraryList).len()
    }

    /// How many more answers the search takes at most, apart from what lists
    /// of library folders bring.
    pub open spec fn answers_left(self) -> nat {
        let here: nat = match self.stage {
            StageView::Asking(probe) => probe_cost(probe),
            StageView::Reading(_) => 1,
            _ => 0,
        };
        here + total_cost(self.rest)
    }
}

/// How many answers a probe takes at most.
pub open spec fn probe_cost(probe: ProbeView) -> nat {
    match probe {
        ProbeView::Place(_) => 1,
        ProbeView::LibraryList(_) => 2,
        ProbeView::Library(_) => 3,
        ProbeView::Registry(_) => 2,
    }
}

/// How many answers probes take together at most.
pub open spec fn total_cost(probes: Seq<ProbeView>) -> nat
    decreases probes.len(),
{
    if probes.len() == 0 {
        0
    } else {
        probe_cost(probes[0]) + total_cost(probes.drop_first())
    }
}

proof fn lemma_total_cost_concat(a: Seq<ProbeView>, b: Seq<ProbeView>)
    ensures
        total_cost(a + b) == total_cost(a) + total_cost(b),
    decreases a.len(),
{
    if a.len() == 0 {
        assert(a + b == b);
    } else {
        assert((a + b).drop_first() == a.drop_first() + b);
        lemma_total_cost_concat(a.drop_first(), b);
    }
}

proof fn lemma_lists_concat(a: Seq<ProbeView>, b: Seq<ProbeView>)
    requires
        forall|i: int| 0 <= i < a.len() ==> !(#[trigger] a[i] is LibraryList),
    ensures
        (a + b).filter(|p: ProbeView| p is LibraryList) == b.filter(
            |p: ProbeView| p is LibraryList,
        ),
    decreases b.len(),
{
    reveal(Seq::filter);
    let f = |p: ProbeView| p is LibraryList;
    if b.len() > 0 {
        assert((a + b).drop_last() == a + b.drop_last());
        lemma_lists_concat(a, b.drop_last());
    } else {
        assert(a + b == a);
        lemma_no_lists(a);
    }
}

proof fn lemma_no_lists(a: Seq<ProbeView>)
    requires
        forall|i: int| 0 <= i < a.len() ==> !(#[trigger] a[i] is LibraryList),
    ensures
        a.filter(|p: ProbeView| p is LibraryList) == Seq::<ProbeView>::empty(),
    decreases a.len(),
{
    reveal(Seq::filter);
    if a.len() > 0 {
        assert(a.last() == a[a.len() - 1]);
        lemma_no_lists(a.drop_last());
    }
}

/// Taking the first probe out takes it out of the count of lists.
proof fn lemma_lists_first(rest: Seq<ProbeView>)
    requires
        rest.len() > 0,
    ensures
        rest.filter(|p: ProbeView| p is LibraryList).len() == (if rest[0] is LibraryList {
            1nat
        } else {
            0
        }) + rest.drop_first().filter(|p: ProbeView| p is LibraryList).len(),
    decreases rest.len(),
{
    reveal(Seq::filter);
    let f = |p: ProbeView| p is LibraryList;
    if rest.len() == 1 {
        assert(rest.drop_last() == Seq::<ProbeView>::empty());
        assert(rest.drop_first() == Seq::<ProbeView>::empty());
    } else {
        lemma_lists_first(rest.drop_last());
        assert(rest.drop_first().drop_last() == rest.drop_last().drop_first());
        assert(rest.drop_first().last() == rest.last());
    }
}

/// Going on to the next probe leaves as much to answer as the rest does.
proof fn lemma_advanced_left(search: SearchView)
    ensures
        search.advanced().lists_left() == search.rest.filter(
            |p: ProbeView| p is LibraryList,
        ).len(),
        search.advanced().answers_left() == total_cost(search.rest),
{
    reveal(Seq::filter);
    if search.rest.len() > 0 {
        lemma_lists_first(search.rest);
    }
}

/// Every search ends: each answer leaves fewer lists to read, or as many and
/// fewer answers to give.
pub proof fn law_search_ends(search: SearchView, yes: bool, text: Option<Seq<char>>)
    ensures
        search.question() is Exists ==> {
            let after = search.after_exists(yes);
            ||| after.lists_left() < search.lists_left()
            ||| after.lists_left() == search.lists_left() && after.answers_left()
                < search.answers_left()
        },
        search.question() is ReadFile || search.question() is ReadRegistry ==> {
            let after = search.after_text(text);
            ||| after.lists_left() < search.lists_left()
            ||| after.lists_left() == search.lists_left() && after.answers_left()
                < search.answers_left()
        },
{
    lemma_advanced_left(search);
    match search.stage {
        StageView::Asking(ProbeView::Library(d)) => {
            let places = library_places(search.platform, d);
            lemma_advanced_left(search.with_first(places));
            lemma_total_cost_concat(places, search.rest);
            lemma_lists_concat(places, search.rest);
            reveal_with_fuel(total_cost, 3);
            if search.platform == Platform::Windows {
                assert(places.drop_first().drop_first() == Seq::<ProbeView>::empty());
            } else {
                assert(places.drop_first() == Seq::<ProbeView>::empty());
            }
        },
        StageView::Reading(_) => {
            if let Some(content) = text {
                let more = library_folders(content).map_values(
                    |d: Seq<char>| ProbeView::Library(d),
                );
                lemma_advanced_left(search.with_first(more));
                lemma_lists_concat(more, search.rest);
            }
        },
        _ => {},
    }
}

/// The search once every question was answered truly on a machine.
pub open spec fn searched(search: SearchView, machine: Machine) -> SearchView
    decreases search.lists_left(), search.answers_left(),
    via searched_decreases
{
    match search.question() {
        QuestionView::Exists(_) => searched(
            search.after_exists(machine.says_exists(search.question())),
            machine,
        ),
        QuestionView::ReadFile(_) => searched(
            search.after_text(machine.says_text(search.question())),
            machine,
        ),
        QuestionView::ReadRegistry(_) => searched(
            search.after_text(machine.says_text(search.question())),
            machine,
        ),
        _ => search,
    }
}

#[via_fn]
proof fn searched_decreases(search: SearchView, machine: Machine) {
    law_search_ends(
        search,
        machine.says_exists(search.question()),
        machine.says_text(search.question()),
    );
}

/// What a question says where the search is over.
pub open spec fn final_word(outcome: Option<PathView>) -> QuestionView {
    match outcome {
        Some(path) => QuestionView::Found(path),
        None => QuestionView::NotFound,
    }
}

proof fn lemma_search_comes_to_its_outcome(search: SearchView, machine: Machine)
    ensures
        searched(search, machine).question() == final_word(machine.outcome(search)),
    decreases search.lists_left(), search.answers_left(),
{
    let yes = machine.says_exists(search.question());
    let text = machine.says_text(search.question());
    law_search_ends(search, yes, text);
    if search.question() is Exists {
        law_answer_exists_keeps_outcome(search, machine);
        lemma_search_comes_to_its_outcome(search.after_exists(yes), machine);
    } else if search.question() is ReadFile || search.question() is ReadRegistry {
        law_answer_text_keeps_outcome(search, machine);
        lemma_search_comes_to_its_outcome(search.after_text(text), machine);
    }
}

/// On every machine, a search whose questions are answered truly finds the game
/// at the first place of the plan that has it, and finds nothing just if no
/// place of the plan has it.
pub proof fn law_search_finds_the_first_place(
    platform: Platform,
    steam: PathView,
    machine: Machine,
)
    ensures
        ({
            let begun = (SearchView {
                platform,
                stage: StageView::NotFound,
                rest: search_plan(platform, steam),
            }).advanced();
            searched(begun, machine).question() == final_word(
                machine.first_hit(platform, search_plan(platform, steam)),
            )
        }),
{
    let ready = SearchView {
        platform,
        stage: StageView::NotFound,
        rest: search_plan(platform, steam),
    };
    machine.lemma_advanced(ready);
    lemma_search_comes_to_its_outcome(ready.advanced(), machine);
}

// ---------------------------------------------------------------------------
// The language folder
// ---------------------------------------------------------------------------

/// The game's folder for languages.
pub open spec fn lang_folder_of(game: PathView) -> PathView {
    game.join("LimbusCompany_Data"@).join("Lang"@)
}

/// The game's folder for languages.
pub fn lang_folder(game: &HostPath) -> (r: HostPath)
    ensures
        r@ == lang_folder_of(game@),
{
    game.join("LimbusCompany_Data").join("Lang")
}

/// The folder for the converted texts in the folder for languages.
pub fn output_folder(lang: &HostPath) -> (r: HostPath)
    ensures
        r@ == lang@.join("LLC_zh-Hant"@),
{
    lang.join("LLC_zh-Hant")
}

/// The error for a search that found nothing.
pub fn game_not_found() -> (r: AppError)
    ensures
        r@ == ErrorView::Other("Could not find Limbus Company game directory"@),
{
    AppError::Other("Could not find Limbus Company game directory".to_string())
}

/// The game's folder for languages, once the game has been looked for and the
/// folder has been made where it did not exist. `made` is what came of that:
/// the error where it could not be made.
pub fn get_lang_folder_path(game: Result<HostPath, AppError>, made: Result<(), String>) -> (r:
    Result<HostPath, AppError>)
    ensures
        match game {
            Err(e) => r matches Err(err) && err == e,
            Ok(path) => match made {
                Ok(_) => r matches Ok(folder) && folder@ == lang_folder_of(path@),
                Err(e) => r matches Err(err) && err@ == ErrorView::Other(
                    "Failed to create Lang folder: "@ + e@,
                ),
            },
        },
{
    match game {
        Err(e) => Err(e),
        Ok(path) => match made {
            Ok(_) => Ok(lang_folder(&path)),
            Err(e) => Err(AppError::other("Failed to create Lang folder: ", e.as_str())),
        },
    }
}

/// What is shown of the game's place.
#[derive(Debug)]
pub struct GamePathInfo {
    pub found: bool,
    pub game_path: Option<String>,
    pub output_path: Option<String>,
}

/// A [`GamePathInfo`] by its characters.
#[verifier::ext_equal]
pub struct GamePathView {
    pub found: bool,
    pub game_path: Option<Seq<char>>,
    pub output_path: Option<Seq<char>>,
}

impl View for GamePathInfo {
    type V = GamePathView;

    open spec fn view(&self) -> GamePathView {
        GamePathView {
            found: self.found,
            game_path: opt_text(self.game_path),
            output_path: opt_text(self.output_path),
        }
    }
}

/// What is shown of the game's place. Where the game was found, `paths` holds
/// its folder and the folder for the converted texts, as they are written on
/// the system.
pub fn detect_game_path_info(paths: Option<(String, String)>) -> (r: GamePathInfo)
    ensures
        r@ == (match paths {
            Some((game, output)) => GamePathView {
                found: true,
                game_path: Some(game@),
                output_path: Some(output@),
            },
            None => GamePathView { found: false, game_path: None, output_path: None },
        }),
{
    match paths {
        Some((game, output)) => GamePathInfo {
            found: true,
            game_path: Some(game),
            output_path: Some(output),
        },
        None => GamePathInfo { found: false, game_path: None, output_path: None },
    }
}

// ---------------------------------------------------------------------------
// What is where
// ---------------------------------------------------------------------------

proof fn lemma_first_existing_at(paths: Seq<PathView>, exists: Seq<bool>, i: int)
    requires
        paths.len() == exists.len(),
        0 <= i <= paths.len(),
        i < paths.len() ==> exists[i],
        forall|j: int| 0 <= j < i ==> !(#[trigger] exists[j]),
    ensures
        first_existing(paths, exists) == (if i < paths.len() {
            Some(paths[i])
        } else {
            None
        }),
    decreases paths.len(),
{
    if i > 0 {
        assert(!exists[0]);
        let rest = exists.drop_first();
        assert forall|j: int| 0 <= j < i - 1 implies !(#[trigger] rest[j]) by {
            assert(rest[j] == exists[j + 1]);
        }
        lemma_first_existing_at(paths.drop_first(), rest, i - 1);
    }
}

/// Steam is at the first of the places that exists, and at none where none does.
pub proof fn law_steam_is_at_the_first_place(paths: Seq<PathView>, exists: Seq<bool>, i: int)
    requires
        paths.len() == exists.len(),
        0 <= i <= paths.len(),
        forall|j: int| 0 <= j < i ==> !(#[trigger] exists[j]),
    ensures
        i < paths.len() && exists[i] ==> first_existing(paths, exists) == Some(paths[i]),
        i == paths.len() ==> first_existing(paths, exists) is None,
{
    if i == paths.len() || exists[i] {
        lemma_first_existing_at(paths, exists, i);
    }
}

/// Where Steam is looked for, outside Windows, by the system and the home folder.
pub proof fn law_steam_is_looked_for_at_home(home: Seq<char>)
    ensures
        ({
            let linux = steam_places(Platform::Linux, home);
            &&& linux.len() == 3
            &&& linux[0].base == home + "/.steam/steam"@ && linux[0].names.len() == 0
            &&& linux[1].base == home + "/.local/share/Steam"@ && linux[1].names.len() == 0
            &&& linux[2].base == "/usr/share/steam"@ && linux[2].names.len() == 0
        }),
        ({
            let mac = steam_places(Platform::MacOs, home);
            &&& mac.len() == 1
            &&& mac[0].base == home + "/Library/Application Support/Steam"@ && mac[0].names.len()
                == 0
        }),
        steam_places(Platform::Windows, home).len() == 0,
        steam_places(Platform::Other, home).len() == 0,
{
}

/// The name that each system is shown by.
pub proof fn law_systems_have_their_names()
    ensures
        system_label(Platform::Windows) == "⊞ Windows"@,
        system_label(Platform::Linux) == "🐧 Linux"@,
        system_label(Platform::MacOs) == "\u{f8ff} macOS"@,
        system_label(Platform::Other) == "• Unknown"@,
{
}

/// The game's folder for languages is two names below the game's folder.
pub proof fn law_languages_are_in_the_data_folder(game: PathView)
    ensures
        lang_folder_of(game).base == game.base,
        lang_folder_of(game).names == game.names + seq!["LimbusCompany_Data"@, "Lang"@],
{
}

/// The game's folder inside a folder of Steam.
pub open spec fn game_inside(folder: PathView, apps: Seq<char>) -> PathView {
    PathView {
        base: folder.base,
        names: folder.names + seq![apps, "common"@, "Limbus Company"@],
    }
}

impl Machine {
    /// A library folder exists and has the game. On Windows the folder for
    /// applications may be written either way.
    pub open spec fn has_game(self, platform: Platform, dir: Seq<char>) -> bool {
        &&& (self.exists)(PathView::of(dir))
        &&& {
            ||| (self.exists)(game_inside(PathView::of(dir), "steamapps"@))
            ||| platform == Platform::Windows && (self.exists)(
                game_inside(PathView::of(dir), "SteamApps"@),
            )
        }
    }

    /// Where a library folder that has the game has it.
    pub open spec fn game_in_library(self, dir: Seq<char>) -> PathView {
        if (self.exists)(game_inside(PathView::of(dir), "steamapps"@)) {
            game_inside(PathView::of(dir), "steamapps"@)
        } else {
            game_inside(PathView::of(dir), "SteamApps"@)
        }
    }

    proof fn lemma_library(self, platform: Platform, dir: Seq<char>)
        ensures
            (self.exists)(PathView::of(dir)) ==> self.first_place(library_places(platform, dir))
                == (if self.has_game(platform, dir) {
                Some(self.game_in_library(dir))
            } else {
                None
            }),
    {
        let of = PathView::of(dir);
        assert(game_below(of, "steamapps"@) == game_inside(of, "steamapps"@));
        assert(game_below(of, "SteamApps"@) == game_inside(of, "SteamApps"@));
        let places = library_places(platform, dir);
        reveal_with_fuel(Machine::first_place, 3);
        if platform == Platform::Windows {
            assert(places.drop_first().drop_first().len() == 0);
            assert(places.drop_first()[0] == places[1]);
        } else {
            assert(places.drop_first().len() == 0);
        }
    }

    proof fn lemma_in_libraries_at(self, platform: Platform, dirs: Seq<Seq<char>>, i: int)
        requires
            0 <= i <= dirs.len(),
            i < dirs.len() ==> self.has_game(platform, dirs[i]),
            forall|j: int| 0 <= j < i ==> !self.has_game(platform, #[trigger] dirs[j]),
        ensures
            self.in_libraries(platform, dirs) == (if i < dirs.len() {
                Some(self.game_in_library(dirs[i]))
            } else {
                None
            }),
        decreases dirs.len(),
    {
        if dirs.len() > 0 {
            self.lemma_library(platform, dirs[0]);
            if i > 0 {
                assert(!self.has_game(platform, dirs[0]));
                let rest = dirs.drop_first();
                assert forall|j: int| 0 <= j < i - 1 implies !self.has_game(
                    platform,
                    #[trigger] rest[j],
                ) by {
                    assert(rest[j] == dirs[j + 1]);
                }
                self.lemma_in_libraries_at(platform, rest, i - 1);
            }
        }
    }
}

/// What a search comes to on a machine that has Steam at this path.
pub open spec fn search_result(platform: Platform, steam: PathView, machine: Machine) -> QuestionView {
    searched(
        (SearchView {
            platform,
            stage: StageView::NotFound,
            rest: search_plan(platform, steam),
        }).advanced(),
        machine,
    ).question()
}

/// A game that is beside Steam is found there, whatever else there is.
pub proof fn law_game_beside_steam_is_found(platform: Platform, steam: PathView, machine: Machine)
    requires
        (machine.exists)(game_inside(steam, "steamapps"@)),
    ensures
        search_result(platform, steam, machine) == QuestionView::Found(
            game_inside(steam, "steamapps"@),
        ),
{
    law_search_finds_the_first_place(platform, steam, machine);
    assert(game_below(steam, "steamapps"@) == game_inside(steam, "steamapps"@));
    assert(search_plan(platform, steam)[0] == ProbeView::Place(game_inside(steam, "steamapps"@)));
}

/// The list of library folders beside Steam.
pub open spec fn list_beside(steam: PathView) -> PathView {
    PathView { base: steam.base, names: steam.names + seq!["steamapps"@, "libraryfolders.vdf"@] }
}

/// A game that is not beside Steam is found in the first library folder of Steam's
/// list that has it, wherever in the list that folder stands.
pub proof fn law_game_in_a_library_is_found(
    platform: Platform,
    steam: PathView,
    machine: Machine,
    content: Seq<char>,
    i: int,
)
    requires
        !(machine.exists)(game_inside(steam, "steamapps"@)),
        (machine.exists)(list_beside(steam)),
        (machine.file)(list_beside(steam)) == Some(content),
        0 <= i < library_folders(content).len(),
        machine.has_game(platform, library_folders(content)[i]),
        forall|j: int|
            0 <= j < i ==> !machine.has_game(platform, #[trigger] library_folders(content)[j]),
    ensures
        search_result(platform, steam, machine) == QuestionView::Found(
            machine.game_in_library(library_folders(content)[i]),
        ),
{
    lemma_plan_begins(platform, steam, machine);
    machine.lemma_in_libraries_at(platform, library_folders(content), i);
}

/// The plan's first two probes are the game beside Steam and the list there.
proof fn lemma_plan_begins(platform: Platform, steam: PathView, machine: Machine)
    ensures
        ({
            let beside = game_inside(steam, "steamapps"@);
            let list = ProbeView::LibraryList(list_beside(steam));
            let plan = search_plan(platform, steam);
            let rest = plan.drop_first().drop_first();
            search_result(platform, steam, machine) == final_word(
                if (machine.exists)(beside) {
                    Some(beside)
                } else if machine.hit(platform, list) is Some {
                    machine.hit(platform, list)
                } else {
                    machine.first_hit(platform, rest)
                },
            )
        }),
{
    law_search_finds_the_first_place(platform, steam, machine);
    assert(game_below(steam, "steamapps"@) == game_inside(steam, "steamapps"@));
    assert(steam.join("steamapps"@).join("libraryfolders.vdf"@) == list_beside(steam));
    let plan = search_plan(platform, steam);
    assert(plan[0] == ProbeView::Place(game_inside(steam, "steamapps"@)));
    assert(plan.drop_first()[0] == ProbeView::LibraryList(list_beside(steam)));
    reveal_with_fuel(Machine::first_hit, 3);
}

/// Whether and where the game is at a location.
pub open spec fn at_location(machine: Machine, location: Option<Seq<char>>) -> Option<PathView> {
    match location {
        Some(text) if (machine.exists)(PathView::of(text)) => Some(PathView::of(text)),
        _ => None,
    }
}

/// A game that is neither beside Steam nor in a library folder is found nowhere
/// outside Windows. On Windows it is found where either of the two registry keys
/// says, the one for the system's own programs first, or else in the first of four
/// usual places that exists.
pub proof fn law_game_elsewhere_is_found_on_windows(
    platform: Platform,
    steam: PathView,
    machine: Machine,
)
    requires
        !(machine.exists)(game_inside(steam, "steamapps"@)),
        (machine.exists)(list_beside(steam)) && (machine.file)(list_beside(steam)) is Some ==> (
        forall|j: int|
            0 <= j < library_folders((machine.file)(list_beside(steam))->Some_0).len()
                ==> !machine.has_game(
                platform,
                #[trigger] library_folders((machine.file)(list_beside(steam))->Some_0)[j],
            )),
    ensures
        platform != Platform::Windows ==> search_result(platform, steam, machine)
            == QuestionView::NotFound,
        platform == Platform::Windows ==> search_result(platform, steam, machine) == ({
            let a = at_location(
                machine,
                (machine.registry)(
                    "SOFTWARE\\Microsoft\\Windows\\CurrentVersion\\Uninstall\\Steam App 1973530"@,
                ),
            );
            let b = at_location(
                machine,
                (machine.registry)(
                    "SOFTWARE\\WOW6432Node\\Microsoft\\Windows\\CurrentVersion\\Uninstall\\Steam App 1973530"@,
                ),
            );
            let c = "C:\\Program Files (x86)\\Steam\\steamapps\\common\\Limbus Company"@;
            let d = "C:\\Program Files\\Steam\\steamapps\\common\\Limbus Company"@;
            let e = "D:\\Steam\\steamapps\\common\\Limbus Company"@;
            let f = "E:\\Steam\\steamapps\\common\\Limbus Company"@;
            if a is Some {
                QuestionView::Found(a->Some_0)
            } else if b is Some {
                QuestionView::Found(b->Some_0)
            } else if (machine.exists)(PathView::of(c)) {
                QuestionView::Found(PathView::of(c))
            } else if (machine.exists)(PathView::of(d)) {
                QuestionView::Found(PathView::of(d))
            } else if (machine.exists)(PathView::of(e)) {
                QuestionView::Found(PathView::of(e))
            } else if (machine.exists)(PathView::of(f)) {
                QuestionView::Found(PathView::of(f))
            } else {
                QuestionView::NotFound
            }
        }),
{
    lemma_plan_begins(platform, steam, machine);
    let list = list_beside(steam);
    if (machine.exists)(list) {
        if let Some(content) = (machine.file)(list) {
            let dirs = library_folders(content);
            machine.lemma_in_libraries_at(platform, dirs, dirs.len() as int);
        }
    }
    let r0 = search_plan(platform, steam).drop_first().drop_first();
    if platform == Platform::Windows {
        let plan = search_plan(platform, steam);
        let r1 = r0.drop_first();
        let r2 = r1.drop_first();
        let r3 = r2.drop_first();
        let r4 = r3.drop_first();
        let r5 = r4.drop_first();
        assert(r0[0] == plan[2]);
        assert(r1[0] == plan[3]);
        assert(r2[0] == plan[4]);
        assert(r3[0] == plan[5]);
        assert(r4[0] == plan[6]);
        assert(r5[0] == plan[7]);
        assert(r5.drop_first().len() == 0);
        assert(machine.first_hit(platform, r5.drop_first()) is None);
        assert(machine.first_hit(platform, r5) == machine.hit(platform, plan[7]));
        assert(machine.first_hit(platform, r4) == (if machine.hit(platform, plan[6]) is Some {
            machine.hit(platform, plan[6])
        } else {
            machine.first_hit(platform, r5)
        }));
        assert(machine.first_hit(platform, r3) == (if machine.hit(platform, plan[5]) is Some {
            machine.hit(platform, plan[5])
        } else {
            machine.first_hit(platform, r4)
        }));
        assert(machine.first_hit(platform, r2) == (if machine.hit(platform, plan[4]) is Some {
            machine.hit(platform, plan[4])
        } else {
            machine.first_hit(platform, r3)
        }));
        assert(machine.first_hit(platform, r1) == (if machine.hit(platform, plan[3]) is Some {
            machine.hit(platform, plan[3])
        } else {
            machine.first_hit(platform, r2)
        }));
        assert(machine.first_hit(platform, r0) == (if machine.hit(platform, plan[2]) is Some {
            machine.hit(platform, plan[2])
        } else {
            machine.first_hit(platform, r1)
        }));
    } else {
        assert(r0.len() == 0);
    }
}

/// Wherever the game is found, it exists.
pub proof fn law_found_game_exists(platform: Platform, steam: PathView, machine: Machine)
    ensures
        search_result(platform, steam, machine) matches QuestionView::Found(path) ==> (
        machine.exists)(path),
{
    law_search_finds_the_first_place(platform, steam, machine);
    lemma_first_hit_exists(machine, platform, search_plan(platform, steam));
}

proof fn lemma_first_hit_exists(machine: Machine, platform: Platform, probes: Seq<ProbeView>)
    ensures
        machine.first_hit(platform, probes) matches Some(path) ==> (machine.exists)(path),
    decreases probes.len(),
{
    if probes.len() > 0 {
        lemma_first_hit_exists(machine, platform, probes.drop_first());
        match probes[0] {
            ProbeView::LibraryList(p) => {
                if let Some(content) = (machine.file)(p) {
                    lemma_in_libraries_exists(machine, platform, library_folders(content));
                }
            },
            ProbeView::Library(d) => {
                lemma_in_libraries_exists(machine, platform, seq![d]);
            },
            _ => {},
        }
    }
}

proof fn lemma_in_libraries_exists(machine: Machine, platform: Platform, dirs: Seq<Seq<char>>)
    ensures
        machine.in_libraries(platform, dirs) matches Some(path) ==> (machine.exists)(path),
    decreases dirs.len(),
{
    if dirs.len() > 0 {
        machine.lemma_library(platform, dirs[0]);
        lemma_in_libraries_exists(machine, platform, dirs.drop_first());
    }
}

/// What is said of the characters of a question and of the game's place is said of
/// all of them.
pub proof fn law_questions_are_seen_whole(path: HostPath, key: String, info: GamePathInfo)
    ensures
        Question::Exists(path)@ == QuestionView::Exists(path@),
        Question::ReadFile(path)@ == QuestionView::ReadFile(path@),
        Question::ReadRegistry(key)@ == QuestionView::ReadRegistry(key@),
        Question::Found(path)@ == QuestionView::Found(path@),
        Question::NotFound@ == QuestionView::NotFound,
        info@.found == info.found,
        info@.game_path == opt_text(info.game_path),
        info@.output_path == opt_text(info.output_path),
{
}

} // verus!
