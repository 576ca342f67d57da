//! The settings of the program and of the game's translation, and what is
//! remembered of the last update.
use vstd::prelude::*;

use crate::dates::{can_cut_date, date_can_be_cut, normalize_release_date, normalized_date, release_date_from_tag, tag_date};
use crate::error::{AppError, ErrorView};
use crate::paths::{HostPath, PathView};
use crate::text::{copy_opt, opt_text, same_text};

verus! {

/// The settings of the program, and what the last update installed.
#[derive(Debug)]
pub struct Config {
    pub repo_owner: String,
    pub repo_name: String,
    pub source_folder: String,
    pub output_base: String,
    pub last_commit_hash: Option<String>,
    pub last_release_tag: Option<String>,
    pub last_release_date: Option<String>,
    pub last_voice_update_date: Option<String>,
}

/// The settings by their characters.
#[verifier::ext_equal]
pub struct ConfigView {
    pub repo_owner: Seq<char>,
    pub repo_name: Seq<char>,
    pub source_folder: Seq<char>,
    pub output_base: Seq<char>,
    pub last_commit_hash: Option<Seq<char>>,
    pub last_release_tag: Option<Seq<char>>,
    pub last_release_date: Option<Seq<char>>,
    pub last_voice_update_date: Option<Seq<char>>,
}

impl View for Config {
    type V = ConfigView;

    open spec fn view(&self) -> ConfigView {
        ConfigView {
            repo_owner: self.repo_owner@,
            repo_name: self.repo_name@,
            source_folder: self.source_folder@,
            output_base: self.output_base@,
            last_commit_hash: opt_text(self.last_commit_hash),
            last_release_tag: opt_text(self.last_release_tag),
            last_release_date: opt_text(self.last_release_date),
            last_voice_update_date: opt_text(self.last_voice_update_date),
        }
    }
}

impl Clone for Config {
    fn clone(&self) -> (r: Self)
        ensures
            r@ == self@,
    {
        Config {
            repo_owner: self.repo_owner.as_str().to_string(),
            repo_name: self.repo_name.as_str().to_string(),
            source_folder: self.source_folder.as_str().to_string(),
            output_base: self.output_base.as_str().to_string(),
            last_commit_hash: copy_opt(&self.last_commit_hash),
            last_release_tag: copy_opt(&self.last_release_tag),
            last_release_date: copy_opt(&self.last_release_date),
            last_voice_update_date: copy_opt(&self.last_voice_update_date),
        }
    }
}

/// The settings of the game's translation folder.
#[derive(Debug)]
pub struct TranslationConfig {
    pub lang: String,
    pub title_font: String,
    pub context_font: String,
    pub sampling_point_size: i32,
    pub padding: i32,
}

impl TranslationConfig {
    /// These are the settings that a translation folder begins with.
    pub open spec fn is_default(self) -> bool {
        &&& self.lang@ == "LLC_zh-Hant"@
        &&& self.title_font@ == Seq::<char>::empty()
        &&& self.context_font@ == Seq::<char>::empty()
        &&& self.sampling_point_size == 78
        &&& self.padding == 5
    }
}

impl ConfigView {
    /// The settings that a first start begins with.
    pub open spec fn fresh(output_folder: Option<Seq<char>>) -> ConfigView {
        ConfigView {
            repo_owner: "LocalizeLimbusCompany"@,
            repo_name: "LocalizeLimbusCompany"@,
            source_folder: "Lang/LLC_zh-CN"@,
            output_base: match output_folder {
                Some(folder) => folder,
                None => "LLC_zh-Hant"@,
            },
            last_commit_hash: None,
            last_release_tag: None,
            last_release_date: None,
            last_voice_update_date: None,
        }
    }

    /// The settings with the output folder of the game, where there is one,
    /// in place of an output folder that is not absolute.
    pub open spec fn resolved(
        self,
        output_is_absolute: bool,
        output_folder: Option<Seq<char>>,
    ) -> ConfigView {
        match output_folder {
            Some(folder) if !output_is_absolute => ConfigView { output_base: folder, ..self },
            _ => self,
        }
    }

    /// The tag that the last update installed, as far as it is known.
    pub open spec fn installed_tag(self) -> Option<Seq<char>> {
        match self.last_release_tag {
            Some(tag) => Some(tag),
            None => self.last_commit_hash,
        }
    }

    /// The date of the installed release: the one that was recorded, else
    /// the one that its tag holds, else the one in the older record of it.
    pub open spec fn release_date(self) -> Option<Seq<char>> {
        let recorded = match self.last_release_date {
            Some(date) => normalized_date(date),
            None => None,
        };
        let from_tag = match self.last_release_tag {
            Some(tag) => tag_date(tag),
            None => None,
        };
        let from_hash = match self.last_commit_hash {
            Some(hash) => tag_date(hash),
            None => None,
        };
        if recorded is Some {
            recorded
        } else if from_tag is Some {
            from_tag
        } else {
            from_hash
        }
    }

    /// The date of the installed voice texts, if it was recorded.
    pub open spec fn voice_date(self) -> Option<Seq<char>> {
        match self.last_voice_update_date {
            Some(date) => normalized_date(date),
            None => None,
        }
    }

    /// The recorded release date can be cut to its first ten bytes.
    pub open spec fn release_date_readable(self) -> bool {
        self.last_release_date matches Some(date) ==> date_can_be_cut(date)
    }

    /// The recorded voice date can be cut to its first ten bytes.
    pub open spec fn voice_date_readable(self) -> bool {
        self.last_voice_update_date matches Some(date) ==> date_can_be_cut(date)
    }
}

impl Config {
    /// The settings that a first start begins with. `output_folder` is the
    /// folder for the translation inside the game, where the game was found.
    pub fn default(output_folder: Option<String>) -> (r: Config)
        ensures
            r@ == ConfigView::fresh(opt_text(output_folder)),
    {
        let output_base = match output_folder {
            Some(folder) => folder,
            None => "LLC_zh-Hant".to_string(),
        };
        Config {
            repo_owner: "LocalizeLimbusCompany".to_string(),
            repo_name: "LocalizeLimbusCompany".to_string(),
            source_folder: "Lang/LLC_zh-CN".to_string(),
            output_base,
            last_commit_hash: None,
            last_release_tag: None,
            last_release_date: None,
            last_voice_update_date: None,
        }
    }
}

impl Default for TranslationConfig {
    fn default() -> (r: Self)
        ensures
            r.is_default(),
    {
        TranslationConfig {
            lang: "LLC_zh-Hant".to_string(),
            title_font: String::new(),
            context_font: String::new(),
            sampling_point_size: 78,
            padding: 5,
        }
    }
}

// ---------------------------------------------------------------------------
// Where the settings are
// ---------------------------------------------------------------------------

/// `file` in the language folder, where there is one, else by its name alone.
pub open spec fn settings_path(lang_folder: Option<PathView>, file: Seq<char>) -> PathView {
    match lang_folder {
        Some(folder) => folder.join(file),
        None => PathView::of(file),
    }
}

/// An optional path by its characters.
pub open spec fn opt_path(path: Option<HostPath>) -> Option<PathView> {
    match path {
        Some(p) => Some(p@),
        None => None,
    }
}

/// `file` in the language folder, where there is one.
fn in_lang_folder(lang_folder: &Option<HostPath>, file: &str) -> (r: HostPath)
    ensures
        r@ == settings_path(opt_path(*lang_folder), file@),
{
    match lang_folder {
        Some(folder) => folder.join(file),
        None => HostPath::new(file),
    }
}

/// Where the program's settings are.
pub fn get_lzcr_info_path(lang_folder: &Option<HostPath>) -> (r: Result<HostPath, AppError>)
    ensures
        r matches Ok(path) && path@ == settings_path(opt_path(*lang_folder), "lzcr-info.json"@),
{
    Ok(in_lang_folder(lang_folder, "lzcr-info.json"))
}

/// Where older versions kept the program's settings.
pub fn get_legacy_llc_info_path(lang_folder: &Option<HostPath>) -> (r: Result<HostPath, AppError>)
    ensures
        r matches Ok(path) && path@ == settings_path(opt_path(*lang_folder), "llc-info.json"@),
{
    Ok(in_lang_folder(lang_folder, "llc-info.json"))
}

/// Where the settings of the game's translation folder are.
pub fn get_translation_config_path(lang_folder: &Option<HostPath>) -> (r: Result<
    HostPath,
    AppError,
>)
    ensures
        r matches Ok(path) && path@ == settings_path(opt_path(*lang_folder), "config.json"@),
{
    Ok(in_lang_folder(lang_folder, "config.json"))
}

/// What is to be saved so that the translation settings exist: the default
/// ones where there are none, nothing where there are some.
pub fn ensure_translation_config(exists: bool) -> (r: Option<TranslationConfig>)
    ensures
        r is None <==> exists,
        r matches Some(config) ==> config.is_default(),
{
    if exists {
        None
    } else {
        Some(TranslationConfig::default())
    }
}

// ---------------------------------------------------------------------------
// Loading
// ---------------------------------------------------------------------------

/// Settings as they were read from a file.
#[derive(Debug)]
pub struct StoredConfig {
    pub config: Config,
    /// The output folder that they name is an absolute path.
    pub output_is_absolute: bool,
}

/// Settings that are ready for use.
#[derive(Debug)]
pub struct LoadedConfig {
    pub config: Config,
    /// They are to be saved under the program's own file name.
    pub save: bool,
}

/// What loading gives: the settings and whether to save them, or the error.
pub open spec fn load_outcome(
    current: Option<Result<StoredConfig, AppError>>,
    legacy: Option<Result<StoredConfig, AppError>>,
    output_folder: Option<Seq<char>>,
) -> Result<(ConfigView, bool), ErrorView> {
    match current {
        Some(Ok(stored)) => Ok(
            (stored.config@.resolved(stored.output_is_absolute, output_folder), false),
        ),
        Some(Err(e)) => Err(e@),
        None => match legacy {
            Some(Ok(stored)) => Ok(
                (stored.config@.resolved(stored.output_is_absolute, output_folder), true),
            ),
            Some(Err(e)) => Err(e@),
            None => Ok((ConfigView::fresh(output_folder), true)),
        },
    }
}

/// Everything but the output folder is the same in both settings.
pub open spec fn kept(stored: ConfigView, loaded: ConfigView) -> bool {
    &&& loaded.repo_owner == stored.repo_owner
    &&& loaded.repo_name == stored.repo_name
    &&& loaded.source_folder == stored.source_folder
    &&& loaded.last_commit_hash == stored.last_commit_hash
    &&& loaded.last_release_tag == stored.last_release_tag
    &&& loaded.last_release_date == stored.last_release_date
    &&& loaded.last_voice_update_date == stored.last_voice_update_date
}

/// The settings with the game's output folder in place of one that is not
/// absolute.
fn resolve(stored: StoredConfig, output_folder: Option<String>) -> (r: Config)
    ensures
        r@ == stored.config@.resolved(stored.output_is_absolute, opt_text(output_folder)),
{
    let mut config = stored.config;
    if !stored.output_is_absolute {
        if let Some(folder) = output_folder {
            config.output_base = folder;
        }
    }
    config
}

/// The settings from what the settings file and the older settings file hold,
/// each where it exists. The older file counts only where the settings file
/// does not exist; what comes from it, and what a first start begins with,
/// is to be saved.
pub fn load_config(
    current: Option<Result<StoredConfig, AppError>>,
    legacy: Option<Result<StoredConfig, AppError>>,
    output_folder: Option<String>,
) -> (r: Result<LoadedConfig, AppError>)
    ensures
        match r {
            Ok(loaded) => load_outcome(current, legacy, opt_text(output_folder)) == Ok::<
                (ConfigView, bool),
                ErrorView,
            >((loaded.config@, loaded.save)),
            Err(e) => load_outcome(current, legacy, opt_text(output_folder)) == Err::<
                (ConfigView, bool),
                ErrorView,
            >(e@),
        },
        r matches Ok(loaded) ==> (current matches Some(Ok(stored)) ==> kept(
            stored.config@,
            loaded.config@,
        ) && !loaded.save),
        r matches Ok(loaded) ==> current is None ==> (legacy matches Some(Ok(stored)) ==> kept(
            stored.config@,
            loaded.config@,
        ) && loaded.save),
        r is Err <==> (current matches Some(Err(_)) || (current is None && legacy matches Some(
            Err(_),
        ))),
{
    match current {
        Some(Ok(stored)) => Ok(
            LoadedConfig { config: resolve(stored, output_folder), save: false },
        ),
        Some(Err(e)) => Err(e),
        None => match legacy {
            Some(Ok(stored)) => Ok(
                LoadedConfig { config: resolve(stored, output_folder), save: true },
            ),
            Some(Err(e)) => Err(e),
            None => Ok(LoadedConfig { config: Config::default(output_folder), save: true }),
        },
    }
}

// ---------------------------------------------------------------------------
// What is installed
// ---------------------------------------------------------------------------

impl ConfigView {
    /// The settings once a release is recorded as installed.
    pub open spec fn with_version(self, tag: Seq<char>, date: Option<Seq<char>>) -> ConfigView {
        ConfigView {
            last_commit_hash: Some(tag),
            last_release_tag: Some(tag),
            last_release_date: date,
            ..self
        }
    }

    /// The settings once a date is recorded for the voice texts.
    pub open spec fn with_voice_date(self, date: Option<Seq<char>>) -> ConfigView {
        ConfigView { last_voice_update_date: date, ..self }
    }

    /// A release with this tag is other than the installed one.
    pub open spec fn needs(self, tag: Seq<char>) -> bool {
        self.installed_tag() != Some(tag)
    }
}

/// An optional text by its characters.
pub open spec fn opt_str(o: Option<&str>) -> Option<Seq<char>> {
    match o {
        Some(s) => Some(s@),
        None => None,
    }
}

/// An optional text as a string of its own.
fn own(o: Option<&str>) -> (r: Option<String>)
    ensures
        opt_text(r) == opt_str(o),
{
    match o {
        Some(s) => Some(s.to_string()),
        None => None,
    }
}

/// Records a release as installed.
pub fn update_version_info(config: Config, release_tag: &str, release_date: Option<&str>) -> (r:
    Config)
    ensures
        r@ == config@.with_version(release_tag@, opt_str(release_date)),
{
    let mut config = config;
    config.last_commit_hash = Some(release_tag.to_string());
    config.last_release_tag = Some(release_tag.to_string());
    config.last_release_date = own(release_date);
    config
}

/// Records the date of the voice texts.
pub fn update_voice_update_date(config: Config, voice_date: Option<&str>) -> (r: Config)
    ensures
        r@ == config@.with_voice_date(opt_str(voice_date)),
{
    let mut config = config;
    config.last_voice_update_date = own(voice_date);
    config
}

/// Whether a release with this tag is other than the installed one.
pub fn should_update(config: &Config, current_release_tag: &str) -> (r: bool)
    ensures
        r == config@.needs(current_release_tag@),
{
    match &config.last_release_tag {
        Some(tag) => !same_text(tag.as_str(), current_release_tag),
        None => match &config.last_commit_hash {
            Some(hash) => !same_text(hash.as_str(), current_release_tag),
            None => true,
        },
    }
}

/// Whether the recorded dates can be cut to their first ten bytes.
pub fn dates_are_readable(config: &Config) -> (r: bool)
    ensures
        r == (config@.release_date_readable() && config@.voice_date_readable()),
{
    let release = match &config.last_release_date {
        Some(date) => can_cut_date(date.as_str()),
        None => true,
    };
    let voice = match &config.last_voice_update_date {
        Some(date) => can_cut_date(date.as_str()),
        None => true,
    };
    release && voice
}

/// The date of the installed release, as far as it is known.
pub fn installed_release_date(cfg: &Config) -> (r: Option<String>)
    requires
        cfg@.release_date_readable(),
    ensures
        opt_text(r) == cfg@.release_date(),
{
    if let Some(raw) = &cfg.last_release_date {
        let date = normalize_release_date(raw.as_str());
        if date.is_some() {
            return date;
        }
    }
    if let Some(tag) = &cfg.last_release_tag {
        let date = release_date_from_tag(tag.as_str());
        if date.is_some() {
            return date;
        }
    }
    match &cfg.last_commit_hash {
        Some(hash) => release_date_from_tag(hash.as_str()),
        None => None,
    }
}

/// The date of the installed voice texts, if it was recorded.
pub fn installed_voice_update_date(cfg: &Config) -> (r: Option<String>)
    requires
        cfg@.voice_date_readable(),
    ensures
        opt_text(r) == cfg@.voice_date(),
{
    match &cfg.last_voice_update_date {
        Some(raw) => normalize_release_date(raw.as_str()),
        None => None,
    }
}

/// Once a release is recorded, that release needs no update, and any other
/// one does.
pub proof fn law_recorded_release_is_installed(
    config: ConfigView,
    tag: Seq<char>,
    date: Option<Seq<char>>,
    other: Seq<char>,
)
    ensures
        config.with_version(tag, date).needs(other) <==> other != tag,
{
}

/// A recorded release is shown with its normalized date, where it has one,
/// else with the date that its tag holds.
pub proof fn law_recorded_release_shows_its_date(
    config: ConfigView,
    tag: Seq<char>,
    raw: Option<Seq<char>>,
)
    ensures
        ({
            let date = match raw {
                Some(text) => normalized_date(text),
                None => None,
            };
            config.with_version(tag, date).release_date() == (if date is Some {
                date
            } else {
                tag_date(tag)
            })
        }),
{
    if let Some(text) = raw {
        crate::dates::law_normalized_date_is_stable(text);
    }
}

/// Recording the voice texts' date changes nothing about the release, and
/// recording a release changes nothing about the voice texts.
pub proof fn law_records_are_independent(
    config: ConfigView,
    voice: Option<Seq<char>>,
    tag: Seq<char>,
    date: Option<Seq<char>>,
)
    ensures
        config.with_voice_date(voice).installed_tag() == config.installed_tag(),
        config.with_voice_date(voice).release_date() == config.release_date(),
        config.with_version(tag, date).voice_date() == config.voice_date(),
        config.with_version(tag, date).with_voice_date(voice) == config.with_voice_date(
            voice,
        ).with_version(tag, date),
{
}

/// Stored settings are loaded with every field as it was stored, but for the
/// output folder: that is the game's where the stored one is not absolute and
/// there is a game, and as it was stored otherwise. It is so whether they come
/// from the settings file or, where that does not exist, from the older one; only
/// the latter are to be saved.
pub proof fn law_loaded_settings_are_as_stored(
    stored: StoredConfig,
    legacy: Option<Result<StoredConfig, AppError>>,
    output_folder: Option<Seq<char>>,
)
    ensures
        load_outcome(Some(Ok(stored)), legacy, output_folder) matches Ok((loaded, save)) && !save
            && loaded.repo_owner == stored.config.repo_owner@ && loaded.repo_name
            == stored.config.repo_name@ && loaded.source_folder == stored.config.source_folder@
            && loaded.last_commit_hash == opt_text(stored.config.last_commit_hash)
            && loaded.last_release_tag == opt_text(stored.config.last_release_tag)
            && loaded.last_release_date == opt_text(stored.config.last_release_date)
            && loaded.last_voice_update_date == opt_text(stored.config.last_voice_update_date)
            && loaded.output_base == (if !stored.output_is_absolute && output_folder is Some {
            output_folder->Some_0
        } else {
            stored.config.output_base@
        }),
        load_outcome(None, Some(Ok(stored)), output_folder) matches Ok((loaded, save)) && save
            && loaded.repo_owner == stored.config.repo_owner@ && loaded.repo_name
            == stored.config.repo_name@ && loaded.source_folder == stored.config.source_folder@
            && loaded.last_commit_hash == opt_text(stored.config.last_commit_hash)
            && loaded.last_release_tag == opt_text(stored.config.last_release_tag)
            && loaded.last_release_date == opt_text(stored.config.last_release_date)
            && loaded.last_voice_update_date == opt_text(stored.config.last_voice_update_date)
            && loaded.output_base == (if !stored.output_is_absolute && output_folder is Some {
            output_folder->Some_0
        } else {
            stored.config.output_base@
        }),
{
}

/// Settings that cannot be read are the error: the older file is not asked where
/// the settings file exists, readable or not. Where neither file exists the
/// settings are the first ones, to be saved, with nothing recorded as installed,
/// so that every release needs an update.
pub proof fn law_loading_fails_on_unreadable_settings(
    error: AppError,
    legacy: Option<Result<StoredConfig, AppError>>,
    output_folder: Option<Seq<char>>,
    tag: Seq<char>,
)
    ensures
        load_outcome(Some(Err(error)), legacy, output_folder) == Err::<
            (ConfigView, bool),
            ErrorView,
        >(error@),
        load_outcome(None, Some(Err(error)), output_folder) == Err::<
            (ConfigView, bool),
            ErrorView,
        >(error@),
        load_outcome(None, None, output_folder) matches Ok((first, save)) && save
            && first.repo_owner == "LocalizeLimbusCompany"@ && first.repo_name
            == "LocalizeLimbusCompany"@ && first.source_folder == "Lang/LLC_zh-CN"@
            && first.output_base == (if output_folder is Some {
            output_folder->Some_0
        } else {
            "LLC_zh-Hant"@
        }) && first.last_commit_hash is None && first.last_release_tag is None
            && first.last_release_date is None && first.last_voice_update_date is None
            && first.needs(tag) && first.release_date() is None && first.voice_date() is None,
{
}

/// What was recorded, saved and loaded again still tells which release is
/// installed and how new the voice texts are, wherever the game is by then.
pub proof fn law_records_outlive_a_restart(
    config: ConfigView,
    tag: Seq<char>,
    date: Option<Seq<char>>,
    voice: Option<Seq<char>>,
    stored: StoredConfig,
    output_folder: Option<Seq<char>>,
    other: Seq<char>,
)
    requires
        stored.config@ == config.with_version(tag, date).with_voice_date(voice),
    ensures
        load_outcome(Some(Ok(stored)), None, output_folder) matches Ok((loaded, _)) && (
        loaded.needs(other) <==> other != tag) && loaded.last_release_date == date
            && loaded.last_voice_update_date == voice && loaded.release_date()
            == stored.config@.release_date() && loaded.voice_date() == stored.config@.voice_date(),
        load_outcome(None, Some(Ok(stored)), output_folder) matches Ok((loaded, _)) && (
        loaded.needs(other) <==> other != tag) && loaded.last_release_date == date
            && loaded.last_voice_update_date == voice && loaded.release_date()
            == stored.config@.release_date() && loaded.voice_date() == stored.config@.voice_date(),
{
}

/// A release needs an update just if its tag is other than the recorded one; the
/// older record counts where there is no newer one, and where there is none at
/// all every release needs an update.
pub proof fn law_update_is_needed_for_another_tag(config: ConfigView, tag: Seq<char>)
    ensures
        config.last_release_tag matches Some(had) ==> (config.needs(tag) <==> had != tag),
        config.last_release_tag is None && config.last_commit_hash is Some ==> (config.needs(tag)
            <==> config.last_commit_hash->Some_0 != tag),
        config.last_release_tag is None && config.last_commit_hash is None ==> config.needs(tag),
{
}

/// Recording a release sets its tag, in both places, and its date; recording the
/// voice texts sets their date. Nothing else changes.
pub proof fn law_recording_changes_the_record_alone(
    config: ConfigView,
    tag: Seq<char>,
    date: Option<Seq<char>>,
)
    ensures
        ({
            let after = config.with_version(tag, date);
            &&& after.last_commit_hash == Some(tag)
            &&& after.last_release_tag == Some(tag)
            &&& after.last_release_date == date
            &&& after.last_voice_update_date == config.last_voice_update_date
            &&& after.repo_owner == config.repo_owner
            &&& after.repo_name == config.repo_name
            &&& after.source_folder == config.source_folder
            &&& after.output_base == config.output_base
        }),
        ({
            let after = config.with_voice_date(date);
            &&& after.last_voice_update_date == date
            &&& after.last_commit_hash == config.last_commit_hash
            &&& after.last_release_tag == config.last_release_tag
            &&& after.last_release_date == config.last_release_date
            &&& after.repo_owner == config.repo_owner
            &&& after.repo_name == config.repo_name
            &&& after.source_folder == config.source_folder
            &&& after.output_base == config.output_base
        }),
{
}

/// The date of the installed release is the recorded one where that is a date,
/// else the one in the recorded tag, else the one in the older record.
pub proof fn law_release_date_comes_from_the_first_that_has_one(
    config: ConfigView,
    raw: Seq<char>,
    tag: Seq<char>,
    hash: Seq<char>,
)
    ensures
        config.last_release_date == Some(raw) && normalized_date(raw) is Some
            ==> config.release_date() == normalized_date(raw),
        (config.last_release_date is None || (config.last_release_date == Some(raw)
            && normalized_date(raw) is None)) && config.last_release_tag == Some(tag) && tag_date(
            tag,
        ) is Some ==> config.release_date() == tag_date(tag),
        (config.last_release_date is None || (config.last_release_date == Some(raw)
            && normalized_date(raw) is None)) && (config.last_release_tag is None || (
        config.last_release_tag == Some(tag) && tag_date(tag) is None)) && config.last_commit_hash
            == Some(hash) ==> config.release_date() == tag_date(hash),
        (config.last_release_date is None || (config.last_release_date == Some(raw)
            && normalized_date(raw) is None)) && (config.last_release_tag is None || (
        config.last_release_tag == Some(tag) && tag_date(tag) is None)) && config.last_commit_hash
            is None ==> config.release_date() is None,
        config.last_voice_update_date == Some(raw) ==> config.voice_date() == normalized_date(raw),
        config.last_voice_update_date is None ==> config.voice_date() is None,
{
}

/// A settings file is in the language folder, behind everything that the folder's
/// path holds, or goes by its name alone.
pub proof fn law_settings_are_in_the_language_folder(folder: PathView, file: Seq<char>)
    ensures
        settings_path(Some(folder), file).base == folder.base,
        settings_path(Some(folder), file).names == folder.names.push(file),
        settings_path(None, file).base == file,
        settings_path(None, file).names == Seq::<Seq<char>>::empty(),
{
}

/// The settings that a translation folder begins with.
pub proof fn law_translation_settings_begin_with(config: TranslationConfig)
    ensures
        config.is_default() <==> config.lang@ == "LLC_zh-Hant"@ && config.title_font@.len() == 0
            && config.context_font@.len() == 0 && config.sampling_point_size == 78
            && config.padding == 5,
{
    if config.title_font@.len() == 0 && config.context_font@.len() == 0 {
        assert(config.title_font@ == Seq::<char>::empty());
        assert(config.context_font@ == Seq::<char>::empty());
    }
}

/// What is said of the characters of the settings is said of all of them.
pub proof fn law_settings_are_seen_whole(config: Config)
    ensures
        config@.repo_owner == config.repo_owner@,
        config@.repo_name == config.repo_name@,
        config@.source_folder == config.source_folder@,
        config@.output_base == config.output_base@,
        config@.last_commit_hash == opt_text(config.last_commit_hash),
        config@.last_release_tag == opt_text(config.last_release_tag),
        config@.last_release_date == opt_text(config.last_release_date),
        config@.last_voice_update_date == opt_text(config.last_voice_update_date),
{
}

/// The recorded dates can be cut where there are none, or where their texts can.
pub proof fn law_missing_dates_can_be_cut(config: ConfigView, text: Seq<char>)
    ensures
        config.last_release_date is None ==> config.release_date_readable(),
        config.last_release_date == Some(text) ==> (config.release_date_readable()
            <==> date_can_be_cut(text)),
        config.last_voice_update_date is None ==> config.voice_date_readable(),
        config.last_voice_update_date == Some(text) ==> (config.voice_date_readable()
            <==> date_can_be_cut(text)),
{
}

/// What is said of the characters of optional texts and paths is said of all of them.
pub proof fn law_options_are_seen_whole(text: &str, path: HostPath)
    ensures
        opt_str(Some(text)) == Some(text@),
        opt_str(None) is None,
        opt_path(Some(path)) == Some(path@),
        opt_path(None) is None,
{
}

} // verus!
