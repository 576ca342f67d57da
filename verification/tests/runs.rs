use lzcr::config::{should_update, Config, TranslationConfig};
use lzcr::converter::{create_game_config, game_config_content, game_config_written, Converter, Stage, StepDone};
use lzcr::fonts::{font_folder, write_dir, FontDir, FontFile, FontStep};
use lzcr::paths::HostPath;
use lzcr::progress::Progress;
use serde::ser::SerializeStruct;

/// The whole percents of a progress, a hundred at most.
fn percent(progress: &Progress) -> u64 {
    (1..=100u32).take_while(|p| progress.reaches(10 * p)).count() as u64
}

fn latest(config: &Config) -> StepDone {
    StepDone::Latest { tag: "v2".to_string(), date: Some("2024-05-06".to_string()), config: config.clone() }
}

/// A run in which every step succeeds: the steps, what was told, and the
/// settings behind it.
fn run(config: Config, found: bool) -> (Vec<Stage>, Vec<(String, u64)>, Config) {
    let mut config = config;
    let mut r = Converter::run();
    let mut stages = vec![];
    let mut told = vec![];
    while r.stage() != Stage::Finished {
        stages.push(r.stage());
        let begun = r.begin(Some(false));
        assert!(begun.stopped.is_none());
        told.extend(begun.told.map(|u| (u.message, percent(&u.progress))));
        let done = match r.stage() {
            Stage::Locate => StepDone::Located { found },
            Stage::Release => latest(&config),
            Stage::Voice => StepDone::Voice { date: Some("2024-01-02".to_string()) },
            Stage::Record | Stage::RecordVoice => {
                config = r.record(config);
                StepDone::Done
            }
            _ => StepDone::Done,
        };
        told.extend(r.advance(done).map(|u| (u.message, percent(&u.progress))));
    }
    (stages, told, config)
}

#[test]
fn a_run_takes_its_steps_in_order() {
    let (stages, told, config) = run(Config::default(None), true);
    assert_eq!(
        stages,
        vec![
            Stage::Locate,
            Stage::Release,
            Stage::Download,
            Stage::Extract,
            Stage::Convert,
            Stage::Record,
            Stage::Fonts,
            Stage::GameConfig,
            Stage::TranslationConfig,
            Stage::Clean,
            Stage::Voice,
            Stage::RecordVoice,
        ]
    );
    let expected = [
        ("Looking for game directory...", 2),
        ("Game directory found", 3),
        ("Connecting to GitHub API...", 5),
        ("Extracting files...", 45),
        ("Copying font files...", 92),
        ("Font file copy complete!", 95),
        ("Creating config file...", 96),
        ("Updating config file...", 97),
        ("Cleaning temporary files...", 98),
        ("Syncing voice files from GitHub...", 99),
        ("Conversion complete!", 100),
    ];
    let expected: Vec<(String, u64)> = expected.iter().map(|(m, p)| (m.to_string(), *p)).collect();
    assert_eq!(told, expected);
    assert!(told.windows(2).all(|w| w[0].1 <= w[1].1 && w[0].1 < 100));
    assert_eq!(config.last_release_tag.as_deref(), Some("v2"));
    assert_eq!(config.last_release_date.as_deref(), Some("2024-05-06"));
    assert_eq!(config.last_voice_update_date.as_deref(), Some("2024-01-02"));
}

#[test]
fn a_second_run_downloads_nothing() {
    let (_, _, config) = run(Config::default(None), true);
    assert!(!should_update(&config, "v2"));
    let (stages, told, _) = run(config, false);
    assert_eq!(&stages[..4], &[Stage::Locate, Stage::Release, Stage::Record, Stage::Fonts]);
    assert_eq!(stages.len(), 9);
    assert_eq!(told[1].0, "Game directory not found, using default location");
    assert_eq!(told[3], ("Localization package already up to date".to_string(), 90));
}

#[test]
fn a_run_stops_when_told() {
    let mut r = Converter::run();
    let config = Config::default(None);
    while r.stage() != Stage::Finished {
        let begun = r.begin(Some(true));
        let (stops, tells) = match r.stage() {
            Stage::Locate | Stage::Release | Stage::Download | Stage::Extract | Stage::Fonts => (true, None),
            Stage::GameConfig => (true, Some("Creating config file...")),
            Stage::Voice => (true, Some("Syncing voice files from GitHub...")),
            Stage::TranslationConfig => (false, Some("Updating config file...")),
            Stage::Clean => (false, Some("Cleaning temporary files...")),
            _ => (false, None),
        };
        assert_eq!(begun.told.map(|u| u.message).as_deref(), tells);
        assert_eq!(
            begun.stopped.map(|e| e.message()),
            if stops { Some("Other error: Conversion cancelled by user".to_string()) } else { None }
        );
        assert!(r.begin(None).stopped.is_none());
        let done = match r.stage() {
            Stage::Locate => StepDone::Located { found: true },
            Stage::Release => latest(&config),
            Stage::Voice => StepDone::Voice { date: None },
            _ => StepDone::Done,
        };
        r.advance(done);
    }
    assert!(r.begin(Some(true)).stopped.is_none());
}

/// The settings of a translation folder, to be written as JSON.
struct Written(TranslationConfig);

impl serde::Serialize for Written {
    fn serialize<S: serde::Serializer>(&self, serializer: S) -> Result<S::Ok, S::Error> {
        let mut out = serializer.serialize_struct("TranslationConfig", 5)?;
        out.serialize_field("lang", &self.0.lang)?;
        out.serialize_field("titleFont", &self.0.title_font)?;
        out.serialize_field("contextFont", &self.0.context_font)?;
        out.serialize_field("samplingPointSize", &self.0.sampling_point_size)?;
        out.serialize_field("padding", &self.0.padding)?;
        out.end()
    }
}

#[test]
fn the_game_gets_the_default_settings() {
    let written = serde_json::to_string_pretty(&Written(TranslationConfig::default())).unwrap();
    assert_eq!(game_config_content(), written);
}

#[test]
fn the_game_is_told_to_use_the_translation() {
    let content = game_config_content();
    let value: serde_json::Value = serde_json::from_str(&content).unwrap();
    assert_eq!(value["lang"], "LLC_zh-Hant");
    assert_eq!(value["titleFont"], "");
    assert_eq!(value["contextFont"], "");
    assert_eq!(value["samplingPointSize"], 78);
    assert_eq!(value["padding"], 5);
    assert!(content.starts_with("{\n  \"lang\""));
    let path = create_game_config("/g/Lang/LLC_zh-Hant", Some(HostPath::new("/g/Lang"))).unwrap();
    assert_eq!((path.base.as_str(), path.names), ("/g/Lang", vec!["config.json".to_string()]));
    assert_eq!(
        create_game_config("/", None).unwrap_err().message(),
        "Other error: Failed to parse Lang folder path: /"
    );
    assert!(game_config_written("p", Ok(())).is_ok());
    assert_eq!(
        game_config_written("p", Err("denied".to_string())).unwrap_err().message(),
        "Other error: Failed to create config file p: denied"
    );
}

fn show(step: &FontStep) -> String {
    match step {
        FontStep::Folder(p) => format!("{} {}", p.base, p.names.join("/")),
        FontStep::File { path, content } => format!("{} {} {}", path.base, path.names.join("/"), content.len()),
    }
}

#[test]
fn fonts_are_written_folder_by_folder() {
    let file = |name: &str, n: usize| FontFile { name: name.to_string(), content: vec![0; n] };
    let dir = |name: &str, files, dirs| FontDir { name: name.to_string(), files, dirs };
    let tree = dir(
        "Font",
        vec![file("a.ttf", 1), file("b.ttf", 2)],
        vec![
            dir("Context", vec![file("c.ttf", 3)], vec![dir("Deep", vec![], vec![])]),
            dir("Title", vec![file("d.ttf", 4)], vec![]),
        ],
    );
    let steps: Vec<String> = write_dir(tree, &font_folder("/out")).iter().map(show).collect();
    assert_eq!(
        steps,
        vec![
            "/out Font",
            "/out Font/a.ttf 1",
            "/out Font/b.ttf 2",
            "/out Font/Context",
            "/out Font/Context/c.ttf 3",
            "/out Font/Context/Deep",
            "/out Font/Title",
            "/out Font/Title/d.ttf 4",
        ]
    );
}
