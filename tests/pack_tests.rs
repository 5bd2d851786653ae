use charm_linux::pack::{
    interval_setting, mode_setting, switch_setting, ChannelSounds, PackLoader, SoundMode, SoundPackConfig,
    SoundPackError,
};

fn names(list: &[&str]) -> Vec<String> {
    list.iter().map(|s| s.to_string()).collect()
}

fn load(prefs: &str, files: &[&str]) -> Result<charm_linux::pack::SoundPack, SoundPackError> {
    let loader = PackLoader::new("packs".to_string());
    loader.load_pack("packs/test", Some("test"), prefs, &names(files))
}

#[test]
fn sound_mode_from_int() {
    assert_eq!(SoundMode::from_int(0), SoundMode::Disabled);
    assert_eq!(SoundMode::from_int(1), SoundMode::Volume);
    assert_eq!(SoundMode::from_int(2), SoundMode::Fade);
    assert_eq!(SoundMode::from_int(3), SoundMode::Volume);
    assert_eq!(SoundMode::from_int(-1), SoundMode::Volume);
    assert_eq!(SoundMode::default(), SoundMode::Volume);
}

#[test]
fn config_defaults() {
    let c = SoundPackConfig::default();
    assert!(!c.use_averages);
    assert_eq!(c.cpu_mode, SoundMode::Volume);
    assert_eq!(c.ram_mode, SoundMode::Volume);
    assert_eq!(c.disk_mode, SoundMode::Volume);
    assert_eq!(c.slide_interval, 20);
    assert!(!c.frequency_fluctuation);
}

#[test]
fn channel_sounds_constructors() {
    let n = ChannelSounds::none();
    assert!(!n.has_sounds());
    let s = ChannelSounds::single("a.ogg".to_string());
    assert!(s.has_sounds());
    assert_eq!(s.secondary, None);
    let p = ChannelSounds::pair("a.ogg".to_string(), "b.ogg".to_string());
    assert_eq!(p.primary.as_deref(), Some("a.ogg"));
    assert_eq!(p.secondary.as_deref(), Some("b.ogg"));
}

#[test]
fn averaged_cpu_pack_settings() {
    let prefs = "[soundpack]\nUseAverages=1\nCPUSoundMode=1\nSlideInterval=1\n";
    let pack = load(prefs, &["CPU.ogg", "RAM.wav", "disk.mp3"]).unwrap();
    assert!(pack.config.use_averages);
    assert_eq!(pack.config.cpu_mode, SoundMode::Volume);
    assert_eq!(pack.config.slide_interval, 1);
    assert!(!pack.config.frequency_fluctuation);
    assert_eq!(pack.cpu_sounds.primary.as_deref(), Some("packs/test/CPU.ogg"));
    assert_eq!(pack.ram_sounds.primary.as_deref(), Some("packs/test/RAM.wav"));
    assert_eq!(pack.disk_sounds.primary.as_deref(), Some("packs/test/disk.mp3"));
    assert_eq!(pack.name(), "test");
    assert_eq!(pack.directory, "packs/test");
}

#[test]
fn fade_pack_resolves_pair() {
    let prefs = "[soundpack]\nRAMSoundMode=2\nSlideInterval=1\n";
    let pack = load(prefs, &["RAM_A.ogg", "RAM_B.ogg"]).unwrap();
    assert_eq!(pack.config.ram_mode, SoundMode::Fade);
    assert_eq!(pack.ram_sounds.primary.as_deref(), Some("packs/test/RAM_A.ogg"));
    assert_eq!(pack.ram_sounds.secondary.as_deref(), Some("packs/test/RAM_B.ogg"));
    assert!(!pack.cpu_sounds.has_sounds());
    assert!(!pack.disk_sounds.has_sounds());
}

#[test]
fn malformed_values_take_defaults() {
    let prefs = "[soundpack]\nUseAverages=yes\nCPUSoundMode=abc\nSlideInterval=-3\nFrequencyFluctuation=7\nUnknown=1\n";
    let pack = load(prefs, &[]).unwrap();
    assert!(!pack.config.use_averages);
    assert_eq!(pack.config.cpu_mode, SoundMode::Volume);
    assert_eq!(pack.config.slide_interval, 20);
    assert!(pack.config.frequency_fluctuation);
}

#[test]
fn disabled_mode_and_other_integers() {
    let prefs = "[soundpack]\nCPUSoundMode=0\nRAMSoundMode=5\nDiskSoundMode=+2\nSlideInterval=+40\n";
    let pack = load(prefs, &["CPU.ogg", "RAM.ogg", "disk_A.ogg", "disk_B.ogg"]).unwrap();
    assert_eq!(pack.config.cpu_mode, SoundMode::Disabled);
    assert!(!pack.cpu_sounds.has_sounds());
    assert_eq!(pack.config.ram_mode, SoundMode::Volume);
    assert_eq!(pack.config.disk_mode, SoundMode::Fade);
    assert_eq!(pack.config.slide_interval, 40);
    assert_eq!(pack.disk_sounds.secondary.as_deref(), Some("packs/test/disk_B.ogg"));
}

#[test]
fn missing_section_is_parse_error() {
    let r = load("[other]\nUseAverages=1\n", &[]);
    match r {
        Err(SoundPackError::ParseError(m)) => assert_eq!(m, "Missing [soundpack] section"),
        _ => panic!("expected a parse error"),
    }
}

#[test]
fn malformed_document_is_parse_error() {
    let r = load("[soundpack\nUseAverages=1\n", &[]);
    assert!(matches!(r, Err(SoundPackError::ParseError(_))));
}

#[test]
fn unnamed_directory_is_unknown() {
    let loader = PackLoader::new("packs".to_string());
    let pack = loader.load_pack("/", None, "[soundpack]\n", &Vec::new()).unwrap();
    assert_eq!(pack.name(), "Unknown");
    assert_eq!(loader.directory(), "packs");
}

#[test]
fn resolve_prefers_extension_order() {
    let files = names(&["CPU.mp3", "CPU.wav"]);
    let s = PackLoader::resolve_sounds("d", "CPU", SoundMode::Volume, &files);
    assert_eq!(s.primary.as_deref(), Some("d/CPU.wav"));
    assert_eq!(s.secondary, None);
}

#[test]
fn resolve_falls_back_to_lowercase() {
    let files = names(&["cpu.flac"]);
    let s = PackLoader::resolve_sounds("d", "CPU", SoundMode::Volume, &files);
    assert_eq!(s.primary.as_deref(), Some("d/cpu.flac"));
    let files = names(&["ram_a.ogg", "ram_b.ogg"]);
    let s = PackLoader::resolve_sounds("d", "RAM", SoundMode::Fade, &files);
    assert_eq!(s.primary.as_deref(), Some("d/ram_a.ogg"));
    assert_eq!(s.secondary.as_deref(), Some("d/ram_b.ogg"));
}

#[test]
fn fade_without_pair_falls_back_to_single() {
    let files = names(&["RAM_A.ogg", "RAM.ogg"]);
    let s = PackLoader::resolve_sounds("d", "RAM", SoundMode::Fade, &files);
    assert_eq!(s.primary.as_deref(), Some("d/RAM.ogg"));
    assert_eq!(s.secondary, None);
    let s = PackLoader::resolve_sounds("d", "RAM", SoundMode::Disabled, &files);
    assert!(!s.has_sounds());
    let s = PackLoader::resolve_sounds("d", "disk", SoundMode::Volume, &files);
    assert!(!s.has_sounds());
}

#[test]
fn description_texts() {
    let pack = load("[soundpack]\n", &[]).unwrap();
    assert_eq!(pack.description(), "Per-core CPU | Monitors: CPU, RAM, Disk");
    let pack = load("[soundpack]\nUseAverages=1\nRAMSoundMode=0\n", &[]).unwrap();
    assert_eq!(pack.description(), "Averaged CPU | Monitors: CPU, Disk");
    let pack = load("[soundpack]\nCPUSoundMode=0\nRAMSoundMode=0\nDiskSoundMode=0\n", &[]).unwrap();
    assert_eq!(pack.description(), "Per-core CPU");
}

#[test]
fn error_messages() {
    assert_eq!(SoundPackError::IoError("x".to_string()).message(), "IO error: x");
    assert_eq!(SoundPackError::ParseError("y".to_string()).message(), "Config parse error: y");
    assert_eq!(SoundPackError::MissingSoundFile("z.ogg".to_string()).message(), "Missing sound file: z.ogg");
}

#[test]
fn setting_readers() {
    assert!(switch_setting(Some("1".to_string())));
    assert!(switch_setting(Some("-2".to_string())));
    assert!(!switch_setting(Some("0".to_string())));
    assert!(!switch_setting(Some("on".to_string())));
    assert!(!switch_setting(None));
    assert_eq!(mode_setting(Some("2".to_string())), SoundMode::Fade);
    assert_eq!(mode_setting(Some("0".to_string())), SoundMode::Disabled);
    assert_eq!(mode_setting(Some("x".to_string())), SoundMode::Volume);
    assert_eq!(mode_setting(None), SoundMode::Volume);
    assert_eq!(interval_setting(Some("5".to_string())), 5);
    assert_eq!(interval_setting(Some("0".to_string())), 0);
    assert_eq!(interval_setting(Some("4294967296".to_string())), 20);
    assert_eq!(interval_setting(None), 20);
}

#[test]
fn config_from_section_entries() {
    let mut p = ini::Properties::new();
    p.insert("UseAverages", "1");
    p.insert("DiskSoundMode", "2");
    p.insert("SlideInterval", "7");
    p.insert("FrequencyFluctuation", "1");
    let c = SoundPackConfig::from_section(&p);
    assert!(c.use_averages);
    assert_eq!(c.cpu_mode, SoundMode::Volume);
    assert_eq!(c.ram_mode, SoundMode::Volume);
    assert_eq!(c.disk_mode, SoundMode::Fade);
    assert_eq!(c.slide_interval, 7);
    assert!(c.frequency_fluctuation);
}

#[test]
fn values_are_trimmed_by_the_document_parser() {
    let pack = load("[soundpack]\nSlideInterval = 12 \nUseAverages= 1\n", &[]).unwrap();
    assert_eq!(pack.config.slide_interval, 12);
    assert!(pack.config.use_averages);
}

#[test]
fn paths_join_with_one_separator() {
    let files = vec!["CPU.ogg".to_string()];
    let s = PackLoader::resolve_sounds("d/", "CPU", SoundMode::Volume, &files);
    assert_eq!(s.primary.as_deref(), Some("d/CPU.ogg"));
    let s = PackLoader::resolve_sounds("", "CPU", SoundMode::Volume, &files);
    assert_eq!(s.primary.as_deref(), Some("CPU.ogg"));
    let s = PackLoader::resolve_sounds("/usr/share/packs/a", "CPU", SoundMode::Volume, &files);
    assert_eq!(s.primary.as_deref(), Some("/usr/share/packs/a/CPU.ogg"));
}
