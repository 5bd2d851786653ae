use charm_linux::engine::{pan_position, ControlError, CpuLayout, EngineControl, EngineStatus, mixer_layout};
use charm_linux::pack::{PackLoader, SoundMode, SoundPack};

fn pack(prefs: &str, files: &[&str]) -> SoundPack {
    let loader = PackLoader::new("packs".to_string());
    let files: Vec<String> = files.iter().map(|s| s.to_string()).collect();
    loader.load_pack("p", Some("p"), prefs, &files).unwrap()
}

#[test]
fn play_without_pack_fails() {
    let mut e = EngineControl::new();
    assert_eq!(e.status(), EngineStatus::Unloaded);
    assert_eq!(e.play(), Err(ControlError::NoPackLoaded));
    assert_eq!(e.status(), EngineStatus::Unloaded);
    assert!(!e.is_playing());
}

#[test]
fn load_play_stop_cycle() {
    let mut e = EngineControl::new();
    e.load_pack(pack("[soundpack]\n", &["CPU.ogg"]), 4);
    assert_eq!(e.status(), EngineStatus::Loaded);
    assert_eq!(e.play(), Ok(()));
    assert!(e.is_playing());
    e.stop();
    assert_eq!(e.status(), EngineStatus::Stopped);
    e.stop();
    assert_eq!(e.status(), EngineStatus::Stopped);
    assert_eq!(e.play(), Ok(()));
    assert_eq!(e.status(), EngineStatus::Playing);
}

#[test]
fn stop_twice_is_stop_once() {
    let mut e = EngineControl::new();
    e.stop();
    e.stop();
    assert_eq!(e.status(), EngineStatus::Unloaded);
    assert!(e.cpu_enabled() && e.ram_enabled() && e.disk_enabled());
}

#[test]
fn switches() {
    let mut e = EngineControl::new();
    e.set_cpu_enabled(false);
    e.set_ram_enabled(false);
    assert!(!e.cpu_enabled());
    assert!(!e.ram_enabled());
    assert!(e.disk_enabled());
    e.set_disk_enabled(false);
    assert!(!e.disk_enabled());
}

#[test]
fn load_pack_twice_same_mixer() {
    let p = pack("[soundpack]\nRAMSoundMode=2\n", &["CPU.ogg", "RAM_A.ogg", "RAM_B.ogg"]);
    let mut e = EngineControl::new();
    let first = e.load_pack(p.clone(), 2);
    let second = e.load_pack(p.clone(), 2);
    assert_eq!(format!("{:?}", first), format!("{:?}", second));
    assert_eq!(e.status(), EngineStatus::Loaded);
    assert_eq!(e.pack().map(|q| q.name().to_string()), Some("p".to_string()));
    assert!(!e.uses_averages());
}

#[test]
fn per_core_layout() {
    let p = pack("[soundpack]\nSlideInterval=3\nFrequencyFluctuation=1\n", &["CPU.ogg"]);
    let l = mixer_layout(&p, 8);
    match l.cpu {
        CpuLayout::PerCore { path, cores, slide_interval, frequency_fluctuation } => {
            assert_eq!(path, "p/CPU.ogg");
            assert_eq!(cores, 8);
            assert_eq!(slide_interval, 3);
            assert!(frequency_fluctuation);
        }
        other => panic!("{:?}", other),
    }
    assert!(l.ram.is_none());
    assert!(l.disk.is_none());
}

#[test]
fn averaged_layout() {
    let p = pack("[soundpack]\nUseAverages=1\nCPUSoundMode=2\nSlideInterval=1\n", &["CPU_A.ogg", "CPU_B.ogg", "disk.ogg"]);
    let mut e = EngineControl::new();
    let l = e.load_pack(p, 4);
    assert!(e.uses_averages());
    match l.cpu {
        CpuLayout::Averaged(c) => {
            assert_eq!(c.mode, SoundMode::Fade);
            assert_eq!(c.primary.as_deref(), Some("p/CPU_A.ogg"));
            assert_eq!(c.secondary.as_deref(), Some("p/CPU_B.ogg"));
            assert_eq!(c.slide_interval, 1);
        }
        other => panic!("{:?}", other),
    }
    let d = l.disk.unwrap();
    assert_eq!(d.mode, SoundMode::Volume);
    assert_eq!(d.primary.as_deref(), Some("p/disk.ogg"));
}

#[test]
fn silent_cpu_without_sound() {
    let p = pack("[soundpack]\n", &["RAM.ogg"]);
    let l = mixer_layout(&p, 4);
    assert!(matches!(l.cpu, CpuLayout::Silent));
    assert!(l.ram.is_some());
}

#[test]
fn per_core_pan_layout() {
    let expected = [-1.0f64, -1.0 / 3.0, 1.0 / 3.0, 1.0];
    for i in 0..4 {
        let (num, den) = pan_position(i, 4);
        assert!((num as f64 / den as f64 - expected[i]).abs() < 1e-6);
    }
    assert_eq!(pan_position(0, 4), (-3, 3));
    assert_eq!(pan_position(3, 4), (3, 3));
    assert_eq!(pan_position(0, 1), (0, 1));
    assert_eq!(pan_position(1, 3), (0, 2));
}
