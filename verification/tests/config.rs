use gamescope_idle::config::{config_file, CecMode, Config, LoadError, Source};
use gamescope_idle::opacity::Opacity;
use gamescope_idle::time::Duration;

#[test]
fn defaults_are_the_documented_ones() {
    let c = Config::default();
    assert_eq!(c.idle_timeout, 300);
    assert_eq!(c.dim_warning, 30);
    assert_eq!(c.dim_alpha, Opacity { level: (0.5f64 * 255.0).round() as u8, visible: true });
    assert_eq!(c.cec, CecMode::Auto);
    assert_eq!(c.cec_device, "/dev/cec0");
    assert!(c.ignore_devices.is_empty());
    assert!(c.watch_hidraw);
    assert_eq!(CecMode::default(), CecMode::Auto);
    assert_eq!(c.idle_timeout(), Duration { secs: 300, nanos: 0 });
    assert_eq!(c.dim_warning(), Duration { secs: 30, nanos: 0 });
}

#[test]
fn no_file_means_defaults() {
    for source in [Source::NoPath, Source::Missing] {
        match Config::load(source) {
            Ok(c) => assert_eq!((c.idle_timeout, c.dim_warning), (300, 30)),
            Err(_) => panic!("defaults expected"),
        }
    }
}

#[test]
fn a_file_that_was_read_is_used() {
    let mut c = Config::default();
    c.idle_timeout = 5;
    c.cec = CecMode::Off;
    match Config::load(Source::Parsed(c)) {
        Ok(c) => assert_eq!((c.idle_timeout, c.cec), (5, CecMode::Off)),
        Err(_) => panic!("settings expected"),
    }
}

#[test]
fn a_file_that_cannot_be_used_is_an_error() {
    let unreadable = Source::Unreadable {
        path: "/etc/gi.toml".to_string(),
        error: "permission denied".to_string(),
    };
    match Config::load(unreadable) {
        Err(e) => {
            assert!(matches!(e, LoadError::Unreadable { .. }));
            assert_eq!(e.message(), "reading /etc/gi.toml: permission denied");
        }
        Ok(_) => panic!("error expected"),
    }
    match Config::load(Source::Invalid { error: "unknown field".to_string() }) {
        Err(e) => {
            assert!(matches!(e, LoadError::Invalid { .. }));
            assert_eq!(e.message(), "unknown field");
        }
        Ok(_) => panic!("error expected"),
    }
}

#[test]
fn the_default_path_is_in_the_program_s_directory() {
    let dirs = directories::ProjectDirs::from("io.github", "gehhilfe", "gamescope-idle");
    let expected = dirs.map(|d| d.config_dir().join("config.toml"));
    let got = Config::default_path();
    assert_eq!(
        got.clone(),
        expected.map(|p| p.into_os_string().into_encoded_bytes())
    );
    if let Some(p) = got {
        assert!(p.ends_with(b"/gamescope-idle/config.toml"));
    }
    assert_eq!(Config::path(None), Config::default_path());
}

#[test]
fn a_path_that_was_asked_for_wins() {
    assert_eq!(Config::path(Some(b"/tmp/gi.toml".to_vec())), Some(b"/tmp/gi.toml".to_vec()));
    assert_eq!(
        config_file(Some(b"/home/a/.config/gamescope-idle".to_vec())),
        Some(b"/home/a/.config/gamescope-idle/config.toml".to_vec())
    );
    assert_eq!(config_file(None), None);
}
