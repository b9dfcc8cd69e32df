use gnome_wallpaperz::Config;
use gnome_wallpaperz::ConfigError;
use gnome_wallpaperz::IndexContext;
use gnome_wallpaperz::render;

fn args(list: &[&str]) -> Vec<String> {
    list.iter().map(|s| String::from(*s)).collect()
}

#[test]
fn missing_positional_arguments_fail_fast() {
    let err = Config::new(Vec::new()).unwrap_err();
    assert_eq!(err, ConfigError::MissingSourcePath);
    assert_eq!(err.message(), "Didn't get path to source folder");

    let err = Config::new(args(&["./wallpapers"])).unwrap_err();
    assert_eq!(err, ConfigError::MissingOutputFilename);
    assert_eq!(err.message(), "Didn't get the name of output file");
}

#[test]
fn paths_and_defaults_are_taken_verbatim() {
    let config = Config::new(args(&["./wallpapers", "out.xml"])).unwrap();
    assert_eq!(config.source_path, "./wallpapers");
    assert_eq!(config.output_filename, "out.xml");
    // absent start time defaults to the current local time
    assert!(1 <= config.starttime.month && config.starttime.month <= 12);
    assert!(1 <= config.starttime.day && config.starttime.day <= 31);
    assert!(config.starttime.hour < 24);
    assert!(config.starttime.minute < 60);
    assert!(config.starttime.second < 60);
    // absent durations default to 300 and 60 seconds
    assert_eq!(config.duration.int_part, "300");
    assert_eq!(config.duration.frac_part, "");
    assert_eq!(config.trans_duration.int_part, "60");
}

#[test]
fn supplied_start_time_is_parsed() {
    let config = Config::new(args(&["./wallpapers", "out.xml", "2020-12-16 16:02:02"])).unwrap();
    assert_eq!(config.starttime.year, 2020);
    assert_eq!(config.starttime.month, 12);
    assert_eq!(config.starttime.day, 16);
    assert_eq!(config.starttime.hour, 16);
    assert_eq!(config.starttime.minute, 2);
    assert_eq!(config.starttime.second, 2);
}

#[test]
fn unparsable_start_time_is_an_error() {
    let err = Config::new(args(&["./wallpapers", "out.xml", "yesterday"])).unwrap_err();
    assert_eq!(err, ConfigError::StartTimeParse);
    assert_eq!(err.message(), "Failed to parse provided start time");

    let err = Config::new(args(&["./wallpapers", "out.xml", "2020-13-40 99:99:99"])).unwrap_err();
    assert_eq!(err, ConfigError::StartTimeParse);
}

#[test]
fn durations_fall_back_to_defaults_silently() {
    let base = ["./wallpapers", "out.xml", "2020-12-16 16:02:02"];

    let config = Config::new(args(&[base[0], base[1], base[2], "45.60", "7"])).unwrap();
    assert_eq!(config.duration.int_part, "45");
    assert_eq!(config.duration.frac_part, "6");
    assert_eq!(config.trans_duration.int_part, "7");

    // unparsable, zero or negative text keeps the defaults
    let config = Config::new(args(&[base[0], base[1], base[2], "abc", "-5"])).unwrap();
    assert_eq!(config.duration.int_part, "300");
    assert_eq!(config.trans_duration.int_part, "60");

    let config = Config::new(args(&[base[0], base[1], base[2], "0.0", "60"])).unwrap();
    assert_eq!(config.duration.int_part, "300");
}

#[test]
fn config_feeds_rendering_end_to_end() {
    let config = Config::new(args(&[
        "./wallpapers",
        "out.xml",
        "2020-12-16 16:02:02",
        "300",
        "60",
    ]))
    .unwrap();
    let context = IndexContext::new(
        config.starttime,
        config.duration,
        config.trans_duration,
        vec![String::from("./a.jpeg")],
    );
    let rendered = render(context);
    assert!(rendered.contains("<year>2020</year>"));
    assert!(rendered.contains("<month>12</month>"));
    assert!(rendered.contains("<duration>300.0</duration>"));
    assert!(rendered.contains("<file>./a.jpeg</file>"));
}
