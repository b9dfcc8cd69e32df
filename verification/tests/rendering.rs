use gnome_wallpaperz::Decimal;
use gnome_wallpaperz::IndexContext;
use gnome_wallpaperz::StartTime;
use gnome_wallpaperz::render;

fn start_time() -> StartTime {
    StartTime {
        year: 2020,
        month: 2,
        day: 12,
        hour: 16,
        minute: 2,
        second: 2,
    }
}

#[test]
fn render_returns_static_and_transition() {
    let starttime = start_time();
    let duration = Decimal::parse("300.0").unwrap();
    let trans_duration = Decimal::parse("60.0").unwrap();
    let filenames = vec![
        String::from("./my_awesome_file_0.jpeg"),
        String::from("./my_awesome_file_1.jpeg"),
    ];
    let expected_tmpl = format!(
        "\
<background>
  <starttime>
    <year>{year}</year>
    <month>{month:02}</month>
    <day>{day}</day>
    <hour>{hour}</hour>
    <minute>{minute:02}</minute>
    <second>{second:02}</second>
  </starttime>

  <static>
    <duration>{duration:.1}</duration>
    <file>{filename_0}</file>
  </static>

  <transition type=\"overlay\">
    <duration>{trans_duration:.1}</duration>
    <from>{filename_0}</from>
    <to>{filename_1}</to>
  </transition>

  <static>
    <duration>{duration:.1}</duration>
    <file>{filename_1}</file>
  </static>

  <transition type=\"overlay\">
    <duration>{trans_duration:.1}</duration>
    <from>{filename_1}</from>
    <to>{filename_0}</to>
  </transition>
</background>",
        year = starttime.year,
        month = starttime.month,
        day = starttime.day,
        hour = starttime.hour,
        minute = starttime.minute,
        second = starttime.second,
        duration = 300.0,
        filename_0 = "./my_awesome_file_0.jpeg",
        trans_duration = 60.0,
        filename_1 = "./my_awesome_file_1.jpeg"
    );
    let render_context = IndexContext::new(starttime, duration, trans_duration, filenames);
    let rendered = render(render_context);

    assert_eq!(expected_tmpl, rendered)
}

#[test]
fn render_single_file_static_only() {
    let duration = Decimal::parse("300.0").unwrap();
    let trans_duration = Decimal::parse("60.0").unwrap();
    let filenames = vec![String::from("./a.jpeg")];
    let context = IndexContext::new(start_time(), duration, trans_duration, filenames);
    let rendered = render(context);

    let expected = "\
<background>
  <starttime>
    <year>2020</year>
    <month>02</month>
    <day>12</day>
    <hour>16</hour>
    <minute>02</minute>
    <second>02</second>
  </starttime>

  <static>
    <duration>300.0</duration>
    <file>./a.jpeg</file>
  </static>
</background>";
    assert_eq!(expected, rendered);
    assert_eq!(rendered.matches("<static>").count(), 1);
    assert!(!rendered.contains("<transition"));
}

#[test]
fn render_two_files_forms_cycle_in_order() {
    let duration = Decimal::parse("300.0").unwrap();
    let trans_duration = Decimal::parse("60.0").unwrap();
    let filenames = vec![String::from("./a.jpeg"), String::from("./b.jpeg")];
    let context = IndexContext::new(start_time(), duration, trans_duration, filenames);
    let rendered = render(context);

    let static_a = rendered.find("<file>./a.jpeg</file>").unwrap();
    let trans_ab = rendered
        .find("<from>./a.jpeg</from>\n    <to>./b.jpeg</to>")
        .unwrap();
    let static_b = rendered.find("<file>./b.jpeg</file>").unwrap();
    let trans_ba = rendered
        .find("<from>./b.jpeg</from>\n    <to>./a.jpeg</to>")
        .unwrap();
    assert!(static_a < trans_ab);
    assert!(trans_ab < static_b);
    assert!(static_b < trans_ba);
    assert_eq!(rendered.matches("<static>").count(), 2);
    assert_eq!(rendered.matches("<transition type=\"overlay\">").count(), 2);
}

#[test]
fn render_three_files_wraps_to_first() {
    let duration = Decimal::from_u64(10);
    let trans_duration = Decimal::from_u64(5);
    let filenames = vec![
        String::from("one"),
        String::from("two"),
        String::from("three"),
    ];
    let context = IndexContext::new(start_time(), duration, trans_duration, filenames);
    let rendered = render(context);

    assert_eq!(rendered.matches("<static>").count(), 3);
    assert_eq!(rendered.matches("<transition type=\"overlay\">").count(), 3);
    assert!(rendered.contains("<from>three</from>\n    <to>one</to>"));
    assert!(rendered.contains("<duration>10.0</duration>"));
    assert!(rendered.contains("<duration>5.0</duration>"));
}

#[test]
fn render_no_files_gives_empty_schedule() {
    let duration = Decimal::from_u64(300);
    let trans_duration = Decimal::from_u64(60);
    let context = IndexContext::new(start_time(), duration, trans_duration, Vec::new());
    let rendered = render(context);

    let expected = "\
<background>
  <starttime>
    <year>2020</year>
    <month>02</month>
    <day>12</day>
    <hour>16</hour>
    <minute>02</minute>
    <second>02</second>
  </starttime>
</background>";
    assert_eq!(expected, rendered);
}

#[test]
fn render_twice_is_byte_identical() {
    let make = || {
        IndexContext::new(
            start_time(),
            Decimal::parse("300.0").unwrap(),
            Decimal::parse("60.0").unwrap(),
            vec![String::from("./a.jpeg"), String::from("./b.jpeg")],
        )
    };
    assert_eq!(render(make()), render(make()));
}
