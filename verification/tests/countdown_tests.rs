use countdown::clock::format_duration;
use countdown::duration::Dur;
use countdown::parse::{InvalidOutType, OutType};
use countdown::timer::{plan, Action, Countdown, Phase};

/// Drives a countdown with every write succeeding, returning the rendered
/// ticks and the closing text.
fn drive(total: Dur, step: Dur, out: OutType) -> (Vec<String>, String) {
    let mut c = Countdown::new(total, out);
    let mut renders: Vec<String> = Vec::new();
    loop {
        match c.next_action() {
            Some(Action::Render(text)) => {
                renders.push(text);
                c.record_write(&step, true);
            }
            Some(Action::Finish(text)) => {
                c.record_write(&step, true);
                assert!(c.next_action().is_none());
                return (renders, text);
            }
            None => panic!("countdown stopped before its closing newline"),
        }
    }
}

#[test]
fn format_under_an_hour() {
    assert_eq!(format_duration(&Dur::from_secs(65)), "01:05");
    assert_eq!(format_duration(&Dur::from_secs(59)), "00:59");
    assert_eq!(format_duration(&Dur::from_secs(0)), "00:00");
    assert_eq!(format_duration(&Dur::from_secs(600)), "10:00");
}

#[test]
fn format_with_hours() {
    assert_eq!(format_duration(&Dur::from_secs(3600)), "01:00:00");
    assert_eq!(format_duration(&Dur::from_secs(3661)), "01:01:01");
    assert_eq!(format_duration(&Dur::from_secs(99 * 3600)), "99:00:00");
}

#[test]
fn format_widens_past_two_hour_digits() {
    assert_eq!(format_duration(&Dur::from_secs(100 * 3600)), "100:00:00");
    assert_eq!(format_duration(&Dur::from_secs(1000 * 3600 + 62)), "1000:01:02");
}

#[test]
fn format_truncates_subseconds() {
    assert_eq!(format_duration(&Dur::new(65, 999_999_999)), "01:05");
    assert_eq!(format_duration(&Dur::new(0, 500_000_000)), "00:00");
}

/// Builds the library's duration from a string the way the command-line
/// edge does: humantime parses, the library takes the parsed pair.
fn parsed(input: &str) -> Dur {
    let d = humantime::parse_duration(input).unwrap();
    Dur::new(d.as_secs(), d.subsec_nanos())
}

#[test]
fn parsed_durations_flow_into_the_clock() {
    assert_eq!(parsed("3m"), Dur::new(180, 0));
    assert_eq!(parsed("1h5m"), Dur::new(3900, 0));
    assert_eq!(parsed("5m15s"), Dur::new(315, 0));
    assert_eq!(parsed("500ms"), Dur::new(0, 500_000_000));
    assert_eq!(format_duration(&parsed("1h5m")), "01:05:00");
    assert_eq!(format_duration(&parsed("65s")), "01:05");
}

#[test]
fn rejection_message_names_input_and_tokens() {
    let e = OutType::from_str("term").unwrap_err();
    assert_eq!(e.message("term"), "term is not a valid input. Use stdout, file");
    assert_eq!(InvalidOutType.message(""), " is not a valid input. Use stdout, file");
}

#[test]
fn out_type_selectors() {
    assert_eq!(OutType::from_str("stdout"), Ok(OutType::STDOUT));
    assert_eq!(OutType::from_str("file"), Ok(OutType::FILE));
    assert!(OutType::from_str("terminal").is_err());
    assert!(OutType::from_str("").is_err());
    assert!(OutType::from_str("Stdout").is_err());
}

#[test]
fn five_second_countdown_renders_five_ticks() {
    let (renders, finish) = drive(Dur::from_secs(5), Dur::from_secs(1), OutType::STDOUT);
    assert_eq!(renders, vec!["00:05", "00:04", "00:03", "00:02", "00:01"]);
    assert_eq!(finish, "\n");
}

#[test]
fn plan_lists_every_render() {
    let v = plan(&Dur::from_secs(5), &Dur::from_secs(1));
    assert_eq!(v, vec!["00:05", "00:04", "00:03", "00:02", "00:01"]);
    let v = plan(&Dur::from_secs(10), &Dur::from_secs(3));
    assert_eq!(v, vec!["00:10", "00:07", "00:04", "00:01"]);
}

#[test]
fn oversized_step_renders_once_and_clamps() {
    let (renders, finish) = drive(Dur::from_secs(2), Dur::from_secs(5), OutType::STDOUT);
    assert_eq!(renders, vec!["00:02"]);
    assert_eq!(finish, "\n");
    assert_eq!(plan(&Dur::from_secs(2), &Dur::from_secs(5)), vec!["00:02"]);
}

#[test]
fn fractional_remainder_still_ticks() {
    let (renders, _) = drive(Dur::new(1, 500_000_000), Dur::from_secs(1), OutType::STDOUT);
    assert_eq!(renders, vec!["00:01", "00:00"]);
}

#[test]
fn file_sink_closing_write_keeps_the_last_render() {
    let (renders, finish) = drive(Dur::from_secs(2), Dur::from_secs(1), OutType::FILE);
    assert_eq!(renders, vec!["00:02", "00:01"]);
    // the file sink replaces the file on every write, so the closing write
    // must carry the last render for the file to end up holding it
    assert_eq!(finish, "00:01\n");
    let (renders, finish) = drive(Dur::from_secs(5), Dur::from_secs(2), OutType::FILE);
    assert_eq!(renders, vec!["00:05", "00:03", "00:01"]);
    assert_eq!(finish, "00:01\n");
}

#[test]
fn terminal_closing_write_is_a_bare_newline() {
    let (renders, finish) = drive(Dur::from_secs(2), Dur::from_secs(1), OutType::STDOUT);
    assert_eq!(renders, vec!["00:02", "00:01"]);
    assert_eq!(finish, "\n");
}

#[test]
fn zero_file_countdown_has_no_render_to_keep() {
    let (renders, finish) = drive(Dur::from_secs(0), Dur::from_secs(1), OutType::FILE);
    assert!(renders.is_empty());
    assert_eq!(finish, "\n");
}

#[test]
fn zero_countdown_goes_straight_to_newline() {
    let (renders, finish) = drive(Dur::from_secs(0), Dur::from_secs(1), OutType::STDOUT);
    assert!(renders.is_empty());
    assert_eq!(finish, "\n");
}

#[test]
fn failed_write_stops_everything() {
    let step = Dur::from_secs(1);
    let mut c = Countdown::new(Dur::from_secs(5), OutType::STDOUT);
    match c.next_action() {
        Some(Action::Render(text)) => assert_eq!(text, "00:05"),
        _ => panic!("expected a render first"),
    }
    c.record_write(&step, false);
    assert_eq!(c.phase, Phase::Failed);
    assert!(c.next_action().is_none());
    // even a later successful write revives nothing
    c.record_write(&step, true);
    assert!(c.next_action().is_none());
}

#[test]
fn failed_newline_write_stops_everything() {
    let step = Dur::from_secs(1);
    let mut c = Countdown::new(Dur::from_secs(1), OutType::FILE);
    match c.next_action() {
        Some(Action::Render(_)) => c.record_write(&step, true),
        _ => panic!("expected a render first"),
    }
    match c.next_action() {
        Some(Action::Finish(text)) => {
            assert_eq!(text, "00:01\n");
            c.record_write(&step, false);
        }
        _ => panic!("expected the closing write"),
    }
    assert_eq!(c.phase, Phase::Failed);
    assert!(c.next_action().is_none());
}
