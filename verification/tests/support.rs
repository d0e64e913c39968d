use lightbench::error::message_with;
use lightbench::filter::can_read;
use lightbench::float::{FIVE_HUNDRED, ONE_TENTH, ONE_THOUSAND, ONE_THOUSANDTH, TEN_THOUSAND};
use lightbench::logging::{elapsed_ns, init, init_default, installation};
use lightbench::output::{directory_to_create, OutputOp};
use lightbench::text::{comma_line, decimal_text, joined_text};
use lightbench::{BenchmarkConfig, Float, FrameworkError, OutputWriter, Span};

fn f(x: f64) -> Float {
    Float::from_bits(x.to_bits())
}

#[test]
fn constants_have_their_values() {
    assert_eq!(f64::from_bits(ONE_TENTH), 0.1);
    assert_eq!(f64::from_bits(ONE_THOUSANDTH), 0.001);
    assert_eq!(f64::from_bits(FIVE_HUNDRED), 500.0);
    assert_eq!(f64::from_bits(ONE_THOUSAND), 1000.0);
    assert_eq!(f64::from_bits(TEN_THOUSAND), 10000.0);
}

#[test]
fn the_order_is_that_of_the_processor() {
    let values = [
        f64::NEG_INFINITY,
        f64::MIN,
        -1000.5,
        -1.0,
        -f64::MIN_POSITIVE,
        -5e-324,
        -0.0,
        0.0,
        5e-324,
        f64::MIN_POSITIVE,
        0.1,
        1.0,
        1.0000000000000002,
        1000.0,
        f64::MAX,
        f64::INFINITY,
        f64::NAN,
        -f64::NAN,
    ];
    for a in values {
        for b in values {
            assert_eq!(f(a).le(f(b)), a <= b, "{} <= {}", a, b);
            assert_eq!(f(a).lt(f(b)), a < b, "{} < {}", a, b);
        }
    }
}

#[test]
fn quantities_are_held_to_a_range() {
    assert_eq!(f(2.0).max(f(3.0)), f(3.0));
    assert_eq!(f(3.0).max(f(2.0)), f(3.0));
    assert_eq!(f(f64::NAN).max(f(2.0)), f(2.0));
    assert_eq!(f(-2.0).or_zero(), f(0.0));
    assert_eq!(f(2.0).or_zero(), f(2.0));
    assert_eq!(f(0.5).clamp(f(1.0), f(2.0)), f(1.0));
    assert_eq!(f(1.5).clamp(f(1.0), f(2.0)), f(1.5));
    assert_eq!(f(2.5).clamp(f(1.0), f(2.0)), f(2.0));
}

#[test]
fn spans_count_seconds_and_nanoseconds() {
    assert_eq!(Span::from_secs(3), Span { secs: 3, nanos: 0 });
    assert_eq!(Span::from_millis(1234), Span { secs: 1, nanos: 234_000_000 });
    assert_eq!(Span::from_millis(999), Span { secs: 0, nanos: 999_000_000 });
    assert!(Span::from_secs(0).is_zero());
    assert!(!Span { secs: 0, nanos: 1 }.is_zero());
    assert!(!Span::from_secs(1).is_zero());
}

#[test]
fn decimal_notation_is_that_of_the_standard_library() {
    for n in [0, 1, 9, 10, 11, 99, 100, 101, 1234567890, u64::MAX] {
        assert_eq!(decimal_text(n), n.to_string());
    }
}

#[test]
fn parts_and_fields_are_joined() {
    assert_eq!(joined_text(vec!["a", "", "bc"]), "abc");
    assert_eq!(joined_text(vec![]), "");
    assert_eq!(comma_line(&vec!["a".to_string(), "".to_string(), "c".to_string()]), "a,,c");
    assert_eq!(comma_line(&vec!["a".to_string()]), "a");
    assert_eq!(comma_line(&vec![]), "");
}

#[test]
fn errors_have_messages() {
    let logging = FrameworkError::Logging("twice".to_string());
    assert_eq!(logging.message(), "logging init failed: twice");
    let io = FrameworkError::from(std::io::Error::new(std::io::ErrorKind::Other, "disk full"));
    assert!(matches!(io, FrameworkError::Io(_)));
    assert_eq!(io.message(), "io: disk full");
    assert_eq!(message_with(true, "x"), "io: x");
    assert_eq!(message_with(false, "x"), "logging init failed: x");
}

#[test]
fn logging_is_set_up_once() {
    assert!(init("warn").is_ok());
    assert!(matches!(init("debug"), Err(FrameworkError::Logging(_))));
    match init_default() {
        Err(FrameworkError::Logging(text)) => assert!(!text.is_empty()),
        _ => panic!("logging was set up twice"),
    }
}

/// Filters of ASCII, without white space in front, or with every cut between characters.
const READABLE: [&str; 19] = [
    "",
    "info",
    " info",
    "my_crate=info,my_crate::db=debug",
    "a=info, b=debug",
    " [a{b=1}]=info",
    "\u{e9}=info",
    "a=info,\u{e9}=debug, c=trace",
    "\u{e9} =info",
    " \u{e9}",
    "\u{3000}",
    "\u{a0}info",
    "\u{e9},\u{a0}",
    "\u{a0}ab=info",
    " a=\u{e9}",
    " [\u{e9}",
    " ![\u{e9}]",
    " [ab{cd}]\u{e9}",
    " a[b]\u{e9}=c",
];

#[test]
fn filters_that_cannot_be_read_are_told() {
    for level in READABLE {
        assert!(can_read(level), "{level:?}");
    }
    // A cut inside a character: at the target, the span, the field, in a later directive.
    for level in ["\u{3000}a=info", " \u{e9}=info", "a=info,\t\u{e9}=debug", "\u{a0}a[b"] {
        assert!(!can_read(level), "{level:?}");
    }
    for level in ["\u{a0}[b]", " [\u{e9}]", " [a{\u{e9}}", " [a{b}]=info, [\u{e9}{"] {
        assert!(!can_read(level), "{level:?}");
    }
}

#[test]
fn readable_filters_are_read() {
    for level in READABLE {
        assert!(matches!(init(level), Ok(()) | Err(FrameworkError::Logging(_))), "{level:?}");
    }
}

#[test]
fn an_installation_error_is_handed_on() {
    assert!(installation(Ok(())).is_ok());
    match installation(Err("already set".to_string())) {
        Err(FrameworkError::Logging(text)) => assert_eq!(text, "already set"),
        _ => panic!("the error is lost"),
    }
}

#[test]
fn elapsed_time_is_never_negative() {
    assert_eq!(elapsed_ns(100, 350), 250);
    assert_eq!(elapsed_ns(350, 100), 0);
}

#[test]
fn settings_have_defaults() {
    let config = BenchmarkConfig::default();
    assert_eq!(config.rate, None);
    assert_eq!(config.rate_per_worker, None);
    assert_eq!(config.workers, 4);
    assert_eq!(config.duration, 5);
    assert_eq!(config.ramp_up, None);
    assert_eq!(config.ramp_start_rate, f(0.0));
    assert_eq!(config.burst_factor, f(0.1));
    assert_eq!(config.csv, None);
    assert!(!config.no_progress);
    assert!(!config.hide_ramp_progress);
    assert_eq!(config.drain_timeout, 30);
    assert_eq!(config.drain(), Some(Span::from_secs(30)));
}

#[test]
fn a_drain_timeout_of_zero_disables_draining() {
    let config = BenchmarkConfig { drain_timeout: 0, ..BenchmarkConfig::default() };
    assert_eq!(config.drain(), None);
    let config = BenchmarkConfig { drain_timeout: 1, ..BenchmarkConfig::default() };
    assert_eq!(config.drain(), Some(Span::from_secs(1)));
}

#[test]
fn directories_are_created_for_nested_paths() {
    assert_eq!(directory_to_create(Some("out/csv".to_string())), Some("out/csv".to_string()));
    assert_eq!(directory_to_create(Some(String::new())), None);
    assert_eq!(directory_to_create(None), None);
}

#[test]
fn a_file_gets_the_header_first_and_is_flushed_after_each_row() {
    let (writer, opening) = OutputWriter::new_csv(7u8, "a,b".to_string());
    assert!(matches!(writer, OutputWriter::Csv(7)));
    assert_eq!(opening.len(), 2);
    assert!(matches!(&opening[0], OutputOp::Write(text) if text == "a,b"));
    assert!(matches!(&opening[1], OutputOp::Write(text) if text == "\n"));
    let row = writer.write_snapshot("1,2".to_string());
    assert_eq!(row.len(), 3);
    assert!(matches!(&row[0], OutputOp::Write(text) if text == "1,2"));
    assert!(matches!(&row[1], OutputOp::Write(text) if text == "\n"));
    assert!(matches!(&row[2], OutputOp::Flush));
    let flush = writer.flush();
    assert_eq!(flush.len(), 1);
    assert!(matches!(&flush[0], OutputOp::Flush));
}

#[test]
fn standard_output_gets_lines() {
    let writer: OutputWriter<u8> = OutputWriter::new_stdout();
    let row = writer.write_snapshot("1,2".to_string());
    assert_eq!(row.len(), 1);
    assert!(matches!(&row[0], OutputOp::Print(text) if text == "1,2"));
    assert!(writer.flush().is_empty());
}
