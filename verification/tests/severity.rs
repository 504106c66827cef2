use opentelemetry_sdk::severity::Severity;

const ALL: [Severity; 24] = [
    Severity::Trace,
    Severity::Trace2,
    Severity::Trace3,
    Severity::Trace4,
    Severity::Debug,
    Severity::Debug2,
    Severity::Debug3,
    Severity::Debug4,
    Severity::Info,
    Severity::Info2,
    Severity::Info3,
    Severity::Info4,
    Severity::Warn,
    Severity::Warn2,
    Severity::Warn3,
    Severity::Warn4,
    Severity::Error,
    Severity::Error2,
    Severity::Error3,
    Severity::Error4,
    Severity::Fatal,
    Severity::Fatal2,
    Severity::Fatal3,
    Severity::Fatal4,
];

#[test]
fn severity_names_follow_the_data_model() {
    let expected = [
        "TRACE", "TRACE2", "TRACE3", "TRACE4", "DEBUG", "DEBUG2", "DEBUG3", "DEBUG4", "INFO", "INFO2",
        "INFO3", "INFO4", "WARN", "WARN2", "WARN3", "WARN4", "ERROR", "ERROR2", "ERROR3", "ERROR4",
        "FATAL", "FATAL2", "FATAL3", "FATAL4",
    ];
    for (s, name) in ALL.iter().zip(expected.iter()) {
        assert_eq!(s.name(), *name);
    }
}

#[test]
fn severity_numbers_run_from_one_to_twenty_four() {
    for (i, s) in ALL.iter().enumerate() {
        assert_eq!(s.number(), i as i32 + 1);
    }
    assert_eq!(Severity::Info.number(), 9);
    assert_eq!(Severity::Fatal4.number(), 24);
}

#[test]
fn severity_order_follows_numbers() {
    for a in ALL.iter() {
        for b in ALL.iter() {
            assert_eq!(a < b, a.number() < b.number());
        }
    }
    assert!(Severity::Warn > Severity::Info4);
}

#[test]
fn severity_names_are_distinct() {
    for a in ALL.iter() {
        for b in ALL.iter() {
            assert_eq!(a.name() == b.name(), a == b);
        }
    }
}
