use ssml_parser::elements::{Decimal, TimeDesignation};

#[test]
fn duration_conversion() {
    let time = TimeDesignation::Seconds(Decimal { mantissa: 2, scale: 0 });
    let time_ms = TimeDesignation::Milliseconds(Decimal { mantissa: 2000, scale: 0 });
    assert_eq!(time.duration(), time_ms.duration());
}

#[test]
fn duration_of_fractions() {
    let t = TimeDesignation::from_str("1.5s").unwrap();
    assert_eq!(t.seconds_and_nanos(), (1, 500_000_000));
    let t = TimeDesignation::from_str("250ms").unwrap();
    assert_eq!(t.duration(), std::time::Duration::from_millis(250));
    let t = TimeDesignation::from_str("0.0000000001s").unwrap();
    assert_eq!(t.seconds_and_nanos(), (0, 0));
}
