use propane_monitor_embassy::signal::{parse_report, rsrp_dbm, COMMA, FIELDS, RSRP_MAX_INDEX};

fn report(fields: [u8; 6]) -> Vec<u8> {
    format!(
        "+CESQ: {},{},{},{},{},{}\r\nOK\r\n",
        fields[0], fields[1], fields[2], fields[3], fields[4], fields[5]
    )
    .into_bytes()
}

#[test]
fn constants_of_a_report() {
    assert_eq!(FIELDS, 6);
    assert_eq!(RSRP_MAX_INDEX, 97);
    assert_eq!(COMMA, b',');
}

#[test]
fn report_gives_its_six_fields() {
    assert_eq!(
        parse_report(b"+CESQ: 99,99,255,255,31,62\r\nOK\r\n"),
        Some(vec![99, 99, 255, 255, 31, 62])
    );
}

#[test]
fn index_62_is_minus_78_dbm() {
    assert_eq!(rsrp_dbm(b"+CESQ: 99,99,255,255,31,62\r\nOK\r\n"), Some(-78));
}

#[test]
fn lowest_and_highest_levels() {
    assert_eq!(rsrp_dbm(&report([99, 99, 255, 255, 0, 0])), Some(-140));
    assert_eq!(rsrp_dbm(&report([99, 99, 255, 255, 34, 97])), Some(-43));
}

#[test]
fn unknown_power_gives_no_level() {
    let text = report([99, 99, 255, 255, 255, 255]);
    assert_eq!(parse_report(&text), Some(vec![99, 99, 255, 255, 255, 255]));
    assert_eq!(rsrp_dbm(&text), None);
    assert_eq!(rsrp_dbm(&report([99, 99, 255, 255, 20, 98])), None);
}

#[test]
fn every_field_value_reads_back() {
    for value in 0u8..=255 {
        let fields = [value, 0, 255, value, 9, value];
        assert_eq!(parse_report(&report(fields)), Some(fields.to_vec()));
        let expected = if value <= 97 { Some(value as i32 - 140) } else { None };
        assert_eq!(rsrp_dbm(&report(fields)), expected);
    }
}

#[test]
fn leading_zeros_are_digits_too() {
    assert_eq!(
        parse_report(b"+CESQ: 099,09,255,255,031,007\r\nOK\r\n"),
        Some(vec![99, 9, 255, 255, 31, 7])
    );
}

#[test]
fn malformed_answers_are_no_reports() {
    let wrong: [&[u8]; 14] = [
        b"",
        b"OK\r\n",
        b"ERROR\r\n",
        b"+CESQ: 99,99,255,255,31,62",
        b"+CESQ: 99,99,255,255,31,62\r\nOK\r\n ",
        b" +CESQ: 99,99,255,255,31,62\r\nOK\r\n",
        b"+CESQ:99,99,255,255,31,62\r\nOK\r\n",
        b"+CESQ: 99,99,255,255,31\r\nOK\r\n",
        b"+CESQ: 99,99,255,255,31,62,1\r\nOK\r\n",
        b"+CESQ: 99,99,255,255,,62\r\nOK\r\n",
        b"+CESQ: 99,99,255,256,31,62\r\nOK\r\n",
        b"+CESQ: 99,99,255,255,31,0062\r\nOK\r\n",
        b"+CESQ: 99,99,255,255,31,-6\r\nOK\r\n",
        b"+CEREG: 99,99,255,255,31,62\r\nOK\r\n",
    ];
    for text in wrong {
        assert_eq!(parse_report(text), None);
        assert_eq!(rsrp_dbm(text), None);
    }
}
