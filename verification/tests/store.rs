use portly::history::{read_stored_port, render_record};

fn read(content: &str, key: &str) -> Option<u16> {
    read_stored_port(&content.as_bytes().to_vec(), &key.as_bytes().to_vec())
}

#[test]
fn render_writes_the_exact_line() {
    let line = render_record(&b"PORT".to_vec(), 4500);
    assert_eq!(line, b"export PORT=4500".to_vec());
}

#[test]
fn render_single_digit_and_zero() {
    assert_eq!(render_record(&b"P".to_vec(), 7), b"export P=7".to_vec());
    assert_eq!(render_record(&b"P".to_vec(), 0), b"export P=0".to_vec());
    assert_eq!(render_record(&b"P".to_vec(), 65535), b"export P=65535".to_vec());
}

#[test]
fn write_then_read_round_trips() {
    let line = render_record(&b"PORT".to_vec(), 4500);
    assert_eq!(read_stored_port(&line, &b"PORT".to_vec()), Some(4500));
}

#[test]
fn round_trip_holds_for_awkward_keys() {
    for key in [&b"A"[..], b"", b"K 1", b"x=9", b"PORT"] {
        for port in [0u16, 9, 10, 3000, 65535] {
            let line = render_record(&key.to_vec(), port);
            assert_eq!(read_stored_port(&line, &key.to_vec()), Some(port), "key {key:?}");
        }
    }
}

#[test]
fn read_finds_the_record() {
    assert_eq!(read("export PORT=4500", "PORT"), Some(4500));
    assert_eq!(read("export PORT=4500\n", "PORT"), Some(4500));
    assert_eq!(read("export PORT=4500\r\n", "PORT"), Some(4500));
}

#[test]
fn read_misses_when_key_absent() {
    assert_eq!(read("export OTHER=4500", "PORT"), None);
    assert_eq!(read("", "PORT"), None);
    assert_eq!(read("PORT", "PORT"), None);
    assert_eq!(read("PORT=", "PORT"), None);
    assert_eq!(read("PORT=x", "PORT"), None);
}

#[test]
fn read_matches_key_as_substring() {
    // the pattern `PORT=(\d+)` matches inside `MYPORT=5000`
    assert_eq!(read("export MYPORT=5000", "PORT"), Some(5000));
}

#[test]
fn read_takes_first_line_that_parses() {
    assert_eq!(read("PORT=99999\nPORT=4500\n", "PORT"), Some(4500));
    assert_eq!(read("A=1\nPORT=4500\n", "PORT"), Some(4500));
    assert_eq!(read("PORT=1\nPORT=2\n", "PORT"), Some(1));
}

#[test]
fn read_considers_one_match_per_line() {
    // the first match of the line overflows, and no second match is tried
    assert_eq!(read("PORT=99999 PORT=5", "PORT"), None);
}

#[test]
fn read_rejects_values_above_port_space() {
    assert_eq!(read("PORT=65535", "PORT"), Some(65535));
    assert_eq!(read("PORT=65536", "PORT"), None);
}

#[test]
fn read_accepts_leading_zeros() {
    assert_eq!(read("PORT=007", "PORT"), Some(7));
    assert_eq!(read("PORT=0", "PORT"), Some(0));
}

#[test]
fn read_takes_maximal_digit_run() {
    // the run is `123456`, which overflows, not a prefix that would fit
    assert_eq!(read("PORT=123456", "PORT"), None);
}

#[test]
fn read_ignores_digits_elsewhere_on_the_line() {
    assert_eq!(read("12 export PORT=4500 99", "PORT"), Some(4500));
}
