use portly::ownership::{
    ownership_from_outputs, parse_app_pids, parse_holder_pid, pid_is_registered,
};

fn owned(lsof: Option<&str>, pm2: Option<&str>) -> bool {
    let l = lsof.map(|s| s.as_bytes().to_vec());
    let p = pm2.map(|s| s.as_bytes().to_vec());
    ownership_from_outputs(l.as_ref(), p.as_ref())
}

#[test]
fn holder_in_registered_set_is_owned() {
    assert!(owned(Some("1234\n"), Some("1000\n1234\n")));
}

#[test]
fn holder_not_in_registered_set_is_not_owned() {
    assert!(!owned(Some("1234\n"), Some("1000\n2000\n")));
}

#[test]
fn failed_queries_degrade_to_not_owned() {
    assert!(!owned(None, Some("1234\n")));
    assert!(!owned(Some("1234\n"), None));
    assert!(!owned(None, None));
}

#[test]
fn empty_or_garbled_outputs_degrade_to_not_owned() {
    assert!(!owned(Some(""), Some("1234\n")));
    assert!(!owned(Some("no such port\n"), Some("1234\n")));
    assert!(!owned(Some("1234\n"), Some("")));
    assert!(!owned(Some("1234\n"), Some("[PM2] nothing running\n")));
}

#[test]
fn holder_pid_takes_first_line_trimmed() {
    assert_eq!(parse_holder_pid(&b"  1234  \n5678\n".to_vec()), Some(1234));
    assert_eq!(parse_holder_pid(&b"1234".to_vec()), Some(1234));
    assert_eq!(parse_holder_pid(&b"1234\r\n".to_vec()), Some(1234));
    assert_eq!(parse_holder_pid(&b"\n1234\n".to_vec()), None);
    assert_eq!(parse_holder_pid(&b"pid 1234\n".to_vec()), None);
    assert_eq!(parse_holder_pid(&b"+99".to_vec()), Some(99));
}

#[test]
fn app_pids_collect_numeric_lines_only() {
    let out = b"[PM2] listing\n 1234 \nabc\n5678\r\n".to_vec();
    assert_eq!(parse_app_pids(&out), vec![1234, 5678]);
    assert_eq!(parse_app_pids(&b"".to_vec()), Vec::<u32>::new());
}

#[test]
fn registered_check_is_plain_membership() {
    let pids = vec![10, 20, 30];
    assert!(pid_is_registered(&pids, 20));
    assert!(!pid_is_registered(&pids, 40));
    assert!(!pid_is_registered(&Vec::new(), 40));
}

#[test]
fn mixed_junk_still_cross_references() {
    assert!(owned(Some(" 4242 \n"), Some("[PM2] x\n4242\n99\n")));
    assert!(!owned(Some("4242 4243\n"), Some("4242\n")));
}
