use serpens::crt_sh::{certificate_status, first_name_of, names_of, CertificateStatus, Timestamp};

fn ts(secs: i64, nanos: u32) -> Timestamp {
    Timestamp { secs, nanos }
}

const NOW: i64 = 1_700_000_000;

#[test]
fn expired_certificate() {
    let st = certificate_status(ts(NOW - 1000, 0), ts(NOW - 1, 0), ts(NOW, 0), false, false);
    assert_eq!(st, Some(CertificateStatus { expired: true, recent: true }));
    assert_eq!(certificate_status(ts(NOW - 1000, 0), ts(NOW - 1, 0), ts(NOW, 0), true, false), None);
}

#[test]
fn certificate_ending_now_has_not_expired() {
    let st = certificate_status(ts(NOW - 1000, 0), ts(NOW, 0), ts(NOW, 0), true, false);
    assert_eq!(st, Some(CertificateStatus { expired: false, recent: true }));
    let st = certificate_status(ts(NOW - 1000, 0), ts(NOW, 5), ts(NOW, 6), false, false);
    assert_eq!(st, Some(CertificateStatus { expired: true, recent: true }));
}

#[test]
fn recent_window_is_24_hours_inclusive() {
    let day = 86_400;
    assert_eq!(
        certificate_status(ts(NOW - day, 0), ts(NOW + 10, 0), ts(NOW, 0), false, true),
        Some(CertificateStatus { expired: false, recent: true })
    );
    assert_eq!(certificate_status(ts(NOW - day - 1, 999_999_999), ts(NOW + 10, 0), ts(NOW, 0), false, true), None);
    assert_eq!(
        certificate_status(ts(NOW - day - 1, 999_999_999), ts(NOW + 10, 0), ts(NOW, 0), false, false),
        Some(CertificateStatus { expired: false, recent: false })
    );
    assert_eq!(
        certificate_status(ts(NOW, 0), ts(NOW + 10, 0), ts(NOW, 0), false, true),
        Some(CertificateStatus { expired: false, recent: true })
    );
}

#[test]
fn certificate_from_the_future_is_not_recent() {
    assert_eq!(certificate_status(ts(NOW, 1), ts(NOW + 10, 0), ts(NOW, 0), false, true), None);
    assert_eq!(
        certificate_status(ts(NOW + 5, 0), ts(NOW + 10, 0), ts(NOW, 0), false, false),
        Some(CertificateStatus { expired: false, recent: false })
    );
}

#[test]
fn recent_window_from_a_leap_second() {
    let now = ts(NOW, 1_500_000_000);
    let day = 86_400;
    assert_eq!(
        certificate_status(ts(NOW + 1 - day, 500_000_000), ts(NOW + 10, 0), now, false, true),
        Some(CertificateStatus { expired: false, recent: true })
    );
    assert_eq!(certificate_status(ts(NOW + 1 - day, 499_999_999), ts(NOW + 10, 0), now, false, true), None);
}

#[test]
fn both_filters() {
    assert_eq!(certificate_status(ts(NOW - 10, 0), ts(NOW - 1, 0), ts(NOW, 0), true, true), None);
    assert_eq!(
        certificate_status(ts(NOW - 10, 0), ts(NOW + 1, 0), ts(NOW, 0), true, true),
        Some(CertificateStatus { expired: false, recent: true })
    );
}

#[test]
fn names_of_a_certificate() {
    let names = names_of(&"example.com\n*.example.com\nwww.example.com".to_string());
    assert_eq!(names, vec!["example.com", "example.com", "www.example.com"]);
    assert_eq!(names_of(&"".to_string()), vec![""]);
    assert_eq!(first_name_of(&"*.api.example.com\nother.example.com".to_string()), "api.example.com");
    assert_eq!(first_name_of(&"".to_string()), "");
}
