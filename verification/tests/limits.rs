use tie_api_server::middleware::bans::{add_ban, clean_list, list_bans, new_list};
use tie_api_server::middleware::counters::Counters;
use tie_api_server::middleware::{
    asks_for_cleanup, draw_cleanup, limited, quota_interval, BanFile, HourlyIpLimiter,
    IpRateLimiter, BAN_DAYS, RATE_LIMIT, SECOND,
};

const WEEK: u64 = 7 * 24 * 3600;

#[test]
fn a_client_has_one_count() {
    let mut c = Counters::new();
    assert_eq!(c.get("a"), None);
    c.set("a", 1, 10);
    c.set("b", 2, 20);
    c.set("a", 3, 30);
    assert_eq!(c.get("a"), Some((3, 30)));
    assert_eq!(c.get("b"), Some((2, 20)));
    c.keep_recent(35, 10);
    assert_eq!(c.get("a"), Some((3, 30)));
    assert_eq!(c.get("b"), None);
    c.keep_recent(40, 10);
    assert_eq!(c.get("a"), None);
}

#[test]
fn requests_in_a_second_are_limited() {
    let (mut l, dir) = IpRateLimiter::new(3, 7);
    assert_eq!(dir.as_deref(), Some("./.tiec"));
    assert_eq!(l.ban_file(), "./.tiec/ip_ban.txt");
    for k in 0..3 {
        assert!(l.check_and_update_rate("1.1.1.1", BanFile::Unreadable, 5, 5 * SECOND + k).0);
    }
    assert!(!l.check_and_update_rate("1.1.1.1", BanFile::Unreadable, 5, 5 * SECOND + 3).0);
    assert!(l.check_and_update_rate("2.2.2.2", BanFile::Unreadable, 5, 5 * SECOND + 3).0);
    assert!(!l.check_and_update_rate("1.1.1.1", BanFile::Unreadable, 5, 6 * SECOND - 1).0);
    assert!(l.check_and_update_rate("1.1.1.1", BanFile::Unreadable, 5, 6 * SECOND).0);
    assert!(l.check_and_update_rate("1.1.1.1", BanFile::Unreadable, 5, 4 * SECOND).0);
    assert_eq!((RATE_LIMIT, BAN_DAYS), (120, 7));
    assert_eq!(quota_interval(RATE_LIMIT), 8_333_333);
    assert_eq!(quota_interval(1), SECOND);
}

#[test]
fn old_counts_are_forgotten() {
    let (mut l, _) = IpRateLimiter::new(1, 7);
    assert!(l.check_and_update_rate("a", BanFile::Unreadable, 5, SECOND).0);
    assert!(!l.check_and_update_rate("a", BanFile::Unreadable, 5, SECOND + 1).0);
    l.cleanup(2 * SECOND);
    assert!(!l.check_and_update_rate("a", BanFile::Unreadable, 5, SECOND + 2).0);
    l.cleanup(11 * SECOND);
    assert!(l.check_and_update_rate("a", BanFile::Unreadable, 5, SECOND + 3).0);
}

#[test]
fn a_banned_client_is_blocked_for_a_week() {
    let (l, _) = IpRateLimiter::new(RATE_LIMIT, BAN_DAYS);
    let list = l.add_banned_ip("1.1.1.1", None, 1000);
    assert_eq!(
        list,
        "# IP Ban List - Auto-generated\n# Format: IP_ADDRESS:TIMESTAMP\n\n1.1.1.1:1000\n"
    );
    assert!(l.is_blocked("1.1.1.1", Some(&list), 1000));
    assert!(l.is_blocked("1.1.1.1", Some(&list), 1000 + WEEK - 1));
    assert!(!l.is_blocked("1.1.1.1", Some(&list), 1000 + WEEK));
    assert!(l.is_blocked("1.1.1.1", Some(&list), 3));
    assert!(!l.is_blocked("1.1.1.2", Some(&list), 1000));
    assert!(!l.is_blocked("1.1.1.1", None, 1000));
}

#[test]
fn bans_of_addresses_with_colons_hold() {
    let list = add_ban("", "2001:db8::1", 1000);
    assert_eq!(list, "2001:db8::1:1000\n");
    assert!(list_bans(&list, "2001:db8::1", 1001, WEEK));
    assert!(list_bans(&list, "2001:db8::1", 1000 + WEEK - 1, WEEK));
    assert!(!list_bans(&list, "2001:db8::1", 1000 + WEEK, WEEK));
    assert!(!list_bans(&list, "2001", 1001, WEEK));
    assert_eq!(add_ban(&list, "2001:db8::1", 2000), "2001:db8::1:2000\n");
    assert!(list_bans("fe80::abcd\n", "fe80::abcd", 5, 0));
}

#[test]
fn a_ban_leaves_the_bans_of_others() {
    let list = add_ban("11.1.1.1:1000\n", "1.1.1.1", 2000);
    assert_eq!(list, "11.1.1.1:1000\n1.1.1.1:2000\n");
    assert!(list_bans(&list, "1.1.1.1", 2000, WEEK));
    assert!(list_bans(&list, "11.1.1.1", 2000, WEEK));
    let list = add_ban("5.6.7.8", "1.1.1.1", 2000);
    assert_eq!(list, "5.6.7.8\n1.1.1.1:2000\n");
    assert!(list_bans(&list, "1.1.1.1", 2000, WEEK));
    assert!(list_bans(&list, "5.6.7.8", 2000, WEEK));
}

#[test]
fn a_new_ban_takes_the_place_of_an_old_one() {
    let list = "# head\n1.1.1.1:5\r\n2.2.2.2\n3.3.3.3:7";
    assert_eq!(
        add_ban(list, "2.2.2.2", 9),
        "# head\n1.1.1.1:5\n2.2.2.2:9\n3.3.3.3:7\n"
    );
    assert_eq!(
        add_ban(list, "1.1.1.1", 9),
        "# head\n1.1.1.1:9\n2.2.2.2\n3.3.3.3:7\n"
    );
    assert_eq!(add_ban("1.1.1.1:5\n", "4.4.4.4", 9), "1.1.1.1:5\n4.4.4.4:9\n");
}

#[test]
fn lines_of_the_list_are_read() {
    let list = "# 5.5.5.5\n\n  1.1.1.1:+100 \n2.2.2.2\n3.3.3.3:soon\n";
    assert!(list_bans(list, "1.1.1.1", 150, 100));
    assert!(!list_bans(list, "1.1.1.1", 200, 100));
    assert!(list_bans(list, "2.2.2.2", u64::MAX, 0));
    assert!(!list_bans(list, "3.3.3.3", 0, 100));
    assert!(!list_bans(list, "5.5.5.5", 0, 100));
}

#[test]
fn bans_that_are_over_are_removed() {
    let list = "old\n1.1.1.1:100\n 2.2.2.2:150 \r\n3.3.3.3:x\n";
    assert_eq!(
        clean_list(list, 200, 100),
        "# IP Ban List - Auto-generated\n# Format: IP_ADDRESS:TIMESTAMP\n# Updated at: 200\n\n2.2.2.2:150\n"
    );
    assert_eq!(clean_list(list, 900, 100), new_list());
    assert_eq!(
        new_list(),
        "# IP Ban List - Auto-generated\n# Format: IP_ADDRESS:TIMESTAMP\n\n"
    );
    let (l, _) = IpRateLimiter::new(1, 7);
    assert_eq!(l.cleanup_expired_bans(None, 5), None);
    let cleaned = l.cleanup_expired_bans(Some(list), 200).unwrap();
    for now in [200u64, 300, 100 + WEEK - 1, 100 + WEEK, 150 + WEEK] {
        for ip in ["1.1.1.1", "2.2.2.2"] {
            assert_eq!(l.is_blocked(ip, Some(&cleaned), now), l.is_blocked(ip, Some(list), now));
        }
    }
}

#[test]
fn a_client_that_asks_too_often_is_put_on_the_list() {
    let (mut l, _) = IpRateLimiter::new(2, 7);
    let ms = SECOND / 1000;
    let mut list = String::new();
    let mut allowed = Vec::new();
    for (ip, at) in [
        ("1.2.3.4", 0),
        ("1.2.3.4", 300),
        ("1.2.3.4", 600),
        ("5.6.7.8", 700),
        ("1.2.3.4", 1500),
    ] {
        let (ok, written) = l.check_and_update_rate(ip, BanFile::Holds(&list), 77, at * ms);
        allowed.push(ok);
        assert_eq!(written.is_some(), !ok);
        if let Some(w) = written {
            list = w;
        }
    }
    assert_eq!(allowed, vec![true, true, false, true, true]);
    assert_eq!(list, "1.2.3.4:77\n");
    let (mut l, _) = IpRateLimiter::new(0, 7);
    assert_eq!(l.check_and_update_rate("a", BanFile::Unreadable, 5, 0), (false, None));
}

#[test]
fn refused_requests_are_told_why() {
    let (mut l, _) = IpRateLimiter::new(1, 7);
    let (r, list) = l.call("1.1.1.1", BanFile::Missing, 50, 10);
    assert!(r.is_none() && list.is_none());
    let (r, list) = l.call("1.1.1.1", BanFile::Missing, 50, 11);
    let r = r.unwrap();
    assert_eq!((r.status, r.error), (429, "Rate limit exceeded"));
    assert_eq!(r.message, "Too many requests. Your IP has been blocked for 7 days.");
    assert_eq!((r.limit, r.window), (None, None));
    let list = list.unwrap();
    assert_eq!(list, l.add_banned_ip("1.1.1.1", None, 50));
    let (r, written) = l.call("1.1.1.1", BanFile::Holds(&list), 51, 5 * SECOND);
    let r = r.unwrap();
    assert!(written.is_none());
    assert_eq!((r.status, r.error), (403, "IP blocked due to rate limit violation"));
    assert_eq!(
        r.message,
        "Your IP has been temporarily blocked. Please try again later."
    );
}

#[test]
fn clients_and_hours_are_counted_apart() {
    let mut l = HourlyIpLimiter::new(2);
    let mut allowed = Vec::new();
    for (ip, hour) in [("a", 0), ("b", 0), ("a", 0), ("a", 0), ("b", 1), ("a", 1), ("b", 1), ("b", 1)]
    {
        allowed.push(l.check_and_update(ip, hour * 3600));
    }
    assert_eq!(allowed, vec![true, true, true, false, true, true, true, false]);
}

#[test]
fn requests_in_an_hour_are_limited() {
    let mut l = HourlyIpLimiter::new(2);
    assert!(l.check_and_update("a", 7200));
    assert!(l.check_and_update("a", 7201));
    assert!(!l.check_and_update("a", 10799));
    assert!(l.check_and_update("b", 10799));
    assert!(l.check_and_update("a", 10800));
    assert!(l.check_and_update("a", 10801));
    assert!(!l.check_and_update("a", 10802));
    let mut none = HourlyIpLimiter::new(0);
    assert!(!none.check_and_update("a", 0));
    assert!(none.check_and_update("a", 3600));
}

#[test]
fn only_uploads_and_builds_count_for_the_hour() {
    assert!(limited("/api/v1/upload", "POST"));
    assert!(limited("/api/v1/build", "POST"));
    assert!(limited("/api/v1/build/7/status", "GET"));
    assert!(!limited("/api/v1/build", "GET"));
    assert!(!limited("/api/v1/upload", "GET"));
    assert!(!limited("/health", "GET"));
    let mut l = HourlyIpLimiter::new(1);
    assert!(l.call("a", "/health", "GET", 0).is_none());
    assert!(l.call("a", "/api/v1/build", "POST", 0).is_none());
    assert!(l.call("a", "/health", "GET", 0).is_none());
    let r = l.call("a", "/api/v1/upload", "POST", 0).unwrap();
    assert_eq!((r.status, r.error), (429, "Hourly rate limit exceeded"));
    assert_eq!(r.message, "Too many requests from this IP. Max 20 requests per hour.");
    assert_eq!((r.limit, r.window), (Some(20), Some("1h")));
}

#[test]
fn chance_asks_for_a_cleanup_now_and_then() {
    assert!(asks_for_cleanup(0));
    assert!(!asks_for_cleanup(1));
    let drawn: Vec<(u8, bool)> = (0..200).map(|_| draw_cleanup()).collect();
    assert!(drawn.iter().all(|(b, due)| *due == (*b == 0)));
    assert!(drawn.iter().any(|(b, _)| *b != drawn[0].0));
}
