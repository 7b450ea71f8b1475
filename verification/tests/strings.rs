use termreader::scrape::dates::{format_ymd, release_age, release_date};
use termreader::scrape::query::{blocked_page, ScrapeError};
use termreader::strs::{
    after_first_byte, contains_str, lines_of, parse_usize, replace_chars, replace_str, split_char,
    starts_with_str,
};
use termreader::state::commands::{parse_command, Command};
use termreader::text::{byte_len, trim};

#[test]
fn trim_takes_whitespace_off_both_ends() {
    assert_eq!(trim("  hello world \n"), "hello world");
    assert_eq!(trim("\t\t"), "");
    assert_eq!(trim("a"), "a");
    assert_eq!(trim("\u{3000}wide\u{3000}"), "wide");
}

#[test]
fn trimming_twice_is_trimming_once() {
    for s in ["  a b  ", "", "   ", "x", " \tmixed\r\n"] {
        assert_eq!(trim(&trim(s)), trim(s));
    }
}

#[test]
fn whitespace_and_lengths() {
    assert_eq!(trim(" \u{3000}a b\u{2003}"), "a b");
    assert_eq!(trim("a"), "a");
    assert_eq!(byte_len("héllo"), 6);
    assert_eq!(byte_len(""), 0);
    assert_eq!(parse_command("ClearHistory", None), Command::ClearHistory);
    assert_eq!(parse_command("QUIT", None), Command::Quit);
}

#[test]
fn searching_text() {
    assert!(contains_str("3 days ago", "ago"));
    assert!(contains_str("abc", ""));
    assert!(!contains_str("ab", "abc"));
    assert!(starts_with_str("window.pubfuturetag = 1", "window.pubfuturetag"));
    assert!(!starts_with_str("x window.pubfuturetag", "window.pubfuturetag"));
}

#[test]
fn replacing_text() {
    assert_eq!(replace_chars("a\tb\nc", '\t', '\n', ","), "a,b,c");
    assert_eq!(replace_chars("none", '\t', '\n', ","), "none");
    assert_eq!(replace_str("/novel.html", ".html", ""), "/novel");
    assert_eq!(replace_str("a/b/c", "/", ""), "abc");
    assert_eq!(replace_str("aaa", "aa", "b"), "ba");
    assert_eq!(replace_str("no match", "xyz", "q"), "no match");
}

#[test]
fn splitting_and_joining_give_back_the_text() {
    for s in ["https://site.com/novel/name/", "", "/", "no slashes", "a//b"] {
        let parts = split_char(s, '/');
        assert_eq!(parts.join("/"), s);
        assert_eq!(parts, s.split('/').map(|p| p.to_string()).collect::<Vec<_>>());
    }
    assert_eq!(split_char("https://boxnovel.com/novel/awakening/", '/')[4], "awakening");
}

#[test]
fn lines_as_str_lines_gives_them() {
    for s in ["a\nb", "a\r\nb\r\n", "", "\n", "one\rtwo", "x\n\ny\n", "end\r"] {
        assert_eq!(lines_of(s), s.lines().map(|l| l.to_string()).collect::<Vec<_>>());
    }
}

#[test]
fn first_byte_taken_off() {
    assert_eq!(after_first_byte("/novel"), Some("novel".to_string()));
    assert_eq!(after_first_byte(""), None);
    assert_eq!(after_first_byte("énovel"), None);
}

#[test]
fn numbers_read_back() {
    for n in [0usize, 7, 10, 877, 123456789, usize::MAX] {
        assert_eq!(parse_usize(&n.to_string()), Some(n));
    }
    assert_eq!(parse_usize("+42"), Some(42));
    assert_eq!(parse_usize(""), None);
    assert_eq!(parse_usize("+"), None);
    assert_eq!(parse_usize("4a"), None);
    assert_eq!(parse_usize("-1"), None);
    assert_eq!(parse_usize("99999999999999999999999"), None);
}

#[test]
fn dates_are_written_year_month_day() {
    assert_eq!(format_ymd(2024, 1, 31), "2024-01-31");
    assert_eq!(format_ymd(987, 12, 5), "0987-12-05");
    assert_eq!(format_ymd(12345, 6, 7), "+12345-06-07");
    assert_eq!(format_ymd(-1, 6, 7), "-0001-06-07");
    assert_eq!(format_ymd(2024, 1, 31).chars().count(), 10);
}

#[test]
fn release_ages_in_hours() {
    assert_eq!(release_age("2024-01-01"), Ok(None));
    assert_eq!(release_age("5 hours ago"), Ok(Some(5)));
    assert_eq!(release_age("1 hour ago"), Ok(Some(1)));
    assert_eq!(release_age("3 days ago"), Ok(Some(72)));
    assert_eq!(release_age("2 months ago"), Ok(Some(1440)));
    assert_eq!(release_age("a while ago"), Ok(None));
    assert_eq!(release_age("4 weeks ago"), Ok(None));
    assert_eq!(release_age("99999999999999999999 days ago"), Err(ScrapeError::BadNumber));
    assert_eq!(release_age("9223372036854775807 days ago"), Err(ScrapeError::BadDate));
}

#[test]
fn release_dates() {
    assert_eq!(release_date("March 3, 2023"), Ok("March 3, 2023".to_string()));
    let d = release_date("2 days ago").unwrap();
    assert_ne!(d, "2 days ago");
    assert_eq!(d.len(), 10);
    assert_eq!(&d[4..5], "-");
    assert_eq!(release_date("9223372036854775807 hours ago"), Err(ScrapeError::BadDate));
}

#[test]
fn blocked_pages_are_recognised() {
    assert!(blocked_page("<p>Enable JavaScript and cookies to continue</p>"));
    assert!(blocked_page("Checking if the site connection is secure"));
    assert!(blocked_page("Verify below to continue reading"));
    assert!(!blocked_page("<html>a novel</html>"));
}
