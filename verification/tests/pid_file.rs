use nyanpasu_utils::pid_file::{parse_pid_file, pid_file_content, reap_plan, ReapPlan};

#[test]
fn the_pid_is_written_in_decimal() {
    assert_eq!(pid_file_content(0), "0");
    assert_eq!(pid_file_content(7), "7");
    assert_eq!(pid_file_content(10), "10");
    assert_eq!(pid_file_content(4242), "4242");
    assert_eq!(pid_file_content(1_000_000), "1000000");
    assert_eq!(pid_file_content(u32::MAX), "4294967295");
}

#[test]
fn the_pid_is_read_back() {
    for pid in [0u32, 1, 9, 10, 99, 100, 12345, 65535, 65536, 4194304, u32::MAX - 1, u32::MAX] {
        assert_eq!(parse_pid_file(&pid_file_content(pid)), Some(pid));
        assert_eq!(parse_pid_file(&pid_file_content(pid)), pid_file_content(pid).trim().parse().ok());
    }
}

#[test]
fn white_space_around_the_pid_is_passed_over() {
    assert_eq!(parse_pid_file("4242\n"), Some(4242));
    assert_eq!(parse_pid_file("  4242  "), Some(4242));
    assert_eq!(parse_pid_file("\t\r\n4242\r\n"), Some(4242));
    assert_eq!(parse_pid_file("\u{a0}4242\u{3000}"), Some(4242));
    assert_eq!(parse_pid_file("\u{2003}1\u{85}"), Some(1));
}

#[test]
fn a_plus_sign_and_leading_zeros_are_accepted() {
    assert_eq!(parse_pid_file("+17"), Some(17));
    assert_eq!(parse_pid_file("0017"), Some(17));
    assert_eq!(parse_pid_file("+0"), Some(0));
    assert_eq!(parse_pid_file("00000000000000000000000000004294967295"), Some(u32::MAX));
}

#[test]
fn what_is_not_a_pid_is_refused() {
    for text in [
        "", " ", "\n", "+", "-", "-1", "++1", "+-1", "1 2", "12a", "a12", "0x10", "1.0", "4294967296",
        "99999999999999999999", "429496729500", "١٢٣", "1\u{200b}", "+ 1", "１２",
    ] {
        assert_eq!(parse_pid_file(text), None, "{:?}", text);
        assert_eq!(parse_pid_file(text), text.trim().parse::<u32>().ok(), "{:?}", text);
    }
}

#[test]
fn reading_agrees_with_the_standard_parser() {
    for text in [
        "1", " 1", "1 ", "+1", "01", "4294967295", "4294967296", "4294967294", "\u{1680}5\u{2028}",
        "\u{2029}6\u{202f}\u{205f}", "\u{b}\u{c}7", "\u{1c}8", "\u{200b}9", "000", "+000", "42949672950",
    ] {
        assert_eq!(parse_pid_file(text), text.trim().parse::<u32>().ok(), "{:?}", text);
    }
}

#[test]
fn no_pid_file_means_nothing_to_reap() {
    assert_eq!(reap_plan(None), ReapPlan::Nothing);
    assert_eq!(reap_plan(Some("")), ReapPlan::Nothing);
    assert_eq!(reap_plan(Some("not a pid")), ReapPlan::Nothing);
}

#[test]
fn a_stale_pid_is_killed_and_the_file_removed() {
    assert_eq!(reap_plan(Some("4242")), ReapPlan::KillAndRemove { pid: 4242 });
    assert_eq!(reap_plan(Some("4242\n")), ReapPlan::KillAndRemove { pid: 4242 });
}

#[test]
fn the_pid_file_of_one_run_is_the_reap_target_of_the_next() {
    let written = pid_file_content(31337);
    assert_eq!(reap_plan(Some(&written)), ReapPlan::KillAndRemove { pid: 31337 });
}
