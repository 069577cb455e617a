use icon_finder::priority::{
    dimensions_of, get_icon_priority, parse_group, parse_run, parse_sizes, priority_for_size,
};

fn sized(s: &str) -> Option<String> {
    Some(s.to_string())
}

#[test]
fn parse_sizes_reads_width_and_height() {
    assert_eq!(parse_sizes(sized("64x64")), (64, 64));
    assert_eq!(parse_sizes(sized("32x32")), (32, 32));
    assert_eq!(parse_sizes(sized("48x20")), (48, 20));
    assert_eq!(parse_sizes(sized(" 16x16 ")), (16, 16));
}

#[test]
fn parse_sizes_skips_leading_garbage() {
    assert_eq!(parse_sizes(sized("x128x128")), (128, 128));
    assert_eq!(parse_sizes(sized("size: 24 by 24 px")), (24, 24));
}

#[test]
fn parse_sizes_without_two_runs_is_zero() {
    assert_eq!(parse_sizes(sized("32")), (0, 0));
    assert_eq!(parse_sizes(sized("")), (0, 0));
    assert_eq!(parse_sizes(sized("any")), (0, 0));
    assert_eq!(parse_sizes(None), (0, 0));
}

#[test]
fn parse_sizes_out_of_range_run_is_zero() {
    assert_eq!(parse_sizes(sized("70000x70000")), (0, 0));
    assert_eq!(parse_sizes(sized("65535x65536")), (65535, 0));
}

#[test]
fn parse_run_values() {
    assert_eq!(parse_run("0"), 0);
    assert_eq!(parse_run("7"), 7);
    assert_eq!(parse_run("0032"), 32);
    assert_eq!(parse_run("65535"), 65535);
    assert_eq!(parse_run("65536"), 0);
    assert_eq!(parse_run("99999999999999999999"), 0);
    assert_eq!(parse_run(""), 0);
    assert_eq!(parse_run("12a"), 0);
    assert_eq!(parse_run("\u{0663}\u{0662}"), 0);
}

#[test]
fn parse_group_absent_is_zero() {
    assert_eq!(parse_group(&None), 0);
    assert_eq!(parse_group(&sized("128")), 128);
}

#[test]
fn dimensions_need_three_groups() {
    assert_eq!(dimensions_of(&None), (0, 0));
    assert_eq!(dimensions_of(&Some(vec![sized("1x2"), sized("1")])), (0, 0));
    assert_eq!(dimensions_of(&Some(vec![sized("1x2"), sized("1"), sized("2")])), (1, 2));
    assert_eq!(dimensions_of(&Some(vec![sized("1x2"), None, sized("2")])), (0, 2));
}

#[test]
fn square_sizes_rank_by_width() {
    let href = "https://a.b/i.png";
    assert_eq!(get_icon_priority(href, sized("32x32")), 1);
    assert_eq!(get_icon_priority(href, sized("64x64")), 2);
    assert_eq!(get_icon_priority(href, sized("100x100")), 3);
    assert_eq!(get_icon_priority(href, sized("24x24")), 3);
    assert_eq!(get_icon_priority(href, sized("128x128")), 3);
    assert_eq!(get_icon_priority(href, sized("16x16")), 4);
    assert_eq!(get_icon_priority(href, sized("23x23")), 5);
    assert_eq!(get_icon_priority(href, sized("129x129")), 5);
    assert_eq!(get_icon_priority(href, sized("512x512")), 5);
}

#[test]
fn non_square_is_worst() {
    assert_eq!(get_icon_priority("a.png", sized("48x17")), 200);
    assert_eq!(get_icon_priority("a.ico", sized("48x20")), 200);
}

#[test]
fn size_order_does_not_depend_on_extension() {
    for href in ["a.png", "a.jpg", "a.ico", "https://x/y"] {
        let p32 = get_icon_priority(href, sized("32x32"));
        let p64 = get_icon_priority(href, sized("64x64"));
        let p100 = get_icon_priority(href, sized("100x100"));
        let p16 = get_icon_priority(href, sized("16x16"));
        let p48x17 = get_icon_priority(href, sized("48x17"));
        assert!(p32 < p64);
        assert!(p64 < p100);
        assert!(p100 < p16);
        assert!(p16 < p48x17);
    }
}

#[test]
fn unsized_icons_rank_by_extension() {
    assert_eq!(get_icon_priority("a.png", sized("")), 10);
    assert_eq!(get_icon_priority("a.jpg", sized("")), 20);
    assert_eq!(get_icon_priority("a.jpeg", None), 20);
    assert_eq!(get_icon_priority("a.ico", sized("")), 30);
    assert_eq!(get_icon_priority("a.PNG", None), 30);
    assert_eq!(get_icon_priority("a.png?v=2", None), 30);
    assert_eq!(get_icon_priority("png", None), 30);
}

#[test]
fn zero_side_counts_as_undeclared() {
    assert_eq!(get_icon_priority("a.png", sized("0x0")), 10);
    assert_eq!(get_icon_priority("a.jpg", sized("0x32")), 20);
    assert_eq!(priority_for_size("a.ico", 32, 0), 30);
    assert_eq!(priority_for_size("a.ico", 32, 32), 1);
}
