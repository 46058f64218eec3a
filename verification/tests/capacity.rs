use rand_wipe::capacity::{freespace, parse_size, DeviceAnswer, ProbeStep};

fn known(step: ProbeStep) -> Option<u64> {
    match step {
        ProbeStep::Known(size) => Some(size),
        _ => None,
    }
}

#[test]
fn parses_the_output_of_the_device_query() {
    assert_eq!(parse_size("1048576\n"), Some(1048576));
    assert_eq!(parse_size("500107862016\n"), Some(500107862016));
    assert_eq!(parse_size("0"), Some(0));
}

#[test]
fn ignores_whitespace_around_the_number() {
    assert_eq!(parse_size("  42  "), Some(42));
    assert_eq!(parse_size("\t\r\n7\n\n"), Some(7));
    assert_eq!(parse_size("\u{a0}5\u{3000}"), Some(5));
    assert_eq!(parse_size("\u{2003}9\u{85}"), Some(9));
}

#[test]
fn accepts_one_plus_sign_and_leading_zeros() {
    assert_eq!(parse_size("+7"), Some(7));
    assert_eq!(parse_size("007"), Some(7));
    assert_eq!(parse_size("+"), None);
    assert_eq!(parse_size("++7"), None);
    assert_eq!(parse_size("+ 7"), None);
}

#[test]
fn rejects_what_is_no_number() {
    assert_eq!(parse_size(""), None);
    assert_eq!(parse_size("   "), None);
    assert_eq!(parse_size("-1"), None);
    assert_eq!(parse_size("12 3"), None);
    assert_eq!(parse_size("1e3"), None);
    assert_eq!(parse_size("0x10"), None);
    assert_eq!(parse_size("12.5"), None);
    assert_eq!(parse_size("\u{663}"), None);
    assert_eq!(parse_size("blockdev: cannot open /dev/nope"), None);
}

#[test]
fn keeps_to_sixty_four_bits() {
    assert_eq!(parse_size("18446744073709551615"), Some(u64::MAX));
    assert_eq!(parse_size("18446744073709551616"), None);
    assert_eq!(parse_size("99999999999999999999999"), None);
    assert_eq!(parse_size("00000000000000000000000001"), Some(1));
    assert_eq!(parse_size("18446744073709551616x"), None);
}

#[test]
fn agrees_with_trimming_and_parsing() {
    let inputs = [
        "", " ", "1", " 1", "1 ", "+1", "-1", "+", "1+", "1 1", "\n12\n", "\u{feff}12", "\u{200b}3",
        "\u{2028}3\u{2029}", "\u{1680}44", "\u{180e}44", "18446744073709551615",
        "18446744073709551616", "a", "1a", "a1", "\u{ff11}", "\0", "3\0",
    ];
    for input in inputs {
        assert_eq!(parse_size(input), input.trim().parse::<u64>().ok(), "input {:?}", input);
    }
}

#[test]
fn a_size_from_the_device_is_the_capacity() {
    let device = DeviceAnswer::Output("4096\n".to_string());
    assert_eq!(known(freespace("/dev/sdz", &device, &None)), Some(4096));
    assert_eq!(known(freespace("/dev/sdz", &device, &Some(Ok(7)))), Some(4096));
    assert_eq!(known(freespace("/dev/sdz", &device, &Some(Err("no".to_string())))), Some(4096));
}

#[test]
fn a_device_without_a_size_asks_the_filesystem() {
    let device = DeviceAnswer::Output("garbage\n".to_string());
    match freespace("disk.img", &device, &None) {
        ProbeStep::AskFilesystem { notice } => assert_eq!(
            notice,
            "Error getting size the standard way; falling back to fs2 (Invalid disk size number? garbage\n)"
        ),
        _ => panic!("the filesystem should be asked"),
    }
    let device = DeviceAnswer::Failed("No such file or directory (os error 2)".to_string());
    match freespace("disk.img", &device, &None) {
        ProbeStep::AskFilesystem { notice } => assert_eq!(
            notice,
            "Error getting size the standard way; falling back to fs2 (No such file or directory (os error 2))"
        ),
        _ => panic!("the filesystem should be asked"),
    }
}

#[test]
fn the_fallback_value_is_the_capacity() {
    let device = DeviceAnswer::Failed("not a block device".to_string());
    assert_eq!(known(freespace("disk.img", &device, &Some(Ok(123456789)))), Some(123456789));
    let device = DeviceAnswer::Output(String::new());
    assert_eq!(known(freespace("disk.img", &device, &Some(Ok(0)))), Some(0));
    assert_eq!(known(freespace("disk.img", &device, &Some(Ok(u64::MAX)))), Some(u64::MAX));
}

#[test]
fn two_failed_queries_give_the_target_up() {
    let device = DeviceAnswer::Failed("not a block device".to_string());
    match freespace("disk.img", &device, &Some(Err("permission denied".to_string()))) {
        ProbeStep::Fatal { line } => {
            assert_eq!(line, "Couldn't get the total space for disk.img (permission denied)")
        }
        _ => panic!("the target should be given up"),
    }
}
