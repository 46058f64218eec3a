use rand_wipe::buffer::BUF_ALIGN;
use rand_wipe::schedule::{fan_out, UsageError};
use rand_wipe::target::{alignment, first_mode, open, OpenMode, OpenStep};

#[test]
fn an_empty_list_is_a_usage_error() {
    let targets: Vec<String> = Vec::new();
    match fan_out(&targets) {
        Err(e) => {
            assert_eq!(e, UsageError::NoTargets);
            assert_eq!(e.describe(), "no target given: name at least one path to wipe");
        }
        Ok(_) => panic!("nothing to share out"),
    }
}

#[test]
fn each_target_gets_one_worker() {
    let targets = vec!["/dev/sdb".to_string(), "disk.img".to_string(), "/dev/sdb".to_string()];
    let plan = fan_out(&targets).expect("three targets");
    assert_eq!(plan.len(), 3);
    for (i, a) in plan.iter().enumerate() {
        assert_eq!(a.id, i);
        assert_eq!(a.target, targets[i]);
    }
}

#[test]
fn one_target_is_enough() {
    let plan = fan_out(&vec![String::new()]).expect("one target");
    assert_eq!(plan.len(), 1);
    assert_eq!(plan[0].id, 0);
    assert_eq!(plan[0].target, "");
}

#[test]
fn direct_is_tried_first_where_offered() {
    assert_eq!(first_mode(true), OpenMode::Direct);
    assert_eq!(first_mode(false), OpenMode::Buffered);
    assert_eq!(alignment(OpenMode::Direct), BUF_ALIGN);
    assert_eq!(alignment(OpenMode::Buffered), 1);
}

#[test]
fn an_open_target_is_ready_in_its_mode() {
    assert!(matches!(open("t", OpenMode::Direct, None), OpenStep::Ready(OpenMode::Direct)));
    assert!(matches!(open("t", OpenMode::Buffered, None), OpenStep::Ready(OpenMode::Buffered)));
}

#[test]
fn a_refused_direct_open_falls_back() {
    assert!(matches!(
        open("t", OpenMode::Direct, Some("Invalid argument (os error 22)")),
        OpenStep::Retry(OpenMode::Buffered)
    ));
}

#[test]
fn a_refused_buffered_open_is_fatal() {
    match open("/dev/nope", OpenMode::Buffered, Some("Permission denied (os error 13)")) {
        OpenStep::Fatal { line } => {
            assert_eq!(line, "Couldn't open /dev/nope (Permission denied (os error 13))")
        }
        _ => panic!("the target should be given up"),
    }
}
