use torii::progress::{create_progress_bar_template, SnapshotProgress};
use torii::text::{decimal_text, has_prefix, same_text};

#[test]
fn template_without_a_terminal() {
    assert_eq!(
        create_progress_bar_template(None),
        " {spinner:.yellow} snapshot [{bar:40.cyan/blue}] {bytes}/{total_bytes} Downloading{wide_msg:>20.blue}"
    );
}

#[test]
fn template_for_narrow_and_wide_terminals() {
    let narrow = " {spinner:.yellow} snapshot [{bar:20.cyan/blue}] {bytes}/{total_bytes} Downloading{wide_msg:>10.blue}";
    let wide = " {spinner:.yellow} snapshot [{bar:48.cyan/blue}] {bytes}/{total_bytes} Downloading{wide_msg:>15.blue}";
    assert_eq!(create_progress_bar_template(Some(80)), narrow);
    assert_eq!(create_progress_bar_template(Some(1)), narrow);
    assert_eq!(create_progress_bar_template(Some(120)), wide);
    assert_eq!(create_progress_bar_template(Some(65535)), wide);
}

#[test]
fn template_between() {
    assert_eq!(
        create_progress_bar_template(Some(100)),
        " {spinner:.yellow} snapshot [{bar:34.cyan/blue}] {bytes}/{total_bytes} Downloading{wide_msg:>12.blue}"
    );
}

#[test]
fn progress_is_the_sum_up_to_the_total() {
    let mut progress = SnapshotProgress::new(Some(10));
    assert_eq!(progress.downloaded, 0);
    progress.advance(4);
    assert_eq!(progress.downloaded, 4);
    progress.advance(5);
    assert_eq!(progress.downloaded, 9);
    progress.advance(5);
    assert_eq!(progress.downloaded, 10);
    progress.advance(u64::MAX);
    assert_eq!(progress.downloaded, 10);
    assert_eq!(progress.total_size, 10);
}

#[test]
fn progress_without_a_known_size_stays_at_zero() {
    let mut progress = SnapshotProgress::new(None);
    progress.advance(100);
    assert_eq!(progress, SnapshotProgress { downloaded: 0, total_size: 0 });
}

#[test]
fn numbers_in_decimal() {
    assert_eq!(decimal_text(0), "0");
    assert_eq!(decimal_text(9), "9");
    assert_eq!(decimal_text(10), "10");
    assert_eq!(decimal_text(5432), "5432");
    assert_eq!(decimal_text(u64::MAX), "18446744073709551615");
}

#[test]
fn prefixes_and_equal_texts() {
    assert!(has_prefix("0.9.0", "0.9"));
    assert!(has_prefix("0.9", "0.9"));
    assert!(!has_prefix("0.", "0.9"));
    assert!(!has_prefix("0.8.1", "0.9"));
    assert!(has_prefix("anything", ""));
    assert!(same_text("é", "é"));
    assert!(!same_text("a", "ab"));
    assert!(!same_text("ab", "aa"));
}
