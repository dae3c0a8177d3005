use generation_mix::{create_progress_bar, create_spinner};

#[test]
fn a_new_bar_has_its_size_and_stands_at_zero() {
    let bar = create_progress_bar(10, String::from("Creating sqlite file"));
    assert_eq!(bar.length(), Some(10));
    assert_eq!(bar.position(), 0);
    assert_eq!(bar.message(), "Creating sqlite file");
    assert!(!bar.is_finished());
}

#[test]
fn a_bar_of_no_units_can_be_made_and_finished() {
    let bar = create_progress_bar(0, String::from("nothing"));
    assert_eq!(bar.length(), Some(0));
    bar.finish_with_message("done");
    assert!(bar.is_finished());
}

#[test]
fn a_spinner_has_no_size() {
    let bar = create_spinner(String::from("Downloading generation mix csv..."));
    assert_eq!(bar.length(), None);
    assert_eq!(bar.position(), 0);
    assert_eq!(bar.message(), "Downloading generation mix csv...");
    bar.finish_with_message("Generation mix csv downloaded");
    assert!(bar.is_finished());
    assert_eq!(bar.message(), "Generation mix csv downloaded");
}

#[test]
fn a_bar_keeps_the_size_and_message_it_was_made_with() {
    let bar = create_progress_bar(u64::MAX, String::new());
    assert_eq!(bar.length(), Some(u64::MAX));
    assert_eq!(bar.position(), 0);
    assert_eq!(bar.message(), "");
    let other = create_progress_bar(325_000, String::from("half-hours"));
    assert_eq!(other.length(), Some(325_000));
    assert_eq!(other.message(), "half-hours");
}

#[test]
fn a_tab_in_a_message_is_shown_as_spaces() {
    let bar = create_progress_bar(1, String::from("a\tb"));
    let shown = bar.message();
    assert!(!shown.contains('\t'));
    assert!(shown.starts_with('a'));
    assert!(shown.ends_with('b'));
    assert_eq!(shown.trim_matches(|c| c == 'a' || c == 'b').trim(), "");
}

#[test]
fn a_new_spinner_is_not_finished() {
    let bar = create_spinner(String::from("working"));
    assert!(!bar.is_finished());
    assert_eq!(bar.position(), 0);
}
