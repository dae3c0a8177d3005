use generation_mix::fetch::{after_response, is_success, FetchStep, DATASET_URL, FILE_NAME};

#[test]
fn success_is_the_two_hundreds() {
    assert!(!is_success(199));
    assert!(is_success(200));
    assert!(is_success(204));
    assert!(is_success(299));
    assert!(!is_success(300));
}

#[test]
fn success_agrees_with_the_http_client_on_every_status() {
    let mut status: u16 = 100;
    while status < 1000 {
        let theirs = reqwest::StatusCode::from_u16(status).unwrap().is_success();
        assert_eq!(is_success(status), theirs);
        status += 1;
    }
}

#[test]
fn a_successful_answer_is_saved() {
    assert_eq!(after_response(200), FetchStep::SaveBody);
}

#[test]
fn a_missing_dataset_is_reported_and_not_saved() {
    assert_eq!(after_response(404), FetchStep::ReportStatus { status: 404 });
}

#[test]
fn a_server_fault_is_reported_and_not_saved() {
    assert_eq!(after_response(500), FetchStep::ReportStatus { status: 500 });
}

#[test]
fn a_redirect_left_unfollowed_is_reported() {
    assert_eq!(after_response(301), FetchStep::ReportStatus { status: 301 });
}

#[test]
fn the_dataset_is_fetched_over_https_as_csv() {
    assert!(DATASET_URL.starts_with("https://"));
    assert!(DATASET_URL.ends_with(".csv"));
    assert_eq!(FILE_NAME, "GB_Generation_Mix.csv");
}
