use cio::slack::{delivery, rejection_notice, unsent_notice, Delivery};

#[test]
fn only_200_is_accepted() {
    assert_eq!(delivery(200), Delivery::Accepted);
    assert_eq!(delivery(201), Delivery::Rejected { status: 201 });
    assert_eq!(delivery(204), Delivery::Rejected { status: 204 });
    assert_eq!(delivery(404), Delivery::Rejected { status: 404 });
    assert_eq!(delivery(500), Delivery::Rejected { status: 500 });
    assert_eq!(delivery(0), Delivery::Rejected { status: 0 });
}

#[test]
fn rejection_is_reported_in_one_line() {
    assert_eq!(
        rejection_notice("https://hooks.example/T1", "404 Not Found", "no_service"),
        "posting to slack webhook (https://hooks.example/T1) failed, status: 404 Not Found | resp: no_service"
    );
    assert_eq!(
        rejection_notice("", "", ""),
        "posting to slack webhook () failed, status:  | resp: "
    );
}

#[test]
fn unsent_post_is_reported_in_one_line() {
    assert_eq!(
        unsent_notice("https://hooks.example/T1", "connection refused"),
        "posting to slack webhook (https://hooks.example/T1) failed: connection refused"
    );
    assert_eq!(unsent_notice("", ""), "posting to slack webhook () failed: ");
}
