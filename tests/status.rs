use action_lite::status::StatusError;
use action_lite::Status;

fn all() -> Vec<Status> {
    vec![
        Status::Discovery,
        Status::Design,
        Status::Implement,
        Status::Test,
        Status::Document,
        Status::Publish,
        Status::Published,
    ]
}

#[test]
fn status_parses_its_own_name() {
    for s in all() {
        assert_eq!(Status::from_str(&s.to_string()).unwrap(), s);
        assert_eq!(Status::from_str(&s.to_string().to_uppercase()).unwrap(), s);
    }
    assert_eq!(Status::from_str("DISCOVERY").unwrap(), Status::from_str("discovery").unwrap());
    assert_eq!(Status::from_str("DeSiGn").unwrap(), Status::Design);
}

#[test]
fn status_rejects_unknown_names() {
    match Status::from_str("done") {
        Err(StatusError::InvalidStatus(s)) => assert_eq!(s, "done"),
        Ok(_) => panic!("accepted an unknown status"),
    }
    assert!(Status::from_str("").is_err());
    assert!(Status::from_str(" design").is_err());
}

#[test]
fn status_next_and_previous_are_inverse() {
    for s in all() {
        if s != Status::Discovery {
            assert_eq!(s.previous_status().unwrap().next_status(), Some(s));
        }
        if s != Status::Published {
            assert_eq!(s.next_status().unwrap().previous_status(), Some(s));
        }
    }
    assert_eq!(Status::Discovery.previous_status(), None);
    assert_eq!(Status::Published.next_status(), None);
    assert_eq!(Status::Test.next_status(), Some(Status::Document));
}

#[test]
fn status_tags_and_required_outputs() {
    assert_eq!(Status::Publish.as_tag(), "#publish");
    assert_eq!(Status::default(), Status::Discovery);
    assert_eq!(Status::Design.required_outputs(), vec!["Statement of Design"]);
    assert_eq!(Status::Document.required_outputs(), vec!["Analysis of Impact"]);
    assert!(Status::Test.required_outputs().is_empty());
    assert_eq!(
        Status::Discovery.required_outputs(),
        vec!["Notes", "Statement of Action", "Statement of Inputs"]
    );
}
