use soulcrush::status::Status;

fn all() -> [Status; 5] {
    [
        Status::ToDo,
        Status::Solicitated,
        Status::Pending,
        Status::Accepted,
        Status::Rejected,
    ]
}

#[test]
fn tokens_are_the_canonical_spellings() {
    assert_eq!(Status::ToDo.as_str(), "ToDo");
    assert_eq!(Status::Solicitated.as_str(), "Solicitated");
    assert_eq!(Status::Pending.as_str(), "Pending");
    assert_eq!(Status::Accepted.as_str(), "Accepted");
    assert_eq!(Status::Rejected.as_str(), "Rejected");
}

#[test]
fn parsing_a_token_gives_its_status_back() {
    for status in all() {
        assert_eq!(Status::from_str(status.as_str()), Ok(status));
    }
}

#[test]
fn parsing_is_case_sensitive_and_does_not_trim() {
    assert_eq!(
        Status::from_str("todo"),
        Err(String::from("Invalid status: todo"))
    );
    assert_eq!(
        Status::from_str(" ToDo"),
        Err(String::from("Invalid status:  ToDo"))
    );
    assert_eq!(
        Status::from_str("ToDo "),
        Err(String::from("Invalid status: ToDo "))
    );
    assert_eq!(
        Status::from_str("PENDING"),
        Err(String::from("Invalid status: PENDING"))
    );
    assert_eq!(Status::from_str(""), Err(String::from("Invalid status: ")));
    assert_eq!(
        Status::from_str("Applied"),
        Err(String::from("Invalid status: Applied"))
    );
}

#[test]
fn advance_follows_the_cycle() {
    assert_eq!(Status::ToDo.advance(), Status::Solicitated);
    assert_eq!(Status::Solicitated.advance(), Status::Pending);
    assert_eq!(Status::Pending.advance(), Status::Accepted);
    assert_eq!(Status::Accepted.advance(), Status::Rejected);
    assert_eq!(Status::Rejected.advance(), Status::ToDo);
}

#[test]
fn five_advances_return_to_the_start() {
    for status in all() {
        let back = status.advance().advance().advance().advance().advance();
        assert_eq!(back, status);
        assert_ne!(status.advance(), status);
    }
}

#[test]
fn labels_and_classes() {
    assert_eq!(Status::ToDo.label(), "To Do");
    assert_eq!(Status::Solicitated.label(), "Solicitated");
    assert_eq!(Status::Pending.label(), "Pending");
    assert_eq!(Status::Accepted.label(), "Accepted");
    assert_eq!(Status::Rejected.label(), "Rejected");
    assert_eq!(Status::ToDo.css_class(), "status-todo");
    assert_eq!(Status::Solicitated.css_class(), "status-solicitated");
    assert_eq!(Status::Pending.css_class(), "status-pending");
    assert_eq!(Status::Accepted.css_class(), "status-accepted");
    assert_eq!(Status::Rejected.css_class(), "status-rejected");
    assert_eq!(Status::Pending.render(), ("Pending", "status-pending"));
}

#[test]
fn the_select_box_offers_solicitated_as_applied() {
    assert_eq!(Status::Solicitated.option_label(), "Applied");
    assert_eq!(Status::ToDo.option_label(), "To Do");
    assert_eq!(Status::Rejected.option_label(), "Rejected");
}

#[test]
fn the_default_status_is_to_do() {
    assert_eq!(Status::default(), Status::ToDo);
}

#[test]
fn all_lists_the_stages_in_pipeline_order() {
    assert_eq!(Status::all(), all().to_vec());
}
