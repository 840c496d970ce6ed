use habitat_builder::number::ParseIntError;
use habitat_builder::promote::{
    start, PromoteAction, PromoteError, PromoteEvent, PromoteRequest, PromoteState, Status,
};

fn request(group_id: &str) -> PromoteRequest {
    PromoteRequest {
        depot_url: "http://depot".to_string(),
        group_id: group_id.to_string(),
        channel: "stable".to_string(),
        token: "t0k3n".to_string(),
        product: "hab".to_string(),
        version: "0.33".to_string(),
    }
}

#[test]
fn a_group_is_promoted() {
    let request = request("0123");
    let (state, action) = start(&request, PromoteState::Idle, PromoteEvent::Begin);
    match action {
        PromoteAction::Connect { depot_url, product, version } => {
            assert_eq!(depot_url, "http://depot");
            assert_eq!(product, "hab");
            assert_eq!(version, "0.33");
        }
        other => panic!("{:?}", other),
    }
    let (state, action) = start(&request, state, PromoteEvent::Done);
    match action {
        PromoteAction::Status(Status::Promoting, text) => {
            assert_eq!(text, "job group 0123 to channel stable")
        }
        other => panic!("{:?}", other),
    }
    let (state, action) = start(&request, state, PromoteEvent::Done);
    match action {
        PromoteAction::Promote { group, channel, token } => {
            assert_eq!(group, 123);
            assert_eq!(channel, "stable");
            assert_eq!(token, "t0k3n");
        }
        other => panic!("{:?}", other),
    }
    let (state, action) = start(&request, state, PromoteEvent::Done);
    match action {
        PromoteAction::Status(Status::Promoted, text) => {
            assert_eq!(text, "job group 0123 to channel stable")
        }
        other => panic!("{:?}", other),
    }
    let (state, action) = start(&request, state, PromoteEvent::Done);
    assert!(matches!(action, PromoteAction::Finish(Ok(()))));
    assert_eq!(state, PromoteState::Finished);
}

#[test]
fn a_group_id_that_is_no_number_is_refused() {
    for (text, error) in [
        ("", ParseIntError::Empty),
        ("12x", ParseIntError::InvalidDigit),
        ("99999999999999999999", ParseIntError::PosOverflow),
    ] {
        let request = request(text);
        let (state, _) = start(&request, PromoteState::Idle, PromoteEvent::Begin);
        let (state, action) = start(&request, state, PromoteEvent::Done);
        match action {
            PromoteAction::Fatal(said) => {
                let by_std = text.parse::<u64>().unwrap_err();
                assert_eq!(said, format!("Failed to parse group id: {}", by_std));
            }
            other => panic!("{:?}", other),
        }
        let (state, action) = start(&request, state, PromoteEvent::Done);
        match action {
            PromoteAction::Finish(Err(PromoteError::ParseIntError(e))) => assert_eq!(e, error),
            other => panic!("{:?}", other),
        }
        assert_eq!(state, PromoteState::Finished);
    }
}

#[test]
fn the_first_failure_ends_a_promotion() {
    let request = request("1");
    for (state, by_client) in [
        (PromoteState::Connecting, true),
        (PromoteState::Refusing(ParseIntError::Empty), false),
        (PromoteState::Announcing(1), false),
        (PromoteState::Promoting, true),
        (PromoteState::Confirming, false),
    ] {
        let (state, action) = start(&request, state, PromoteEvent::Failed("down".to_string()));
        assert_eq!(state, PromoteState::Finished);
        match action {
            PromoteAction::Finish(Err(PromoteError::APIClient(e))) => {
                assert!(by_client);
                assert_eq!(e, "down");
            }
            PromoteAction::Finish(Err(PromoteError::UI(e))) => {
                assert!(!by_client);
                assert_eq!(e, "down");
            }
            other => panic!("{:?}", other),
        }
    }
}
