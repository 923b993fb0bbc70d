use ebb::protocol::{
    BingoMethod, BingoResponse, BulletinResponse, CountdownResponse, WsCommand, WsResponse,
};

#[test]
fn duplicate_of_each_response_is_equal() {
    let responses = [
        WsResponse::Bulletin(BulletinResponse {
            prev_text: String::new(),
            now_text: "大阪".to_string(),
            next_text: "next".to_string(),
        }),
        WsResponse::Bingo(BingoResponse { current: 75, no: 1 }),
        WsResponse::Countdown(CountdownResponse { status: "started".to_string() }),
    ];
    for response in responses {
        assert_eq!(response.duplicate(), response);
    }
}

#[test]
fn commands_compare_by_their_fields() {
    let a = WsCommand::Bulletin { preset: "p".to_string(), index: 1 };
    let b = WsCommand::Bulletin { preset: "p".to_string(), index: 2 };
    assert_eq!(a, a.clone());
    assert_ne!(a, b);
    assert_ne!(a, WsCommand::Bingo { method: BingoMethod::Next });
}
