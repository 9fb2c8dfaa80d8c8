use subsignal::counter::{read_reply, request_url, Reply};

#[test]
fn request_url_places_resource_and_secret() {
    assert_eq!(
        request_url("UC123", "s3cr3t"),
        "https://youtube.googleapis.com/youtube/v3/channels?part=statistics&id=UC123&key=s3cr3t"
    );
    assert_eq!(
        request_url("", ""),
        "https://youtube.googleapis.com/youtube/v3/channels?part=statistics&id=&key="
    );
}

#[test]
fn read_reply_takes_the_first_count() {
    assert_eq!(read_reply(Reply::Counts(vec![String::from("1520")])), Ok(1520));
    assert_eq!(
        read_reply(Reply::Counts(vec![String::from("7"), String::from("9000")])),
        Ok(7)
    );
    assert_eq!(read_reply(Reply::Counts(vec![String::from("0")])), Ok(0));
}

#[test]
fn read_reply_reports_transport_failure() {
    assert_eq!(
        read_reply(Reply::Unreachable(String::from("connection refused"))),
        Err(String::from("Failed to request subscriber count: connection refused"))
    );
}

#[test]
fn read_reply_reports_refusal_with_body() {
    assert_eq!(
        read_reply(Reply::Refused(String::from("{\"error\":403}"))),
        Err(String::from("Server error getting subscriber count: {\"error\":403}"))
    );
}

#[test]
fn read_reply_passes_decoder_message_on() {
    assert_eq!(
        read_reply(Reply::Undecodable(String::from("missing field `items`"))),
        Err(String::from("missing field `items`"))
    );
}

#[test]
fn read_reply_reports_malformed_counts() {
    assert_eq!(
        read_reply(Reply::Counts(Vec::new())),
        Err(String::from("The response lists no channel."))
    );
    assert_eq!(
        read_reply(Reply::Counts(vec![String::from("many")])),
        Err(String::from("The subscriber count is not a number: many"))
    );
    assert_eq!(
        read_reply(Reply::Counts(vec![String::from("4294967296")])),
        Err(String::from("The subscriber count is not a number: 4294967296"))
    );
}
