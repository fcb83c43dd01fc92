use squidtun::auth::proof_for_time;
use squidtun::server::{
    download_reply, respond, upload_reply, RequestInfo, TunnelService, ALLOWED_DIFF, MAX_READ_SIZE,
};
use squidtun::session::{IoFailure, NonBlocking};
use squidtun::table::SessionTable;

const SECOND: u128 = 1_000_000_000;

fn failure(would_block: bool, message: &str) -> IoFailure {
    IoFailure { would_block, message: message.to_owned() }
}

fn service(password: &str) -> TunnelService<u8> {
    TunnelService::new(SessionTable::new(), password.to_owned())
}

#[test]
fn path_names_endpoint_and_argument() {
    assert!(matches!(RequestInfo::from_request("/connect/abc/xyz"), RequestInfo::Connect(a) if a == "abc"));
    assert!(matches!(RequestInfo::from_request("/upload/0123/ff"), RequestInfo::Upload(a) if a == "0123"));
    assert!(matches!(RequestInfo::from_request("/download/0123/ff"), RequestInfo::Download(a) if a == "0123"));
    assert!(matches!(RequestInfo::from_request("/close/0123/ff"), RequestInfo::Close(a) if a == "0123"));
}

#[test]
fn path_may_end_after_the_argument() {
    assert!(matches!(RequestInfo::from_request("/upload/id"), RequestInfo::Upload(a) if a == "id"));
    assert!(matches!(RequestInfo::from_request("/close/id/"), RequestInfo::Close(a) if a == "id"));
    assert!(matches!(RequestInfo::from_request("/connect/"), RequestInfo::Connect(a) if a.is_empty()));
    assert!(matches!(RequestInfo::from_request("/connect//x"), RequestInfo::Connect(a) if a.is_empty()));
}

#[test]
fn path_may_go_on_after_the_cache_suffix() {
    assert!(matches!(
        RequestInfo::from_request("/download/id/cb/more/and/more"),
        RequestInfo::Download(a) if a == "id"
    ));
}

#[test]
fn path_with_other_text_keeps_it() {
    assert!(matches!(RequestInfo::from_request("/upload/ä b/x"), RequestInfo::Upload(a) if a == "ä b"));
}

#[test]
fn path_that_names_no_endpoint_is_invalid() {
    let paths: Vec<&str> = vec![
        "",
        "/",
        "//",
        "/connect",
        "connect/abc/x",
        "x/connect/abc",
        "/unknown/abc/x",
        "/Connect/abc/x",
        "/connect2/abc/x",
        "//connect/abc",
        "/uploads/abc/x",
    ];
    for path in paths {
        assert!(matches!(RequestInfo::from_request(path), RequestInfo::Invalid), "{}", path);
    }
}

#[test]
fn upload_answers_with_the_count() {
    assert_eq!(upload_reply(NonBlocking::Success(4)), Ok(b"4".to_vec()));
    assert_eq!(upload_reply(NonBlocking::Success(0)), Ok(b"0".to_vec()));
    assert_eq!(upload_reply(NonBlocking::Success(65536)), Ok(b"65536".to_vec()));
}

#[test]
fn upload_answers_with_an_error() {
    assert_eq!(upload_reply(NonBlocking::WouldBlock), Err("blocked".to_owned()));
    assert_eq!(
        upload_reply(NonBlocking::Error(failure(false, "broken pipe"))),
        Err("write error: broken pipe".to_owned())
    );
}

#[test]
fn download_marks_data_with_one() {
    assert_eq!(download_reply(NonBlocking::Success(b"abc".to_vec())), Ok(vec![1, b'a', b'b', b'c']));
    assert_eq!(download_reply(NonBlocking::Success(vec![0, 1])), Ok(vec![1, 0, 1]));
}

#[test]
fn download_marks_the_end_with_one_alone() {
    assert_eq!(download_reply(NonBlocking::Success(Vec::new())), Ok(vec![1]));
}

#[test]
fn download_marks_waiting_with_zero() {
    assert_eq!(download_reply(NonBlocking::WouldBlock), Ok(vec![0]));
}

#[test]
fn download_answers_with_an_error() {
    assert_eq!(
        download_reply(NonBlocking::Error(failure(false, "reset"))),
        Err("io error: reset".to_owned())
    );
}

#[test]
fn success_is_status_200_with_binary_body() {
    let response = respond(Ok(vec![1, 2, 3]));
    assert_eq!(response.status, 200);
    assert_eq!(response.content_type, "application/octet-stream");
    assert_eq!(response.body, vec![1, 2, 3]);
}

#[test]
fn error_is_status_400_with_its_text() {
    let response = respond(Err("no session".to_owned()));
    assert_eq!(response.status, 400);
    assert_eq!(response.content_type, "text/plain");
    assert_eq!(response.body, b"no session".to_vec());
}

#[test]
fn service_starts_with_its_limits() {
    let service = service("pw");
    assert_eq!(ALLOWED_DIFF, 60);
    assert_eq!(MAX_READ_SIZE, 65536);
    assert_eq!(service.max_read_size(), 65536);
    assert_eq!(service.session_count(), 0);
}

#[test]
fn connect_wants_a_proof_within_sixty_seconds() {
    let service = service("pw");
    let now = 1_600_000_000u64;
    let id = service.connect_at(&proof_for_time("pw", now - 60), now).unwrap();
    assert_eq!(id.len(), 32);
    assert!(id.chars().all(|c| c.is_ascii_digit() || ('a'..='f').contains(&c)));
    assert!(service.connect_at(&proof_for_time("pw", now + 59), now).is_ok());
    assert_eq!(
        service.connect_at(&proof_for_time("pw", now + 60), now),
        Err("incorrect password".to_owned())
    );
    assert_eq!(
        service.connect_at(&proof_for_time("other", now), now),
        Err("incorrect password".to_owned())
    );
}

#[test]
fn connect_takes_the_proof_of_the_present_second() {
    let service = service("");
    assert!(service.connect(&squidtun::current_proof("")).is_ok());
    assert_eq!(service.connect("bogus"), Err("incorrect password".to_owned()));
}

#[test]
fn register_answers_with_the_id() {
    let mut service = service("pw");
    let answer = service.register("0123456789abcdef0123456789abcdef".to_owned(), 9, 0);
    assert_eq!(answer, Ok(b"0123456789abcdef0123456789abcdef".to_vec()));
    assert_eq!(service.session_count(), 1);
    assert_eq!(service.backend("0123456789abcdef0123456789abcdef"), Some(&9));
    assert_eq!(service.backend("other"), None);
}

#[test]
fn failures_before_a_session_have_their_texts() {
    assert_eq!(
        TunnelService::<u8>::connect_failed("refused"),
        Err("connect error: refused".to_owned())
    );
    assert_eq!(TunnelService::<u8>::read_failed("eof"), Err("read error: eof".to_owned()));
    assert_eq!(TunnelService::<u8>::invalid(), Err("invalid request".to_owned()));
}

#[test]
fn endpoints_fail_without_a_session() {
    let mut service = service("pw");
    assert_eq!(service.upload("abc", 0, Ok(3)), Err("no session".to_owned()));
    assert_eq!(service.download("abc", 0, Ok(vec![1])), Err("no session".to_owned()));
    assert_eq!(service.close("abc", 0), Err("no session".to_owned()));
}

#[test]
fn upload_partial_accept() {
    let mut service = service("pw");
    service.register("abc".to_owned(), 0, 0).unwrap();
    assert_eq!(service.upload("abc", 1, Ok(4)), Ok(b"4".to_vec()));
    assert_eq!(service.upload("abc", 2, Ok(6)), Ok(b"6".to_vec()));
    assert_eq!(service.upload("abc", 3, Err(failure(true, ""))), Err("blocked".to_owned()));
    assert_eq!(
        service.upload("abc", 4, Err(failure(false, "broken pipe"))),
        Err("write error: broken pipe".to_owned())
    );
    assert_eq!(service.session_count(), 1);
}

#[test]
fn download_eof() {
    let mut service = service("pw");
    service.register("abc".to_owned(), 0, 0).unwrap();
    assert_eq!(service.download("abc", 1, Ok(b"abc".to_vec())), Ok(vec![1, b'a', b'b', b'c']));
    assert_eq!(service.download("abc", 2, Ok(Vec::new())), Ok(vec![1]));
    assert_eq!(service.session_count(), 1);
}

#[test]
fn backpressure_on_read() {
    let mut service = service("pw");
    service.register("abc".to_owned(), 0, 0).unwrap();
    let mut round = 0;
    while round < 5 {
        assert_eq!(service.download("abc", round, Err(failure(true, "would block"))), Ok(vec![0]));
        round += 1;
    }
    assert_eq!(
        service.download("abc", 9, Err(failure(false, "reset"))),
        Err("io error: reset".to_owned())
    );
    assert_eq!(service.session_count(), 1);
}

#[test]
fn session_lifecycle() {
    let mut service = service("");
    let id = service.connect(&squidtun::current_proof("")).unwrap();
    assert_eq!(service.register(id.clone(), 0, 0), Ok(id.as_bytes().to_vec()));
    assert_eq!(service.upload(&id, 1, Ok(6)), Ok(b"6".to_vec()));
    assert_eq!(service.download(&id, 2, Ok(b"hello\n".to_vec())), Ok(b"\x01hello\n".to_vec()));
    assert_eq!(service.close(&id, 3), Ok(b"closed stdout".to_vec()));
    assert_eq!(service.session_count(), 1);
    assert_eq!(service.download(&id, 4, Ok(Vec::new())), Ok(vec![1]));
    assert_eq!(service.session_count(), 0);
    assert_eq!(service.download(&id, 5, Ok(Vec::new())), Err("no session".to_owned()));
}

#[test]
fn close_twice_is_close_once() {
    let mut service = service("");
    service.register("abc".to_owned(), 0, 0).unwrap();
    assert_eq!(service.close("abc", 1), Ok(b"closed stdout".to_vec()));
    assert_eq!(service.close("abc", 2), Ok(b"closed stdout".to_vec()));
    assert_eq!(service.session_count(), 1);
}

#[test]
fn idle_timeout() {
    let mut service = service("");
    service.register("abc".to_owned(), 0, 0).unwrap();
    service.register("def".to_owned(), 1, 0).unwrap();
    assert_eq!(service.upload("def", 10 * SECOND, Ok(1)), Ok(b"1".to_vec()));
    let removed = service.sweep(31 * SECOND);
    assert_eq!(removed.len(), 1);
    assert_eq!(removed[0].id(), "abc");
    assert_eq!(service.upload("abc", 31 * SECOND, Ok(1)), Err("no session".to_owned()));
    assert_eq!(service.download("abc", 31 * SECOND, Ok(vec![1])), Err("no session".to_owned()));
    assert_eq!(service.close("abc", 31 * SECOND), Err("no session".to_owned()));
    assert_eq!(service.close("def", 31 * SECOND), Ok(b"closed stdout".to_vec()));
}
