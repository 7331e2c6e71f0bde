//! Finding butler and talking to it.
use zitch::broth::{find, marker, program, shown_version, uses_local, Found};
use zitch::butlerd::{
    announced, daemon_arguments, framed, is_offline, is_secret, route, Announcement, Id, Incoming,
    Json, ListenNotification, Message, Pending, Routed, RpcError, Stream, StreamStep,
    CODE_NETWORK_DISCONNECTED,
};

#[test]
fn daemons_are_started_with_their_database() {
    assert_eq!(
        daemon_arguments("/db/butler.db", 42, "1.2.3").join(" "),
        "daemon --json --transport tcp --keep-alive --dbpath /db/butler.db \
--destiny-pid 42 --user-agent zitch/1.2.3"
    );
}

fn note(kind: &str, secret: Option<&str>, tcp: Option<&str>) -> ListenNotification {
    ListenNotification {
        kind: kind.into(),
        secret: secret.map(str::to_string),
        tcp: tcp.map(str::to_string),
    }
}

#[test]
fn daemons_announce_themselves() {
    let listen = "butlerd/listen-notification";
    assert_eq!(
        announced(note(listen, Some("s"), Some("127.0.0.1:1"))),
        Announcement::Ready { address: "127.0.0.1:1".into(), secret: "s".into() }
    );
    assert_eq!(announced(note("log", Some("s"), None)), Announcement::Other);
    assert_eq!(
        announced(note(listen, None, Some("127.0.0.1:1"))),
        Announcement::Failed("listen-notification without a tcp address and secret".into())
    );
}

fn error(data: Option<Json>) -> RpcError {
    RpcError { code: 1, message: "plain".into(), data }
}

fn api_error(messages: Json) -> Option<Json> {
    Some(Json::Object(vec![(
        "apiError".into(),
        Json::Object(vec![("messages".into(), messages)]),
    )]))
}

#[test]
fn errors_speak_to_the_user() {
    assert_eq!(error(None).text(), "plain");
    let list = Json::Array(vec![
        Json::Text("one".into()),
        Json::Number("2".into()),
        Json::Text("three".into()),
    ]);
    assert_eq!(error(api_error(list)).text(), "one; three");
    assert_eq!(error(api_error(Json::Array(vec![]))).text(), "plain");
    assert_eq!(error(api_error(Json::Text("x".into()))).text(), "plain");
    assert_eq!(error(Some(Json::Null)).text(), "plain");
    assert!(is_offline(&vec![3, CODE_NETWORK_DISCONNECTED]));
    assert!(!is_offline(&vec![3]));
}

fn message(id: Option<Id<i32>>, method: Option<&str>) -> Message<i32> {
    Message {
        id,
        method: method.map(str::to_string),
        params: None,
        result: None,
        error: None,
    }
}

fn id(number: Option<u64>) -> Option<Id<i32>> {
    Some(Id { number, value: 5 })
}

#[test]
fn messages_go_where_they_belong() {
    assert_eq!(
        route(message(id(Some(3)), Some("m")), 0),
        Routed::Incoming(Incoming::Request { id: 5, method: "m".into(), params: 0 })
    );
    let mut told = message(None, Some("m"));
    told.params = Some(8);
    assert_eq!(
        route(told, 0),
        Routed::Incoming(Incoming::Notification { method: "m".into(), params: 8 })
    );
    assert_eq!(
        route(message(id(Some(3)), None), 0),
        Routed::Reply { id: 3, outcome: Ok(0) }
    );
    let mut both = message(id(Some(3)), None);
    both.result = Some(9);
    assert_eq!(route(both, 0), Routed::Reply { id: 3, outcome: Ok(9) });
    let mut both = message(id(Some(3)), None);
    both.result = Some(9);
    both.error = Some(error(None));
    assert_eq!(
        route(both, 0),
        Routed::Reply { id: 3, outcome: Err(error(None)) }
    );
    assert_eq!(route(message(id(None), None), 0), Routed::Stray(5));
    assert_eq!(route(message(None, None), 0), Routed::Nothing);
}

#[test]
fn replies_find_their_caller_once() {
    let mut pending = Pending::new();
    let a = pending.enter("a");
    let b = pending.enter("b");
    assert_eq!((a, b), (1, 2));
    assert_eq!(pending.settle(b), Some("b"));
    assert_eq!(pending.settle(b), None);
    pending.clear();
    assert_eq!(pending.settle(a), None);
    assert_eq!(pending.enter("c"), 3);
    assert!(is_secret("Profile.LoginWithAPIKey") && !is_secret("Profile.List"));
    assert_eq!(framed(b"{}".to_vec()), b"{}\n".to_vec());
}

#[test]
fn butler_is_where_the_marker_says() {
    assert_eq!(marker("/c"), "/c/broth/butler/.chosen-version");
    assert_eq!(program("/c", "15.2\n", false), "/c/broth/butler/versions/15.2/butler");
    assert_eq!(
        find("/c", None, Ok("15.2\n".into()), true, true),
        Found::At("/c/broth/butler/versions/15.2/butler.exe".into())
    );
    assert_eq!(
        find("/c", None, Ok("15.2\n".into()), false, false),
        Found::Missing(
            "/c/broth/butler/.chosen-version names version 15.2 but \
/c/broth/butler/versions/15.2/butler does not exist"
                .into()
        )
    );
    assert_eq!(
        find("/c", Some("x, butler ,y".into()), Err("gone".into()), false, false),
        Found::Local
    );
    assert_eq!(
        find("/c", Some("butlers".into()), Err("gone".into()), false, false),
        Found::Missing(
            "no butler installed under /c/broth/butler: reading \
/c/broth/butler/.chosen-version: gone\n\
Point --app-name at an itch app install (itch or kitch), pass \
--butler, or set BROTH_USE_LOCAL=butler to use the one on PATH."
                .into()
        )
    );
    assert!(uses_local("butler") && !uses_local(""));
}

#[test]
fn versions_are_shown_without_their_v() {
    let text = |s: &str| Some(s.to_string());
    assert_eq!(shown_version(text("9"), text("v1"), "0.1.0"), "9");
    assert_eq!(shown_version(text(""), text(" v1.0-3-gabc\n"), "0.1.0"), "1.0-3-gabc");
    assert_eq!(shown_version(None, text("v"), "0.1.0"), "0.1.0");
    assert_eq!(shown_version(None, None, "0.1.0"), "0.1.0");
}

#[test]
fn replies_come_last() {
    let news = |n: i32| Incoming::Notification { method: "m".into(), params: n };
    let mut stream: Stream<i32, &str> = Stream::new();
    assert_eq!(stream.step(), StreamStep::Wait);
    stream.queued = vec![news(1), news(2)];
    stream.reply = Some("done");
    assert_eq!(stream.step(), StreamStep::HandOver(news(1)));
    assert_eq!(stream.step(), StreamStep::HandOver(news(2)));
    assert_eq!(stream.step(), StreamStep::Finish("done"));
    assert_eq!(stream.step(), StreamStep::Wait);
}
