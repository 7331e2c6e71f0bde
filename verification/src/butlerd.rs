//! What the butler daemon says and is told: newline-delimited JSON-RPC 2.0.
use std::collections::HashMap;
use vstd::prelude::*;
use vstd::string::*;
use crate::text::{
    begins, decimal, join, join_all, joined, number_text, same, starts_with, texts,
};

verus! {

broadcast use vstd::std_specs::hash::group_hash_axioms;

/// butlerd's code for a request that failed for want of a network.
pub const CODE_NETWORK_DISCONNECTED: i64 = 9000;

/// Whether a call failed because butler could not reach itch.io, by the codes of the errors
/// that led to its failure.
pub fn is_offline(codes: &Vec<i64>) -> (r: bool)
    ensures
        r == codes@.contains(CODE_NETWORK_DISCONNECTED),
{
    let mut i: usize = 0;
    while i < codes.len()
        invariant
            i <= codes@.len(),
            forall|k: int| 0 <= k < i ==> codes@[k] != CODE_NETWORK_DISCONNECTED,
        decreases codes@.len() - i,
    {
        if codes[i] == CODE_NETWORK_DISCONNECTED {
            assert(codes@[i as int] == CODE_NETWORK_DISCONNECTED);
            return true;
        }
        i += 1;
    }
    false
}

// ---------------------------------------------------------------------------
// The daemon
// ---------------------------------------------------------------------------

/// What `butler` is started with.
pub fn daemon_arguments(dbpath: &str, pid: u32, version: &str) -> (r: Vec<String>)
    ensures
        texts(r@) == seq![
            "daemon"@,
            "--json"@,
            "--transport"@,
            "tcp"@,
            "--keep-alive"@,
            "--dbpath"@,
            dbpath@,
            "--destiny-pid"@,
            decimal(pid as nat),
            "--user-agent"@,
            "zitch/"@ + version@,
        ],
{
    let agent = joined("zitch/", version);
    let r = vec![
        "daemon".to_owned(),
        "--json".to_owned(),
        "--transport".to_owned(),
        "tcp".to_owned(),
        "--keep-alive".to_owned(),
        "--dbpath".to_owned(),
        dbpath.to_owned(),
        "--destiny-pid".to_owned(),
        number_text(pid as u64),
        "--user-agent".to_owned(),
        agent,
    ];
    assert(texts(r@) =~= seq![
        "daemon"@,
        "--json"@,
        "--transport"@,
        "tcp"@,
        "--keep-alive"@,
        "--dbpath"@,
        dbpath@,
        "--destiny-pid"@,
        decimal(pid as nat),
        "--user-agent"@,
        "zitch/"@ + version@,
    ]);
    r
}

/// A line of the daemon's output: where it listens, if it says so.
#[derive(Debug, PartialEq, Eq)]
pub struct ListenNotification {
    pub kind: String,
    pub secret: Option<String>,
    /// The address it listens on.
    pub tcp: Option<String>,
}

/// What a line of the daemon's output comes to.
#[derive(Debug, PartialEq, Eq)]
pub enum Announcement {
    /// It says something else.
    Other,
    /// The daemon is ready.
    Ready { address: String, secret: String },
    /// It announces itself, but not how to reach it.
    Failed(String),
}

/// What a line of the daemon's output means.
pub fn announced(note: ListenNotification) -> (r: Announcement)
    ensures
        if note.kind@ != "butlerd/listen-notification"@ {
            r is Other
        } else {
            match (note.secret, note.tcp) {
                (Some(secret), Some(address)) => r == (Announcement::Ready { address, secret }),
                _ => r matches Announcement::Failed(words) && words@
                    == "listen-notification without a tcp address and secret"@,
            }
        },
{
    if !same(note.kind.as_str(), "butlerd/listen-notification") {
        return Announcement::Other;
    }
    match (note.secret, note.tcp) {
        (Some(secret), Some(address)) => Announcement::Ready { address, secret },
        _ => Announcement::Failed(
            "listen-notification without a tcp address and secret".to_owned(),
        ),
    }
}

// ---------------------------------------------------------------------------
// Errors
// ---------------------------------------------------------------------------

/// A JSON value. Members keep the order they came in; numbers are as they were written.
#[derive(Debug, PartialEq, Eq)]
pub enum Json {
    Null,
    Bool(bool),
    Number(String),
    Text(String),
    Array(Vec<Json>),
    Object(Vec<(String, Json)>),
}

/// An error returned by butlerd for a request.
#[derive(Debug, PartialEq, Eq)]
pub struct RpcError {
    pub code: i64,
    pub message: String,
    pub data: Option<Json>,
}

/// The place of a member among the first `n`; -1 if there is none of that name.
pub open spec fn member_at(members: Seq<(String, Json)>, name: Seq<char>, n: int) -> int
    decreases n,
{
    if n <= 0 {
        -1
    } else if members[n - 1].0@ == name {
        n - 1
    } else {
        member_at(members, name, n - 1)
    }
}

/// A member of an object; nothing else has any. Of two of one name the later counts.
pub open spec fn member(json: Json, name: Seq<char>) -> Option<Json> {
    match json {
        Json::Object(members) => {
            let at = member_at(members@, name, members@.len() as int);
            if 0 <= at < members@.len() {
                Some(members@[at].1)
            } else {
                None
            }
        },
        _ => None,
    }
}

/// The texts among the first `n` items of a list.
pub open spec fn texts_in(items: Seq<Json>, n: int) -> Seq<Seq<char>>
    decreases n,
{
    if n <= 0 {
        Seq::empty()
    } else {
        match items[n - 1] {
            Json::Text(text) => texts_in(items, n - 1).push(text@),
            _ => texts_in(items, n - 1),
        }
    }
}

/// The messages meant for the user in an error of the itch.io API.
pub open spec fn api_messages(data: Option<Json>) -> Option<Seq<char>> {
    match data {
        Some(data) => match member(data, "apiError"@) {
            Some(error) => match member(error, "messages"@) {
                Some(Json::Array(items)) => {
                    let joined = join(texts_in(items@, items@.len() as int), "; "@);
                    if joined.len() == 0 {
                        None
                    } else {
                        Some(joined)
                    }
                },
                _ => None,
            },
            None => None,
        },
        None => None,
    }
}

fn get<'a>(json: &'a Json, name: &str) -> (r: Option<&'a Json>)
    ensures
        match r {
            Some(value) => member(*json, name@) == Some(*value),
            None => member(*json, name@) is None,
        },
{
    match json {
        Json::Object(members) => {
            let mut i: usize = members.len();
            while i > 0
                invariant
                    i <= members@.len(),
                    *json == Json::Object(*members),
                    member_at(members@, name@, i as int) == member_at(
                        members@,
                        name@,
                        members@.len() as int,
                    ),
                decreases i,
            {
                i -= 1;
                if same(members[i].0.as_str(), name) {
                    return Some(&members[i].1);
                }
            }
            None
        },
        _ => None,
    }
}

impl RpcError {
    /// The error in words: the messages meant for the user if there are any, else its own.
    pub open spec fn words(&self) -> Seq<char> {
        match api_messages(self.data) {
            Some(messages) => messages,
            None => self.message@,
        }
    }

    /// The error in words. itch.io API failures carry the user-facing messages in
    /// data.apiError.messages.
    pub fn text(&self) -> (r: String)
        ensures
            r@ == self.words(),
    {
        if let Some(data) = &self.data {
            if let Some(error) = get(data, "apiError") {
                if let Some(Json::Array(items)) = get(error, "messages") {
                    let mut found: Vec<String> = Vec::new();
                    let mut i: usize = 0;
                    assert(texts(found@) =~= texts_in(items@, 0));
                    while i < items.len()
                        invariant
                            i <= items@.len(),
                            texts(found@) == texts_in(items@, i as int),
                        decreases items@.len() - i,
                    {
                        if let Json::Text(text) = &items[i] {
                            let ghost before = found@;
                            found.push(text.clone());
                            assert(texts(found@) =~= texts(before).push(text@));
                        }
                        i += 1;
                    }
                    let joined = join_all(&found, "; ");
                    if !same(joined.as_str(), "") {
                        proof {
                            reveal_strlit("");
                            assert(joined@.len() == 0 ==> joined@ =~= ""@);
                        }
                        return joined;
                    }
                    proof {
                        reveal_strlit("");
                    }
                }
            }
        }
        self.message.clone()
    }
}

// ---------------------------------------------------------------------------
// Messages
// ---------------------------------------------------------------------------

/// What marks a request and its reply; a number if it is one of ours.
#[derive(Debug, PartialEq, Eq)]
pub struct Id<V> {
    pub number: Option<u64>,
    pub value: V,
}

/// A message of the daemon.
#[derive(Debug, PartialEq, Eq)]
pub struct Message<V> {
    pub id: Option<Id<V>>,
    pub method: Option<String>,
    pub params: Option<V>,
    pub result: Option<V>,
    pub error: Option<RpcError>,
}

/// A message from the daemon that is not a reply to one of our requests.
#[derive(Debug, PartialEq, Eq)]
pub enum Incoming<V> {
    /// Progress and status, with no reply expected.
    Notification { method: String, params: V },
    /// The daemon needs an answer before it can continue the call it is in.
    Request { id: V, method: String, params: V },
}

/// Where a message goes.
#[derive(Debug, PartialEq, Eq)]
pub enum Routed<V> {
    Incoming(Incoming<V>),
    /// To whoever made the request of this number.
    Reply { id: u64, outcome: Result<V, RpcError> },
    /// A reply to no request of ours: its mark is no number.
    Stray(V),
    /// It has neither an id nor a method.
    Nothing,
}

/// What a reply says: its error if it has one, else its result, else nothing.
pub open spec fn outcome_of<V>(
    result: Option<V>,
    error: Option<RpcError>,
    null: V,
) -> Result<V, RpcError> {
    match (result, error) {
        (_, Some(error)) => Err(error),
        (Some(result), None) => Ok(result),
        (None, None) => Ok(null),
    }
}

pub open spec fn or_null<V>(value: Option<V>, null: V) -> V {
    match value {
        Some(value) => value,
        None => null,
    }
}

/// Where a message goes.
pub open spec fn route_of<V>(message: Message<V>, null: V) -> Routed<V> {
    match (message.id, message.method) {
        (Some(id), Some(method)) => Routed::Incoming(
            Incoming::Request { id: id.value, method, params: or_null(message.params, null) },
        ),
        (None, Some(method)) => Routed::Incoming(
            Incoming::Notification { method, params: or_null(message.params, null) },
        ),
        (Some(id), None) => match id.number {
            Some(number) => Routed::Reply {
                id: number,
                outcome: outcome_of(message.result, message.error, null),
            },
            None => Routed::Stray(id.value),
        },
        (None, None) => Routed::Nothing,
    }
}

/// Where a message goes. `null` stands for what it leaves out.
pub fn route<V>(message: Message<V>, null: V) -> (r: Routed<V>)
    ensures
        r == route_of(message, null),
{
    match (message.id, message.method) {
        (Some(id), Some(method)) => {
            let params = match message.params {
                Some(params) => params,
                None => null,
            };
            Routed::Incoming(Incoming::Request { id: id.value, method, params })
        },
        (None, Some(method)) => {
            let params = match message.params {
                Some(params) => params,
                None => null,
            };
            Routed::Incoming(Incoming::Notification { method, params })
        },
        (Some(id), None) => match id.number {
            Some(number) => {
                let outcome = match (message.result, message.error) {
                    (_, Some(error)) => Err(error),
                    (Some(result), None) => Ok(result),
                    (None, None) => Ok(null),
                };
                Routed::Reply { id: number, outcome }
            },
            None => Routed::Stray(id.value),
        },
        (None, None) => Routed::Nothing,
    }
}

/// Whether a request's parameters stay out of the log: those that sign in.
pub fn is_secret(method: &str) -> (r: bool)
    ensures
        r == starts_with(method@, "Profile.Login"@),
{
    begins(method, "Profile.Login")
}

/// A message as it is sent: on a line of its own.
pub fn framed(message: Vec<u8>) -> (r: Vec<u8>)
    ensures
        r@ == message@.push(0x0a),
{
    let mut line = message;
    line.push(0x0a);
    line
}

// ---------------------------------------------------------------------------
// Calls
// ---------------------------------------------------------------------------

/// The requests that wait for their reply, and the number of the next one.
#[derive(Debug)]
pub struct Pending<W> {
    pub waiting: HashMap<u64, W>,
    pub next_id: u64,
}

impl<W> Pending<W> {
    /// Every request that waits has a number that was given out.
    pub open spec fn wf(&self) -> bool {
        forall|id: u64| #[trigger] self.waiting@.contains_key(id) ==> id < self.next_id
    }

    pub fn new() -> (r: Self)
        ensures
            r.wf(),
            r.waiting@ == Map::<u64, W>::empty(),
            r.next_id == 1,
    {
        Pending { waiting: HashMap::new(), next_id: 1 }
    }

    /// Enters a request, and gives it its number.
    pub fn enter(&mut self, waiter: W) -> (r: u64)
        requires
            old(self).next_id < u64::MAX,
        ensures
            r == old(self).next_id,
            final(self).next_id == old(self).next_id + 1,
            final(self).waiting@ == old(self).waiting@.insert(r, waiter),
            old(self).wf() ==> final(self).wf(),
    {
        let id = self.next_id;
        self.next_id = id + 1;
        self.waiting.insert(id, waiter);
        id
    }

    /// Takes out whoever waits for the reply to a request.
    pub fn settle(&mut self, id: u64) -> (r: Option<W>)
        ensures
            r == (if old(self).waiting@.contains_key(id) {
                Some(old(self).waiting@[id])
            } else {
                None
            }),
            final(self).waiting@ == old(self).waiting@.remove(id),
            final(self).next_id == old(self).next_id,
            old(self).wf() ==> final(self).wf(),
    {
        self.waiting.remove(&id)
    }

    /// Forgets every caller still waiting, so they fail instead of hanging.
    pub fn clear(&mut self)
        ensures
            final(self).waiting@ == Map::<u64, W>::empty(),
            final(self).next_id == old(self).next_id,
    {
        self.waiting.clear();
    }
}

// ---------------------------------------------------------------------------
// Calls whose progress is the point
// ---------------------------------------------------------------------------

/// A call under way: what the daemon sent since, oldest first, and the reply once it is there.
#[derive(Debug)]
pub struct Stream<V, R> {
    pub queued: Vec<Incoming<V>>,
    pub reply: Option<R>,
}

/// What is next for a call under way.
#[derive(Debug, PartialEq, Eq)]
pub enum StreamStep<V, R> {
    /// Hand this over.
    HandOver(Incoming<V>),
    /// The call is over.
    Finish(R),
    /// Wait for more.
    Wait,
}

impl<V, R> Stream<V, R> {
    pub fn new() -> (r: Self)
        ensures
            r.queued@.len() == 0,
            r.reply is None,
    {
        Stream { queued: Vec::new(), reply: None }
    }

    /// What is next: as long as anything is queued the oldest is handed over; only behind that
    /// the reply is taken.
    pub open spec fn stepped(pre: Self, step: StreamStep<V, R>, post: Self) -> bool {
        if pre.queued@.len() > 0 {
            &&& step == StreamStep::<V, R>::HandOver(pre.queued@[0])
            &&& post.queued@ == pre.queued@.skip(1)
            &&& post.reply == pre.reply
        } else {
            &&& post.queued@ == pre.queued@
            &&& post.reply is None
            &&& step == (match pre.reply {
                Some(reply) => StreamStep::<V, R>::Finish(reply),
                None => StreamStep::<V, R>::Wait,
            })
        }
    }

    pub fn step(&mut self) -> (r: StreamStep<V, R>)
        ensures
            Self::stepped(*old(self), r, *final(self)),
    {
        let ghost pre = self.queued@;
        if self.queued.len() > 0 {
            let oldest = self.queued.remove(0);
            assert(self.queued@ =~= pre.skip(1));
            return StreamStep::HandOver(oldest);
        }
        match self.reply.take() {
            Some(reply) => StreamStep::Finish(reply),
            None => StreamStep::Wait,
        }
    }
}

/// The steps from one state of a call to another.
pub open spec fn stream_steps<V, R>(
    states: Seq<Stream<V, R>>,
    steps: Seq<StreamStep<V, R>>,
) -> bool {
    &&& states.len() == steps.len() + 1
    &&& forall|i: int|
        0 <= i < steps.len() ==> Stream::stepped(
            #[trigger] states[i],
            steps[i],
            states[i + 1],
        )
}

/// Everything that arrived before the reply is handed over before it, in the order in which it
/// came: as many steps as there are queued hand these over, and the next one ends the call.
pub proof fn replies_come_last<V, R>(states: Seq<Stream<V, R>>, steps: Seq<StreamStep<V, R>>)
    requires
        stream_steps(states, steps),
        steps.len() == states[0].queued@.len() + 1,
        states[0].reply is Some,
    ensures
        forall|i: int|
            0 <= i < steps.len() - 1 ==> #[trigger] steps[i] == StreamStep::<V, R>::HandOver(
                states[0].queued@[i],
            ),
        steps.last() == StreamStep::<V, R>::Finish(states[0].reply->0),
    decreases steps.len(),
{
    assert(Stream::stepped(states[0], steps[0], states[1]));
    if states[0].queued@.len() > 0 {
        let later = states.skip(1);
        let rest = steps.skip(1);
        assert forall|i: int| 0 <= i < rest.len() implies Stream::stepped(
            #[trigger] later[i],
            rest[i],
            later[i + 1],
        ) by {
            assert(Stream::stepped(states[i + 1], steps[i + 1], states[i + 2]));
        }
        replies_come_last(later, rest);
        assert forall|i: int| 0 <= i < steps.len() - 1 implies #[trigger] steps[i]
            == StreamStep::<V, R>::HandOver(states[0].queued@[i]) by {
            if i > 0 {
                assert(rest[i - 1] == steps[i]);
                assert(later[0].queued@[i - 1] == states[0].queued@[i]);
            }
        }
        assert(rest.last() == steps.last());
    }
}

/// A request's number is its own: nobody else waits under it. Its reply finds whoever made it,
/// once, and leaves the others waiting.
pub proof fn replies_reach_their_caller<W>(pending: Pending<W>, waiter: W)
    requires
        pending.wf(),
    ensures
        ({
            let id = pending.next_id;
            let entered = pending.waiting@.insert(id, waiter);
            &&& !pending.waiting@.contains_key(id)
            &&& entered[id] == waiter
            &&& entered.remove(id) == pending.waiting@
        }),
{
    let id = pending.next_id;
    assert(pending.waiting@.insert(id, waiter).remove(id) =~= pending.waiting@);
}

/// A message goes to one place: with a method it is the daemon's own, and only without one can
/// it be a reply.
pub proof fn replies_have_no_method<V>(message: Message<V>, null: V)
    ensures
        (route_of(message, null) is Incoming) == (message.method is Some),
        (route_of(message, null) is Reply) == (message.method is None && (message.id matches Some(
            id,
        ) && id.number is Some)),
        (route_of(message, null) is Nothing) == (message.method is None && message.id is None),
{
}

/// A message goes where it belongs, with what it carries: a request with its mark, a
/// notification without one, and a reply to its number, as an error wherever it has one.
pub proof fn messages_keep_what_they_carry<V>(message: Message<V>, null: V)
    ensures
        (message.id matches Some(id) && message.method is Some) ==> (route_of(message, null) matches Routed::Incoming(
            Incoming::Request { id: mark, method, params },
        ) && mark == message.id->0.value && method == message.method->0 && (
        message.params matches Some(given) ==> params == given) && (message.params is None ==> params
            == null)),
        (message.id is None && message.method is Some) ==> (route_of(message, null) matches Routed::Incoming(
            Incoming::Notification { method, params },
        ) && method == message.method->0 && (message.params matches Some(given) ==> params == given)
            && (message.params is None ==> params == null)),
        (message.method is None && (message.id matches Some(id) && id.number is Some)) ==> (route_of(
            message,
            null,
        ) matches Routed::Reply { id, outcome } && id == message.id->0.number->0 && (
        message.error matches Some(error) ==> outcome == Err::<V, RpcError>(error)) && (
        message.error is None && message.result is Some ==> outcome == Ok::<V, RpcError>(
            message.result->0,
        )) && (message.error is None && message.result is None ==> outcome == Ok::<V, RpcError>(
            null,
        ))),
{
}

/// Of the members of an object the last one under a name counts.
pub proof fn the_last_member_counts(members: Vec<(String, Json)>, name: Seq<char>, i: int)
    requires
        0 <= i < members@.len(),
        members@[i].0@ == name,
        forall|j: int| i < j < members@.len() ==> (#[trigger] members@[j]).0@ != name,
    ensures
        member(Json::Object(members), name) == Some(members@[i].1),
{
    lemma_member_at(members@, name, i, members@.len() as int);
}

proof fn lemma_member_at(members: Seq<(String, Json)>, name: Seq<char>, i: int, n: int)
    requires
        0 <= i < n <= members.len(),
        members[i].0@ == name,
        forall|j: int| i < j < n ==> (#[trigger] members[j]).0@ != name,
    ensures
        member_at(members, name, n) == i,
    decreases n,
{
    if i < n - 1 {
        assert(members[n - 1].0@ != name);
        lemma_member_at(members, name, i, n - 1);
    }
}

/// An error is told in the words of itch.io where it has some, and in butler's otherwise.
pub proof fn errors_speak_in_the_words_of_the_site(error: RpcError)
    ensures
        api_messages(error.data) is None ==> error.words() == error.message@,
        api_messages(error.data) matches Some(words) ==> error.words() == words && words.len() > 0,
        error.data is None ==> error.words() == error.message@,
{
}

} // verus!
