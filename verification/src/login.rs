//! Signing in from a device with no browser: the OAuth device grant
//! (RFC 8628) with PKCE on top. The server mints a device code to poll with and a short
//! user code for the phone; the verifier stays here, so the code the
//! poll hands back is no use to anyone who only saw the screen.
use sha2::Digest;
use vstd::prelude::*;
use vstd::string::*;
use vstd::utf8::*;
pub use crate::qr::QrCode;
use crate::text::{decimal, join, join_all, joined, number_text, quote, quoted, same, texts};

verus! {

// ---------------------------------------------------------------------------
// base64url
// ---------------------------------------------------------------------------

/// A byte, or zero behind the end.
pub open spec fn byte_at(bytes: Seq<u8>, i: int) -> int {
    if 0 <= i < bytes.len() {
        bytes[i] as int
    } else {
        0
    }
}

/// Three bytes as one number of 24 bits; behind the end they are zero.
pub open spec fn group(bytes: Seq<u8>, i: int) -> int {
    byte_at(bytes, 3 * i) * 65536 + byte_at(bytes, 3 * i + 1) * 256 + byte_at(bytes, 3 * i + 2)
}

/// What the place of a digit within a group of four is worth.
pub open spec fn worth(place: int) -> int {
    if place == 0 {
        262144
    } else if place == 1 {
        4096
    } else if place == 2 {
        64
    } else {
        1
    }
}

/// Six bits: the digit at a place, four of them to a group.
pub open spec fn sextet(bytes: Seq<u8>, j: int) -> int {
    (group(bytes, j / 4) / worth(j % 4)) % 64
}

/// The letter for six bits.
pub open spec fn letter(n: int) -> char {
    if n < 26 {
        (65 + n) as u8 as char
    } else if n < 52 {
        (71 + n) as u8 as char
    } else if n < 62 {
        (n - 4) as u8 as char
    } else if n == 62 {
        '-'
    } else {
        '_'
    }
}

/// How many letters so many bytes take, without padding.
pub open spec fn encoded_len(n: nat) -> nat {
    n / 3 * 4 + (if n % 3 == 0 {
        0nat
    } else {
        n % 3 + 1
    })
}

/// Bytes in base64url, without padding.
pub open spec fn encoded(bytes: Seq<u8>) -> Seq<char> {
    Seq::new(encoded_len(bytes.len()), |j: int| letter(sextet(bytes, j)))
}

fn to_letter(n: u32) -> (r: char)
    requires
        n < 64,
    ensures
        r == letter(n as int),
{
    if n < 26 {
        (65 + n) as u8 as char
    } else if n < 52 {
        (71 + n) as u8 as char
    } else if n < 62 {
        (n - 4) as u8 as char
    } else if n == 62 {
        '-'
    } else {
        '_'
    }
}

/// Unpadded, like the itch app's `base64url`.
pub fn base64url(bytes: &[u8]) -> (r: String)
    ensures
        r@ == encoded(bytes@),
{
    let n = bytes.len();
    let mut out = String::new();
    let mut i: usize = 0;
    let ghost mut groups: int = 0;
    let ghost all = encoded(bytes@);
    assert(out@ =~= all.take(0));
    while i < n
        invariant
            n == bytes@.len(),
            all == encoded(bytes@),
            i <= n,
            groups >= 0,
            i < n ==> i == 3 * groups,
            i == n ==> 3 * groups >= n && out@.len() == all.len(),
            out@.len() <= all.len(),
            i < n ==> out@.len() == 4 * groups,
            out@ == all.take(out@.len() as int),
        decreases n - i,
    {
        let left = n - i;
        let b0: u32 = bytes[i] as u32;
        let b1: u32 = if left > 1 {
            bytes[i + 1] as u32
        } else {
            0
        };
        let b2: u32 = if left > 2 {
            bytes[i + 2] as u32
        } else {
            0
        };
        let bits: u32 = b0 * 65536 + b1 * 256 + b2;
        let ghost before = out@;
        let ghost at = 4 * groups;
        proof {
            assert(bits == group(bytes@, groups));
            assert((at + 0) / 4 == groups && (at + 0) % 4 == 0);
            assert((at + 1) / 4 == groups && (at + 1) % 4 == 1);
            assert((at + 2) / 4 == groups && (at + 2) % 4 == 2);
            assert((at + 3) / 4 == groups && (at + 3) % 4 == 3);
            if left <= 2 {
                assert(n / 3 == groups && n % 3 == left);
            } else {
                assert(n / 3 >= groups + 1);
            }
        }
        out.push(to_letter(bits / 262144 % 64));
        out.push(to_letter(bits / 4096 % 64));
        assert(out@ =~= before.push(letter(sextet(bytes@, at))).push(letter(sextet(bytes@, at + 1))));
        if left > 1 {
            out.push(to_letter(bits / 64 % 64));
        }
        if left > 2 {
            out.push(to_letter(bits % 64));
        }
        i = if left > 3 {
            i + 3
        } else {
            n
        };
        assert(out@ =~= all.take(out@.len() as int));
        proof {
            groups = groups + 1;
            if left <= 3 {
                assert(out@.len() == all.len()) by {
                    if left == 3 {
                        assert(n / 3 == groups && n % 3 == 0);
                    }
                }
            } else {
                assert(4 * groups <= all.len());
            }
        }
    }
    assert(all.take(all.len() as int) =~= all);
    out
}

proof fn lemma_letters_differ(a: int, b: int)
    requires
        0 <= a < 64,
        0 <= b < 64,
        letter(a) == letter(b),
    ensures
        a == b,
{
    let x = letter(a) as u32;
    let y = letter(b) as u32;
    assert(x == (if a < 26 {
        65 + a
    } else if a < 52 {
        71 + a
    } else if a < 62 {
        a - 4
    } else if a == 62 {
        45
    } else {
        95
    }));
    assert(y == (if b < 26 {
        65 + b
    } else if b < 52 {
        71 + b
    } else if b < 62 {
        b - 4
    } else if b == 62 {
        45
    } else {
        95
    }));
}

proof fn lemma_group(bytes: Seq<u8>, i: int)
    ensures
        0 <= group(bytes, i) < 16777216,
        group(bytes, i) == sextet(bytes, 4 * i) * 262144 + sextet(bytes, 4 * i + 1) * 4096 + sextet(
            bytes,
            4 * i + 2,
        ) * 64 + sextet(bytes, 4 * i + 3),
{
    let g = group(bytes, i);
    assert((4 * i) / 4 == i && (4 * i) % 4 == 0);
    assert((4 * i + 1) / 4 == i && (4 * i + 1) % 4 == 1);
    assert((4 * i + 2) / 4 == i && (4 * i + 2) % 4 == 2);
    assert((4 * i + 3) / 4 == i && (4 * i + 3) % 4 == 3);
    lemma_base_64(g);
}

proof fn lemma_base_64(g: int)
    requires
        0 <= g < 16777216,
    ensures
        g == (g / 262144 % 64) * 262144 + (g / 4096 % 64) * 4096 + (g / 64 % 64) * 64 + (g / 1
            % 64),
{
    let a = g / 64;
    let b = a / 64;
    let c = b / 64;
    assert(g / 4096 == b);
    assert(g / 262144 == c);
    assert(g == 64 * a + g % 64);
    assert(a == 64 * b + a % 64);
    assert(b == 64 * c + b % 64);
    assert(0 <= c < 64);
    assert(c % 64 == c);
    assert(g / 1 == g);
}

proof fn lemma_group_bytes(bytes: Seq<u8>, i: int)
    ensures
        byte_at(bytes, 3 * i) == group(bytes, i) / 65536,
        byte_at(bytes, 3 * i + 1) == group(bytes, i) / 256 % 256,
        byte_at(bytes, 3 * i + 2) == group(bytes, i) % 256,
{
}

proof fn lemma_sextet_range(bytes: Seq<u8>, j: int)
    ensures
        0 <= sextet(bytes, j) < 64,
{
}

/// Behind the end of the last group all bits are zero.
proof fn lemma_sextet_behind(bytes: Seq<u8>, k: int, p: int)
    requires
        0 <= 3 * k < bytes.len(),
        0 <= p < 4,
        4 * k + p >= encoded_len(bytes.len()),
    ensures
        sextet(bytes, 4 * k + p) == 0,
{
    let j = 4 * k + p;
    let left = bytes.len() - 3 * k;
    assert(j / 4 == k && j % 4 == p);
    if left >= 3 {
        assert(bytes.len() / 3 >= k + 1);
    } else {
        assert(bytes.len() / 3 == k && bytes.len() % 3 == left);
        let g = group(bytes, k);
        assert(byte_at(bytes, 3 * k + 2) == 0);
        if left == 1 {
            assert(byte_at(bytes, 3 * k + 1) == 0);
            assert(g == byte_at(bytes, 3 * k) * 65536);
            assert((g / 64) % 64 == 0 && (g / 1) % 64 == 0);
        } else {
            assert((g / 1) % 64 == 0);
        }
    }
}

proof fn lemma_sextets_agree(a: Seq<u8>, b: Seq<u8>, k: int, p: int)
    requires
        encoded(a) == encoded(b),
        a.len() == b.len(),
        0 <= 3 * k < a.len(),
        0 <= p < 4,
    ensures
        sextet(a, 4 * k + p) == sextet(b, 4 * k + p),
{
    let j = 4 * k + p;
    if j < encoded_len(a.len()) {
        assert(encoded(a)[j] == letter(sextet(a, j)));
        assert(encoded(b)[j] == letter(sextet(b, j)));
        lemma_sextet_range(a, j);
        lemma_sextet_range(b, j);
        lemma_letters_differ(sextet(a, j), sextet(b, j));
    } else {
        lemma_sextet_behind(a, k, p);
        lemma_sextet_behind(b, k, p);
    }
}

proof fn lemma_groups_agree(a: Seq<u8>, b: Seq<u8>, k: int)
    requires
        encoded(a) == encoded(b),
        a.len() == b.len(),
        0 <= 3 * k < a.len(),
    ensures
        group(a, k) == group(b, k),
{
    lemma_sextets_agree(a, b, k, 0);
    lemma_sextets_agree(a, b, k, 1);
    lemma_sextets_agree(a, b, k, 2);
    lemma_sextets_agree(a, b, k, 3);
    lemma_group(a, k);
    lemma_group(b, k);
}

proof fn lemma_encoded_len(n: nat)
    ensures
        encoded_len(n) * 3 / 4 == n,
{
    let q = n / 3;
    let r = n % 3;
    assert(n == 3 * q + r);
}

/// Two byte strings with the same encoding are the same: nothing is lost in it.
pub proof fn encoding_loses_nothing(a: Seq<u8>, b: Seq<u8>)
    requires
        encoded(a) == encoded(b),
    ensures
        a == b,
{
    lemma_encoded_len(a.len());
    lemma_encoded_len(b.len());
    assert(encoded(a).len() == encoded_len(a.len()));
    assert(encoded(b).len() == encoded_len(b.len()));
    assert(a.len() == b.len());
    assert forall|i: int| 0 <= i < a.len() implies a[i] == b[i] by {
        let k = i / 3;
        lemma_groups_agree(a, b, k);
        lemma_group_bytes(a, k);
        lemma_group_bytes(b, k);
        assert(byte_at(a, i) == a[i] && byte_at(b, i) == b[i]);
        assert(i == 3 * k || i == 3 * k + 1 || i == 3 * k + 2);
    }
    assert(a =~= b);
}

// ---------------------------------------------------------------------------
// The request
// ---------------------------------------------------------------------------

pub const CLIENT_ID: &'static str = "d59031fc193811bb3e6af0f8eeeb2c18";

/// Sent only at the exchange; the server holds the code for the poll.
pub const REDIRECT_URI: &'static str = "urn:itchio:poll";

pub const SCOPE: &'static str = "itch";

/// How many random bytes a verifier holds.
pub const VERIFIER_BYTES: usize = 32;

/// The SHA-256 digest of bytes.
pub uninterp spec fn sha256(bytes: Seq<u8>) -> Seq<u8>;

/// `Sha256::digest`: 32 bytes that rest on the data alone.
#[verifier::external_body]
pub(crate) fn digest(bytes: &[u8]) -> (r: Vec<u8>)
    ensures
        r@ == sha256(bytes@),
        r@.len() == 32,
{
    sha2::Sha256::digest(bytes).to_vec()
}

/// `getrandom::fill`: so many bytes, whatever they are; none where the system has no
/// randomness to give.
#[verifier::external_body]
fn random(len: usize) -> (r: Option<Vec<u8>>)
    ensures
        r matches Some(bytes) ==> bytes@.len() == len,
{
    let mut bytes = vec![0; len];
    getrandom::fill(&mut bytes).ok()?;
    Some(bytes)
}

/// The verifier that random bytes make.
pub fn verifier_of(bytes: &[u8]) -> (r: String)
    ensures
        r@ == encoded(bytes@),
{
    base64url(bytes)
}

/// A new verifier: random bytes in base64url. None where the system has no randomness to
/// give.
pub fn new_verifier() -> (r: Option<String>)
    ensures
        r matches Some(verifier) ==> exists|bytes: Seq<u8>|
            bytes.len() == VERIFIER_BYTES && verifier@ == #[trigger] encoded(bytes),
{
    match random(VERIFIER_BYTES) {
        Some(bytes) => {
            let r = verifier_of(bytes.as_slice());
            assert(r@ == encoded(bytes@));
            Some(r)
        },
        None => None,
    }
}

/// What the server is shown of a verifier: its digest in base64url.
pub fn challenge(verifier: &str) -> (r: String)
    ensures
        r@ == encoded(sha256(encode_utf8(verifier@))),
        r@.len() == 43,
{
    let bytes = digest(verifier.as_bytes());
    base64url(bytes.as_slice())
}

/// A field of a form.
pub type Field = (&'static str, String);

pub open spec fn field_views(fields: Seq<Field>) -> Seq<(Seq<char>, Seq<char>)> {
    fields.map_values(|f: Field| (f.0@, f.1@))
}

/// Where a sign-in is started, and with what.
pub fn start_request(api_url: &str, challenge: &str) -> (r: (String, Vec<Field>))
    ensures
        r.0@ == api_url@ + "/oauth/device"@,
        field_views(r.1@) == seq![
            ("client_id"@, CLIENT_ID@),
            ("scope"@, SCOPE@),
            ("code_challenge"@, challenge@),
            ("code_challenge_method"@, "S256"@),
        ],
{
    let mut fields: Vec<Field> = Vec::new();
    fields.push(("client_id", CLIENT_ID.to_owned()));
    fields.push(("scope", SCOPE.to_owned()));
    fields.push(("code_challenge", challenge.to_owned()));
    fields.push(("code_challenge_method", "S256".to_owned()));
    assert(field_views(fields@) =~= seq![
        ("client_id"@, CLIENT_ID@),
        ("scope"@, SCOPE@),
        ("code_challenge"@, challenge@),
        ("code_challenge_method"@, "S256"@),
    ]);
    (joined(api_url, "/oauth/device"), fields)
}

/// What went wrong, in the server's words where it has some.
pub open spec fn description(status: u16, errors: Option<Seq<Seq<char>>>) -> Seq<char> {
    match errors {
        Some(list) if list.len() > 0 => join(list, ", "@),
        _ => "HTTP "@ + decimal(status as nat),
    }
}

/// The views of an optional list.
pub open spec fn list_of(list: Option<&Vec<String>>) -> Option<Seq<Seq<char>>> {
    match list {
        Some(list) => Some(texts(list@)),
        None => None,
    }
}

/// What went wrong, in the server's words where it has some.
pub fn describe(status: u16, errors: Option<&Vec<String>>) -> (r: String)
    ensures
        r@ == description(status, list_of(errors)),
{
    match errors {
        Some(list) => {
            if list.len() > 0 {
                return join_all(list, ", ");
            }
        },
        None => {},
    }
    joined("HTTP ", number_text(status as u64).as_str())
}

/// One sign-in request. Never log the verifier or the device code. Times are in seconds.
#[derive(Debug, PartialEq, Eq)]
pub struct DeviceLogin {
    pub verifier: String,
    pub device_code: String,
    pub user_code: String,
    /// What the QR code holds.
    pub verification_url: String,
    pub expires_in: u64,
    pub interval: u64,
}

/// What the server answers to a new sign-in.
#[derive(Debug, PartialEq, Eq)]
pub struct DeviceResponse {
    pub device_code: String,
    pub user_code: String,
    pub verification_uri_complete: String,
    pub expires_in: u64,
    pub interval: u64,
}

/// What the server answers to a poll.
#[derive(Debug, PartialEq, Eq)]
pub struct PollResponse {
    pub status: String,
    pub code: Option<String>,
    pub interval: Option<u64>,
}

#[derive(Debug, PartialEq, Eq)]
pub enum Poll {
    /// Not yet; ask again after so many seconds.
    Pending {
        interval: u64,
    },
    Approved {
        code: String,
    },
    Denied,
    Expired,
    /// Too many polls from this address; wait longer.
    SlowDown,
}

/// At least one second.
pub open spec fn at_least_one(seconds: u64) -> u64 {
    if seconds < 1 {
        1
    } else {
        seconds
    }
}

fn one_or_more(seconds: u64) -> (r: u64)
    ensures
        r == at_least_one(seconds),
{
    if seconds < 1 {
        1
    } else {
        seconds
    }
}

impl DeviceLogin {
    /// What came of starting a sign-in: the request, or what went wrong. `answer` is what the
    /// body was read as, or why it could not be.
    pub fn started(
        verifier: String,
        status: u16,
        errors: Option<&Vec<String>>,
        answer: Result<DeviceResponse, String>,
    ) -> (r: Result<DeviceLogin, String>)
        ensures
            match r {
                Ok(login) => {
                    &&& status == 200
                    &&& answer matches Ok(response)
                    &&& login == (DeviceLogin {
                        verifier,
                        device_code: response.device_code,
                        user_code: response.user_code,
                        verification_url: response.verification_uri_complete,
                        expires_in: response.expires_in,
                        interval: at_least_one(response.interval),
                    })
                },
                Err(why) => if status != 200 {
                    why@ == "starting sign-in: "@ + description(status, list_of(errors))
                } else {
                    answer matches Err(fault) && why@ == "sign-in response: "@ + fault@
                },
            },
    {
        if status != 200 {
            return Err(joined("starting sign-in: ", describe(status, errors).as_str()));
        }
        match answer {
            Ok(response) => Ok(
                DeviceLogin {
                    verifier,
                    device_code: response.device_code,
                    user_code: response.user_code,
                    verification_url: response.verification_uri_complete,
                    expires_in: response.expires_in,
                    interval: one_or_more(response.interval),
                },
            ),
            Err(fault) => Err(joined("sign-in response: ", fault.as_str())),
        }
    }

    /// Where a sign-in is asked after, and with what.
    pub fn poll_request(&self, api_url: &str) -> (r: (String, Vec<Field>))
        ensures
            r.0@ == api_url@ + "/oauth/device/poll"@,
            field_views(r.1@) == seq![
                ("client_id"@, CLIENT_ID@),
                ("device_code"@, self.device_code@),
            ],
    {
        let mut fields: Vec<Field> = Vec::new();
        fields.push(("client_id", CLIENT_ID.to_owned()));
        fields.push(("device_code", self.device_code.clone()));
        assert(field_views(fields@) =~= seq![
            ("client_id"@, CLIENT_ID@),
            ("device_code"@, self.device_code@),
        ]);
        (joined(api_url, "/oauth/device/poll"), fields)
    }
}

/// What an answer to a poll means.
pub open spec fn answer_means(response: PollResponse, poll: Poll) -> bool {
    let status = response.status@;
    match poll {
        Poll::Pending { interval } => status == "pending"@ && interval == at_least_one(
            match response.interval {
                Some(seconds) => seconds,
                None => 5,
            },
        ),
        Poll::Approved { code } => status == "approved"@ && response.code == Some(code),
        Poll::Denied => status == "denied"@,
        Poll::Expired => status == "expired"@,
        Poll::SlowDown => false,
    }
}

/// The statuses that an answer can have.
pub open spec fn is_known_status(status: Seq<char>) -> bool {
    status == "pending"@ || status == "approved"@ || status == "denied"@ || status == "expired"@
}

/// What is wrong with an answer to a poll.
pub open spec fn answer_fault(response: PollResponse) -> Seq<char> {
    if response.status@ == "approved"@ {
        "approved without a code"@
    } else {
        "unknown sign-in status "@ + quoted(response.status@)
    }
}

fn read_answer(response: PollResponse) -> (r: Result<Poll, String>)
    ensures
        match r {
            Ok(poll) => answer_means(response, poll),
            Err(why) => why@ == answer_fault(response) && (response.status@ == "approved"@
                && response.code is None || !is_known_status(response.status@)),
        },
{
    proof {
        reveal_strlit("pending");
        reveal_strlit("approved");
        reveal_strlit("denied");
        reveal_strlit("expired");
    }
    if same(response.status.as_str(), "pending") {
        let interval = match response.interval {
            Some(seconds) => seconds,
            None => 5,
        };
        Ok(Poll::Pending { interval: one_or_more(interval) })
    } else if same(response.status.as_str(), "approved") {
        match response.code {
            Some(code) => Ok(Poll::Approved { code }),
            None => Err("approved without a code".to_owned()),
        }
    } else if same(response.status.as_str(), "denied") {
        Ok(Poll::Denied)
    } else if same(response.status.as_str(), "expired") {
        Ok(Poll::Expired)
    } else {
        Err(joined("unknown sign-in status ", quote(response.status.as_str()).as_str()))
    }
}

/// What a poll comes to: the answer that the server gave, or why it gave none.
pub open spec fn poll_says(
    status: u16,
    errors: Option<Seq<Seq<char>>>,
    answer: Result<PollResponse, String>,
    r: Result<Poll, String>,
) -> bool {
    match r {
        Ok(poll) => if status == 429 {
            poll is SlowDown
        } else {
            status == 200 && answer is Ok && answer_means(answer->Ok_0, poll)
        },
        Err(why) => status != 429 && if status != 200 {
            why@ == "polling sign-in: "@ + description(status, errors)
        } else {
            match answer {
                Ok(response) => why@ == answer_fault(response) && (response.status@ == "approved"@
                    && response.code is None || !is_known_status(response.status@)),
                Err(fault) => why@ == "poll response: "@ + fault@,
            }
        },
    }
}

/// What came of asking after a sign-in. `answer` is what the body was read as, or why it could
/// not be.
pub fn polled(
    status: u16,
    errors: Option<&Vec<String>>,
    answer: Result<PollResponse, String>,
) -> (r: Result<Poll, String>)
    ensures
        poll_says(status, list_of(errors), answer, r),
{
    if status == 429 {
        return Ok(Poll::SlowDown);
    }
    if status != 200 {
        return Err(joined("polling sign-in: ", describe(status, errors).as_str()));
    }
    match answer {
        Ok(response) => read_answer(response),
        Err(fault) => Err(joined("poll response: ", fault.as_str())),
    }
}

/// Two verifiers of a sign-in are the same only if their random bytes are, and each is 43
/// letters long.
pub proof fn verifiers_hold_their_bytes(a: Seq<u8>, b: Seq<u8>)
    requires
        a.len() == VERIFIER_BYTES,
        b.len() == VERIFIER_BYTES,
    ensures
        encoded(a).len() == 43,
        encoded(a) == encoded(b) ==> a == b,
{
    if encoded(a) == encoded(b) {
        encoding_loses_nothing(a, b);
    }
}

/// A poll says what the server does: that the user has not answered yet, and when to ask again;
/// that they agreed, with the code; that they declined, or that the time has run out. A server
/// that is asked too often is asked less often, and any other answer is an error.
pub proof fn polls_say_what_the_server_does(
    status: u16,
    errors: Option<Seq<Seq<char>>>,
    answer: Result<PollResponse, String>,
    r: Result<Poll, String>,
)
    requires
        poll_says(status, errors, answer, r),
    ensures
        status == 429 ==> r == Ok::<Poll, String>(Poll::SlowDown),
        status != 429 && status != 200 ==> r is Err,
        status == 200 && answer is Err ==> r is Err,
        status == 200 ==> (answer matches Ok(response) ==> {
            &&& response.status@ == "pending"@ ==> (r matches Ok(Poll::Pending { interval })
                && interval >= 1 && (response.interval matches Some(seconds) ==> seconds >= 1
                ==> interval == seconds) && (response.interval is None ==> interval == 5))
            &&& response.status@ == "approved"@ ==> (match response.code {
                Some(code) => r == Ok::<Poll, String>(Poll::Approved { code }),
                None => r is Err,
            })
            &&& response.status@ == "denied"@ ==> r == Ok::<Poll, String>(Poll::Denied)
            &&& response.status@ == "expired"@ ==> r == Ok::<Poll, String>(Poll::Expired)
            &&& response.status@ != "pending"@ && response.status@ != "approved"@ && response.status@
                != "denied"@ && response.status@ != "expired"@ ==> r is Err
        }),
{
    reveal_strlit("pending");
    reveal_strlit("approved");
    reveal_strlit("denied");
    reveal_strlit("expired");
    assert("pending"@.len() == 7 && "approved"@.len() == 8 && "denied"@.len() == 6);
    assert("expired"@.len() == 7 && "pending"@[0] == 'p' && "expired"@[0] == 'e');
}

/// The letters of base64url: the capitals, the small letters, the digits, and two signs that
/// stand in an address as they are.
pub proof fn letters_go_by_their_number(n: int)
    requires
        0 <= n < 64,
    ensures
        n < 26 ==> letter(n) as u32 == 0x41 + n,
        26 <= n < 52 ==> letter(n) as u32 == 0x61 + (n - 26),
        52 <= n < 62 ==> letter(n) as u32 == 0x30 + (n - 52),
        n == 62 ==> letter(n) == '-',
        n == 63 ==> letter(n) == '_',
{
}

/// Three bytes make four letters of six bits each, from the highest bits down.
pub proof fn three_bytes_make_four_letters(bytes: Seq<u8>, i: int)
    requires
        0 <= i,
        3 * i + 2 < bytes.len(),
    ensures
        4 * i + 3 < encoded(bytes).len(),
        encoded(bytes)[4 * i] == letter(bytes[3 * i] as int / 4),
        encoded(bytes)[4 * i + 1] == letter(
            bytes[3 * i] as int % 4 * 16 + bytes[3 * i + 1] as int / 16,
        ),
        encoded(bytes)[4 * i + 2] == letter(
            bytes[3 * i + 1] as int % 16 * 4 + bytes[3 * i + 2] as int / 64,
        ),
        encoded(bytes)[4 * i + 3] == letter(bytes[3 * i + 2] as int % 64),
{
    let a = bytes[3 * i] as int;
    let b = bytes[3 * i + 1] as int;
    let c = bytes[3 * i + 2] as int;
    let g = group(bytes, i);
    assert(g == a * 65536 + b * 256 + c);
    assert((4 * i) / 4 == i && (4 * i + 1) / 4 == i && (4 * i + 2) / 4 == i && (4 * i + 3) / 4 == i);
    assert((4 * i) % 4 == 0 && (4 * i + 1) % 4 == 1 && (4 * i + 2) % 4 == 2 && (4 * i + 3) % 4 == 3);
    assert(g / 262144 % 64 == a / 4);
    assert(g / 4096 % 64 == a % 4 * 16 + b / 16);
    assert(g / 64 % 64 == b % 16 * 4 + c / 64);
    assert(g / 1 % 64 == c % 64);
    assert(bytes.len() / 3 >= i + 1);
}

/// A server that says what is wrong is quoted; one that does not is named by its status.
pub proof fn servers_are_quoted(status: u16, errors: Option<Seq<Seq<char>>>, word: Seq<char>)
    ensures
        errors is None ==> description(status, errors) == "HTTP "@ + decimal(status as nat),
        errors == Some(seq![word]) ==> description(status, errors) == word,
        errors matches Some(list) ==> list.len() == 0 ==> description(status, errors) == "HTTP "@
            + decimal(status as nat),
{
}

} // verus!
