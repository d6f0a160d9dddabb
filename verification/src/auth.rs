//! OAuth 2.0 access tokens by the *client credentials* grant, of any endpoint.
//!
//! The latest token is kept and handed out again until a minute before it
//! expires; then a new one is asked for.

use vstd::prelude::*;

use vstd::utf8;

use crate::reply;
use crate::reply::{is_success, status_text};
use crate::step::Failure;
use crate::text;

verus! {

/// The answer of a token endpoint: a token, and for how many seconds it is
/// good.
pub struct TokenResponse {
    pub access_token: String,
    pub expires_in: u64,
}

/// A token, and when it expires, in nanoseconds of some clock.
struct CachedToken {
    token: String,
    expires_at: u128,
}

/// Keeps the token of one client of one endpoint.
pub struct TokenManager {
    client_id: String,
    client_secret: String,
    token_endpoint: String,
    cache: Option<CachedToken>,
}

/// The mathematical value of a `TokenManager`.
#[verifier::ext_equal]
pub struct ManagerView {
    pub client_id: Seq<char>,
    pub client_secret: Seq<char>,
    pub token_endpoint: Seq<char>,
    pub cache: Option<(Seq<char>, nat)>,
}

impl View for TokenManager {
    type V = ManagerView;

    closed spec fn view(&self) -> ManagerView {
        ManagerView {
            client_id: self.client_id@,
            client_secret: self.client_secret@,
            token_endpoint: self.token_endpoint@,
            cache: match self.cache {
                Some(cached) => Some((cached.token@, cached.expires_at as nat)),
                None => None,
            },
        }
    }
}

/// Nanoseconds in a second.
pub const SECOND: u128 = 1_000_000_000;

/// How long before its end a token counts as expired.
pub const SKEW: u128 = 60_000_000_000;

/// A byte that stands for itself in a form.
pub open spec fn kept_in_form(b: u8) -> bool {
    ||| 'a' as u8 <= b <= 'z' as u8
    ||| 'A' as u8 <= b <= 'Z' as u8
    ||| '0' as u8 <= b <= '9' as u8
    ||| b == '*' as u8 || b == '-' as u8 || b == '.' as u8 || b == '_' as u8
}

/// The upper-case hexadecimal digit for a number below sixteen.
pub open spec fn hex_digit(n: int) -> char {
    if n < 10 {
        ('0' as u8 + n) as u8 as char
    } else {
        ('A' as u8 + (n - 10)) as u8 as char
    }
}

/// A byte as it stands in a form: itself, `+` for a space, or else `%` and two
/// hexadecimal digits.
pub open spec fn form_byte(b: u8) -> Seq<char> {
    if kept_in_form(b) {
        seq![b as char]
    } else if b == ' ' as u8 {
        seq!['+']
    } else {
        seq!['%', hex_digit(b as int / 16), hex_digit(b as int % 16)]
    }
}

/// Bytes as they stand in a form, one behind the other.
pub open spec fn form_bytes(bytes: Seq<u8>) -> Seq<char>
    decreases bytes.len(),
{
    if bytes.len() == 0 {
        Seq::empty()
    } else {
        form_byte(bytes[0]) + form_bytes(bytes.drop_first())
    }
}

/// A text as it stands in a form, by its bytes in UTF-8.
pub open spec fn form_urlencoded(s: Seq<char>) -> Seq<char> {
    form_bytes(utf8::encode_utf8(s))
}

/// What a client identifies itself with: its id and its secret, each as it
/// stands in a form, with a colon between them.
pub open spec fn credentials(client_id: Seq<char>, client_secret: Seq<char>) -> Seq<char> {
    form_urlencoded(client_id) + ":"@ + form_urlencoded(client_secret)
}

/// The upper-case hexadecimal digit for a number below sixteen.
fn to_hex_digit(n: u8) -> (c: char)
    requires
        n < 16,
    ensures
        c == hex_digit(n as int),
{
    if n < 10 {
        ('0' as u8 + n) as char
    } else {
        ('A' as u8 + (n - 10)) as char
    }
}

/// A text as it stands in a form.
pub fn form_urlencode(s: &str) -> (out: String)
    ensures
        out@ == form_urlencoded(s@),
{
    let bytes = s.as_bytes();
    let mut out = String::new();
    let mut i: usize = 0;
    assert(bytes@.skip(0) =~= bytes@);
    assert(out@ + form_bytes(bytes@) =~= form_bytes(bytes@));
    while i < bytes.len()
        invariant
            i <= bytes@.len(),
            form_bytes(bytes@) == out@ + form_bytes(bytes@.skip(i as int)),
        decreases bytes@.len() - i,
    {
        let b: u8 = bytes[i];
        let ghost before = out@;
        let ghost rest = bytes@.skip(i + 1);
        assert(bytes@.skip(i as int).drop_first() =~= rest);
        let c = b as char;
        if ('a' <= c && c <= 'z') || ('A' <= c && c <= 'Z') || ('0' <= c && c <= '9') || c == '*'
            || c == '-' || c == '.' || c == '_' {
            out.push(c);
        } else if c == ' ' {
            out.push('+');
        } else {
            out.push('%');
            out.push(to_hex_digit(b / 16));
            out.push(to_hex_digit(b % 16));
        }
        assert(out@ =~= before + form_byte(b));
        assert(out@ + form_bytes(rest) =~= before + (form_byte(b) + form_bytes(rest)));
        i += 1;
    }
    assert(bytes@.skip(i as int) =~= Seq::empty());
    assert(out@ + Seq::<char>::empty() =~= out@);
    out
}

/// What a client identifies itself with.
fn join_credentials(client_id: &str, client_secret: &str) -> (s: String)
    ensures
        s@ == credentials(client_id@, client_secret@),
{
    form_urlencode(client_id).concat(":").concat(form_urlencode(client_secret).as_str())
}

/// Whether the credentials are short enough to be sent.
pub fn credentials_fit(client_id: &str, client_secret: &str) -> (yes: bool)
    ensures
        yes == fit(client_id@, client_secret@),
{
    let creds = join_credentials(client_id, client_secret);
    let n: usize = creds.as_str().as_bytes().len();
    (n as u128 + 2) / 3 * 4 <= isize::MAX as u128
}

/// The length of the Base64 text for so many bytes.
pub open spec fn base64_len(n: nat) -> nat {
    (n + 2) / 3 * 4
}

/// Whether the credentials are short enough to be sent.
pub open spec fn fit(client_id: Seq<char>, client_secret: Seq<char>) -> bool {
    base64_len(utf8::encode_utf8(credentials(client_id, client_secret)).len()) <= isize::MAX
}

/// The character of the standard Base64 alphabet for a number below 64.
pub open spec fn base64_char(n: int) -> char {
    if n < 26 {
        ('A' as u8 + n) as u8 as char
    } else if n < 52 {
        ('a' as u8 + (n - 26)) as u8 as char
    } else if n < 62 {
        ('0' as u8 + (n - 52)) as u8 as char
    } else if n == 62 {
        '+'
    } else {
        '/'
    }
}

/// A byte, or zero behind the last.
pub open spec fn byte_at(bytes: Seq<u8>, i: int) -> int {
    if i < bytes.len() {
        bytes[i] as int
    } else {
        0
    }
}

/// The group of six bits with this number, among the bits of all bytes.
pub open spec fn six_bits(bytes: Seq<u8>, i: int) -> int {
    let first = i / 4 * 3;
    let word = byte_at(bytes, first) * 0x10000 + byte_at(bytes, first + 1) * 0x100 + byte_at(
        bytes,
        first + 2,
    );
    if i % 4 == 0 {
        word / 0x40000
    } else if i % 4 == 1 {
        word / 0x1000 % 64
    } else if i % 4 == 2 {
        word / 64 % 64
    } else {
        word % 64
    }
}

/// Bytes in Base64, with the standard alphabet and with padding: a character
/// for each six bits, filled up to four with `=`.
pub open spec fn base64_text(bytes: Seq<u8>) -> Seq<char> {
    Seq::new(
        base64_len(bytes.len()),
        |i: int|
            if i * 6 < bytes.len() * 8 {
                base64_char(six_bits(bytes, i))
            } else {
                '='
            },
    )
}

/// `base64::engine::general_purpose::STANDARD`, its `encode`: the bytes of the
/// text in Base64. The result must fit into memory.
#[verifier::external_body]
fn base64_standard(s: &str) -> (out: String)
    requires
        base64_len(utf8::encode_utf8(s@).len()) <= isize::MAX,
    ensures
        out@ == base64_text(utf8::encode_utf8(s@)),
{
    base64::Engine::encode(&base64::engine::general_purpose::STANDARD, s)
}

/// A request for a token, to be posted.
pub struct TokenRequest {
    pub url: String,
    pub authorization: String,
    pub content_type: String,
    pub body: String,
}

/// The mathematical value of a `TokenRequest`.
pub struct RequestView {
    pub url: Seq<char>,
    pub authorization: Seq<char>,
    pub content_type: Seq<char>,
    pub body: Seq<char>,
}

impl View for TokenRequest {
    type V = RequestView;

    open spec fn view(&self) -> RequestView {
        RequestView {
            url: self.url@,
            authorization: self.authorization@,
            content_type: self.content_type@,
            body: self.body@,
        }
    }
}

/// What came of a request for a token.
pub enum Fetched {
    /// The request could not be sent.
    SendFailed(Failure),
    /// The endpoint answered with this status. The body is what could be read
    /// of its answer, and the token is what the answer comes to as the grant of
    /// one.
    Answered { status: u16, body: Option<String>, token: Result<TokenResponse, Failure> },
}

/// The mathematical value of a `Fetched`.
pub enum FetchedView {
    SendFailed(Seq<Seq<char>>),
    Answered {
        status: u16,
        body: Option<Seq<char>>,
        token: Result<(Seq<char>, u64), Seq<Seq<char>>>,
    },
}

impl View for Fetched {
    type V = FetchedView;

    open spec fn view(&self) -> FetchedView {
        match self {
            Fetched::SendFailed(failure) => FetchedView::SendFailed(failure@),
            Fetched::Answered { status, body, token } => FetchedView::Answered {
                status: *status,
                body: text::opt_string(*body),
                token: match token {
                    Ok(response) => Ok((response.access_token@, response.expires_in)),
                    Err(failure) => Err(failure@),
                },
            },
        }
    }
}

impl FetchedView {
    /// Whether an answer has a proper status.
    pub open spec fn wf(self) -> bool {
        self matches FetchedView::Answered { status, body, token } ==> 100 <= status <= 999
    }

    /// The token that was granted, and for how many seconds: the answer reports
    /// success, and it is the grant of a token.
    pub open spec fn granted(self) -> Option<(Seq<char>, u64)> {
        match self {
            FetchedView::Answered { status, body, token: Ok(grant) } => if reply::success(status) {
                Some(grant)
            } else {
                None
            },
            _ => None,
        }
    }
}

/// What a refusal comes to.
pub open spec fn auth_refusal_view(status: Seq<char>, body: Seq<char>) -> Seq<char> {
    "auth failed: "@ + status + " "@ + body
}

/// What a refusal comes to.
pub fn auth_refusal(status: &str, body: &str) -> (s: String)
    ensures
        s@ == auth_refusal_view(status@, body@),
{
    "auth failed: ".to_owned().concat(status).concat(" ").concat(body)
}

/// The error of a request for a token that was granted none. An answer that
/// reports no success is a refusal, whatever its body.
pub open spec fn fetch_error(endpoint: Seq<char>, fetched: FetchedView) -> Option<Seq<Seq<char>>> {
    match fetched {
        FetchedView::SendFailed(chain) => Some(seq!["POST "@ + endpoint] + chain),
        FetchedView::Answered { status, body, token } => if !reply::success(status) {
            Some(seq![auth_refusal_view(reply::status_view(status), text::or_empty(body))])
        } else {
            match token {
                Ok(_) => None,
                Err(chain) => Some(seq!["parse token response"@] + chain),
            }
        },
    }
}

/// What to do for a token.
pub enum TokenStep {
    /// Use this one.
    Use(String),
    /// Ask for one.
    Fetch(TokenRequest),
}

impl ManagerView {
    /// The credentials can be sent.
    pub open spec fn wf(self) -> bool {
        fit(self.client_id, self.client_secret)
    }

    /// The token that is good for another minute and more.
    pub open spec fn good_token(self, now: nat) -> Option<Seq<char>> {
        match self.cache {
            Some((token, expires_at)) => if now + SKEW < expires_at {
                Some(token)
            } else {
                None
            },
            None => None,
        }
    }

    /// The request for a token.
    pub open spec fn request(self) -> RequestView {
        RequestView {
            url: self.token_endpoint,
            authorization: "Basic "@ + base64_text(
                utf8::encode_utf8(credentials(self.client_id, self.client_secret)),
            ),
            content_type: "application/x-www-form-urlencoded"@,
            body: "grant_type=client_credentials"@,
        }
    }

    /// The manager that was told what came of a request, at this time.
    pub open spec fn told(self, fetched: FetchedView, now: nat) -> ManagerView {
        match fetched.granted() {
            Some((token, expires_in)) => ManagerView {
                cache: Some((token, (now + expires_in * SECOND) as nat)),
                ..self
            },
            None => self,
        }
    }
}

impl TokenManager {
    /// A manager for this client of the endpoint with this URL, without a
    /// token. The client identifies itself by HTTP Basic authentication, as in
    /// section 2.3.1 of RFC 6749.
    pub fn new(client_id: String, client_secret: String, token_endpoint: String) -> (manager: Self)
        requires
            fit(client_id@, client_secret@),
        ensures
            manager@.wf(),
            manager@ == (ManagerView {
                client_id: client_id@,
                client_secret: client_secret@,
                token_endpoint: token_endpoint@,
                cache: None,
            }),
    {
        TokenManager { client_id, client_secret, token_endpoint, cache: None }
    }

    /// The request for a token. The client identifies itself by HTTP Basic
    /// authentication, with its id and its secret each as it stands in a form.
    pub fn token_request(&self) -> (request: TokenRequest)
        requires
            self@.wf(),
        ensures
            request@ == self@.request(),
    {
        let creds = join_credentials(self.client_id.as_str(), self.client_secret.as_str());
        TokenRequest {
            url: self.token_endpoint.clone(),
            authorization: "Basic ".to_owned().concat(base64_standard(creds.as_str()).as_str()),
            content_type: "application/x-www-form-urlencoded".to_owned(),
            body: "grant_type=client_credentials".to_owned(),
        }
    }

    /// What to do for a token at this time: use the one that is kept, where it
    /// is good for another minute and more, or else ask for one.
    pub fn get_valid_token(&self, now: u128) -> (step: TokenStep)
        requires
            self@.wf(),
        ensures
            match self@.good_token(now as nat) {
                Some(token) => step matches TokenStep::Use(used) && used@ == token,
                None => step matches TokenStep::Fetch(request) && request@ == self@.request(),
            },
    {
        match &self.cache {
            Some(cached) => {
                if now < cached.expires_at && SKEW < cached.expires_at - now {
                    TokenStep::Use(cached.token.clone())
                } else {
                    TokenStep::Fetch(self.token_request())
                }
            },
            None => TokenStep::Fetch(self.token_request()),
        }
    }

    /// Judges what came of a request for a token: one was granted if and only
    /// if the answer reports success and is the grant of a token.
    pub fn fetch_token(&self, fetched: Fetched) -> (outcome: Result<TokenResponse, Failure>)
        requires
            fetched@.wf(),
        ensures
            outcome is Ok <==> (fetched@ matches FetchedView::Answered { status, body, token }
                && 200 <= status < 300 && token is Ok),
            match outcome {
                Ok(response) => fetched@.granted() == Some(
                    (response.access_token@, response.expires_in),
                ),
                Err(failure) => fetch_error(self@.token_endpoint, fetched@) == Some(failure@),
            },
    {
        match fetched {
            Fetched::SendFailed(failure) => Err(
                failure.context("POST ".to_owned().concat(self.token_endpoint.as_str())),
            ),
            Fetched::Answered { status, body, token } => {
                if is_success(status) {
                    match token {
                        Ok(response) => Ok(response),
                        Err(failure) => Err(failure.context("parse token response".to_owned())),
                    }
                } else {
                    let ghost said = text::opt_string(body);
                    let body = match body {
                        Some(body) => body,
                        None => String::new(),
                    };
                    assert(body@ =~= text::or_empty(said));
                    Err(Failure::new(auth_refusal(status_text(status).as_str(), body.as_str())))
                }
            },
        }
    }

    /// Takes what came of a request for a token, at this time. A token that was
    /// granted is kept and handed out; otherwise everything stays as it was.
    pub fn receive(&mut self, fetched: Fetched, now: u128) -> (token: Result<String, Failure>)
        requires
            old(self)@.wf(),
            fetched@.wf(),
            fetched@.granted() matches Some((token, expires_in)) ==> now + expires_in * SECOND
                <= u128::MAX,
        ensures
            final(self)@.wf(),
            final(self)@ == old(self)@.told(fetched@, now as nat),
            match token {
                Ok(token) => fetched@.granted() matches Some((granted, expires_in)) && granted
                    == token@,
                Err(failure) => fetch_error(old(self)@.token_endpoint, fetched@) == Some(failure@),
            },
    {
        let ghost before = self@;
        let ghost event = fetched@;
        match self.fetch_token(fetched) {
            Ok(response) => {
                let token = response.access_token.clone();
                assert(now + response.expires_in * SECOND <= u128::MAX);
                self.cache = Some(
                    CachedToken {
                        token: response.access_token,
                        expires_at: now + response.expires_in as u128 * SECOND,
                    },
                );
                assert(self@ =~= before.told(event, now as nat));
                Ok(token)
            },
            Err(failure) => Err(failure),
        }
    }
}

/// A token is asked for anew a minute before it expires. A token that was
/// granted at one time for so many seconds is handed out `now`, if and only
/// if it is then good for more than a minute still; and so one that is good
/// for a minute or less is never handed out again.
pub proof fn law_token_refreshed_before_expiry(
    manager: ManagerView,
    fetched: FetchedView,
    granted_at: nat,
    now: nat,
)
    requires
        fetched.granted() is Some,
    ensures
        ({
            let (token, expires_in) = fetched.granted().unwrap();
            let kept = manager.told(fetched, granted_at);
            &&& kept.good_token(now) == (if now + SKEW < granted_at + expires_in * SECOND {
                Some(token)
            } else {
                None
            })
            &&& expires_in <= 60 && granted_at <= now ==> kept.good_token(now) is None
        }),
{
}

/// A request for a token that is granted none leaves the kept token as it is.
pub proof fn law_refusal_keeps_token(manager: ManagerView, fetched: FetchedView, now: nat)
    requires
        fetched.granted() is None,
    ensures
        manager.told(fetched, now) == manager,
        fetch_error(manager.token_endpoint, fetched) is Some,
{
}

/// What a byte is in a form tells which byte it was, and where it ends.
proof fn lemma_form_byte(a: u8, b: u8, x: Seq<char>, y: Seq<char>)
    requires
        form_byte(a) + x == form_byte(b) + y,
    ensures
        a == b,
        x == y,
{
    let whole = form_byte(a) + x;
    assert(whole[0] == form_byte(a)[0]);
    assert(whole[0] == form_byte(b)[0]);
    assert(form_byte(a).len() == form_byte(b).len());
    if form_byte(a).len() == 3 {
        assert(whole[1] == form_byte(a)[1] && whole[1] == form_byte(b)[1]);
        assert(whole[2] == form_byte(a)[2] && whole[2] == form_byte(b)[2]);
        assert(a as int / 16 == b as int / 16);
        assert(a as int % 16 == b as int % 16);
    }
    assert(x =~= whole.skip(form_byte(a).len() as int));
    assert(y =~= whole.skip(form_byte(b).len() as int));
}

/// What bytes are in a form tells which bytes they were.
proof fn lemma_form_bytes(a: Seq<u8>, b: Seq<u8>)
    requires
        form_bytes(a) == form_bytes(b),
    ensures
        a == b,
    decreases a.len(),
{
    if a.len() == 0 {
        if b.len() > 0 {
            assert(form_bytes(b).len() >= form_byte(b[0]).len());
        }
        assert(a =~= b);
    } else {
        assert(form_bytes(a).len() >= form_byte(a[0]).len());
        assert(b.len() > 0);
        lemma_form_byte(a[0], b[0], form_bytes(a.drop_first()), form_bytes(b.drop_first()));
        lemma_form_bytes(a.drop_first(), b.drop_first());
        assert(a =~= seq![a[0]] + a.drop_first());
        assert(b =~= seq![b[0]] + b.drop_first());
    }
}

/// No colon stands in a form.
proof fn lemma_no_colon(bytes: Seq<u8>)
    ensures
        forall|i: int| 0 <= i < form_bytes(bytes).len() ==> #[trigger] form_bytes(bytes)[i] != ':',
    decreases bytes.len(),
{
    if bytes.len() > 0 {
        let first = form_byte(bytes[0]);
        let rest = form_bytes(bytes.drop_first());
        lemma_no_colon(bytes.drop_first());
        assert forall|i: int| 0 <= i < form_bytes(bytes).len() implies #[trigger] form_bytes(
            bytes,
        )[i] != ':' by {
            if i < first.len() {
                assert(form_bytes(bytes)[i] == first[i]);
            } else {
                assert(form_bytes(bytes)[i] == rest[i - first.len()]);
            }
        }
    }
}

/// No two clients identify themselves alike: the credentials tell which id and
/// which secret they were made of, whatever characters those hold.
pub proof fn law_credentials_tell_clients_apart(
    id: Seq<char>,
    secret: Seq<char>,
    other_id: Seq<char>,
    other_secret: Seq<char>,
)
    requires
        credentials(id, secret) == credentials(other_id, other_secret),
    ensures
        id == other_id,
        secret == other_secret,
{
    reveal_strlit(":");
    let whole = credentials(id, secret);
    let a = form_urlencoded(id);
    let b = form_urlencoded(other_id);
    let x = form_urlencoded(secret);
    let y = form_urlencoded(other_secret);
    lemma_no_colon(utf8::encode_utf8(id));
    lemma_no_colon(utf8::encode_utf8(other_id));
    assert(":"@.len() == 1 && ":"@[0] == ':');
    assert(whole[a.len() as int] == ':');
    assert(whole[b.len() as int] == ':');
    if a.len() < b.len() {
        assert(whole[a.len() as int] == b[a.len() as int]);
    }
    if b.len() < a.len() {
        assert(whole[b.len() as int] == a[b.len() as int]);
    }
    assert(a =~= whole.take(a.len() as int));
    assert(b =~= whole.take(b.len() as int));
    assert(x =~= whole.skip(a.len() as int + 1));
    assert(y =~= whole.skip(b.len() as int + 1));
    lemma_form_bytes(utf8::encode_utf8(id), utf8::encode_utf8(other_id));
    lemma_form_bytes(utf8::encode_utf8(secret), utf8::encode_utf8(other_secret));
    utf8::encode_utf8_decode_utf8(id);
    utf8::encode_utf8_decode_utf8(other_id);
    utf8::encode_utf8_decode_utf8(secret);
    utf8::encode_utf8_decode_utf8(other_secret);
}

/// A request for a token goes to the endpoint, as a form that asks by the
/// client credentials grant, with the credentials of the client in Basic
/// authentication.
pub proof fn law_token_request(manager: ManagerView)
    ensures
        manager.request().url == manager.token_endpoint,
        manager.request().content_type == "application/x-www-form-urlencoded"@,
        manager.request().body == "grant_type=client_credentials"@,
        manager.request().authorization == "Basic "@ + base64_text(
            utf8::encode_utf8(
                form_urlencoded(manager.client_id) + ":"@ + form_urlencoded(manager.client_secret),
            ),
        ),
{
}

/// The number that a hexadecimal digit in upper case stands for.
pub open spec fn hex_value(c: char) -> int {
    if '0' <= c <= '9' {
        c as int - '0' as int
    } else {
        c as int - 'A' as int + 10
    }
}

/// In a form, ASCII letters, digits, asterisks, hyphens, dots and underscores
/// stand as they are, a plus sign stands for a space, and every other byte is a
/// percent sign and two hexadecimal digits in upper case.
pub proof fn law_form_byte(b: u8)
    ensures
        ({
            let kept = 97 <= b <= 122 || 65 <= b <= 90 || 48 <= b <= 57 || b == 42 || b == 45 || b
                == 46 || b == 95;
            let written = form_byte(b);
            &&& kept ==> written.len() == 1 && written[0] as int == b
            &&& b == 32 ==> written == seq!['+']
            &&& !kept && b != 32 ==> {
                &&& written.len() == 3
                &&& written[0] == '%'
                &&& '0' <= written[1] <= '9' || 'A' <= written[1] <= 'F'
                &&& '0' <= written[2] <= '9' || 'A' <= written[2] <= 'F'
                &&& hex_value(written[1]) * 16 + hex_value(written[2]) == b
            }
        }),
{
}

/// A form is written byte by byte, from the first on.
pub proof fn law_form(bytes: Seq<u8>, more: Seq<u8>, b: u8)
    ensures
        form_bytes(Seq::empty()).len() == 0,
        form_bytes(seq![b]) == form_byte(b),
        form_bytes(bytes + more) == form_bytes(bytes) + form_bytes(more),
    decreases bytes.len(),
{
    reveal_with_fuel(form_bytes, 2);
    assert(seq![b].drop_first() =~= Seq::<u8>::empty());
    assert(form_byte(b) + Seq::<char>::empty() =~= form_byte(b));
    if bytes.len() == 0 {
        assert(bytes + more =~= more);
        assert(form_bytes(bytes) + form_bytes(more) =~= form_bytes(more));
    } else {
        law_form(bytes.drop_first(), more, b);
        assert((bytes + more).drop_first() =~= bytes.drop_first() + more);
        assert(form_bytes(bytes + more) =~= form_bytes(bytes) + form_bytes(more));
    }
}

/// A token is granted by an answer with a status in the two hundreds that is
/// the grant of one. It is kept, as it is, until it expires, so many seconds
/// after; and it is handed out while more than a minute is left of that.
pub proof fn law_granted_token(
    manager: ManagerView,
    status: u16,
    body: Option<Seq<char>>,
    token: Seq<char>,
    seconds: u64,
    then: nat,
    now: nat,
)
    ensures
        ({
            let fetched = FetchedView::Answered { status, body, token: Ok((token, seconds)) };
            let after = manager.told(fetched, then);
            &&& 200 <= status <= 299 ==> {
                &&& fetched.granted() == Some((token, seconds))
                &&& fetch_error(manager.token_endpoint, fetched) is None
                &&& after.client_id == manager.client_id
                &&& after.client_secret == manager.client_secret
                &&& after.token_endpoint == manager.token_endpoint
                &&& after.cache == Some((token, (then + seconds * 1_000_000_000) as nat))
                &&& now + 60_000_000_000 < then + seconds * 1_000_000_000 ==> after.good_token(now)
                    == Some(token)
                &&& now + 60_000_000_000 >= then + seconds * 1_000_000_000 ==> after.good_token(now)
                    is None
            }
            &&& !(200 <= status <= 299) ==> after == manager && fetched.granted() is None
        }),
{
}

/// A client without a token hands none out.
pub proof fn law_no_token(manager: ManagerView, now: nat)
    ensures
        manager.cache is None ==> manager.good_token(now) is None,
{
}

/// Why there was no token: the request could not be sent, or it was refused
/// with a status and a body, or the answer was no grant; each with every cause.
pub proof fn law_fetch_error(
    endpoint: Seq<char>,
    chain: Seq<Seq<char>>,
    status: u16,
    body: Option<Seq<char>>,
    token: Result<(Seq<char>, u64), Seq<Seq<char>>>,
)
    ensures
        fetch_error(endpoint, FetchedView::SendFailed(chain)) == Some(
            seq!["POST "@ + endpoint] + chain,
        ),
        FetchedView::SendFailed(chain).granted() is None,
        !(200 <= status <= 299) ==> fetch_error(
            endpoint,
            FetchedView::Answered { status, body, token },
        ) == Some(
            seq![
                "auth failed: "@ + (text::decimal(status as nat) + " "@ + reply::status_reason(
                    status,
                )) + " "@ + (match body {
                    Some(said) => said,
                    None => Seq::empty(),
                }),
            ],
        ),
        200 <= status <= 299 ==> fetch_error(
            endpoint,
            FetchedView::Answered { status, body, token: Err(chain) },
        ) == Some(seq!["parse token response"@] + chain),
        (FetchedView::Answered { status, body, token: Err(chain) }).granted() is None,
{
}

/// The value of what came of a request has all that came of it.
pub proof fn law_answers_seen(
    request: TokenRequest,
    failure: Failure,
    status: u16,
    body: Option<String>,
    response: TokenResponse,
)
    ensures
        request@.url == request.url@,
        request@.authorization == request.authorization@,
        request@.content_type == request.content_type@,
        request@.body == request.body@,
        Fetched::SendFailed(failure)@ == FetchedView::SendFailed(failure@),
        (Fetched::Answered { status, body, token: Ok(response) })@ == (FetchedView::Answered {
            status,
            body: text::opt_string(body),
            token: Ok((response.access_token@, response.expires_in)),
        }),
        (Fetched::Answered { status, body, token: Err(failure) })@ == (FetchedView::Answered {
            status,
            body: text::opt_string(body),
            token: Err(failure@),
        }),
{
}

/// A refusal is reported with the status and the body as they came.
pub proof fn law_auth_refusal(status: Seq<char>, body: Seq<char>)
    ensures
        auth_refusal_view(status, body) == "auth failed: "@ + status + " "@ + body,
{
}

/// Credentials can be sent unless the text of their Basic authentication would
/// be too long for the machine, and are the id and the secret with a colon
/// between.
pub proof fn law_credentials(client_id: Seq<char>, client_secret: Seq<char>)
    ensures
        credentials(client_id, client_secret) == form_urlencoded(client_id) + ":"@
            + form_urlencoded(client_secret),
        form_urlencoded(client_id) == form_bytes(utf8::encode_utf8(client_id)),
        fit(client_id, client_secret) <==> base64_text(
            utf8::encode_utf8(
                form_urlencoded(client_id) + ":"@ + form_urlencoded(client_secret),
            ),
        ).len() <= isize::MAX,
{
}

} // verus!
