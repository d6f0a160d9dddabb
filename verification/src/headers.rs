//! The extra headers that go out with every request to the MCP server.

use vstd::prelude::*;

use vstd::utf8;

use crate::step::Failure;
use crate::text;
use crate::text::{join, split_once, trim};

verus! {

/// The headers of a request, of `http`. `header_entries` says what a map holds.
#[verifier::external_type_specification]
#[verifier::external_body]
#[verifier::reject_recursive_types(T)]
pub struct ExHeaderMap<T>(http::HeaderMap<T>);

/// The value of a header, of `http`.
#[verifier::external_type_specification]
#[verifier::external_body]
pub struct ExHeaderValue(http::HeaderValue);

/// What a map of headers holds: the names in the order in which they were
/// first appended, each with its values in the order in which they were.
pub uninterp spec fn header_entries(
    map: http::HeaderMap<http::HeaderValue>,
) -> Seq<(Seq<char>, Seq<Seq<u8>>)>;

/// The place of a name among entries, or their number where it is missing.
pub open spec fn place_of(entries: Seq<(Seq<char>, Seq<Seq<u8>>)>, name: Seq<char>) -> nat
    decreases entries.len(),
{
    if entries.len() == 0 || entries[0].0 == name {
        0
    } else {
        1 + place_of(entries.drop_first(), name)
    }
}

/// The entries with one more value: behind the values that the name has, or
/// with the name behind all others.
pub open spec fn appended(
    entries: Seq<(Seq<char>, Seq<Seq<u8>>)>,
    name: Seq<char>,
    value: Seq<u8>,
) -> Seq<(Seq<char>, Seq<Seq<u8>>)> {
    let at = place_of(entries, name) as int;
    if at < entries.len() {
        entries.update(at, (name, entries[at].1.push(value)))
    } else {
        entries.push((name, seq![value]))
    }
}

/// No entries at all.
pub open spec fn no_entries() -> Seq<(Seq<char>, Seq<Seq<u8>>)> {
    Seq::empty()
}

/// The names among entries.
pub open spec fn entry_names(entries: Seq<(Seq<char>, Seq<Seq<u8>>)>) -> Seq<Seq<char>> {
    entries.map_values(|entry: (Seq<char>, Seq<Seq<u8>>)| entry.0)
}

/// A character that the name of a header may have.
pub open spec fn is_token(c: char) -> bool {
    ||| 'a' <= c <= 'z'
    ||| 'A' <= c <= 'Z'
    ||| '0' <= c <= '9'
    ||| c == '!' || c == '#' || c == '$' || c == '%' || c == '&' || c == '\''
    ||| c == '*' || c == '+' || c == '-' || c == '.' || c == '^' || c == '_'
    ||| c == '`' || c == '|' || c == '~'
}

/// The longest name of a header.
pub const NAME_LIMIT: usize = 65535;

/// Whether a text is the name of a header.
pub open spec fn is_header_name(s: Seq<char>) -> bool {
    0 < s.len() <= NAME_LIMIT && forall|i: int| 0 <= i < s.len() ==> is_token(#[trigger] s[i])
}

/// Whether a text is the value of a header: it has no control character but
/// the tab.
pub open spec fn is_header_value(s: Seq<char>) -> bool {
    forall|i: int|
        0 <= i < s.len() ==> (#[trigger] s[i] >= ' ' && s[i] != '\x7f') || s[i] == '\t'
}

/// An ASCII letter in lower case, and another character as it is.
pub open spec fn lower(c: char) -> char {
    if 'A' <= c <= 'Z' {
        (c as u8 + 32) as u8 as char
    } else {
        c
    }
}

/// A text in lower case, as far as ASCII goes.
pub open spec fn lowered(s: Seq<char>) -> Seq<char> {
    s.map_values(|c: char| lower(c))
}

/// `http::HeaderName::from_bytes`: a name is of one to 65535 characters, all
/// of them token characters, and is kept in lower case. An error is handed out
/// as its message.
#[verifier::external_body]
fn header_name(s: &str) -> (name: Result<String, String>)
    ensures
        match name {
            Ok(name) => is_header_name(s@) && name@ == lowered(s@),
            Err(e) => !is_header_name(s@) && e@ == "invalid HTTP header name"@,
        },
{
    http::HeaderName::from_bytes(s.as_bytes())
        .map(|name| name.as_str().to_owned())
        .map_err(|e| e.to_string())
}

/// `http::HeaderValue::from_str`: a value has no control character but the tab.
/// An error is handed out as its message.
#[verifier::external_body]
fn header_value(s: &str) -> (value: Result<(), String>)
    ensures
        match value {
            Ok(_) => is_header_value(s@),
            Err(e) => !is_header_value(s@) && e@ == "failed to parse header value"@,
        },
{
    http::HeaderValue::from_str(s).map(|_| ()).map_err(|e| e.to_string())
}

/// `http::HeaderMap::new`: a map without headers.
#[verifier::external_body]
fn header_map_new() -> (map: http::HeaderMap<http::HeaderValue>)
    ensures
        header_entries(map) == no_entries(),
{
    http::HeaderMap::new()
}

/// How many names a map of headers surely has room for.
pub const ROOM: usize = 6553;

/// `http::HeaderMap::try_append`, with what `HeaderName::from_bytes` and
/// `HeaderValue::from_str` make of the two texts; the name is in lower case. It
/// fails only where the map has more names than it surely has room for, and
/// then leaves the map as it is. Whether it fails there depends on how the
/// names are hashed, and is left open.
#[verifier::external_body]
fn header_append(
    map: &mut http::HeaderMap<http::HeaderValue>,
    name: &str,
    value: &str,
) -> (done: bool)
    requires
        is_header_name(name@),
        name@ == lowered(name@),
        is_header_value(value@),
    ensures
        done ==> header_entries(*final(map)) == appended(
            header_entries(*old(map)),
            name@,
            utf8::encode_utf8(value@),
        ),
        !done ==> header_entries(*final(map)) == header_entries(*old(map)),
        !done ==> header_entries(*final(map)).len() > ROOM,
{
    let name = http::HeaderName::from_bytes(name.as_bytes()).unwrap();
    let value = http::HeaderValue::from_str(value).unwrap();
    map.try_append(name, value).is_ok()
}

/// `http::HeaderMap::keys`: each name once, in the order in which they were
/// first appended.
#[verifier::external_body]
fn header_keys(map: &http::HeaderMap<http::HeaderValue>) -> (names: Vec<String>)
    ensures
        text::texts(names@) == entry_names(header_entries(*map)),
{
    map.keys().map(|name| name.to_string()).collect()
}

/// What the formatter of `std` writes for a text with `{:?}`.
pub uninterp spec fn debug_text(s: Seq<char>) -> Seq<char>;

/// `format!` with `{:?}`: what is written depends on the text alone.
#[verifier::external_body]
fn quoted(s: &str) -> (out: String)
    ensures
        out@ == debug_text(s@),
{
    format!("{:?}", s)
}

/// Why a list of headers could not be taken.
pub enum HeaderError {
    /// This header has no colon.
    NoColon(String),
    /// This header has no proper name.
    BadName(String),
    /// This header has no proper value.
    BadValue(String),
    /// There are too many headers.
    Full,
}

/// The mathematical value of a `HeaderError`.
pub enum HeaderErrorView {
    NoColon(Seq<char>),
    BadName(Seq<char>),
    BadValue(Seq<char>),
    Full,
}

impl View for HeaderError {
    type V = HeaderErrorView;

    open spec fn view(&self) -> HeaderErrorView {
        match self {
            HeaderError::NoColon(h) => HeaderErrorView::NoColon(h@),
            HeaderError::BadName(h) => HeaderErrorView::BadName(h@),
            HeaderError::BadValue(h) => HeaderErrorView::BadValue(h@),
            HeaderError::Full => HeaderErrorView::Full,
        }
    }
}

/// The error as it is reported, given how the header is quoted.
pub open spec fn header_failure(error: HeaderErrorView, quote: Seq<char>) -> Seq<Seq<char>> {
    match error {
        HeaderErrorView::NoColon(_) => seq![
            "failed to parse --mcp-header"@,
            "--mcp-header must be of the form 'Name: Value', got: "@ + quote,
        ],
        HeaderErrorView::BadName(_) => seq![
            "failed to parse --mcp-header"@,
            "invalid header name in --mcp-header: "@ + quote,
            "invalid HTTP header name"@,
        ],
        HeaderErrorView::BadValue(_) => seq![
            "failed to parse --mcp-header"@,
            "invalid header value in --mcp-header: "@ + quote,
            "failed to parse header value"@,
        ],
        HeaderErrorView::Full => seq!["failed to parse --mcp-header"@, "too many headers"@],
    }
}

/// The header that an error is about.
pub open spec fn blamed(error: HeaderErrorView) -> Seq<char> {
    match error {
        HeaderErrorView::NoColon(h) => h,
        HeaderErrorView::BadName(h) => h,
        HeaderErrorView::BadValue(h) => h,
        HeaderErrorView::Full => Seq::empty(),
    }
}

impl HeaderError {
    /// The error as it is reported, with the header quoted like this.
    pub fn report(&self, quote: &str) -> (failure: Failure)
        ensures
            failure@ == header_failure(self@, quote@),
    {
        let failure = match self {
            HeaderError::NoColon(_) => Failure::new(
                "--mcp-header must be of the form 'Name: Value', got: ".to_owned().concat(quote),
            ),
            HeaderError::BadName(_) => Failure::new("invalid HTTP header name".to_owned()).context(
                "invalid header name in --mcp-header: ".to_owned().concat(quote),
            ),
            HeaderError::BadValue(_) => Failure::new(
                "failed to parse header value".to_owned(),
            ).context("invalid header value in --mcp-header: ".to_owned().concat(quote)),
            HeaderError::Full => Failure::new("too many headers".to_owned()),
        };
        let outer = failure.context("failed to parse --mcp-header".to_owned());
        assert(outer@ =~= header_failure(self@, quote@));
        outer
    }

    /// The error as it is reported.
    pub fn failure(&self) -> (failure: Failure)
        ensures
            failure@ == header_failure(self@, debug_text(blamed(self@))),
    {
        let quote = match self {
            HeaderError::NoColon(h) => quoted(h.as_str()),
            HeaderError::BadName(h) => quoted(h.as_str()),
            HeaderError::BadValue(h) => quoted(h.as_str()),
            HeaderError::Full => quoted(""),
        };
        proof {
            reveal_strlit("");
            assert(""@ =~= Seq::<char>::empty());
        }
        self.report(quote.as_str())
    }
}

/// A header of the form `Name: Value`: its name, in lower case, and its value.
/// White space around either does not count.
pub open spec fn header_view(h: Seq<char>) -> Result<(Seq<char>, Seq<char>), HeaderErrorView> {
    match text::halves(h, ':') {
        None => Err(HeaderErrorView::NoColon(h)),
        Some((name, value)) => if !is_header_name(text::trimmed(name)) {
            Err(HeaderErrorView::BadName(h))
        } else if !is_header_value(text::trimmed(value)) {
            Err(HeaderErrorView::BadValue(h))
        } else {
            Ok((lowered(text::trimmed(name)), text::trimmed(value)))
        },
    }
}

/// What a list of headers comes to: the entries that appending each in turn
/// gives, or the error of the first that is not proper.
pub open spec fn headers_view(raw: Seq<Seq<char>>) -> Result<
    Seq<(Seq<char>, Seq<Seq<u8>>)>,
    HeaderErrorView,
>
    decreases raw.len(),
{
    if raw.len() == 0 {
        Ok(Seq::empty())
    } else {
        match headers_view(raw.drop_last()) {
            Err(error) => Err(error),
            Ok(entries) => match header_view(raw.last()) {
                Err(error) => Err(error),
                Ok((name, value)) => Ok(appended(entries, name, utf8::encode_utf8(value))),
            },
        }
    }
}

/// A name stays a name in lower case, and changes no more.
proof fn lemma_lowered_name(s: Seq<char>)
    requires
        is_header_name(s),
    ensures
        is_header_name(lowered(s)),
        lowered(lowered(s)) == lowered(s),
{
    let low = lowered(s);
    assert forall|i: int| 0 <= i < low.len() implies is_token(#[trigger] low[i]) && lower(low[i])
        == low[i] by {
        assert(is_token(s[i]));
        assert(low[i] == lower(s[i]));
        if 'A' <= s[i] <= 'Z' {
            assert('a' <= low[i] <= 'z');
        }
    }
    assert(lowered(low) =~= low);
}

/// Reads a header of the form `Name: Value`.
pub fn parse_header(h: &str) -> (header: Result<(String, String), HeaderError>)
    ensures
        header_view(h@) == (match header {
            Ok((name, value)) => Ok::<(Seq<char>, Seq<char>), HeaderErrorView>((name@, value@)),
            Err(error) => Err(error@),
        }),
{
    match split_once(h, ':') {
        None => Err(HeaderError::NoColon(h.to_owned())),
        Some((name, value)) => match header_name(trim(name.as_str()).as_str()) {
            Err(_) => Err(HeaderError::BadName(h.to_owned())),
            Ok(name) => {
                let value = trim(value.as_str());
                match header_value(value.as_str()) {
                    Err(_) => Err(HeaderError::BadValue(h.to_owned())),
                    Ok(_) => Ok((name, value)),
                }
            },
        },
    }
}

/// Appending a value adds at most one entry.
proof fn lemma_appended_len(
    entries: Seq<(Seq<char>, Seq<Seq<u8>>)>,
    name: Seq<char>,
    value: Seq<u8>,
)
    ensures
        entries.len() <= appended(entries, name, value).len() <= entries.len() + 1,
{
}

/// The error of a beginning of a list is the error of the list.
proof fn lemma_first_error(raw: Seq<Seq<char>>, n: int)
    requires
        0 <= n <= raw.len(),
        headers_view(raw.take(n)) is Err,
    ensures
        headers_view(raw) == headers_view(raw.take(n)),
    decreases raw.len() - n,
{
    if n < raw.len() {
        assert(raw.take(n + 1).drop_last() =~= raw.take(n));
        lemma_first_error(raw, n + 1);
    } else {
        assert(raw.take(n) =~= raw);
    }
}

/// Reads the headers that were asked for. There is room for another as long as
/// those before it have no more than `ROOM` names.
pub fn parse_headers(raw: &Vec<String>) -> (headers: Result<
    http::HeaderMap<http::HeaderValue>,
    HeaderError,
>)
    ensures
        match headers {
            Ok(map) => headers_view(text::texts(raw@)) == Ok::<
                Seq<(Seq<char>, Seq<Seq<u8>>)>,
                HeaderErrorView,
            >(header_entries(map)),
            Err(HeaderError::Full) => exists|n: int|
                0 <= n < raw@.len() && (#[trigger] headers_view(
                    text::texts(raw@).take(n),
                ) matches Ok(entries) && entries.len() > ROOM),
            Err(error) => headers_view(text::texts(raw@)) == Err::<
                Seq<(Seq<char>, Seq<Seq<u8>>)>,
                HeaderErrorView,
            >(error@),
        },
{
    let mut map = header_map_new();
    let mut i: usize = 0;
    let ghost all = text::texts(raw@);
    while i < raw.len()
        invariant
            i <= raw@.len(),
            all == text::texts(raw@),
            header_entries(map).len() <= i,
            headers_view(all.take(i as int)) == Ok::<
                Seq<(Seq<char>, Seq<Seq<u8>>)>,
                HeaderErrorView,
            >(header_entries(map)),
        decreases raw@.len() - i,
    {
        let h = raw[i].as_str();
        assert(all.take(i + 1).drop_last() =~= all.take(i as int));
        assert(all.take(i + 1).last() == h@);
        match parse_header(h) {
            Err(error) => {
                proof {
                    lemma_first_error(all, i + 1);
                }
                return Err(error);
            },
            Ok((name, value)) => {
                proof {
                    let (n, v) = text::halves(h@, ':').unwrap();
                    lemma_lowered_name(text::trimmed(n));
                    lemma_appended_len(header_entries(map), name@, utf8::encode_utf8(value@));
                }
                if !header_append(&mut map, name.as_str(), value.as_str()) {
                    return Err(HeaderError::Full);
                }
            },
        }
        i += 1;
    }
    assert(all.take(raw@.len() as int) =~= all);
    Ok(map)
}

/// The remark on the names of extra headers, where there are any.
pub open spec fn forwarding_view(names: Seq<Seq<char>>) -> Option<Seq<char>> {
    if names.len() == 0 {
        None
    } else {
        Some("Forwarding extra MCP headers: "@ + text::joined(names, ", "@))
    }
}

/// The remark on extra headers, where there are any.
pub fn forwarding_note(map: &http::HeaderMap<http::HeaderValue>) -> (note: Option<String>)
    ensures
        text::opt_string(note) == forwarding_view(entry_names(header_entries(*map))),
{
    let names = header_keys(map);
    assert(text::texts(names@).len() == names@.len());
    if names.len() == 0 {
        None
    } else {
        Some("Forwarding extra MCP headers: ".to_owned().concat(join(&names, ", ").as_str()))
    }
}

/// Where a name is missing among entries, it is the name of none of them.
proof fn lemma_place_of(entries: Seq<(Seq<char>, Seq<Seq<u8>>)>, name: Seq<char>)
    ensures
        place_of(entries, name) <= entries.len(),
        place_of(entries, name) < entries.len() ==> entries[place_of(entries, name) as int].0
            == name,
        forall|i: int| 0 <= i < place_of(entries, name) ==> (#[trigger] entries[i]).0 != name,
    decreases entries.len(),
{
    if entries.len() > 0 && entries[0].0 != name {
        let rest = entries.drop_first();
        lemma_place_of(rest, name);
        assert forall|i: int| 0 <= i < place_of(entries, name) implies (#[trigger] entries[i]).0
            != name by {
            if i > 0 {
                assert(rest[i - 1] == entries[i]);
            }
        }
    }
}

/// Headers are gathered by name: no name occurs twice, however often it was
/// given and in whatever case.
pub proof fn law_names_occur_once(raw: Seq<Seq<char>>)
    ensures
        headers_view(raw) matches Ok(entries) ==> forall|i: int, j: int|
            0 <= i < j < entries.len() ==> (#[trigger] entries[i]).0 != (#[trigger] entries[j]).0,
    decreases raw.len(),
{
    if raw.len() > 0 {
        law_names_occur_once(raw.drop_last());
        match (headers_view(raw.drop_last()), header_view(raw.last())) {
            (Ok(entries), Ok((name, value))) => {
                lemma_place_of(entries, name);
                let more = appended(entries, name, utf8::encode_utf8(value));
                assert forall|i: int, j: int| 0 <= i < j < more.len() implies (
                #[trigger] more[i]).0 != (#[trigger] more[j]).0 by {
                    if j < entries.len() {
                        assert(entries[i].0 != entries[j].0);
                        assert(more[i].0 == entries[i].0 && more[j].0 == entries[j].0);
                    } else {
                        assert(more[i] == entries[i]);
                    }
                }
            },
            _ => {},
        }
    }
}

/// A header is a name, a colon and a value: the name in lower case, and both
/// without the white space around them. The first colon counts. A header
/// without a colon, one without a proper name and one without a proper value
/// are each refused as such, with the header itself.
pub proof fn law_header(name: Seq<char>, value: Seq<char>, h: Seq<char>)
    requires
        !name.contains(':'),
        !h.contains(':'),
    ensures
        header_view(h) == Err::<(Seq<char>, Seq<char>), HeaderErrorView>(
            HeaderErrorView::NoColon(h),
        ),
        ({
            let given = name.push(':') + value;
            let read = header_view(given);
            if !is_header_name(text::trimmed(name)) {
                read == Err::<(Seq<char>, Seq<char>), HeaderErrorView>(
                    HeaderErrorView::BadName(given),
                )
            } else if !is_header_value(text::trimmed(value)) {
                read == Err::<(Seq<char>, Seq<char>), HeaderErrorView>(
                    HeaderErrorView::BadValue(given),
                )
            } else {
                read == Ok::<(Seq<char>, Seq<char>), HeaderErrorView>(
                    (lowered(text::trimmed(name)), text::trimmed(value)),
                )
            }
        }),
{
    let given = name.push(':') + value;
    text::law_split_at_the_first(h, ':');
    text::law_split_at_the_first(given, ':');
    assert(given[name.len() as int] == ':');
    assert(given.contains(':'));
    let (before, after) = text::halves(given, ':').unwrap();
    assert(given[before.len() as int] == ':') by {
        assert((before.push(':') + after)[before.len() as int] == ':');
    }
    if before.len() < name.len() {
        assert(name[before.len() as int] == given[before.len() as int]);
        assert(name.contains(name[before.len() as int]));
    }
    if name.len() < before.len() {
        assert(before[name.len() as int] == given[name.len() as int]);
        assert(before.contains(before[name.len() as int]));
    }
    assert(before =~= given.take(name.len() as int));
    assert(before =~= name);
    assert(after =~= given.skip(name.len() as int + 1));
    assert(after =~= value);
}

/// Lower case changes the ASCII letters in upper case, each to the letter 32
/// code points up, and nothing else.
pub proof fn law_lower_case(s: Seq<char>, i: int)
    requires
        0 <= i < s.len(),
    ensures
        lowered(s).len() == s.len(),
        65 <= s[i] as int <= 90 ==> lowered(s)[i] as int == s[i] as int + 32,
        !(65 <= s[i] as int <= 90) ==> lowered(s)[i] == s[i],
{
}

/// Headers are gathered one by one. A value goes behind the others of its name,
/// where the name was given before, and under a new name behind the others
/// where it was not; all else stays as it was. The first header that is
/// refused fails them all.
pub proof fn law_one_more_header(raw: Seq<Seq<char>>, h: Seq<char>)
    ensures
        headers_view(Seq::empty()) is Ok,
        headers_view(Seq::empty())->Ok_0.len() == 0,
        match (headers_view(raw), header_view(h)) {
            (Err(error), _) => headers_view(raw.push(h)) == Err::<
                Seq<(Seq<char>, Seq<Seq<u8>>)>,
                HeaderErrorView,
            >(error),
            (Ok(_), Err(error)) => headers_view(raw.push(h)) == Err::<
                Seq<(Seq<char>, Seq<Seq<u8>>)>,
                HeaderErrorView,
            >(error),
            (Ok(entries), Ok((name, value))) => {
                &&& headers_view(raw.push(h)) is Ok
                &&& forall|k: int|
                    0 <= k < entries.len() && (#[trigger] entries[k]).0 == name ==> headers_view(
                        raw.push(h),
                    )->Ok_0 == entries.update(
                        k,
                        (name, entries[k].1.push(utf8::encode_utf8(value))),
                    )
                &&& (forall|k: int| 0 <= k < entries.len() ==> (#[trigger] entries[k]).0 != name)
                    ==> headers_view(raw.push(h))->Ok_0 == entries.push(
                    (name, seq![utf8::encode_utf8(value)]),
                )
            },
        },
{
    assert(raw.push(h).drop_last() =~= raw);
    match (headers_view(raw), header_view(h)) {
        (Ok(entries), Ok((name, value))) => {
            lemma_place_of(entries, name);
            law_names_occur_once(raw);
            let at = place_of(entries, name) as int;
            let more = headers_view(raw.push(h))->Ok_0;
            assert forall|k: int|
                0 <= k < entries.len() && (#[trigger] entries[k]).0 == name implies more
                == entries.update(k, (name, entries[k].1.push(utf8::encode_utf8(value)))) by {
                assert(at <= k);
                if at < k {
                    assert(entries[at].0 != entries[k].0);
                }
            }
            if forall|k: int| 0 <= k < entries.len() ==> (#[trigger] entries[k]).0 != name {
                assert(at == entries.len());
            }
        },
        _ => {},
    }
}

/// A refused header is reported as such, with the header as it is quoted and
/// the reason.
pub proof fn law_refused_headers(h: Seq<char>, quote: Seq<char>)
    ensures
        header_failure(HeaderErrorView::NoColon(h), quote) == seq![
            "failed to parse --mcp-header"@,
            "--mcp-header must be of the form 'Name: Value', got: "@ + quote,
        ],
        header_failure(HeaderErrorView::BadName(h), quote) == seq![
            "failed to parse --mcp-header"@,
            "invalid header name in --mcp-header: "@ + quote,
            "invalid HTTP header name"@,
        ],
        header_failure(HeaderErrorView::BadValue(h), quote) == seq![
            "failed to parse --mcp-header"@,
            "invalid header value in --mcp-header: "@ + quote,
            "failed to parse header value"@,
        ],
        blamed(HeaderErrorView::NoColon(h)) == h,
        blamed(HeaderErrorView::BadName(h)) == h,
        blamed(HeaderErrorView::BadValue(h)) == h,
{
}

/// The names of the headers are told in order where there are any, and nothing
/// is where there are none. The values are not told.
pub proof fn law_forwarding(entries: Seq<(Seq<char>, Seq<Seq<u8>>)>)
    ensures
        entries.len() == 0 ==> forwarding_view(entry_names(entries)) is None,
        entries.len() > 0 ==> forwarding_view(entry_names(entries)) == Some(
            "Forwarding extra MCP headers: "@ + text::joined(
                Seq::new(entries.len(), |i: int| entries[i].0),
                ", "@,
            ),
        ),
{
    assert(entry_names(entries) =~= Seq::new(entries.len(), |i: int| entries[i].0));
}

/// The value of an error has the header that the error has.
pub proof fn law_errors_seen(h: String)
    ensures
        HeaderError::NoColon(h)@ == HeaderErrorView::NoColon(h@),
        HeaderError::BadName(h)@ == HeaderErrorView::BadName(h@),
        HeaderError::BadValue(h)@ == HeaderErrorView::BadValue(h@),
        HeaderError::Full@ == HeaderErrorView::Full,
{
}

} // verus!
