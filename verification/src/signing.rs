//! Request signing: what a signature covers, how it is made and when a signed
//! request is accepted.
use vstd::prelude::*;
use vstd::utf8::encode_utf8;

use http::{HeaderMap, HeaderValue};

use crate::json::{put, Json, JsonView};
use crate::primitives::{
    clock_seconds, hex_digit, hex_encode, hex_text, hmac_code, hmac_sha256, sha256, sha256_digest,
};
use crate::text::{
    ascii_lower, ascii_upper, joined, law_joined_lines_come_apart, parse_i64, parsed_i64,
    signed_decimal, signed_decimal_text, to_ascii_uppercase,
};
use crate::textmap::TextMap;

verus! {

/// The header that names the client.
pub const HEADER_CLIENT: &'static str = "x-bw-broker-client-id";

/// The header with the time of signing, in seconds since the start of 1970.
pub const HEADER_TIMESTAMP: &'static str = "x-bw-broker-timestamp";

/// The header with a value that is used once.
pub const HEADER_NONCE: &'static str = "x-bw-broker-nonce";

/// The header with the signature.
pub const HEADER_SIGNATURE: &'static str = "x-bw-broker-signature";

/// Why a signed request is turned down.
#[derive(Debug)]
pub enum SigningError {
    MissingHeader(String),
    InvalidHeader(String),
    BadTimestamp,
    OutsideSkew,
    BadSignature,
    InvalidKey,
}

/// A reason to turn a signed request down, as mathematics.
pub enum SigningErrorView {
    MissingHeader(Seq<char>),
    InvalidHeader(Seq<char>),
    BadTimestamp,
    OutsideSkew,
    BadSignature,
    InvalidKey,
}

impl View for SigningError {
    type V = SigningErrorView;

    open spec fn view(&self) -> SigningErrorView {
        match self {
            SigningError::MissingHeader(name) => SigningErrorView::MissingHeader(name@),
            SigningError::InvalidHeader(name) => SigningErrorView::InvalidHeader(name@),
            SigningError::BadTimestamp => SigningErrorView::BadTimestamp,
            SigningError::OutsideSkew => SigningErrorView::OutsideSkew,
            SigningError::BadSignature => SigningErrorView::BadSignature,
            SigningError::InvalidKey => SigningErrorView::InvalidKey,
        }
    }
}

impl SigningErrorView {
    /// The message that is shown.
    pub open spec fn message(self) -> Seq<char> {
        match self {
            SigningErrorView::MissingHeader(name) => "missing header "@ + name,
            SigningErrorView::InvalidHeader(name) => "invalid header "@ + name,
            SigningErrorView::BadTimestamp => "invalid signature timestamp"@,
            SigningErrorView::OutsideSkew => "signature timestamp outside allowed skew"@,
            SigningErrorView::BadSignature => "invalid request signature"@,
            SigningErrorView::InvalidKey => "invalid hmac key"@,
        }
    }
}

impl SigningError {
    /// The message that is shown.
    pub fn message(&self) -> (r: String)
        ensures
            r@ == self@.message(),
    {
        match self {
            SigningError::MissingHeader(name) => "missing header ".to_string().concat(
                name.as_str(),
            ),
            SigningError::InvalidHeader(name) => "invalid header ".to_string().concat(
                name.as_str(),
            ),
            SigningError::BadTimestamp => "invalid signature timestamp".to_string(),
            SigningError::OutsideSkew => "signature timestamp outside allowed skew".to_string(),
            SigningError::BadSignature => "invalid request signature".to_string(),
            SigningError::InvalidKey => "invalid hmac key".to_string(),
        }
    }
}

/// The digest of a body: SHA-256, in hexadecimal.
pub fn body_digest(body: &[u8]) -> (r: String)
    ensures
        r@ == hex_text(sha256(body@)),
        r@.len() == 64,
{
    let digest = sha256_digest(body);
    hex_encode(&digest)
}

/// What a signature covers: the method in capitals, the target, the timestamp,
/// the nonce and the digest of the body, each on a line of its own.
pub open spec fn canonical_text(
    method: Seq<char>,
    target: Seq<char>,
    timestamp: Seq<char>,
    nonce: Seq<char>,
    body: Seq<u8>,
) -> Seq<char> {
    ascii_upper(method) + seq!['\n'] + target + seq!['\n'] + timestamp + seq!['\n'] + nonce
        + seq!['\n'] + hex_text(sha256(body))
}

/// The text that a signature covers.
pub fn canonical_request(
    method: &str,
    target: &str,
    timestamp: &str,
    nonce: &str,
    body: &[u8],
) -> (r: String)
    ensures
        r@ == canonical_text(method@, target@, timestamp@, nonce@, body@),
{
    let mut out = to_ascii_uppercase(method);
    out.push('\n');
    out.append(target);
    out.push('\n');
    out.append(timestamp);
    out.push('\n');
    out.append(nonce);
    out.push('\n');
    out.append(body_digest(body).as_str());
    assert(out@ =~= canonical_text(method@, target@, timestamp@, nonce@, body@));
    out
}

/// The signature of a request: HMAC-SHA256 of the canonical text under the
/// secret, in hexadecimal.
pub open spec fn signature_text(
    secret: Seq<char>,
    method: Seq<char>,
    target: Seq<char>,
    timestamp: Seq<char>,
    nonce: Seq<char>,
    body: Seq<u8>,
) -> Seq<char> {
    hex_text(
        hmac_sha256(
            encode_utf8(secret),
            encode_utf8(canonical_text(method, target, timestamp, nonce, body)),
        ),
    )
}

/// Signs a request. Every secret can serve as a key.
pub fn sign(
    secret: &str,
    method: &str,
    target: &str,
    timestamp: &str,
    nonce: &str,
    body: &[u8],
) -> (r: Result<String, SigningError>)
    ensures
        r matches Ok(s) && s@ == signature_text(
            secret@,
            method@,
            target@,
            timestamp@,
            nonce@,
            body@,
        ) && s@.len() == 64,
{
    let canonical = canonical_request(method, target, timestamp, nonce, body);
    match hmac_code(secret.as_bytes(), canonical.as_str().as_bytes()) {
        Ok(code) => Ok(hex_encode(&code)),
        Err(_) => Err(SigningError::InvalidKey),
    }
}

/// The time that a reading of the clock stands for: zero where the clock stands
/// before 1970. Seconds beyond the range of a signed number wrap around.
pub open spec fn time_of(reading: Option<u64>) -> int {
    match reading {
        None => 0,
        Some(seconds) => if seconds <= i64::MAX {
            seconds as int
        } else {
            seconds - 0x1_0000_0000_0000_0000
        },
    }
}

/// The time that a reading of the clock stands for.
pub fn unix_time(reading: Option<u64>) -> (r: i64)
    ensures
        r == time_of(reading),
{
    match reading {
        Some(seconds) => {
            assert(seconds > 0x7fff_ffff_ffff_ffff ==> (seconds as i64) == seconds
                - 0x1_0000_0000_0000_0000) by (bit_vector);
            seconds as i64
        },
        None => 0,
    }
}

/// The clock in seconds since the start of 1970; zero where it stands before.
/// Which time that is depends on the clock alone.
pub fn now_unix() -> (r: i64)
    ensures
        exists|reading: Option<u64>| r == #[trigger] time_of(reading),
{
    unix_time(clock_seconds())
}

/// The header map of the http crate.
#[verifier::external_type_specification]
#[verifier::external_body]
#[verifier::reject_recursive_types(T)]
pub struct ExHeaderMap<T>(http::HeaderMap<T>);

/// A header value of the http crate.
#[verifier::external_type_specification]
#[verifier::external_body]
pub struct ExHeaderValue(http::HeaderValue);

/// The error of `http::HeaderValue::to_str`.
#[verifier::external_type_specification]
#[verifier::external_body]
pub struct ExToStrError(http::header::ToStrError);

/// What a header map holds: for each header name, in lower case, the bytes of
/// its first value.
pub uninterp spec fn header_lines(headers: HeaderMap<HeaderValue>) -> Map<Seq<char>, Seq<u8>>;

/// The bytes of a header value.
pub uninterp spec fn header_bytes(value: HeaderValue) -> Seq<u8>;

/// `http::HeaderMap::get` with a name: the first value of that header. The case
/// of letters in the name does not count.
#[verifier::external_body]
fn header_value<'a>(headers: &'a HeaderMap<HeaderValue>, name: &str) -> (r: Option<&'a HeaderValue>)
    ensures
        match r {
            Some(v) => header_lines(*headers).contains_key(ascii_lower(name@)) && header_bytes(*v)
                == header_lines(*headers)[ascii_lower(name@)],
            None => !header_lines(*headers).contains_key(ascii_lower(name@)),
        },
{
    headers.get(name)
}

/// Whether a byte can stand in a header that is read as text: a printable
/// ASCII character or a tab.
pub open spec fn header_byte_visible(b: u8) -> bool {
    32 <= b < 127 || b == 9
}

/// Whether all bytes of a header can be read as text.
pub open spec fn header_visible(bytes: Seq<u8>) -> bool {
    forall|i: int| 0 <= i < bytes.len() ==> header_byte_visible(#[trigger] bytes[i])
}

/// ASCII bytes as characters.
pub open spec fn ascii_chars(bytes: Seq<u8>) -> Seq<char> {
    bytes.map_values(|b: u8| b as char)
}

/// `http::HeaderValue::to_str`: the value as text, where it consists of
/// printable ASCII characters and tabs.
pub assume_specification[ http::HeaderValue::to_str ](value: &HeaderValue) -> (r: Result<
    &str,
    http::header::ToStrError,
>)
    ensures
        match r {
            Ok(s) => header_visible(header_bytes(*value)) && s@ == ascii_chars(
                header_bytes(*value),
            ),
            Err(_) => !header_visible(header_bytes(*value)),
        },
;

/// A header as text, or what is wrong with it.
pub open spec fn header_text(lines: Map<Seq<char>, Seq<u8>>, name: Seq<char>) -> Result<
    Seq<char>,
    SigningErrorView,
> {
    let key = ascii_lower(name);
    if !lines.contains_key(key) {
        Err(SigningErrorView::MissingHeader(name))
    } else if !header_visible(lines[key]) {
        Err(SigningErrorView::InvalidHeader(name))
    } else {
        Ok(ascii_chars(lines[key]))
    }
}

/// Reads a header as text.
pub fn header_str<'a>(headers: &'a HeaderMap<HeaderValue>, name: &str) -> (r: Result<
    &'a str,
    SigningError,
>)
    ensures
        match r {
            Ok(s) => header_text(header_lines(*headers), name@) == Ok::<
                Seq<char>,
                SigningErrorView,
            >(s@),
            Err(e) => header_text(header_lines(*headers), name@) == Err::<
                Seq<char>,
                SigningErrorView,
            >(e@),
        },
{
    match header_value(headers, name) {
        Some(value) => match value.to_str() {
            Ok(s) => Ok(s),
            Err(_) => Err(SigningError::InvalidHeader(name.to_string())),
        },
        None => Err(SigningError::MissingHeader(name.to_string())),
    }
}

/// Compares two byte strings in a time that their lengths alone decide.
pub fn constant_time_eq(a: &[u8], b: &[u8]) -> (r: bool)
    ensures
        r == (a@ == b@),
{
    if a.len() != b.len() {
        return false;
    }
    let mut diff: u8 = 0;
    assert(a@.take(0) =~= b@.take(0));
    for i in 0..a.len()
        invariant
            a@.len() == b@.len(),
            diff == 0 <==> a@.take(i as int) == b@.take(i as int),
    {
        let left = a[i];
        let right = b[i];
        assert((diff | (left ^ right)) == 0 <==> diff == 0 && left == right) by (bit_vector);
        diff = diff | (left ^ right);
        assert(a@.take(i + 1) =~= a@.take(i as int).push(left));
        assert(b@.take(i + 1) =~= b@.take(i as int).push(right));
        assert(a@.take(i + 1)[i as int] == left && b@.take(i + 1)[i as int] == right);
        assert(a@.take(i + 1).take(i as int) =~= a@.take(i as int));
        assert(b@.take(i + 1).take(i as int) =~= b@.take(i as int));
    }
    assert(a@.take(a@.len() as int) =~= a@);
    assert(b@.take(b@.len() as int) =~= b@);
    diff == 0
}

/// Whether a timestamp is close enough to the clock.
pub open spec fn within_skew(now: int, timestamp: int, max_skew_seconds: int) -> bool {
    -max_skew_seconds <= now - timestamp <= max_skew_seconds
}

/// What is wrong with the signature of a request, if anything.
pub open spec fn signature_fault(
    secret: Seq<char>,
    method: Seq<char>,
    target: Seq<char>,
    timestamp: Seq<char>,
    nonce: Seq<char>,
    provided: Seq<char>,
    body: Seq<u8>,
    max_skew_seconds: int,
    now: int,
) -> Option<SigningErrorView> {
    match parsed_i64(timestamp) {
        None => Some(SigningErrorView::BadTimestamp),
        Some(ts) => if !within_skew(now, ts, max_skew_seconds) {
            Some(SigningErrorView::OutsideSkew)
        } else if provided != signature_text(secret, method, target, timestamp, nonce, body) {
            Some(SigningErrorView::BadSignature)
        } else {
            None
        },
    }
}

/// Holds the parts of a signed request against the secret and the clock.
pub fn check_signature(
    secret: &str,
    method: &str,
    target: &str,
    timestamp: &str,
    nonce: &str,
    provided: &str,
    body: &[u8],
    max_skew_seconds: i64,
    now: i64,
) -> (r: Result<(), SigningError>)
    ensures
        match r {
            Ok(()) => signature_fault(
                secret@,
                method@,
                target@,
                timestamp@,
                nonce@,
                provided@,
                body@,
                max_skew_seconds as int,
                now as int,
            ) is None,
            Err(e) => signature_fault(
                secret@,
                method@,
                target@,
                timestamp@,
                nonce@,
                provided@,
                body@,
                max_skew_seconds as int,
                now as int,
            ) == Some(e@),
        },
{
    let ts: i64 = match parse_i64(timestamp) {
        Some(ts) => ts,
        None => return Err(SigningError::BadTimestamp),
    };
    let distance: i128 = now as i128 - ts as i128;
    if distance > max_skew_seconds as i128 || -distance > max_skew_seconds as i128 {
        return Err(SigningError::OutsideSkew);
    }
    let expected = match sign(secret, method, target, timestamp, nonce, body) {
        Ok(expected) => expected,
        Err(e) => return Err(e),
    };
    if !constant_time_eq(expected.as_str().as_bytes(), provided.as_bytes()) {
        assert(expected@ != provided@);
        return Err(SigningError::BadSignature);
    }
    proof {
        vstd::utf8::encode_utf8_decode_utf8(expected@);
        vstd::utf8::encode_utf8_decode_utf8(provided@);
    }
    Ok(())
}

/// What the headers of a signed request and the clock decide: the timestamp and
/// the nonce of an accepted request, or what is wrong.
pub open spec fn verification(
    secret: Seq<char>,
    method: Seq<char>,
    target: Seq<char>,
    lines: Map<Seq<char>, Seq<u8>>,
    body: Seq<u8>,
    max_skew_seconds: int,
    now: int,
) -> Result<(Seq<char>, Seq<char>), SigningErrorView> {
    match header_text(lines, HEADER_TIMESTAMP@) {
        Err(e) => Err(e),
        Ok(timestamp) => match header_text(lines, HEADER_NONCE@) {
            Err(e) => Err(e),
            Ok(nonce) => match header_text(lines, HEADER_SIGNATURE@) {
                Err(e) => Err(e),
                Ok(provided) => match signature_fault(
                    secret,
                    method,
                    target,
                    timestamp,
                    nonce,
                    provided,
                    body,
                    max_skew_seconds,
                    now,
                ) {
                    Some(e) => Err(e),
                    None => Ok((timestamp, nonce)),
                },
            },
        },
    }
}

/// The timestamp and the nonce that a verification gives, or its error.
pub open spec fn verification_view(r: Result<(String, String), SigningError>) -> Result<
    (Seq<char>, Seq<char>),
    SigningErrorView,
> {
    match r {
        Ok((timestamp, nonce)) => Ok((timestamp@, nonce@)),
        Err(e) => Err(e@),
    }
}

/// Verifies a signed request at a given time.
pub fn verify_signature_at(
    secret: &str,
    method: &str,
    target: &str,
    headers: &HeaderMap<HeaderValue>,
    body: &[u8],
    max_skew_seconds: i64,
    now: i64,
) -> (r: Result<(String, String), SigningError>)
    ensures
        verification_view(r) == verification(
            secret@,
            method@,
            target@,
            header_lines(*headers),
            body@,
            max_skew_seconds as int,
            now as int,
        ),
{
    let timestamp = match header_str(headers, HEADER_TIMESTAMP) {
        Ok(s) => s,
        Err(e) => return Err(e),
    };
    let nonce = match header_str(headers, HEADER_NONCE) {
        Ok(s) => s,
        Err(e) => return Err(e),
    };
    let provided = match header_str(headers, HEADER_SIGNATURE) {
        Ok(s) => s,
        Err(e) => return Err(e),
    };
    match check_signature(
        secret,
        method,
        target,
        timestamp,
        nonce,
        provided,
        body,
        max_skew_seconds,
        now,
    ) {
        Ok(()) => Ok((timestamp.to_string(), nonce.to_string())),
        Err(e) => Err(e),
    }
}

/// Verifies a signed request at the time that the clock shows.
pub fn verify_signature(
    secret: &str,
    method: &str,
    target: &str,
    headers: &HeaderMap<HeaderValue>,
    body: &[u8],
    max_skew_seconds: i64,
) -> (r: Result<(String, String), SigningError>)
    ensures
        exists|now: i64|
            verification_view(r) == #[trigger] verification(
                secret@,
                method@,
                target@,
                header_lines(*headers),
                body@,
                max_skew_seconds as int,
                now as int,
            ),
{
    let now = now_unix();
    verify_signature_at(secret, method, target, headers, body, max_skew_seconds, now)
}

/// The headers of a signed request, as a JSON object.
pub open spec fn signed_headers_view(
    client_id: Seq<char>,
    client_secret: Seq<char>,
    method: Seq<char>,
    target: Seq<char>,
    body: Seq<u8>,
    nonce: Seq<char>,
    now: int,
) -> JsonView {
    JsonView::Object(
        map![
            "X-BW-Broker-Client-Id"@ => JsonView::Text(client_id),
            "X-BW-Broker-Timestamp"@ => JsonView::Text(signed_decimal(now)),
            "X-BW-Broker-Nonce"@ => JsonView::Text(nonce),
            "X-BW-Broker-Signature"@ => JsonView::Text(
                signature_text(client_secret, method, target, signed_decimal(now), nonce, body),
            ),
        ],
    )
}

/// The headers of a request that is signed at a given time.
pub fn signed_headers_at(
    client_id: &str,
    client_secret: &str,
    method: &str,
    target: &str,
    body: &[u8],
    nonce: &str,
    now: i64,
) -> (r: Result<Json, SigningError>)
    ensures
        r matches Ok(j) && j@ == signed_headers_view(
            client_id@,
            client_secret@,
            method@,
            target@,
            body@,
            nonce@,
            now as int,
        ),
{
    let timestamp = signed_decimal_text(now);
    let signature = match sign(client_secret, method, target, timestamp.as_str(), nonce, body) {
        Ok(signature) => signature,
        Err(e) => return Err(e),
    };
    let mut object: TextMap<Json> = TextMap::new();
    put(&mut object, "X-BW-Broker-Client-Id", Json::text(client_id));
    put(&mut object, "X-BW-Broker-Timestamp", Json::Text(timestamp));
    put(&mut object, "X-BW-Broker-Nonce", Json::text(nonce));
    put(&mut object, "X-BW-Broker-Signature", Json::Text(signature));
    Ok(Json::Object(object))
}

/// The headers of a request that is signed at the time that the clock shows.
pub fn signed_headers_json(
    client_id: &str,
    client_secret: &str,
    method: &str,
    target: &str,
    body: &[u8],
    nonce: &str,
) -> (r: Result<Json, SigningError>)
    ensures
        r is Ok,
        exists|now: i64|
            r->Ok_0@ == #[trigger] signed_headers_view(
                client_id@,
                client_secret@,
                method@,
                target@,
                body@,
                nonce@,
                now as int,
            ),
{
    let now = now_unix();
    signed_headers_at(client_id, client_secret, method, target, body, nonce, now)
}

/// Whether header lines carry each text of a JSON object under its key.
pub open spec fn carries(lines: Map<Seq<char>, Seq<u8>>, headers: JsonView) -> bool {
    forall|name: Seq<char>|
        #[trigger] headers.text_at(name) is Some ==> header_text(lines, name) == Ok::<
            Seq<char>,
            SigningErrorView,
        >(headers.text_at(name)->0)
}

/// A request that was signed with a client's secret is accepted as long as the
/// clock is within the allowed distance of the time of signing, when it carries
/// the headers that signing gave.
pub proof fn law_signed_request_is_accepted(
    client_id: Seq<char>,
    secret: Seq<char>,
    method: Seq<char>,
    target: Seq<char>,
    body: Seq<u8>,
    nonce: Seq<char>,
    signed_at: i64,
    lines: Map<Seq<char>, Seq<u8>>,
    max_skew_seconds: i64,
    now: i64,
)
    requires
        within_skew(now as int, signed_at as int, max_skew_seconds as int),
        carries(
            lines,
            signed_headers_view(
                client_id,
                secret,
                method,
                target,
                body,
                nonce,
                signed_at as int,
            ),
        ),
    ensures
        verification(
            secret,
            method,
            target,
            lines,
            body,
            max_skew_seconds as int,
            now as int,
        ) == Ok::<(Seq<char>, Seq<char>), SigningErrorView>(
            (signed_decimal(signed_at as int), nonce),
        ),
        header_text(lines, HEADER_CLIENT@) == Ok::<Seq<char>, SigningErrorView>(client_id),
{
    crate::text::law_decimal_reads_back(signed_at);
    let view = signed_headers_view(
        client_id,
        secret,
        method,
        target,
        body,
        nonce,
        signed_at as int,
    );
    lemma_header_names();
    assert(view.text_at("X-BW-Broker-Client-Id"@) == Some(client_id));
    assert(view.text_at("X-BW-Broker-Timestamp"@) == Some(signed_decimal(signed_at as int)));
    assert(view.text_at("X-BW-Broker-Nonce"@) == Some(nonce));
    assert(view.text_at("X-BW-Broker-Signature"@) is Some);
}

/// The header names that signing gives are those that verification reads, and
/// they differ from each other.
proof fn lemma_header_names()
    ensures
        ascii_lower("X-BW-Broker-Client-Id"@) == ascii_lower(HEADER_CLIENT@),
        ascii_lower("X-BW-Broker-Timestamp"@) == ascii_lower(HEADER_TIMESTAMP@),
        ascii_lower("X-BW-Broker-Nonce"@) == ascii_lower(HEADER_NONCE@),
        ascii_lower("X-BW-Broker-Signature"@) == ascii_lower(HEADER_SIGNATURE@),
        "X-BW-Broker-Client-Id"@ != "X-BW-Broker-Timestamp"@,
        "X-BW-Broker-Client-Id"@ != "X-BW-Broker-Nonce"@,
        "X-BW-Broker-Client-Id"@ != "X-BW-Broker-Signature"@,
        "X-BW-Broker-Timestamp"@ != "X-BW-Broker-Nonce"@,
        "X-BW-Broker-Timestamp"@ != "X-BW-Broker-Signature"@,
        "X-BW-Broker-Nonce"@ != "X-BW-Broker-Signature"@,
{
    reveal_strlit("X-BW-Broker-Client-Id");
    reveal_strlit("X-BW-Broker-Timestamp");
    reveal_strlit("X-BW-Broker-Nonce");
    reveal_strlit("X-BW-Broker-Signature");
    reveal_strlit("x-bw-broker-client-id");
    reveal_strlit("x-bw-broker-timestamp");
    reveal_strlit("x-bw-broker-nonce");
    reveal_strlit("x-bw-broker-signature");
    assert(ascii_lower("X-BW-Broker-Client-Id"@) =~= ascii_lower(HEADER_CLIENT@));
    assert(ascii_lower("X-BW-Broker-Timestamp"@) =~= ascii_lower(HEADER_TIMESTAMP@));
    assert(ascii_lower("X-BW-Broker-Nonce"@) =~= ascii_lower(HEADER_NONCE@));
    assert(ascii_lower("X-BW-Broker-Signature"@) =~= ascii_lower(HEADER_SIGNATURE@));
    assert("X-BW-Broker-Client-Id"@[12] != "X-BW-Broker-Timestamp"@[12]);
    assert("X-BW-Broker-Client-Id"@[12] != "X-BW-Broker-Nonce"@[12]);
    assert("X-BW-Broker-Client-Id"@[12] != "X-BW-Broker-Signature"@[12]);
    assert("X-BW-Broker-Timestamp"@[12] != "X-BW-Broker-Nonce"@[12]);
    assert("X-BW-Broker-Timestamp"@[12] != "X-BW-Broker-Signature"@[12]);
    assert("X-BW-Broker-Nonce"@[12] != "X-BW-Broker-Signature"@[12]);
}

/// Whether a text stays on one line.
pub open spec fn one_line(s: Seq<char>) -> bool {
    !s.contains('\n')
}

proof fn lemma_first_line(a: Seq<char>, x: Seq<char>, b: Seq<char>, y: Seq<char>)
    requires
        one_line(a),
        one_line(b),
        a + seq!['\n'] + x == b + seq!['\n'] + y,
    ensures
        a == b,
        x == y,
{
    let left = a + seq!['\n'] + x;
    let right = b + seq!['\n'] + y;
    assert(left[a.len() as int] == '\n');
    assert(right[b.len() as int] == '\n');
    if a.len() < b.len() {
        assert(right[a.len() as int] == b[a.len() as int]);
        assert(b.contains('\n'));
    }
    if b.len() < a.len() {
        assert(left[b.len() as int] == a[b.len() as int]);
        assert(a.contains('\n'));
    }
    assert(a =~= left.take(a.len() as int));
    assert(b =~= right.take(b.len() as int));
    assert(x =~= left.skip(a.len() as int + 1));
    assert(y =~= right.skip(b.len() as int + 1));
}

/// Different byte strings differ in hexadecimal.
pub proof fn lemma_hex_injective(a: Seq<u8>, b: Seq<u8>)
    requires
        hex_text(a) == hex_text(b),
    ensures
        a == b,
{
    assert(hex_text(a).len() == 2 * a.len());
    assert(hex_text(b).len() == 2 * b.len());
    assert forall|i: int| 0 <= i < a.len() implies a[i] == b[i] by {
        assert(hex_text(a)[2 * i] == hex_text(b)[2 * i]);
        assert(hex_text(a)[2 * i + 1] == hex_text(b)[2 * i + 1]);
        assert(hex_text(a)[2 * i] == hex_digit(a[i] as int / 16));
        assert(hex_text(a)[2 * i + 1] == hex_digit(a[i] as int % 16));
        assert(hex_text(b)[2 * i] == hex_digit(b[i] as int / 16));
        assert(hex_text(b)[2 * i + 1] == hex_digit(b[i] as int % 16));
    }
    assert(a =~= b);
}

/// The text that a signature covers fixes every part of the request: two
/// requests whose parts stay on one line share it only if they agree in the
/// method up to the case of its letters, the target, the timestamp, the nonce
/// and the digest of the body.
pub proof fn law_canonical_text_is_unambiguous(
    method1: Seq<char>,
    target1: Seq<char>,
    timestamp1: Seq<char>,
    nonce1: Seq<char>,
    body1: Seq<u8>,
    method2: Seq<char>,
    target2: Seq<char>,
    timestamp2: Seq<char>,
    nonce2: Seq<char>,
    body2: Seq<u8>,
)
    requires
        one_line(method1) && one_line(target1) && one_line(timestamp1) && one_line(nonce1),
        one_line(method2) && one_line(target2) && one_line(timestamp2) && one_line(nonce2),
        canonical_text(method1, target1, timestamp1, nonce1, body1) == canonical_text(
            method2,
            target2,
            timestamp2,
            nonce2,
            body2,
        ),
    ensures
        ascii_upper(method1) == ascii_upper(method2),
        target1 == target2,
        timestamp1 == timestamp2,
        nonce1 == nonce2,
        sha256(body1) == sha256(body2),
{
    let nl = seq!['\n'];
    let d1 = hex_text(sha256(body1));
    let d2 = hex_text(sha256(body2));
    let c1 = nonce1 + nl + d1;
    let c2 = nonce2 + nl + d2;
    let b1 = timestamp1 + nl + c1;
    let b2 = timestamp2 + nl + c2;
    let a1 = target1 + nl + b1;
    let a2 = target2 + nl + b2;
    assert(canonical_text(method1, target1, timestamp1, nonce1, body1) =~= ascii_upper(method1)
        + nl + a1);
    assert(canonical_text(method2, target2, timestamp2, nonce2, body2) =~= ascii_upper(method2)
        + nl + a2);
    lemma_upper_one_line(method1);
    lemma_upper_one_line(method2);
    lemma_first_line(ascii_upper(method1), a1, ascii_upper(method2), a2);
    lemma_first_line(target1, b1, target2, b2);
    lemma_first_line(timestamp1, c1, timestamp2, c2);
    lemma_first_line(nonce1, d1, nonce2, d2);
    lemma_hex_injective(sha256(body1), sha256(body2));
}

proof fn lemma_upper_one_line(s: Seq<char>)
    requires
        one_line(s),
    ensures
        one_line(ascii_upper(s)),
{
    if ascii_upper(s).contains('\n') {
        let i = choose|i: int| 0 <= i < s.len() && ascii_upper(s)[i] == '\n';
        assert(crate::text::upper_char(s[i]) == '\n');
    }
}

/// What a signature covers, line by line: the method in capitals, what it is
/// sent to, the time, the nonce, and the digest of the body.
pub proof fn law_signature_covers_line_by_line(
    method: Seq<char>,
    target: Seq<char>,
    timestamp: Seq<char>,
    nonce: Seq<char>,
    body: Seq<u8>,
)
    requires
        one_line(method),
        one_line(target),
        one_line(timestamp),
        one_line(nonce),
    ensures
        ({
            let covered = crate::text::lines(canonical_text(method, target, timestamp, nonce, body));
            &&& covered.len() == 5
            &&& covered[0] == ascii_upper(method)
            &&& covered[1] == target
            &&& covered[2] == timestamp
            &&& covered[3] == nonce
            &&& covered[4] == hex_text(sha256(body))
        }),
{
    let digest = hex_text(sha256(body));
    let pieces = seq![ascii_upper(method), target, timestamp, nonce, digest];
    lemma_upper_one_line(method);
    assert(one_line(digest)) by {
        assert forall|i: int| 0 <= i < digest.len() implies #[trigger] digest[i] != '\n' by {
            let b = sha256(body)[i / 2];
            assert(0 <= b as int / 16 < 16 && 0 <= b as int % 16 < 16);
        }
    }
    assert forall|i: int| 0 <= i < pieces.len() implies !(#[trigger] pieces[i]).contains('\n') by {
        assert(one_line(pieces[i]));
    }
    law_joined_lines_come_apart(pieces);
    reveal_strlit("\n");
    assert("\n"@ =~= seq!['\n']);
    reveal_with_fuel(joined, 6);
    assert(pieces.drop_last() =~= seq![ascii_upper(method), target, timestamp, nonce]);
    assert(pieces.drop_last().drop_last() =~= seq![ascii_upper(method), target, timestamp]);
    assert(pieces.drop_last().drop_last().drop_last() =~= seq![ascii_upper(method), target]);
    assert(pieces.drop_last().drop_last().drop_last().drop_last() =~= seq![ascii_upper(method)]);
    assert(joined(pieces, "\n"@) =~= canonical_text(method, target, timestamp, nonce, body));
}

/// A header is found whatever the case of its name, and read byte for byte, one
/// character for each; one with other than visible characters is refused.
pub proof fn law_header_is_read_byte_for_byte(lines: Map<Seq<char>, Seq<u8>>, name: Seq<char>)
    ensures
        ({
            let key = ascii_lower(name);
            let bytes = lines[key];
            let clean = forall|i: int|
                0 <= i < bytes.len() ==> 32 <= #[trigger] bytes[i] < 127 || bytes[i] == 9;
            &&& lines.contains_key(key) && clean ==> (header_text(lines, name) matches Ok(text)
                && text.len() == bytes.len() && forall|i: int|
                0 <= i < bytes.len() ==> #[trigger] text[i] as u32 == bytes[i])
            &&& lines.contains_key(key) && !clean ==> (header_text(lines, name) matches Err(e)
                && e.message() == "invalid header "@ + name)
            &&& !lines.contains_key(key) ==> (header_text(lines, name) matches Err(e)
                && e.message() == "missing header "@ + name)
        }),
{
    let bytes = lines[ascii_lower(name)];
    if lines.contains_key(ascii_lower(name)) {
        if forall|i: int|
            0 <= i < bytes.len() ==> 32 <= #[trigger] bytes[i] < 127 || bytes[i] == 9 {
            assert(header_visible(bytes));
        } else {
            let i = choose|i: int|
                0 <= i < bytes.len() && !(32 <= #[trigger] bytes[i] < 127 || bytes[i] == 9);
            assert(!header_byte_visible(bytes[i]));
        }
    }
}

/// A request is accepted exactly where it has its time, its nonce and its
/// signature, the time is no further from the clock than is allowed, and the
/// signature is the one that the secret gives for the request. What is refused
/// is refused for the first of these that fails.
pub proof fn law_accepted_means_signed_in_time(
    secret: Seq<char>,
    method: Seq<char>,
    target: Seq<char>,
    lines: Map<Seq<char>, Seq<u8>>,
    body: Seq<u8>,
    max_skew_seconds: int,
    now: int,
)
    ensures
        ({
            let result = verification(secret, method, target, lines, body, max_skew_seconds, now);
            let timestamp = header_text(lines, HEADER_TIMESTAMP@);
            let nonce = header_text(lines, HEADER_NONCE@);
            let provided = header_text(lines, HEADER_SIGNATURE@);
            let there = timestamp is Ok && nonce is Ok && provided is Ok;
            let at = parsed_i64(timestamp->Ok_0);
            let in_time = at is Some && now - at->0 <= max_skew_seconds && at->0 - now
                <= max_skew_seconds;
            let genuine = provided->Ok_0 == hex_text(
                hmac_sha256(
                    encode_utf8(secret),
                    encode_utf8(
                        canonical_text(method, target, timestamp->Ok_0, nonce->Ok_0, body),
                    ),
                ),
            );
            &&& result is Ok <==> there && in_time && genuine
            &&& result is Ok ==> result->Ok_0 == (timestamp->Ok_0, nonce->Ok_0)
            &&& timestamp is Err ==> result->Err_0 == timestamp->Err_0
            &&& timestamp is Ok && nonce is Err ==> result->Err_0 == nonce->Err_0
            &&& timestamp is Ok && nonce is Ok && provided is Err ==> result->Err_0
                == provided->Err_0
            &&& there && at is None ==> result->Err_0.message() == "invalid signature timestamp"@
            &&& there && at is Some && !in_time ==> result->Err_0.message()
                == "signature timestamp outside allowed skew"@
            &&& there && in_time && !genuine ==> result->Err_0.message()
                == "invalid request signature"@
        }),
{
}

/// The headers that a client sends say who it is and when it signed, carry its
/// nonce, and the signature that its secret gives for the request at that time.
pub proof fn law_signed_headers_member_by_member(
    client_id: Seq<char>,
    client_secret: Seq<char>,
    method: Seq<char>,
    target: Seq<char>,
    body: Seq<u8>,
    nonce: Seq<char>,
    now: i64,
)
    ensures
        ({
            let sent = signed_headers_view(
                client_id,
                client_secret,
                method,
                target,
                body,
                nonce,
                now as int,
            );
            let timestamp = sent.text_at("X-BW-Broker-Timestamp"@);
            &&& sent.text_at("X-BW-Broker-Client-Id"@) == Some(client_id)
            &&& timestamp is Some && parsed_i64(timestamp->0) == Some(now as int)
            &&& sent.text_at("X-BW-Broker-Nonce"@) == Some(nonce)
            &&& sent.text_at("X-BW-Broker-Signature"@) == Some(
                hex_text(
                    hmac_sha256(
                        encode_utf8(client_secret),
                        encode_utf8(canonical_text(method, target, timestamp->0, nonce, body)),
                    ),
                ),
            )
        }),
{
    lemma_header_names();
    crate::text::law_decimal_reads_back(now);
}

/// The clock is read as it stands, and as zero where it shows a time before the
/// start of 1970.
pub proof fn law_clock_is_read_as_it_stands(seconds: u64)
    ensures
        seconds <= i64::MAX ==> time_of(Some(seconds)) == seconds,
        time_of(None) == 0,
{
}

} // verus!
