use vstd::prelude::*;

verus! {

/// An ASCII letter or digit: the characters that percent-encoding keeps.
pub open spec fn is_ascii_alnum(c: char) -> bool {
    ('0' <= c && c <= '9') || ('a' <= c && c <= 'z') || ('A' <= c && c <= 'Z')
}

/// The text as a path segment: each byte of its UTF-8 encoding that is not an
/// ASCII letter or digit written as `%` and two upper-case hex digits.
pub uninterp spec fn percent_encoded(s: Seq<char>) -> Seq<char>;

/// Relies on `percent_encoding::utf8_percent_encode` with the set
/// `NON_ALPHANUMERIC`: letters and digits stay, every other byte becomes `%XX`.
#[verifier::external_body]
fn encode_segment(s: &str) -> (r: String)
    ensures
        r@ == percent_encoded(s@),
        forall|i: int| 0 <= i < r@.len() ==> is_ascii_alnum(#[trigger] r@[i]) || r@[i] == '%',
        (forall|i: int| 0 <= i < s@.len() ==> is_ascii_alnum(#[trigger] s@[i])) ==> r@ == s@,
{
    percent_encoding::utf8_percent_encode(s, percent_encoding::NON_ALPHANUMERIC).to_string()
}

/// Target of the login call: the base URL, which ends with `/`, then `login`.
pub fn login_url(base_url: &str) -> (r: String)
    ensures
        r@ == base_url@ + "login"@,
{
    let mut r = base_url.to_owned();
    r.append("login");
    r
}

/// Target of the create call, from the device name and object class already
/// percent-encoded.
pub fn create_target(base_url: &str, device_enc: &str, kind_enc: &str) -> (r: String)
    ensures
        r@ == base_url@ + "events/"@ + device_enc@ + "/"@ + kind_enc@ + "/create"@,
{
    let mut r = base_url.to_owned();
    r.append("events/");
    r.append(device_enc);
    r.append("/");
    r.append(kind_enc);
    r.append("/create");
    r
}

/// Target of the create call for an event of `device` with object class
/// `kind`; both are percent-encoded, so that no `/`, space or other byte of
/// theirs can change the request target.
pub fn create_event_url(base_url: &str, device: &str, kind: &str) -> (r: String)
    ensures
        r@ == base_url@ + "events/"@ + percent_encoded(device@) + "/"@ + percent_encoded(kind@)
            + "/create"@,
{
    let device_enc = encode_segment(device);
    let kind_enc = encode_segment(kind);
    create_target(base_url, device_enc.as_str(), kind_enc.as_str())
}

/// Target of the end call, from the event id already percent-encoded.
pub fn end_target(base_url: &str, event_id_enc: &str) -> (r: String)
    ensures
        r@ == base_url@ + "events/"@ + event_id_enc@ + "/end"@,
{
    let mut r = base_url.to_owned();
    r.append("events/");
    r.append(event_id_enc);
    r.append("/end");
    r
}

/// Target of the end call for the event `event_id`, percent-encoded.
pub fn end_event_url(base_url: &str, event_id: &str) -> (r: String)
    ensures
        r@ == base_url@ + "events/"@ + percent_encoded(event_id@) + "/end"@,
{
    let id_enc = encode_segment(event_id);
    end_target(base_url, id_enc.as_str())
}

} // verus!
