use vstd::prelude::*;
use vstd::string::*;

verus! {

/// `text` percent-encoded for a URL component.
pub uninterp spec fn url_encoded_of(text: Seq<char>) -> Seq<char>;

/// Relies on urlencoding::encode: the encoding depends on `text` alone.
#[verifier::external_body]
fn url_encode(text: &str) -> (r: String)
    ensures
        r@ == url_encoded_of(text@),
{
    urlencoding::encode(text).into_owned()
}

/// Where the state object is read from.
pub open spec fn read_url_spec(bucket: Seq<char>, object: Seq<char>) -> Seq<char> {
    "https://storage.googleapis.com/storage/v1/b/"@ + bucket + "/o/"@ + url_encoded_of(object) + "?alt=media"@
}

/// Where the state object is written to.
pub open spec fn write_url_spec(bucket: Seq<char>, object: Seq<char>) -> Seq<char> {
    "https://storage.googleapis.com/upload/storage/v1/b/"@ + bucket + "/o?uploadType=media&name="@
        + url_encoded_of(object)
}

/// The URL that reads the state object `object` of `bucket`.
pub fn state_read_url(bucket: &str, object: &str) -> (r: String)
    ensures
        r@ == read_url_spec(bucket@, object@),
{
    let mut s = String::from_str("https://storage.googleapis.com/storage/v1/b/");
    s.append(bucket);
    s.append("/o/");
    let enc = url_encode(object);
    s.append(enc.as_str());
    s.append("?alt=media");
    s
}

/// The URL that uploads the state object `object` of `bucket`.
pub fn state_write_url(bucket: &str, object: &str) -> (r: String)
    ensures
        r@ == write_url_spec(bucket@, object@),
{
    let mut s = String::from_str("https://storage.googleapis.com/upload/storage/v1/b/");
    s.append(bucket);
    s.append("/o?uploadType=media&name=");
    let enc = url_encode(object);
    s.append(enc.as_str());
    s
}

} // verus!
