use vstd::prelude::*;

verus! {

/// What `url::Url::parse` gives for `input`: the serialization of the
/// parsed URL (`Url::as_str`), or the text of the error it reports.
pub uninterp spec fn url_parse_outcome(input: Seq<char>) -> Result<Seq<char>, Seq<char>>;

/// Calls `url::Url::parse` on `input` and hands back the parsed URL's
/// serialization (`Url::as_str`), or the error written with the `Display`
/// impl of `url::ParseError`. Parsing is a function of the input alone; the
/// contract names the outcome.
#[verifier::external_body]
fn parse_url(input: &str) -> (r: Result<String, String>)
    ensures
        r matches Ok(s) ==> (url_parse_outcome(input@) matches Ok(v) && v == s@),
        r matches Err(e) ==> (url_parse_outcome(input@) matches Err(d) && d == e@),
{
    match url::Url::parse(input) {
        Ok(u) => Ok(u.as_str().to_string()),
        Err(e) => Err(e.to_string()),
    }
}

/// The message for a server address that does not parse, given the
/// parser's own explanation.
pub open spec fn invalid_url_text(detail: Seq<char>) -> Seq<char> {
    "无效的URL: "@ + detail
}

/// The message for a server address that does not parse.
pub fn invalid_url_message(detail: &str) -> (r: String)
    ensures
        r@ == invalid_url_text(detail@),
{
    String::from_str("无效的URL: ").concat(detail)
}

/// Parses the address of the server and gives back the URL in its
/// normalized written form; a failure carries the message the client shows.
pub fn parse_server_url(url_str: &str) -> (r: Result<String, String>)
    ensures
        r is Ok <==> url_parse_outcome(url_str@) is Ok,
        r matches Ok(u) ==> (url_parse_outcome(url_str@) matches Ok(v) && v == u@),
        r matches Err(m) ==> (url_parse_outcome(url_str@) matches Err(e) && m@ == invalid_url_text(e)),
{
    match parse_url(url_str) {
        Ok(url) => Ok(url),
        Err(e) => Err(invalid_url_message(e.as_str())),
    }
}

} // verus!
