//! Decisions the crawl orchestrator makes around the walk: the absolute
//! address of a page, the connection string for the table sink, the
//! notification message sent when a pass logged failures, and how long to
//! sleep between passes.

use crate::errors::ErrorLog;
use vstd::prelude::*;

verus! {

/// The site every crawled path is relative to.
pub open spec fn base_address() -> Seq<char> {
    "http://www.ikea.com"@
}

/// The absolute address of a crawled path.
pub fn page_address(path: &str) -> (r: String)
    ensures
        r@ == base_address() + path@,
{
    let mut s = String::from_str("http://www.ikea.com");
    s.append(path);
    s
}

/// What percent-encoding a userinfo component returns; a function of the
/// input characters alone.
pub uninterp spec fn userinfo_encoded(s: Seq<char>) -> Seq<char>;

/// What percent-encoding a query component returns; a function of the input
/// characters alone.
pub uninterp spec fn query_encoded(s: Seq<char>) -> Seq<char>;

/// Relies on url's percent_encoding::percent_encode over the userinfo
/// encode set: percent-encodes the bytes of a connection credential.
#[verifier::external_body]
fn encode_userinfo(s: &str) -> (r: String)
    ensures
        r@ == userinfo_encoded(s@),
{
    url::percent_encoding::percent_encode(s.as_bytes(), url::percent_encoding::USERINFO_ENCODE_SET)
        .collect::<String>()
}

/// Relies on url's percent_encoding::percent_encode over the query encode
/// set: percent-encodes the bytes of a query string.
#[verifier::external_body]
fn encode_query(s: &str) -> (r: String)
    ensures
        r@ == query_encoded(s@),
{
    url::percent_encoding::percent_encode(s.as_bytes(), url::percent_encoding::QUERY_ENCODE_SET)
        .collect::<String>()
}

/// The value an optional setting contributes.
pub open spec fn opt_or(o: Option<Seq<char>>, default: Seq<char>) -> Seq<char> {
    match o {
        Some(v) => v,
        None => default,
    }
}

/// The connection string of the table sink: user and password
/// percent-encoded as userinfo, with the documented defaults for every
/// setting left out — user `postgres`, no password, host `localhost`, port
/// `5432`.
pub open spec fn connection_url_spec(
    user: Option<Seq<char>>,
    pass: Option<Seq<char>>,
    host: Option<Seq<char>>,
    port: Option<Seq<char>>,
) -> Seq<char> {
    "postgres://"@ + (match user {
        Some(u) => userinfo_encoded(u),
        None => "postgres"@,
    }) + (match pass {
        Some(p) => ":"@ + userinfo_encoded(p),
        None => Seq::empty(),
    }) + "@"@ + opt_or(host, "localhost"@) + ":"@ + opt_or(port, "5432"@)
}

/// Builds the table sink's connection string from the configured settings.
pub fn connection_url(
    user: Option<String>,
    pass: Option<String>,
    host: Option<String>,
    port: Option<String>,
) -> (r: String)
    ensures
        r@ == connection_url_spec(
            crate::dom::opt_view(user),
            crate::dom::opt_view(pass),
            crate::dom::opt_view(host),
            crate::dom::opt_view(port),
        ),
{
    let mut s = String::from_str("postgres://");
    match user {
        Some(u) => s.append(encode_userinfo(u.as_str()).as_str()),
        None => s.append("postgres"),
    }
    match pass {
        Some(p) => {
            s.append(":");
            s.append(encode_userinfo(p.as_str()).as_str());
        },
        None => {},
    }
    s.append("@");
    match host {
        Some(h) => s.append(h.as_str()),
        None => s.append("localhost"),
    }
    s.append(":");
    match port {
        Some(p) => s.append(p.as_str()),
        None => s.append("5432"),
    }
    s
}

/// The `&to=` query parameters for the notification addresses, in order.
pub open spec fn email_params_spec(emails: Seq<Seq<char>>) -> Seq<char>
    decreases emails.len(),
{
    if emails.len() == 0 {
        Seq::empty()
    } else {
        email_params_spec(emails.drop_last()) + "&to="@ + emails.last()
    }
}

/// Renders the `&to=` query parameters for the notification addresses.
pub fn email_params(emails: &Vec<String>) -> (r: String)
    ensures
        r@ == email_params_spec(crate::sink::strings_view(emails@)),
{
    let ghost ev = crate::sink::strings_view(emails@);
    let mut out = String::new();
    let mut i: usize = 0;
    proof {
        assert(ev.subrange(0, 0) =~= Seq::<Seq<char>>::empty());
    }
    while i < emails.len()
        invariant
            i <= emails@.len(),
            ev == crate::sink::strings_view(emails@),
            out@ == email_params_spec(ev.subrange(0, i as int)),
        decreases emails@.len() - i,
    {
        out.append("&to=");
        out.append(emails[i].as_str());
        proof {
            assert(ev.subrange(0, i + 1 as int).drop_last() =~= ev.subrange(0, i as int));
        }
        i = i + 1;
    }
    proof {
        assert(ev.subrange(0, emails@.len() as int) =~= ev);
    }
    out
}

/// One summary of the pass's failures: the log entries in order, each
/// already newline-terminated.
pub open spec fn summary_spec(entries: Seq<Seq<char>>) -> Seq<char>
    decreases entries.len(),
{
    if entries.len() == 0 {
        Seq::empty()
    } else {
        summary_spec(entries.drop_last()) + entries.last()
    }
}

/// Renders the pass's failure summary from the error log.
pub fn error_summary(errors: &ErrorLog) -> (r: String)
    ensures
        r@ == summary_spec(errors@),
{
    let mut out = String::new();
    let mut i: usize = 0;
    proof {
        assert(errors@.subrange(0, 0) =~= Seq::<Seq<char>>::empty());
    }
    while i < errors.len()
        invariant
            i <= errors@.len(),
            out@ == summary_spec(errors@.subrange(0, i as int)),
        decreases errors@.len() - i,
    {
        out.append(errors.get(i).as_str());
        proof {
            assert(errors@.subrange(0, i + 1 as int).drop_last() =~= errors@.subrange(0, i as int));
        }
        i = i + 1;
    }
    proof {
        assert(errors@.subrange(0, errors@.len() as int) =~= errors@);
    }
    out
}

/// The notification request: the endpoint prefix, the failure summary and
/// the address parameters, percent-encoded as one query.
pub fn notification_message(prefix: &str, errors: &ErrorLog, emails: &Vec<String>) -> (r: String)
    ensures
        r@ == query_encoded(
            prefix@ + summary_spec(errors@) + email_params_spec(
                crate::sink::strings_view(emails@),
            ),
        ),
{
    let mut plain = String::from_str(prefix);
    plain.append(error_summary(errors).as_str());
    plain.append(email_params(emails).as_str());
    encode_query(plain.as_str())
}

/// How long to sleep before the next pass: the configured interval less the
/// elapsed pass duration, never negative — a pass longer than the interval
/// starts the next one at once.
pub fn remaining_delay(interval_secs: u64, elapsed_secs: u64) -> (r: u64)
    ensures
        r == if elapsed_secs < interval_secs {
            interval_secs - elapsed_secs
        } else {
            0
        },
{
    if elapsed_secs < interval_secs {
        interval_secs - elapsed_secs
    } else {
        0
    }
}

} // verus!
