//! The outbound email-delivery client.
//!
//! An [`EmailClient`] turns pre-validated domain values into one
//! ready-to-send HTTP request — endpoint, authorization header and JSON
//! body — and classifies what came back of the transport attempt into the
//! uniform [`DeliveryError`]. Performing the POST itself is I/O and is left
//! to the surrounding binary, which must configure its HTTP client with the
//! fixed [`REQUEST_TIMEOUT_SECS`] and hand the observed [`SendOutcome`]
//! back.

use vstd::prelude::*;

use crate::domain::SubscriberEmail;
use crate::text::push_char;

verus! {

/// Seconds allowed for the whole request/response cycle of one send; an
/// exceeded ceiling is a delivery failure like any other transport fault.
pub const REQUEST_TIMEOUT_SECS: u64 = 10;

/// The lowercase hexadecimal digit with value `d`.
pub open spec fn hex_digit_char(d: int) -> char {
    if d < 10 {
        ((48 + d) as u32) as char
    } else {
        ((87 + d) as u32) as char
    }
}

/// How one character is written inside a JSON string literal: quote,
/// backslash and the control characters are escaped, everything else stands
/// for itself.
pub open spec fn json_escape_char(c: char) -> Seq<char> {
    if c == '"' {
        seq!['\\', '"']
    } else if c == '\\' {
        seq!['\\', '\\']
    } else if c == '\n' {
        seq!['\\', 'n']
    } else if c == '\r' {
        seq!['\\', 'r']
    } else if c == '\t' {
        seq!['\\', 't']
    } else if (c as u32) < 32 {
        let hi = hex_digit_char((c as u32) as int / 16);
        let lo = hex_digit_char((c as u32) as int % 16);
        seq!['\\', 'u', '0', '0', hi, lo]
    } else {
        seq![c]
    }
}

/// The JSON string-literal encoding of `s`, without the surrounding quotes.
pub open spec fn json_escaped(s: Seq<char>) -> Seq<char>
    decreases s.len(),
{
    if s.len() == 0 {
        Seq::empty()
    } else {
        json_escape_char(s[0]) + json_escaped(s.skip(1))
    }
}

proof fn lemma_json_escaped_snoc(s: Seq<char>, c: char)
    ensures
        json_escaped(s.push(c)) == json_escaped(s) + json_escape_char(c),
    decreases s.len(),
{
    if s.len() == 0 {
        assert(s.push(c)[0] == c);
        assert(s.push(c).skip(1) =~= Seq::<char>::empty());
        assert(json_escaped(Seq::<char>::empty()) =~= Seq::<char>::empty());
        assert(json_escaped(s.push(c)) =~= json_escape_char(c)
            + json_escaped(Seq::<char>::empty()));
        assert(json_escaped(s.push(c)) =~= json_escape_char(c));
        assert(json_escaped(s) + json_escape_char(c) =~= json_escape_char(c));
    } else {
        assert(s.push(c)[0] == s[0]);
        assert(s.push(c).skip(1) =~= s.skip(1).push(c));
        lemma_json_escaped_snoc(s.skip(1), c);
        assert(json_escape_char(s[0]) + (json_escaped(s.skip(1)) + json_escape_char(c))
            =~= (json_escape_char(s[0]) + json_escaped(s.skip(1))) + json_escape_char(c));
    }
}

/// The lowercase hexadecimal digit with value `d`.
fn hex_digit(d: u32) -> (r: char)
    requires
        d < 16,
    ensures
        r == hex_digit_char(d as int),
{
    if d < 10 {
        ((48 + d) as u8) as char
    } else {
        ((87 + d) as u8) as char
    }
}

/// Write `s` onto `out` as JSON string-literal content.
fn append_json_escaped(out: &mut String, s: &str)
    ensures
        final(out)@ == old(out)@ + json_escaped(s@),
{
    let len = s.unicode_len();
    assert(s@.take(0) =~= Seq::<char>::empty());
    assert(old(out)@ + json_escaped(s@.take(0)) =~= old(out)@);
    let mut i: usize = 0;
    while i < len
        invariant
            i <= len,
            len == s@.len(),
            out@ == old(out)@ + json_escaped(s@.take(i as int)),
        decreases len - i,
    {
        let c = s.get_char(i);
        let ghost pre = out@;
        proof {
            assert(s@.take(i + 1) =~= s@.take(i as int).push(s@[i as int]));
            lemma_json_escaped_snoc(s@.take(i as int), s@[i as int]);
        }
        if c == '"' {
            push_char(out, '\\');
            push_char(out, '"');
        } else if c == '\\' {
            push_char(out, '\\');
            push_char(out, '\\');
        } else if c == '\n' {
            push_char(out, '\\');
            push_char(out, 'n');
        } else if c == '\r' {
            push_char(out, '\\');
            push_char(out, 'r');
        } else if c == '\t' {
            push_char(out, '\\');
            push_char(out, 't');
        } else {
            let n = c as u32;
            if n < 32 {
                push_char(out, '\\');
                push_char(out, 'u');
                push_char(out, '0');
                push_char(out, '0');
                push_char(out, hex_digit(n / 16));
                push_char(out, hex_digit(n % 16));
            } else {
                push_char(out, c);
            }
        }
        assert(out@ =~= pre + json_escape_char(s@[i as int]));
        assert(out@ =~= old(out)@ + json_escaped(s@.take(i + 1)));
        i = i + 1;
    }
    assert(s@.take(len as int) =~= s@);
}

/// The wire body of one send: a JSON object with the five required string
/// fields, named with the provider's capitalization.
pub open spec fn email_body_json(
    from: Seq<char>,
    to: Seq<char>,
    subject: Seq<char>,
    html: Seq<char>,
    text: Seq<char>,
) -> Seq<char> {
    "{\"From\":\""@ + json_escaped(from) + "\",\"To\":\""@ + json_escaped(to)
        + "\",\"Subject\":\""@ + json_escaped(subject) + "\",\"HtmlBody\":\""@
        + json_escaped(html) + "\",\"TextBody\":\""@ + json_escaped(text) + "\"}"@
}

/// Where one send is POSTed: the path `/email` under the configured base
/// URL, a single trailing slash of the base collapsing into the path.
pub open spec fn send_endpoint(base: Seq<char>) -> Seq<char> {
    if base.len() > 0 && base.last() == '/' {
        base.drop_last() + "/email"@
    } else {
        base + "/email"@
    }
}

/// Build the endpoint URL for `base`.
fn endpoint_url(base: &str) -> (r: String)
    ensures
        r@ == send_endpoint(base@),
{
    let len = base.unicode_len();
    if len > 0 && base.get_char(len - 1) == '/' {
        let trimmed = base.substring_char(0, len - 1);
        assert(trimmed@ =~= base@.drop_last());
        String::from_str(trimmed).concat("/email")
    } else {
        String::from_str(base).concat("/email")
    }
}

/// One ready-to-send request to the email provider.
#[derive(Debug)]
pub struct EmailRequest {
    /// Where to POST.
    pub url: String,
    /// Name of the provider's authorization header.
    pub header_name: String,
    /// Value of the authorization header: the configured token.
    pub header_value: String,
    /// The JSON body.
    pub body: String,
}

/// What the transport attempt of one send yielded: a status line, no
/// response within the timeout, or no response at all.
#[derive(Clone, Copy, Debug, PartialEq, Eq, Structural)]
pub enum SendOutcome {
    Responded(u16),
    TimedOut,
    TransportFailed,
}

/// The embedded detail of a delivery failure.
#[derive(Clone, Copy, Debug, PartialEq, Eq, Structural)]
pub enum SendFailure {
    /// The provider answered outside the success range.
    Status(u16),
    /// The fixed timeout elapsed with no response.
    Timeout,
    /// The transport failed before any response.
    Transport,
}

/// The uniform failure signal of a send: transport faults and provider
/// rejections alike, with the cause kept as embedded detail only.
#[derive(Clone, Copy, Debug, PartialEq, Eq, Structural)]
pub struct DeliveryError {
    pub failure: SendFailure,
}

/// Classify what came back of one send: any response in the success range
/// is a delivery, everything else is a [`DeliveryError`].
pub fn delivery_result(outcome: SendOutcome) -> (r: Result<(), DeliveryError>)
    ensures
        r is Ok <==> (outcome matches SendOutcome::Responded(status) && 200 <= status < 300),
        outcome matches SendOutcome::Responded(status) ==> !(200 <= status < 300) ==> (
        r matches Err(e) && e.failure == SendFailure::Status(status)),
        outcome is TimedOut ==> (r matches Err(e) && e.failure is Timeout),
        outcome is TransportFailed ==> (r matches Err(e) && e.failure is Transport),
{
    match outcome {
        SendOutcome::Responded(status) => {
            if 200 <= status && status < 300 {
                Ok(())
            } else {
                Err(DeliveryError { failure: SendFailure::Status(status) })
            }
        },
        SendOutcome::TimedOut => Err(DeliveryError { failure: SendFailure::Timeout }),
        SendOutcome::TransportFailed => Err(DeliveryError { failure: SendFailure::Transport }),
    }
}

/// The client of the transactional-email provider: immutable after
/// construction, so concurrent sends need no coordination.
pub struct EmailClient {
    sender: SubscriberEmail,
    base_url: String,
    authorization_token: String,
}

impl EmailClient {
    /// The configured sender address.
    pub closed spec fn spec_sender(&self) -> Seq<char> {
        self.sender@
    }

    /// The configured base URL of the provider.
    pub closed spec fn spec_base_url(&self) -> Seq<char> {
        self.base_url@
    }

    /// The configured authorization token.
    pub closed spec fn spec_token(&self) -> Seq<char> {
        self.authorization_token@
    }

    /// Build a client for the provider under `base_url`, sending as
    /// `sender` and authorizing with `authorization_token`.
    pub fn new(base_url: &str, sender: SubscriberEmail, authorization_token: &str) -> (r:
        EmailClient)
        ensures
            r.spec_sender() == sender@,
            r.spec_base_url() == base_url@,
            r.spec_token() == authorization_token@,
    {
        EmailClient {
            base_url: String::from_str(base_url),
            sender,
            authorization_token: String::from_str(authorization_token),
        }
    }

    /// The one request a send issues: a POST of the five required fields to
    /// the `/email` endpoint, authorized with the provider's fixed header.
    pub fn send_email_request(
        &self,
        recipient: SubscriberEmail,
        subject: &str,
        html_content: &str,
        text_content: &str,
    ) -> (r: EmailRequest)
        ensures
            r.url@ == send_endpoint(self.spec_base_url()),
            r.header_name@ == "X-Postmark-Server-Token"@,
            r.header_value@ == self.spec_token(),
            r.body@ == email_body_json(
                self.spec_sender(),
                recipient@,
                subject@,
                html_content@,
                text_content@,
            ),
    {
        let mut body = String::new();
        body.append("{\"From\":\"");
        append_json_escaped(&mut body, self.sender.as_ref());
        body.append("\",\"To\":\"");
        append_json_escaped(&mut body, recipient.as_ref());
        body.append("\",\"Subject\":\"");
        append_json_escaped(&mut body, subject);
        body.append("\",\"HtmlBody\":\"");
        append_json_escaped(&mut body, html_content);
        body.append("\",\"TextBody\":\"");
        append_json_escaped(&mut body, text_content);
        body.append("\"}");
        assert(body@ =~= email_body_json(
            self.spec_sender(),
            recipient@,
            subject@,
            html_content@,
            text_content@,
        ));
        EmailRequest {
            url: endpoint_url(self.base_url.as_str()),
            header_name: String::from_str("X-Postmark-Server-Token"),
            header_value: self.authorization_token.clone(),
            body,
        }
    }
}

} // verus!
