//! SMS alerts on contract events: which events are sent, to whom, the text of
//! the message, and how Twilio's answers are read.
use vstd::prelude::*;
use vstd::utf8::{decode_utf8, encode_utf8, is_ascii_chars, is_char_boundary};

use crate::text::{decimal_text, int_decimal, nat_decimal, same_text};

verus! {

/// The kind of a Soroban event.
#[derive(Clone, Copy, Debug, PartialEq, Eq, Structural)]
pub enum EventType {
    Contract,
    System,
    Diagnostic,
}

/// What an alert reads of an event.
#[derive(Debug)]
pub struct AlertEvent {
    /// The event's id (a UUID) as a 128-bit number.
    pub id: u128,
    pub contract_id: String,
    pub event_type: EventType,
    pub ledger: i64,
}

/// Twilio's answer to a message request.
#[derive(Debug)]
pub struct TwilioResponse {
    pub sid: String,
    pub status: String,
    pub error_message: Option<String>,
}

/// Link to the page of an event, before the event's id.
pub open spec fn event_link() -> Seq<char> {
    " View: https://soroban-pulse.com/events/"@
}

/// The name of an event type.
pub open spec fn event_type_text(t: EventType) -> Seq<char> {
    match t {
        EventType::Contract => "contract"@,
        EventType::System => "system"@,
        EventType::Diagnostic => "diagnostic"@,
    }
}

/// The lower-case hexadecimal digit for `d` in `0..16`.
pub open spec fn hex_char(d: nat) -> char {
    if d < 10 {
        crate::text::digit_char(d)
    } else if d == 10 {
        'a'
    } else if d == 11 {
        'b'
    } else if d == 12 {
        'c'
    } else if d == 13 {
        'd'
    } else if d == 14 {
        'e'
    } else {
        'f'
    }
}

/// The last `n` hexadecimal digits of `v`, most significant first.
pub open spec fn hex_digits(v: nat, n: nat) -> Seq<char>
    decreases n,
{
    if n == 0 {
        Seq::<char>::empty()
    } else {
        hex_digits(v / 16, (n - 1) as nat).push(hex_char(v % 16))
    }
}

/// The hyphenated lower-case text of the UUID whose 128 bits, read big-endian,
/// are `id`: 8, 4, 4, 4 and 12 hexadecimal digits separated by `-`.
pub open spec fn uuid_text(id: u128) -> Seq<char> {
    let h = hex_digits(id as nat, 32);
    h.subrange(0, 8) + seq!['-'] + h.subrange(8, 12) + seq!['-'] + h.subrange(12, 16) + seq!['-']
        + h.subrange(16, 20) + seq!['-'] + h.subrange(20, 32)
}

/// The text of the first eight bytes of `id`.
pub open spec fn contract_prefix(id: Seq<char>) -> Seq<char> {
    decode_utf8(encode_utf8(id).subrange(0, 8))
}

/// The first eight bytes of `id` end on a character boundary, so they can be
/// cut off as text.
pub open spec fn prefix_cuttable(id: Seq<char>) -> bool {
    is_char_boundary(encode_utf8(id), 8)
}

/// Law: the contract id in a message is exactly the first eight bytes of the
/// event's contract id, and the id begins with it.
pub proof fn lemma_prefix_is_first_bytes(id: Seq<char>)
    requires
        prefix_cuttable(id),
    ensures
        encode_utf8(contract_prefix(id)) == encode_utf8(id).subrange(0, 8),
        contract_prefix(id).is_prefix_of(id),
{
    let bytes = encode_utf8(id);
    vstd::utf8::encode_utf8_valid_utf8(id);
    vstd::utf8::valid_utf8_split(bytes, 8);
    vstd::utf8::decode_utf8_encode_utf8(bytes.subrange(0, 8));
    vstd::utf8::encode_utf8_decode_utf8(id);
    vstd::utf8::decode_utf8_split(bytes, 8);
    let c = contract_prefix(id);
    assert(id =~= c + decode_utf8(bytes.subrange(8, bytes.len() as int)));
    assert(c.is_prefix_of(id)) by {
        assert(id.subrange(0, c.len() as int) =~= c);
    }
}

/// The message text before the link.
pub open spec fn alert_head(e: AlertEvent) -> Seq<char> {
    "Soroban Alert: "@ + event_type_text(e.event_type) + " event on contract "@ + contract_prefix(
        e.contract_id@,
    ) + " at ledger "@ + int_decimal(e.ledger as int)
}

/// The text of the SMS for `e`.
pub open spec fn sms_message_spec(e: AlertEvent) -> Seq<char> {
    alert_head(e) + event_link() + uuid_text(e.id)
}

/// Whether an event is critical enough to be sent.
pub open spec fn critical(e: AlertEvent) -> bool {
    e.event_type == EventType::Contract
}

/// Whether the contract filter lets events of `contract_id` through: an empty
/// filter lets every contract through.
pub open spec fn passes_filter(filter: Seq<Seq<char>>, contract_id: Seq<char>) -> bool {
    filter.len() == 0 || filter.contains(contract_id)
}

/// Law: a non-empty filter lets a contract through exactly when one of its
/// entries, at any position, is that contract.
pub proof fn lemma_filter_membership(filter: Seq<Seq<char>>, contract_id: Seq<char>)
    ensures
        passes_filter(filter, contract_id) <==> (filter.len() == 0 || exists|i: int|
            0 <= i < filter.len() && #[trigger] filter[i] == contract_id),
{
}

/// Law: an alert goes out for an event exactly when its contract is listed
/// in the filter (or the filter is empty) and it is a contract event.
pub proof fn lemma_alerted_events(filter: Seq<Seq<char>>, e: AlertEvent)
    ensures
        alerted(filter, e) <==> ((filter.len() == 0 || exists|i: int|
            0 <= i < filter.len() && #[trigger] filter[i] == e.contract_id@) && e.event_type
            == EventType::Contract),
{
    lemma_filter_membership(filter, e.contract_id@);
}

/// Whether `e` is sent, under the contract filter `filter`.
pub open spec fn alerted(filter: Seq<Seq<char>>, e: AlertEvent) -> bool {
    passes_filter(filter, e.contract_id@) && critical(e)
}

// ---------------------------------------------------------------------------
// The uuid crate
// ---------------------------------------------------------------------------

/// Formats `uuid::Uuid::from_u128(id)` with its `Display`: the hyphenated
/// lower-case form, whose digits are the bytes of `id` in big-endian order
/// (`format_hyphenated` in the uuid crate).
#[verifier::external_body]
fn uuid_hyphenated(id: u128) -> (s: String)
    ensures
        s@ == uuid_text(id),
{
    uuid::Uuid::from_u128(id).to_string()
}

// ---------------------------------------------------------------------------
// Lemmas on lengths in bytes
// ---------------------------------------------------------------------------

/// The UTF-8 encoding of a concatenation is the concatenation of the encodings.
pub proof fn lemma_encode_concat(a: Seq<char>, b: Seq<char>)
    ensures
        encode_utf8(a + b) == encode_utf8(a) + encode_utf8(b),
    decreases a.len(),
{
    if a.len() == 0 {
        assert(a + b =~= b);
    } else {
        lemma_encode_concat(a.drop_first(), b);
        assert((a + b).drop_first() =~= a.drop_first() + b);
        assert((a + b)[0] == a[0]);
    }
}

proof fn lemma_ascii_len(s: Seq<char>)
    requires
        is_ascii_chars(s),
    ensures
        encode_utf8(s).len() == s.len(),
{
    vstd::utf8::is_ascii_chars_encode_utf8(s);
}

proof fn lemma_hex_digits(v: nat, n: nat)
    ensures
        hex_digits(v, n).len() == n,
        is_ascii_chars(hex_digits(v, n)),
    decreases n,
{
    if n > 0 {
        lemma_hex_digits(v / 16, (n - 1) as nat);
    }
}

proof fn lemma_uuid_text(id: u128)
    ensures
        uuid_text(id).len() == 36,
        is_ascii_chars(uuid_text(id)),
{
    lemma_hex_digits(id as nat, 32);
}

spec fn pow10(k: nat) -> nat
    decreases k,
{
    if k == 0 {
        1
    } else {
        10 * pow10((k - 1) as nat)
    }
}

proof fn lemma_nat_decimal(n: nat, k: nat)
    requires
        k >= 1,
        n < pow10(k),
    ensures
        is_ascii_chars(nat_decimal(n)),
        nat_decimal(n).len() <= k,
    decreases n,
{
    if n >= 10 {
        let k1 = (k - 1) as nat;
        assert(k1 >= 1) by {
            if k1 == 0 {
                assert(pow10(1) == 10) by {
                    reveal_with_fuel(pow10, 2);
                }
            }
        }
        let p = pow10(k1);
        assert(n / 10 < p) by (nonlinear_arith)
            requires
                n < 10 * p,
        ;
        lemma_nat_decimal(n / 10, k1);
    }
}

proof fn lemma_int_decimal(n: i64)
    ensures
        is_ascii_chars(int_decimal(n as int)),
        int_decimal(n as int).len() <= 20,
{
    assert(pow10(19) == 10000000000000000000) by {
        reveal_with_fuel(pow10, 20);
    }
    if n < 0 {
        lemma_nat_decimal((-n) as nat, 19);
    } else {
        lemma_nat_decimal(n as nat, 19);
    }
}

proof fn lemma_event_type_text(t: EventType)
    ensures
        is_ascii_chars(event_type_text(t)),
        event_type_text(t).len() <= 10,
{
    reveal_strlit("contract");
    reveal_strlit("system");
    reveal_strlit("diagnostic");
}

/// The head of a message takes at most 83 bytes.
proof fn lemma_head_bytes(e: AlertEvent)
    requires
        prefix_cuttable(e.contract_id@),
    ensures
        encode_utf8(alert_head(e)).len() <= 83,
{
    reveal_strlit("Soroban Alert: ");
    reveal_strlit(" event on contract ");
    reveal_strlit(" at ledger ");
    let a = "Soroban Alert: "@;
    let t = event_type_text(e.event_type);
    let b = " event on contract "@;
    let bytes = encode_utf8(e.contract_id@);
    let c = contract_prefix(e.contract_id@);
    let d = " at ledger "@;
    let n = int_decimal(e.ledger as int);
    lemma_event_type_text(e.event_type);
    lemma_int_decimal(e.ledger);
    lemma_ascii_len(a);
    lemma_ascii_len(t);
    lemma_ascii_len(b);
    lemma_ascii_len(d);
    lemma_ascii_len(n);
    vstd::utf8::encode_utf8_valid_utf8(e.contract_id@);
    vstd::utf8::valid_utf8_split(bytes, 8);
    vstd::utf8::decode_utf8_encode_utf8(bytes.subrange(0, 8));
    lemma_encode_concat(a, t);
    lemma_encode_concat(a + t, b);
    lemma_encode_concat(a + t + b, c);
    lemma_encode_concat(a + t + b + c, d);
    lemma_encode_concat(a + t + b + c + d, n);
}

/// Law: an SMS message takes at most 159 bytes, one segment of 160.
pub proof fn lemma_message_fits_segment(e: AlertEvent)
    requires
        prefix_cuttable(e.contract_id@),
    ensures
        encode_utf8(sms_message_spec(e)).len() <= 159,
{
    reveal_strlit(" View: https://soroban-pulse.com/events/");
    lemma_head_bytes(e);
    lemma_uuid_text(e.id);
    lemma_ascii_len(event_link());
    lemma_ascii_len(uuid_text(e.id));
    lemma_encode_concat(alert_head(e), event_link());
    lemma_encode_concat(alert_head(e) + event_link(), uuid_text(e.id));
}

// ---------------------------------------------------------------------------
// Decisions and texts
// ---------------------------------------------------------------------------

/// The name of an event type.
pub fn event_type_name(t: EventType) -> (s: &'static str)
    ensures
        s@ == event_type_text(t),
{
    match t {
        EventType::Contract => "contract",
        EventType::System => "system",
        EventType::Diagnostic => "diagnostic",
    }
}

/// Whether an event is critical: contract events are.
pub fn is_critical_event(event: &AlertEvent) -> (b: bool)
    ensures
        b == critical(*event),
{
    match event.event_type {
        EventType::Contract => true,
        _ => false,
    }
}

/// Whether the contract filter lets events of `contract_id` through.
pub fn passes_contract_filter(filter: &Vec<String>, contract_id: &str) -> (b: bool)
    ensures
        b == passes_filter(filter.deep_view(), contract_id@),
        b == (filter@.len() == 0 || exists|i: int|
            0 <= i < filter@.len() && (#[trigger] filter@[i])@ == contract_id@),
{
    proof {
        lemma_filter_membership(filter.deep_view(), contract_id@);
        assert forall|i: int| 0 <= i < filter@.len() implies (#[trigger] filter@[i])@
            == filter.deep_view()[i] by {}
    }
    if filter.len() == 0 {
        return true;
    }
    let mut i: usize = 0;
    while i < filter.len()
        invariant
            i <= filter@.len(),
            forall|j: int| 0 <= j < i ==> filter.deep_view()[j] != contract_id@,
        decreases filter@.len() - i,
    {
        if same_text(filter[i].as_str(), contract_id) {
            assert(filter.deep_view()[i as int] == contract_id@);
            return true;
        }
        i = i + 1;
    }
    false
}

/// The text of the SMS for `event`: its type, the first eight bytes of its
/// contract id and its ledger, then a link to the event. Messages over 140
/// bytes before the link would be cut to 137 bytes and `...`; none is, as the
/// part before the link takes at most 83 bytes.
pub fn format_sms_message(event: &AlertEvent) -> (message: String)
    requires
        prefix_cuttable(event.contract_id@),
    ensures
        message@ == sms_message_spec(*event),
        encode_utf8(message@).len() <= 159,
{
    let (prefix, _) = event.contract_id.as_str().split_at(8);
    let mut base = "Soroban Alert: ".to_owned();
    base.append(event_type_name(event.event_type));
    base.append(" event on contract ");
    base.append(prefix);
    base.append(" at ledger ");
    let ledger = decimal_text(event.ledger);
    base.append(ledger.as_str());
    proof {
        vstd::utf8::encode_utf8_decode_utf8(prefix@);
        assert(prefix@ == contract_prefix(event.contract_id@));
        assert(base@ =~= alert_head(*event));
        lemma_head_bytes(*event);
    }
    let truncated = if base.as_str().len() > 140 {
        let (cut, _) = base.as_str().split_at(137);
        let mut t = cut.to_owned();
        t.append("...");
        t
    } else {
        base
    };
    let mut message = truncated;
    message.append(" View: https://soroban-pulse.com/events/");
    let id = uuid_hyphenated(event.id);
    message.append(id.as_str());
    proof {
        assert(message@ =~= sms_message_spec(*event));
        lemma_message_fits_segment(*event);
    }
    message
}

/// The messages to send for `event`: one per phone number of `to_numbers`,
/// each with the event's SMS text, when the filter lets the event's contract
/// through and the event is critical; none otherwise.
pub fn alert_messages(filter: &Vec<String>, to_numbers: &Vec<String>, event: &AlertEvent) -> (sends:
    Vec<(String, String)>)
    requires
        alerted(filter.deep_view(), *event) && to_numbers@.len() > 0 ==> prefix_cuttable(
            event.contract_id@,
        ),
    ensures
        alerted(filter.deep_view(), *event) ==> sends@.len() == to_numbers@.len() && forall|
            i: int,
        | 0 <= i < sends@.len() ==> (#[trigger] sends@[i]).0@ == to_numbers@[i]@ && sends@[i].1@
            == sms_message_spec(*event),
        !alerted(filter.deep_view(), *event) ==> sends@.len() == 0,
{
    let mut sends: Vec<(String, String)> = Vec::new();
    if !passes_contract_filter(filter, event.contract_id.as_str()) {
        return sends;
    }
    if !is_critical_event(event) {
        return sends;
    }
    let mut i: usize = 0;
    while i < to_numbers.len()
        invariant
            alerted(filter.deep_view(), *event),
            to_numbers@.len() > 0 ==> prefix_cuttable(event.contract_id@),
            i <= to_numbers@.len(),
            sends@.len() == i,
            forall|k: int|
                0 <= k < i ==> (#[trigger] sends@[k]).0@ == to_numbers@[k]@ && sends@[k].1@
                    == sms_message_spec(*event),
        decreases to_numbers@.len() - i,
    {
        let message = format_sms_message(event);
        sends.push((to_numbers[i].clone(), message));
        i = i + 1;
    }
    sends
}

/// The Twilio endpoint that creates messages for the account `account_sid`.
pub fn twilio_messages_url(account_sid: &str) -> (url: String)
    ensures
        url@ == "https://api.twilio.com/2010-04-01/Accounts/"@ + account_sid@
            + "/Messages.json"@,
{
    let mut url = "https://api.twilio.com/2010-04-01/Accounts/".to_owned();
    url.append(account_sid);
    url.append("/Messages.json");
    url
}

/// Reads a successful Twilio answer: the message's sid, unless Twilio
/// reports an error.
pub fn interpret_twilio_response(response: TwilioResponse) -> (res: Result<String, String>)
    ensures
        match response.error_message {
            Some(m) => res matches Err(e) && e@ == "Twilio API error: "@ + m@,
            None => res matches Ok(sid) && sid@ == response.sid@,
        },
{
    match response.error_message {
        Some(m) => {
            let mut e = "Twilio API error: ".to_owned();
            e.append(m.as_str());
            Err(e)
        },
        None => Ok(response.sid),
    }
}

/// The failure for an answer whose HTTP status is not a success.
pub fn twilio_status_failure(status: &str, body: &str) -> (e: String)
    ensures
        e@ == "Twilio API returned "@ + status@ + ": "@ + body@,
{
    let mut e = "Twilio API returned ".to_owned();
    e.append(status);
    e.append(": ");
    e.append(body);
    e
}

/// The failure for a request that got no answer, or an answer that could
/// not be read: what failed, a colon, and why.
pub fn twilio_failure(context: &str, detail: &str) -> (e: String)
    ensures
        e@ == context@ + ": "@ + detail@,
{
    let mut e = context.to_owned();
    e.append(": ");
    e.append(detail);
    e
}

} // verus!
