//! The talk fetched over HTTP: its request path, the status check, the error snippet, and the
//! conversion of the server's talk into the talk data the display uses.
use vstd::prelude::*;

use crate::state::{TalkData, TalkModel};
use crate::text::{char_is_whitespace, is_whitespace};
use vstd::utf8::{decode_utf8, valid_utf8};

verus! {

/// The talk as the server sends it.
#[derive(Debug, Clone)]
pub struct Talk {
    pub title: String,
    pub titles: Vec<String>,
    pub step_counts: Vec<usize>,
}

/// The step counts padded with zeros, or cut, to `n` entries.
pub open spec fn resized_counts(counts: Seq<usize>, n: nat) -> Seq<usize> {
    Seq::new(n, |i: int| if i < counts.len() { counts[i] } else { 0 })
}

/// The talk data of a talk: its title and slide titles, and one step count per slide (zero
/// where the server sent none).
pub open spec fn talk_data_spec(title: Seq<char>, titles: Seq<Seq<char>>, counts: Seq<usize>) -> TalkModel {
    TalkModel {
        title,
        slides: titles,
        step_counts: resized_counts(counts, titles.len()),
    }
}

/// Converts the server's talk into talk data.
pub fn talk_data_from(talk: Talk) -> (data: TalkData)
    ensures
        data@ == talk_data_spec(
            talk.title@,
            crate::text::string_views(talk.titles@),
            talk.step_counts@,
        ),
        data.title@ == talk.title@,
        data@.slides == crate::text::string_views(talk.titles@),
        data@.step_counts.len() == talk.titles@.len(),
{
    let Talk { title, titles, step_counts } = talk;
    let ghost old_counts = step_counts@;
    let mut counts = step_counts;
    let n = titles.len();
    counts.resize(n, 0);
    proof {
        let expected = resized_counts(old_counts, n as nat);
        if n > old_counts.len() {
            assert forall|i: int| old_counts.len() <= i < n implies counts@[i] == 0 by {
                assert(cloned::<usize>(0, counts@[i]));
            }
            assert forall|i: int| 0 <= i < old_counts.len() implies counts@[i] == old_counts[i] by {
                assert(counts@.subrange(0, old_counts.len() as int)[i] == counts@[i]);
            }
        }
        assert(counts@ =~= expected);
    }
    let data = TalkData::new(title, titles, counts);
    assert(data@.slides =~= crate::text::string_views(data.slides@));
    data
}

/// Talk data made from a talk has one step count per slide: the server's count where it sent
/// one, zero elsewhere.
pub proof fn lemma_one_step_count_per_slide(
    title: Seq<char>,
    titles: Seq<Seq<char>>,
    counts: Seq<usize>,
)
    ensures
        ({
            let data = talk_data_spec(title, titles, counts);
            &&& data.step_counts.len() == data.slides.len()
            &&& forall|i: int|
                0 <= i < titles.len() ==> #[trigger] data.step_count(i) == if i < counts.len() {
                    counts[i]
                } else {
                    0
                }
        }),
{
}

/// Talk data made from a talk keeps the talk: its title, and its slide titles in order, one slide
/// per title.
pub proof fn lemma_talk_data_keeps_the_talk(
    title: Seq<char>,
    titles: Seq<Seq<char>>,
    counts: Seq<usize>,
)
    ensures
        talk_data_spec(title, titles, counts).title == title,
        talk_data_spec(title, titles, counts).slides == titles,
        forall|i: int|
            0 <= i < titles.len() ==> #[trigger] talk_data_spec(title, titles, counts).slide(i)
                == Some(titles[i]),
{
}

/// `s` without its leading and trailing whitespace.
pub open spec fn trim_spec(s: Seq<char>) -> Seq<char>
    decreases s.len(),
{
    if s.len() == 0 {
        s
    } else if char_is_whitespace(s[0]) {
        trim_spec(s.drop_first())
    } else if char_is_whitespace(s.last()) {
        trim_spec(s.drop_last())
    } else {
        s
    }
}

/// The longest number of characters a snippet keeps.
pub const SNIPPET_MAX: usize = 80;

/// A response body cut down to what the screen can carry: trimmed, at most its first
/// [`SNIPPET_MAX`] characters followed by an ellipsis, or a marker for an empty body.
pub open spec fn snippet_spec(body: Seq<char>) -> Seq<char> {
    let trimmed = trim_spec(body);
    if trimmed.len() == 0 {
        "<empty body>"@
    } else if trimmed.len() > SNIPPET_MAX {
        trimmed.take(SNIPPET_MAX as int) + "..."@
    } else {
        trimmed
    }
}

/// The characters of `s`.
fn chars_of(s: &str) -> (chars: Vec<char>)
    ensures
        chars@ == s@,
{
    broadcast use vstd::string::group_string_axioms;

    let mut out: Vec<char> = Vec::new();
    let mut it = s.chars();
    let ghost mut i: int = 0;
    loop
        invariant
            0 <= i <= s@.len(),
            vstd::std_specs::iter::IteratorSpec::remaining(&it) == s@.skip(i),
            out@ == s@.take(i),
        ensures
            out@ == s@,
        decreases s@.len() - i,
    {
        match it.next() {
            Some(c) => {
                out.push(c);
                proof {
                    assert(s@.skip(i).drop_first() =~= s@.skip(i + 1));
                    assert(s@.take(i + 1) =~= s@.take(i).push(c));
                    i = i + 1;
                }
            },
            None => {
                assert(s@.take(i) =~= s@);
                break;
            },
        }
    }
    out
}

/// The bounds `[start, end)` of `s` without its leading and trailing whitespace.
proof fn lemma_trim_bounds(s: Seq<char>, start: int, end: int)
    requires
        0 <= start <= end <= s.len(),
        forall|i: int| 0 <= i < start ==> char_is_whitespace(#[trigger] s[i]),
        forall|i: int| end <= i < s.len() ==> char_is_whitespace(#[trigger] s[i]),
        start < end ==> !char_is_whitespace(s[start]) && !char_is_whitespace(s[end - 1]),
    ensures
        trim_spec(s) == s.subrange(start, end),
    decreases s.len(),
{
    if s.len() == 0 {
        assert(s.subrange(start, end) =~= s);
    } else if char_is_whitespace(s[0]) {
        if start == 0 {
            // the whole text is whitespace
            assert(end == 0);
            let t = s.drop_first();
            assert forall|i: int| 0 <= i < t.len() implies char_is_whitespace(#[trigger] t[i]) by {
                assert(t[i] == s[i + 1]);
            }
            lemma_trim_bounds(t, 0, 0);
            assert(s.subrange(0, 0) =~= t.subrange(0, 0));
        } else {
            let t = s.drop_first();
            assert forall|i: int| 0 <= i < start - 1 implies char_is_whitespace(#[trigger] t[i]) by {
                assert(t[i] == s[i + 1]);
            }
            assert forall|i: int| end - 1 <= i < t.len() implies char_is_whitespace(#[trigger] t[i]) by {
                assert(t[i] == s[i + 1]);
            }
            lemma_trim_bounds(t, start - 1, end - 1);
            assert(t.subrange(start - 1, end - 1) =~= s.subrange(start, end));
        }
    } else if char_is_whitespace(s.last()) {
        assert(start == 0);
        assert(end < s.len());
        let t = s.drop_last();
        assert forall|i: int| end <= i < t.len() implies char_is_whitespace(#[trigger] t[i]) by {
            assert(t[i] == s[i]);
        }
        if start < end {
            assert(t[end - 1] == s[end - 1]);
        }
        lemma_trim_bounds(t, start, end);
        assert(t.subrange(start, end) =~= s.subrange(start, end));
    } else {
        assert(start == 0);
        assert(end == s.len());
        assert(s.subrange(0, s.len() as int) =~= s);
    }
}

/// `s` without its leading and trailing whitespace.
pub fn trim(s: &str) -> (trimmed: &str)
    ensures
        trimmed@ == trim_spec(s@),
{
    let chars = chars_of(s);
    let n = chars.len();
    let mut start: usize = 0;
    while start < n && is_whitespace(chars[start])
        invariant
            0 <= start <= n,
            n == s@.len(),
            chars@ == s@,
            forall|i: int| 0 <= i < start ==> char_is_whitespace(#[trigger] s@[i]),
        decreases n - start,
    {
        start = start + 1;
    }
    let mut end: usize = n;
    while end > start && is_whitespace(chars[end - 1])
        invariant
            start <= end <= n,
            n == s@.len(),
            chars@ == s@,
            forall|i: int| end <= i < n ==> char_is_whitespace(#[trigger] s@[i]),
        decreases end - start,
    {
        end = end - 1;
    }
    proof {
        if start < end {
            assert(!char_is_whitespace(s@[end - 1]));
            assert(start < n);
        }
        lemma_trim_bounds(s@, start as int, end as int);
    }
    s.substring_char(start, end)
}

/// A response body cut down to what the screen can carry.
pub fn snippet(body: &str) -> (text: String)
    ensures
        text@ == snippet_spec(body@),
{
    let trimmed = trim(body);
    let count = trimmed.unicode_len();
    if count == 0 {
        return String::from_str("<empty body>");
    }
    if count > SNIPPET_MAX {
        let mut text = String::from_str(trimmed.substring_char(0, SNIPPET_MAX));
        text.append("...");
        text
    } else {
        String::from_str(trimmed)
    }
}

/// `s` without its trailing slashes.
pub open spec fn trim_trailing_slashes(s: Seq<char>) -> Seq<char>
    decreases s.len(),
{
    if s.len() > 0 && s.last() == '/' {
        trim_trailing_slashes(s.drop_last())
    } else {
        s
    }
}

/// The path of the talk on the server at `base_url`.
pub open spec fn talk_uri_spec(base_url: Seq<char>) -> Seq<char> {
    trim_trailing_slashes(base_url) + "/api/talk"@
}

/// The URI of the talk on the server at `base_url` (trailing slashes of the base are dropped).
pub fn talk_uri(base_url: &str) -> (uri: String)
    ensures
        uri@ == talk_uri_spec(base_url@),
{
    let chars = chars_of(base_url);
    let mut end: usize = chars.len();
    assert(base_url@.take(end as int) =~= base_url@);
    while end > 0 && chars[end - 1] == '/'
        invariant
            end <= chars@.len(),
            chars@ == base_url@,
            trim_trailing_slashes(base_url@) == trim_trailing_slashes(base_url@.take(end as int)),
        decreases end,
    {
        proof {
            let t = base_url@.take(end as int);
            assert(t.drop_last() =~= base_url@.take(end - 1));
        }
        end = end - 1;
    }
    proof {
        let t = base_url@.take(end as int);
        assert(t.len() == 0 || t.last() != '/');
        assert(base_url@.subrange(0, end as int) =~= t);
    }
    let mut uri = String::from_str(base_url.substring_char(0, end));
    uri.append("/api/talk");
    uri
}

/// Dropping trailing slashes keeps a prefix that ends in no slash and drops slashes only.
proof fn lemma_trailing_slashes(b: Seq<char>)
    ensures
        ({
            let r = trim_trailing_slashes(b);
            &&& r.len() <= b.len()
            &&& r == b.take(r.len() as int)
            &&& (r.len() == 0 || r.last() != '/')
            &&& forall|i: int| r.len() <= i < b.len() ==> b[i] == '/'
        }),
    decreases b.len(),
{
    if b.len() > 0 && b.last() == '/' {
        let p = b.drop_last();
        lemma_trailing_slashes(p);
        let r = trim_trailing_slashes(p);
        assert(b.take(r.len() as int) =~= p.take(r.len() as int));
        assert forall|i: int| r.len() <= i < b.len() implies b[i] == '/' by {
            if i < p.len() {
                assert(b[i] == p[i]);
            }
        }
    } else {
        assert(b.take(b.len() as int) =~= b);
    }
}

/// The talk's URI is the base URL without its trailing slashes, then `/api/talk`: what is dropped
/// from the base is slashes only, and what is kept does not end in a slash.
pub proof fn lemma_talk_uri_appends_the_path(base: Seq<char>)
    ensures
        ({
            let uri = talk_uri_spec(base);
            let n = uri.len() - 9;
            &&& n >= 0
            &&& uri.skip(n) == "/api/talk"@
            &&& n <= base.len()
            &&& uri.take(n) == base.take(n)
            &&& (n == 0 || base[n - 1] != '/')
            &&& forall|i: int| n <= i < base.len() ==> base[i] == '/'
        }),
{
    reveal_strlit("/api/talk");
    lemma_trailing_slashes(base);
    let r = trim_trailing_slashes(base);
    let uri = talk_uri_spec(base);
    assert(uri.len() == r.len() + 9);
    assert(uri.skip(r.len() as int) =~= "/api/talk"@);
    assert(uri.take(r.len() as int) =~= r);
    if r.len() > 0 {
        assert(r.last() == base[r.len() - 1]);
    }
}

/// Trimming drops whitespace at either end and nothing else: a text that starts and ends with a
/// visible character is kept whole, and whitespace added before or after a text is dropped.
pub proof fn lemma_trim_drops_surrounding_whitespace(s: Seq<char>, c: char)
    ensures
        s.len() > 0 && !char_is_whitespace(s[0]) && !char_is_whitespace(s.last()) ==> trim_spec(s)
            == s,
        char_is_whitespace(c) ==> trim_spec(seq![c] + s) == trim_spec(s),
        char_is_whitespace(c) ==> trim_spec(s.push(c)) == trim_spec(s),
{
    if char_is_whitespace(c) {
        let t = seq![c] + s;
        assert(t[0] == c);
        assert(t.drop_first() =~= s);
        lemma_trim_push_whitespace(s, c);
    }
}

/// Trimming a text with whitespace appended trims the text.
proof fn lemma_trim_push_whitespace(s: Seq<char>, c: char)
    requires
        char_is_whitespace(c),
    ensures
        trim_spec(s.push(c)) == trim_spec(s),
    decreases s.len(),
{
    let t = s.push(c);
    assert(t.last() == c);
    assert(t.drop_last() =~= s);
    if s.len() > 0 && char_is_whitespace(s[0]) {
        assert(t[0] == s[0]);
        assert(t.drop_first() =~= s.drop_first().push(c));
        lemma_trim_push_whitespace(s.drop_first(), c);
    } else if s.len() > 0 {
        assert(t[0] == s[0]);
    } else {
        assert(t =~= seq![c]);
        assert(t.drop_first() =~= s);
    }
}

/// A snippet is the trimmed body, cut to its first eighty characters with an ellipsis when longer,
/// or the empty-body marker when nothing is left.
pub proof fn lemma_snippet_of_a_body(body: Seq<char>)
    ensures
        trim_spec(body).len() == 0 ==> snippet_spec(body) == "<empty body>"@,
        0 < trim_spec(body).len() <= 80 ==> snippet_spec(body) == trim_spec(body),
        trim_spec(body).len() > 80 ==> snippet_spec(body) == trim_spec(body).take(80) + "..."@,
{
}

/// Whether an HTTP status reports success.
pub open spec fn status_ok(status: u16) -> bool {
    200 <= status < 300
}

/// The error of a failed request: the status and a snippet of the body.
pub open spec fn status_error_spec(status: u16, body: Seq<char>) -> Seq<char> {
    "HTTP "@ + crate::text::decimal(status as nat) + ": "@ + snippet_spec(body)
}

/// Checks the status of the talk response: `Err` carries the message of a status outside
/// `200..300`.
pub fn check_status(status: u16, body: &str) -> (result: Result<(), String>)
    ensures
        status_ok(status) <==> result is Ok,
        result matches Err(message) ==> message@ == status_error_spec(status, body@),
{
    if 200 <= status && status < 300 {
        Ok(())
    } else {
        let mut message = String::from_str("HTTP ");
        crate::text::push_decimal(&mut message, status as usize);
        message.append(": ");
        let tail = snippet(body);
        message.append(tail.as_str());
        Err(message)
    }
}


/// The text `String::from_utf8_lossy` makes of `bytes`: invalid sequences become U+FFFD.
pub uninterp spec fn utf8_lossy(bytes: Seq<u8>) -> Seq<char>;

/// Decodes bytes as UTF-8, replacing invalid sequences.
///
/// Calls `String::from_utf8_lossy`, whose result is named by [`utf8_lossy`]; as its
/// documentation says, valid UTF-8 is decoded unchanged.
#[verifier::external_body]
fn decode_lossy(bytes: &[u8]) -> (text: String)
    ensures
        text@ == utf8_lossy(bytes@),
        valid_utf8(bytes@) ==> text@ == decode_utf8(bytes@),
{
    String::from_utf8_lossy(bytes).into_owned()
}

/// The body of a talk response as text, or the error of a status outside `200..300`.
pub fn response_body(status: u16, body: &[u8]) -> (result: Result<String, String>)
    ensures
        status_ok(status) <==> result is Ok,
        result matches Ok(text) ==> text@ == utf8_lossy(body@),
        result matches Err(message) ==> message@ == status_error_spec(status, utf8_lossy(body@)),
        valid_utf8(body@) ==> (result matches Ok(text) ==> text@ == decode_utf8(body@)),
{
    let text = decode_lossy(body);
    match check_status(status, text.as_str()) {
        Ok(()) => Ok(text),
        Err(message) => Err(message),
    }
}

/// The value of a sequence of decimal digits.
pub open spec fn digits_value(digits: Seq<char>) -> nat
    decreases digits.len(),
{
    if digits.len() == 0 {
        0
    } else {
        digits_value(digits.drop_last()) * 10 + ((digits.last() as u32) - 48) as nat
    }
}

/// Whether every character of `digits` is an ASCII decimal digit.
pub open spec fn all_digits(digits: Seq<char>) -> bool {
    forall|i: int| 0 <= i < digits.len() ==> '0' <= #[trigger] digits[i] <= '9'
}

/// The port number written in `text`, as `u16::from_str` reads it: an optional `+`, then one
/// or more decimal digits, of value at most 65535.
pub open spec fn port_spec(text: Seq<char>) -> Option<u16> {
    let digits = if text.len() > 0 && text[0] == '+' { text.drop_first() } else { text };
    if digits.len() > 0 && all_digits(digits) && digits_value(digits) <= u16::MAX {
        Some(digits_value(digits) as u16)
    } else {
        None
    }
}

/// Reads the server port from its configured text; `Err` says it is not a port number.
pub fn parse_port(text: &str) -> (port: Result<u16, String>)
    ensures
        port matches Ok(p) ==> port_spec(text@) == Some(p),
        port is Err ==> port_spec(text@) is None,
        port matches Err(message) ==> message@ == "Expected a numeric port"@,
{
    let chars = chars_of(text);
    let start: usize = if chars.len() > 0 && chars[0] == '+' { 1 } else { 0 };
    let ghost digits = if text@.len() > 0 && text@[0] == '+' { text@.drop_first() } else { text@ };
    assert(digits =~= text@.subrange(start as int, text@.len() as int));
    if start >= chars.len() {
        return Err(String::from_str("Expected a numeric port"));
    }
    let mut value: u32 = 0;
    let mut i: usize = start;
    while i < chars.len()
        invariant
            start <= i <= chars@.len(),
            chars@ == text@,
            digits == text@.subrange(start as int, text@.len() as int),
            digits == (if text@.len() > 0 && text@[0] == '+' {
                text@.drop_first()
            } else {
                text@
            }),
            digits.len() > 0,
            all_digits(text@.subrange(start as int, i as int)),
            value == digits_value(text@.subrange(start as int, i as int)),
            value <= u16::MAX,
        decreases chars@.len() - i,
    {
        let c = chars[i];
        let ghost prefix = text@.subrange(start as int, i as int);
        let ghost next = text@.subrange(start as int, i + 1);
        assert(next.drop_last() =~= prefix);
        assert(next.last() == c);
        if !('0' <= c && c <= '9') {
            proof {
                assert(digits[i - start] == c);
                assert(!('0' <= digits[i - start] <= '9'));
                assert(!all_digits(digits));
            }
            return Err(String::from_str("Expected a numeric port"));
        }
        let d = (c as u32) - 48;
        let next_value = value * 10 + d;
        assert(all_digits(next)) by {
            assert forall|k: int| 0 <= k < next.len() implies '0' <= #[trigger] next[k] <= '9' by {
                if k < prefix.len() {
                    assert(next[k] == prefix[k]);
                }
            }
        }
        if next_value > 65535 {
            proof {
                if all_digits(digits) {
                    assert(digits.subrange(0, i + 1 - start) =~= next);
                    lemma_digits_value_grows(digits, (i + 1 - start) as int);
                }
            }
            return Err(String::from_str("Expected a numeric port"));
        }
        value = next_value;
        i = i + 1;
    }
    assert(text@.subrange(start as int, i as int) =~= digits);
    Ok(value as u16)
}

/// The decimal representation of a number is a run of digits whose value is the number.
pub proof fn lemma_decimal_digits(n: nat)
    ensures
        crate::text::decimal(n).len() > 0,
        all_digits(crate::text::decimal(n)),
        digits_value(crate::text::decimal(n)) == n,
    decreases n,
{
    let d = crate::text::decimal(n);
    lemma_digit_code(n % 10);
    if n < 10 {
        assert(d == seq![crate::text::digit_char(n)]);
        assert(d.drop_last() =~= Seq::<char>::empty());
        assert(n % 10 == n);
        assert(d.last() == crate::text::digit_char(n));
        assert(digits_value(d) == digits_value(d.drop_last()) * 10 + ((d.last() as u32) - 48) as nat);
    } else {
        lemma_decimal_digits(n / 10);
        let prev = crate::text::decimal(n / 10);
        assert(d.drop_last() =~= prev);
        assert(d.last() == crate::text::digit_char(n % 10));
        assert((n / 10) * 10 + n % 10 == n) by (nonlinear_arith);
        assert forall|i: int| 0 <= i < d.len() implies '0' <= #[trigger] d[i] <= '9' by {
            if i < prev.len() {
                assert(d[i] == prev[i]);
            }
        }
    }
}

/// A decimal digit character has the code of `'0'` plus its value.
proof fn lemma_digit_code(d: nat)
    requires
        d < 10,
    ensures
        crate::text::digit_char(d) as u32 == 48 + d,
        '0' <= crate::text::digit_char(d) <= '9',
{
}

/// A port written in decimal reads back as the same port.
pub proof fn lemma_port_round_trip(port: u16)
    ensures
        port_spec(crate::text::decimal(port as nat)) == Some(port),
{
    lemma_decimal_digits(port as nat);
    let d = crate::text::decimal(port as nat);
    assert(d[0] != '+');
}

/// The value of a run of digits is at least the value of any of its prefixes.
proof fn lemma_digits_value_grows(digits: Seq<char>, k: int)
    requires
        0 <= k <= digits.len(),
        all_digits(digits),
    ensures
        digits_value(digits.subrange(0, k)) <= digits_value(digits),
    decreases digits.len() - k,
{
    if k < digits.len() {
        lemma_digits_value_grows(digits, k + 1);
        let next = digits.subrange(0, k + 1);
        assert(next.drop_last() =~= digits.subrange(0, k));
        assert(next.last() == digits[k]);
    } else {
        assert(digits.subrange(0, k) =~= digits);
    }
}

} // verus!
