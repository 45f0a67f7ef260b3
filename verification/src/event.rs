//! Click telemetry: the event record, its JSON serialization, and the
//! best-effort publisher that hands events to the message bus.

use crate::text::push_char;
use vstd::prelude::*;
use vstd::string::{StrSliceExecFns, StringExecFns};

verus! {

/// A click-telemetry record: the short code that was resolved and the
/// request metadata that came with it.
pub struct ClickEvent {
    pub short_url: String,
    pub ip_address: Option<String>,
    pub user_agent: Option<String>,
    pub referer: Option<String>,
}

/// The lowercase hexadecimal digit for a value below 16.
pub open spec fn hex_digit(n: int) -> char {
    if n == 0 {
        '0'
    } else if n == 1 {
        '1'
    } else if n == 2 {
        '2'
    } else if n == 3 {
        '3'
    } else if n == 4 {
        '4'
    } else if n == 5 {
        '5'
    } else if n == 6 {
        '6'
    } else if n == 7 {
        '7'
    } else if n == 8 {
        '8'
    } else if n == 9 {
        '9'
    } else if n == 10 {
        'a'
    } else if n == 11 {
        'b'
    } else if n == 12 {
        'c'
    } else if n == 13 {
        'd'
    } else if n == 14 {
        'e'
    } else {
        'f'
    }
}

/// How one character appears inside a JSON string value: quote and
/// backslash get a backslash escape, the five short control escapes are
/// used where they exist, any other control character becomes `\u00XX`,
/// and everything else stands as itself.
pub open spec fn escape_char(c: char) -> Seq<char> {
    if c == '"' {
        seq!['\\', '"']
    } else if c == '\\' {
        seq!['\\', '\\']
    } else if c == '\u{8}' {
        seq!['\\', 'b']
    } else if c == '\t' {
        seq!['\\', 't']
    } else if c == '\n' {
        seq!['\\', 'n']
    } else if c == '\u{c}' {
        seq!['\\', 'f']
    } else if c == '\r' {
        seq!['\\', 'r']
    } else if c <= '\u{1f}' {
        seq!['\\', 'u', '0', '0', hex_digit(c as int / 16), hex_digit(c as int % 16)]
    } else {
        seq![c]
    }
}

/// A character sequence with every character escaped for JSON.
pub open spec fn json_escaped(s: Seq<char>) -> Seq<char>
    decreases s.len(),
{
    if s.len() == 0 {
        Seq::empty()
    } else {
        escape_char(s[0]) + json_escaped(s.drop_first())
    }
}

/// A JSON string value: the escaped characters between double quotes.
pub open spec fn json_quote(s: Seq<char>) -> Seq<char> {
    "\""@ + json_escaped(s) + "\""@
}

/// An optional JSON string value: `null` when absent.
pub open spec fn json_opt_string(o: Option<Seq<char>>) -> Seq<char> {
    match o {
        Option::Some(s) => json_quote(s),
        Option::None => "null"@,
    }
}

/// The character sequences of an optional string.
pub open spec fn opt_view(o: Option<String>) -> Option<Seq<char>> {
    match o {
        Option::Some(s) => Option::Some(s@),
        Option::None => Option::None,
    }
}

/// The JSON object a click record with these fields serializes to,
/// fields in declaration order, absent options as `null`.
pub open spec fn click_json(
    short_url: Seq<char>,
    ip_address: Option<Seq<char>>,
    user_agent: Option<Seq<char>>,
    referer: Option<Seq<char>>,
) -> Seq<char> {
    "{\"short_url\":"@ + json_quote(short_url) + ",\"ip_address\":"@ + json_opt_string(ip_address)
        + ",\"user_agent\":"@ + json_opt_string(user_agent) + ",\"referer\":"@ + json_opt_string(
        referer,
    ) + "}"@
}

/// The JSON object a click event serializes to.
pub open spec fn click_event_json(e: ClickEvent) -> Seq<char> {
    click_json(e.short_url@, opt_view(e.ip_address), opt_view(e.user_agent), opt_view(e.referer))
}

proof fn lemma_json_escaped_concat(a: Seq<char>, b: Seq<char>)
    ensures
        json_escaped(a + b) == json_escaped(a) + json_escaped(b),
    decreases a.len(),
{
    if a.len() == 0 {
        assert(a + b =~= b);
        assert(json_escaped(a) + json_escaped(b) =~= json_escaped(b));
    } else {
        assert((a + b).drop_first() =~= a.drop_first() + b);
        lemma_json_escaped_concat(a.drop_first(), b);
        assert((a + b)[0] == a[0]);
        assert(escape_char(a[0]) + (json_escaped(a.drop_first()) + json_escaped(b)) =~= (
        escape_char(a[0]) + json_escaped(a.drop_first())) + json_escaped(b));
    }
}

proof fn lemma_json_escaped_step(s: Seq<char>, i: int)
    requires
        0 <= i < s.len(),
    ensures
        json_escaped(s.take(i + 1)) == json_escaped(s.take(i)) + escape_char(s[i]),
{
    let one = seq![s[i]];
    assert(s.take(i + 1) =~= s.take(i) + one);
    lemma_json_escaped_concat(s.take(i), one);
    assert(one.drop_first() =~= Seq::<char>::empty());
    assert(json_escaped(one) == escape_char(one[0]) + json_escaped(one.drop_first()));
    assert(json_escaped(one.drop_first()) =~= Seq::<char>::empty());
    assert(escape_char(s[i]) + Seq::<char>::empty() =~= escape_char(s[i]));
    assert(json_escaped(one) =~= escape_char(s[i]));
}

fn hex_char(n: u32) -> (r: char)
    requires
        n < 16,
    ensures
        r == hex_digit(n as int),
{
    if n == 0 {
        '0'
    } else if n == 1 {
        '1'
    } else if n == 2 {
        '2'
    } else if n == 3 {
        '3'
    } else if n == 4 {
        '4'
    } else if n == 5 {
        '5'
    } else if n == 6 {
        '6'
    } else if n == 7 {
        '7'
    } else if n == 8 {
        '8'
    } else if n == 9 {
        '9'
    } else if n == 10 {
        'a'
    } else if n == 11 {
        'b'
    } else if n == 12 {
        'c'
    } else if n == 13 {
        'd'
    } else if n == 14 {
        'e'
    } else {
        'f'
    }
}

fn append_escaped(out: &mut String, s: &str)
    ensures
        final(out)@ == old(out)@ + json_escaped(s@),
{
    let n = s.unicode_len();
    let mut i: usize = 0;
    while i < n
        invariant
            i <= n,
            n == s@.len(),
            out@ == old(out)@ + json_escaped(s@.take(i as int)),
        decreases n - i,
    {
        let c = s.get_char(i);
        proof {
            lemma_json_escaped_step(s@, i as int);
        }
        if c == '"' {
            push_char(out, '\\');
            push_char(out, '"');
        } else if c == '\\' {
            push_char(out, '\\');
            push_char(out, '\\');
        } else if c == '\u{8}' {
            push_char(out, '\\');
            push_char(out, 'b');
        } else if c == '\t' {
            push_char(out, '\\');
            push_char(out, 't');
        } else if c == '\n' {
            push_char(out, '\\');
            push_char(out, 'n');
        } else if c == '\u{c}' {
            push_char(out, '\\');
            push_char(out, 'f');
        } else if c == '\r' {
            push_char(out, '\\');
            push_char(out, 'r');
        } else if c <= '\u{1f}' {
            push_char(out, '\\');
            push_char(out, 'u');
            push_char(out, '0');
            push_char(out, '0');
            let hi = (c as u32) / 16;
            let lo = (c as u32) % 16;
            push_char(out, hex_char(hi));
            push_char(out, hex_char(lo));
        } else {
            push_char(out, c);
        }
        proof {
            assert(out@ =~= old(out)@ + json_escaped(s@.take(i as int + 1)));
        }
        i = i + 1;
    }
    proof {
        assert(s@.take(n as int) =~= s@);
    }
}

fn append_json_string(out: &mut String, s: &str)
    ensures
        final(out)@ == old(out)@ + json_quote(s@),
{
    out.append("\"");
    append_escaped(out, s);
    out.append("\"");
    proof {
        assert(out@ =~= old(out)@ + json_quote(s@));
    }
}

fn append_json_opt(out: &mut String, o: &Option<String>)
    ensures
        final(out)@ == old(out)@ + json_opt_string(opt_view(*o)),
{
    match o {
        Option::Some(s) => {
            append_json_string(out, s.as_str());
        },
        Option::None => {
            out.append("null");
        },
    }
}

impl ClickEvent {
    /// Serializes the event as the JSON object its consumers parse:
    /// string fields quoted and escaped, absent options as `null`.
    pub fn to_json(&self) -> (r: String)
        ensures
            r@ == click_event_json(*self),
    {
        let mut out = String::new();
        out.append("{\"short_url\":");
        append_json_string(&mut out, self.short_url.as_str());
        out.append(",\"ip_address\":");
        append_json_opt(&mut out, &self.ip_address);
        out.append(",\"user_agent\":");
        append_json_opt(&mut out, &self.user_agent);
        out.append(",\"referer\":");
        append_json_opt(&mut out, &self.referer);
        out.append("}");
        proof {
            assert(out@ =~= click_event_json(*self));
        }
        out
    }
}

/// Best-effort publisher of click events. The model keeps the sequence of
/// (key, payload) pairs handed to the message bus, keyed by short code;
/// delivery beyond that point is the bus's affair.
pub struct EventPublisher {
    pub published: Vec<(String, String)>,
}

impl EventPublisher {
    /// The (key, payload) pairs published so far, oldest first.
    pub open spec fn log(&self) -> Seq<(Seq<char>, Seq<char>)> {
        self.published@.map_values(|p: (String, String)| (p.0@, p.1@))
    }

    pub fn new() -> (r: Self)
        ensures
            r.log() == Seq::<(Seq<char>, Seq<char>)>::empty(),
    {
        let r = EventPublisher { published: Vec::new() };
        proof {
            assert(r.log() =~= Seq::<(Seq<char>, Seq<char>)>::empty());
        }
        r
    }

    /// Serializes the event and appends it to the log, keyed by its code.
    pub fn publish(&mut self, event: &ClickEvent)
        ensures
            final(self).log() == old(self).log().push(
                (event.short_url@, click_event_json(*event)),
            ),
    {
        let payload = event.to_json();
        let key = event.short_url.clone();
        self.published.push((key, payload));
        proof {
            assert(final(self).log() =~= old(self).log().push(
                (event.short_url@, click_event_json(*event)),
            ));
        }
    }

    /// How many events have been published.
    pub fn count(&self) -> (n: usize)
        ensures
            n == self.log().len(),
    {
        self.published.len()
    }
}

} // verus!
