use vstd::prelude::*;
use crate::state::{FeedItem, ItemView, PersistentState, StateView};

verus! {

// ---------------------------------------------------------------------------
// The backing file holds one JSON document with exactly two fields:
//   {"feeds":["url",...],"read_later":[{"title":...,"link":...,
//    "comments":...,"description":...},...]}
// The encoder and the parser below define that document character by
// character, and the round-trip lemmas prove that parsing an encoded state
// gives back exactly the state that was written.
// ---------------------------------------------------------------------------
// ---------- escaped JSON strings ----------
/// The lower-case hexadecimal digit of a value below sixteen.
pub open spec fn hex_digit(v: int) -> char {
    if v == 0 {
        '0'
    } else if v == 1 {
        '1'
    } else if v == 2 {
        '2'
    } else if v == 3 {
        '3'
    } else if v == 4 {
        '4'
    } else if v == 5 {
        '5'
    } else if v == 6 {
        '6'
    } else if v == 7 {
        '7'
    } else if v == 8 {
        '8'
    } else if v == 9 {
        '9'
    } else if v == 10 {
        'a'
    } else if v == 11 {
        'b'
    } else if v == 12 {
        'c'
    } else if v == 13 {
        'd'
    } else if v == 14 {
        'e'
    } else {
        'f'
    }
}

/// The value of a lower-case hexadecimal digit, or -1 for any other
/// character.
pub open spec fn hex_val(c: char) -> int {
    if c == '0' {
        0
    } else if c == '1' {
        1
    } else if c == '2' {
        2
    } else if c == '3' {
        3
    } else if c == '4' {
        4
    } else if c == '5' {
        5
    } else if c == '6' {
        6
    } else if c == '7' {
        7
    } else if c == '8' {
        8
    } else if c == '9' {
        9
    } else if c == 'a' {
        10
    } else if c == 'b' {
        11
    } else if c == 'c' {
        12
    } else if c == 'd' {
        13
    } else if c == 'e' {
        14
    } else if c == 'f' {
        15
    } else {
        -1
    }
}

/// The character with code `v`, for codes below 128.
pub open spec fn code_char(v: int) -> char {
    (v as u8) as char
}

/// How one character is written inside a JSON string: the quote, the
/// backslash and the common control characters get their short escapes,
/// any other control character a \u00XX escape, and everything else
/// stands as itself.
pub open spec fn esc_char(c: char) -> Seq<char> {
    if c == '"' {
        seq!['\\', '"']
    } else if c == '\\' {
        seq!['\\', '\\']
    } else if c == '\n' {
        seq!['\\', 'n']
    } else if c == '\r' {
        seq!['\\', 'r']
    } else if c == '\t' {
        seq!['\\', 't']
    } else if (c as u32) < 32 {
        seq!['\\', 'u', '0', '0', hex_digit(c as u32 as int / 16), hex_digit(c as u32 as int % 16)]
    } else {
        seq![c]
    }
}

/// A whole string body, escaped character by character.
pub open spec fn escape(s: Seq<char>) -> Seq<char>
    decreases s.len(),
{
    if s.len() == 0 {
        Seq::empty()
    } else {
        esc_char(s[0]) + escape(s.drop_first())
    }
}

/// An escaped string body between its two quotes.
pub open spec fn quoted(s: Seq<char>) -> Seq<char> {
    seq!['"'] + escape(s) + seq!['"']
}

/// The character that a short escape stands for.
pub open spec fn unesc_char(e: char) -> char {
    if e == 'n' {
        '\n'
    } else if e == 'r' {
        '\r'
    } else if e == 't' {
        '\t'
    } else {
        e
    }
}

/// Reads an escaped string body up to and over its closing quote. Returns
/// the string the body stands for and the characters after the quote, or
/// `None` when the input is not such a body.
pub open spec fn parse_str_body(s: Seq<char>) -> Option<(Seq<char>, Seq<char>)>
    decreases s.len(),
{
    if s.len() == 0 {
        None
    } else if s[0] == '"' {
        Some((Seq::empty(), s.drop_first()))
    } else if s[0] == '\\' {
        if s.len() < 2 {
            None
        } else if s[1] == '"' || s[1] == '\\' || s[1] == 'n' || s[1] == 'r' || s[1] == 't' {
            match parse_str_body(s.skip(2)) {
                None => None,
                Some((x, rest)) => Some((seq![unesc_char(s[1])] + x, rest)),
            }
        } else if s[1] == 'u' {
            if s.len() < 6 {
                None
            } else if s[2] == '0' && s[3] == '0' && hex_val(s[4]) >= 0 && hex_val(s[5]) >= 0 && hex_val(s[4]) * 16
                + hex_val(s[5]) < 32 {
                match parse_str_body(s.skip(6)) {
                    None => None,
                    Some((x, rest)) => Some((seq![code_char(hex_val(s[4]) * 16 + hex_val(s[5]))] + x, rest)),
                }
            } else {
                None
            }
        } else {
            None
        }
    } else {
        match parse_str_body(s.drop_first()) {
            None => None,
            Some((x, rest)) => Some((seq![s[0]] + x, rest)),
        }
    }
}

/// Reads a quoted string: an opening quote, then an escaped body.
pub open spec fn parse_string(s: Seq<char>) -> Option<(Seq<char>, Seq<char>)> {
    if s.len() > 0 && s[0] == '"' {
        parse_str_body(s.drop_first())
    } else {
        None
    }
}

/// A successful body parse consumes at least the closing quote.
pub proof fn lemma_body_consumes(s: Seq<char>)
    ensures
        parse_str_body(s) matches Some(r) ==> r.1.len() < s.len(),
    decreases s.len(),
{
    if s.len() == 0 {
    } else if s[0] == '"' {
    } else if s[0] == '\\' {
        if s.len() >= 2 && (s[1] == '"' || s[1] == '\\' || s[1] == 'n' || s[1] == 'r' || s[1] == 't') {
            lemma_body_consumes(s.skip(2));
        } else if s.len() >= 6 && s[1] == 'u' {
            lemma_body_consumes(s.skip(6));
        }
    } else {
        lemma_body_consumes(s.drop_first());
    }
}

/// A successful string parse consumes at least the two quotes.
pub proof fn lemma_string_consumes(s: Seq<char>)
    ensures
        parse_string(s) matches Some(r) ==> r.1.len() + 2 <= s.len(),
{
    if s.len() > 0 && s[0] == '"' {
        lemma_body_consumes(s.drop_first());
    }
}

/// Parsing the escaped form of `x`, followed by a closing quote and
/// anything after it, gives back exactly `x` and the rest.
pub proof fn lemma_parse_escaped(x: Seq<char>, rest: Seq<char>)
    ensures
        parse_str_body(escape(x) + seq!['"'] + rest) == Some((x, rest)),
    decreases x.len(),
{
    let s = escape(x) + seq!['"'] + rest;
    if x.len() == 0 {
        assert(s =~= seq!['"'] + rest);
        assert(s[0] == '"');
        assert(s.drop_first() =~= rest);
        assert(Seq::<char>::empty() =~= x);
    } else {
        let c = x[0];
        let tail = x.drop_first();
        let e = esc_char(c);
        assert(escape(x) == e + escape(tail));
        assert(s =~= e + (escape(tail) + seq!['"'] + rest));
        lemma_parse_escaped(tail, rest);
        if c == '"' || c == '\\' || c == '\n' || c == '\r' || c == '\t' {
            let code = if c == '"' {
                '"'
            } else if c == '\\' {
                '\\'
            } else if c == '\n' {
                'n'
            } else if c == '\r' {
                'r'
            } else {
                't'
            };
            assert(e =~= seq!['\\', code]);
            assert(s[0] == '\\' && s[1] == code);
            assert(s.skip(2) =~= escape(tail) + seq!['"'] + rest);
            assert(unesc_char(code) == c);
            assert(seq![c] + tail =~= x);
        } else if (c as u32) < 32 {
            let hi = c as u32 / 16;
            let lo = c as u32 % 16;
            assert(e =~= seq!['\\', 'u', '0', '0', hex_digit(hi as int), hex_digit(lo as int)]);
            assert(s[0] == '\\' && s[1] == 'u' && s[2] == '0' && s[3] == '0');
            assert(s[4] == hex_digit(hi as int) && s[5] == hex_digit(lo as int));
            assert(hex_val(hex_digit(hi as int)) == hi);
            assert(hex_val(hex_digit(lo as int)) == lo);
            assert(hi * 16 + lo == c as u32);
            assert(s.skip(6) =~= escape(tail) + seq!['"'] + rest);
            assert(code_char(hi * 16 + lo) == c) by {
                let u: u32 = c as u32;
                vstd::utf8::char_u32_cast(c, u);
                let b: u8 = (hi * 16 + lo) as u8;
                assert(b as u32 == u);
                vstd::utf8::char_u32_cast((b as char), b as u32);
            }
            assert(seq![c] + tail =~= x);
        } else {
            assert(e =~= seq![c]);
            assert(s[0] == c);
            assert(s.drop_first() =~= escape(tail) + seq!['"'] + rest);
            assert(seq![c] + tail =~= x);
        }
    }
}

/// Parsing a quoted string written by the encoder gives it back exactly.
pub proof fn lemma_parse_quoted(x: Seq<char>, rest: Seq<char>)
    ensures
        parse_string(quoted(x) + rest) == Some((x, rest)),
{
    let s = quoted(x) + rest;
    assert(s[0] == '"');
    assert(s.len() > 0);
    assert(s.drop_first() =~= escape(x) + seq!['"'] + rest);
    lemma_parse_escaped(x, rest);
}

// ---------- fixed fragments ----------
/// The characters after a fixed prefix, or `None` when the input does not
/// start with that prefix.
pub open spec fn strip_prefix(s: Seq<char>, p: Seq<char>) -> Option<Seq<char>> {
    if p.len() <= s.len() && s.subrange(0, p.len() as int) == p {
        Some(s.skip(p.len() as int))
    } else {
        None
    }
}

/// Stripping a prefix from itself followed by anything leaves the rest.
pub proof fn lemma_strip_prefix(p: Seq<char>, rest: Seq<char>)
    ensures
        strip_prefix(p + rest, p) == Some(rest),
{
    assert((p + rest).subrange(0, p.len() as int) =~= p);
    assert((p + rest).skip(p.len() as int) =~= rest);
}

// ---------- the URL list ----------
/// The inside of the feed-URL array, from after its opening bracket up to
/// and over its closing bracket.
pub open spec fn enc_urls_body(l: Seq<Seq<char>>) -> Seq<char>
    decreases l.len(),
{
    if l.len() == 0 {
        seq![']']
    } else if l.len() == 1 {
        quoted(l[0]) + seq![']']
    } else {
        quoted(l[0]) + seq![','] + enc_urls_body(l.drop_first())
    }
}

/// Reads the inside of a string array up to and over its closing bracket.
pub open spec fn parse_urls_body(s: Seq<char>) -> Option<(Seq<Seq<char>>, Seq<char>)>
    decreases s.len(),
        via parse_urls_body_dec
{
    if s.len() == 0 {
        None
    } else if s[0] == ']' {
        Some((Seq::empty(), s.drop_first()))
    } else {
        match parse_string(s) {
            None => None,
            Some((u, rest)) => {
                if rest.len() == 0 {
                    None
                } else if rest[0] == ']' {
                    Some((seq![u], rest.drop_first()))
                } else if rest[0] == ',' {
                    match parse_urls_body(rest.drop_first()) {
                        None => None,
                        Some((more, rest2)) => Some((seq![u] + more, rest2)),
                    }
                } else {
                    None
                }
            },
        }
    }
}

#[via_fn]
proof fn parse_urls_body_dec(s: Seq<char>) {
    lemma_string_consumes(s);
}

/// Parsing an encoded URL list gives back exactly the list.
pub proof fn lemma_parse_urls_body(l: Seq<Seq<char>>, rest: Seq<char>)
    ensures
        parse_urls_body(enc_urls_body(l) + rest) == Some((l, rest)),
    decreases l.len(),
{
    let s = enc_urls_body(l) + rest;
    if l.len() == 0 {
        assert(s =~= seq![']'] + rest);
        assert(s[0] == ']');
        assert(s.drop_first() =~= rest);
        assert(Seq::<Seq<char>>::empty() =~= l);
    } else if l.len() == 1 {
        let b = seq![']'] + rest;
        assert(s =~= quoted(l[0]) + b);
        lemma_parse_quoted(l[0], b);
        assert(s[0] == '"');
        assert(b[0] == ']');
        assert(b.drop_first() =~= rest);
        assert(seq![l[0]] =~= l);
    } else {
        let b = seq![','] + (enc_urls_body(l.drop_first()) + rest);
        assert(s =~= quoted(l[0]) + b);
        lemma_parse_quoted(l[0], b);
        assert(s[0] == '"');
        assert(b[0] == ',');
        assert(b.drop_first() =~= enc_urls_body(l.drop_first()) + rest);
        lemma_parse_urls_body(l.drop_first(), rest);
        assert(seq![l[0]] + l.drop_first() =~= l);
    }
}

// ---------- one read-later record ----------
/// One read-later record as a JSON object with its four string fields, in
/// a fixed order.
pub open spec fn enc_item(it: ItemView) -> Seq<char> {
    "{\"title\":"@ + quoted(it.title) + ",\"link\":"@ + quoted(it.link) + ",\"comments\":"@ + quoted(it.comments)
        + ",\"description\":"@ + quoted(it.description) + "}"@
}

/// Reads one read-later record.
pub open spec fn parse_item(s: Seq<char>) -> Option<(ItemView, Seq<char>)> {
    match strip_prefix(s, "{\"title\":"@) {
        None => None,
        Some(s1) => match parse_string(s1) {
            None => None,
            Some((title, s2)) => match strip_prefix(s2, ",\"link\":"@) {
                None => None,
                Some(s3) => match parse_string(s3) {
                    None => None,
                    Some((link, s4)) => match strip_prefix(s4, ",\"comments\":"@) {
                        None => None,
                        Some(s5) => match parse_string(s5) {
                            None => None,
                            Some((comments, s6)) => match strip_prefix(s6, ",\"description\":"@) {
                                None => None,
                                Some(s7) => match parse_string(s7) {
                                    None => None,
                                    Some((description, s8)) => match strip_prefix(s8, "}"@) {
                                        None => None,
                                        Some(s9) => Some(
                                            (ItemView { title, link, comments, description }, s9),
                                        ),
                                    },
                                },
                            },
                        },
                    },
                },
            },
        },
    }
}

/// A successful record parse consumes at least the opening key.
pub proof fn lemma_item_consumes(s: Seq<char>)
    ensures
        parse_item(s) matches Some(r) ==> r.1.len() < s.len(),
{
    reveal_strlit("{\"title\":");
    match strip_prefix(s, "{\"title\":"@) {
        None => {},
        Some(s1) => {
            assert(s1.len() == s.len() - 9);
            lemma_string_consumes(s1);
            match parse_string(s1) {
                None => {},
                Some((title, s2)) => {
                    match strip_prefix(s2, ",\"link\":"@) {
                        None => {},
                        Some(s3) => {
                            lemma_string_consumes(s3);
                            match parse_string(s3) {
                                None => {},
                                Some((link, s4)) => {
                                    match strip_prefix(s4, ",\"comments\":"@) {
                                        None => {},
                                        Some(s5) => {
                                            lemma_string_consumes(s5);
                                            match parse_string(s5) {
                                                None => {},
                                                Some((comments, s6)) => {
                                                    match strip_prefix(s6, ",\"description\":"@) {
                                                        None => {},
                                                        Some(s7) => {
                                                            lemma_string_consumes(s7);
                                                            match parse_string(s7) {
                                                                None => {},
                                                                Some((description, s8)) => {},
                                                            }
                                                        },
                                                    }
                                                },
                                            }
                                        },
                                    }
                                },
                            }
                        },
                    }
                },
            }
        },
    }
}

/// Parsing an encoded record gives it back exactly.
pub proof fn lemma_parse_item(it: ItemView, rest: Seq<char>)
    ensures
        parse_item(enc_item(it) + rest) == Some((it, rest)),
{
    let b5 = "}"@ + rest;
    let c4 = quoted(it.description) + b5;
    let b4 = ",\"description\":"@ + c4;
    let c3 = quoted(it.comments) + b4;
    let b3 = ",\"comments\":"@ + c3;
    let c2 = quoted(it.link) + b3;
    let b2 = ",\"link\":"@ + c2;
    let c1 = quoted(it.title) + b2;
    let s = enc_item(it) + rest;
    assert(s =~= "{\"title\":"@ + c1);
    lemma_strip_prefix("{\"title\":"@, c1);
    lemma_parse_quoted(it.title, b2);
    lemma_strip_prefix(",\"link\":"@, c2);
    lemma_parse_quoted(it.link, b3);
    lemma_strip_prefix(",\"comments\":"@, c3);
    lemma_parse_quoted(it.comments, b4);
    lemma_strip_prefix(",\"description\":"@, c4);
    lemma_parse_quoted(it.description, b5);
    lemma_strip_prefix("}"@, rest);
    assert(ItemView {
        title: it.title,
        link: it.link,
        comments: it.comments,
        description: it.description,
    } =~= it);
}

// ---------- the read-later list ----------
/// The inside of the read-later array, from after its opening bracket up
/// to and over its closing bracket.
pub open spec fn enc_items_body(l: Seq<ItemView>) -> Seq<char>
    decreases l.len(),
{
    if l.len() == 0 {
        seq![']']
    } else if l.len() == 1 {
        enc_item(l[0]) + seq![']']
    } else {
        enc_item(l[0]) + seq![','] + enc_items_body(l.drop_first())
    }
}

/// Reads the inside of a record array up to and over its closing bracket.
pub open spec fn parse_items_body(s: Seq<char>) -> Option<(Seq<ItemView>, Seq<char>)>
    decreases s.len(),
        via parse_items_body_dec
{
    if s.len() == 0 {
        None
    } else if s[0] == ']' {
        Some((Seq::empty(), s.drop_first()))
    } else {
        match parse_item(s) {
            None => None,
            Some((it, rest)) => {
                if rest.len() == 0 {
                    None
                } else if rest[0] == ']' {
                    Some((seq![it], rest.drop_first()))
                } else if rest[0] == ',' {
                    match parse_items_body(rest.drop_first()) {
                        None => None,
                        Some((more, rest2)) => Some((seq![it] + more, rest2)),
                    }
                } else {
                    None
                }
            },
        }
    }
}

#[via_fn]
proof fn parse_items_body_dec(s: Seq<char>) {
    lemma_item_consumes(s);
}

/// Parsing an encoded read-later list gives back exactly the list.
#[verifier::rlimit(60)]
pub proof fn lemma_parse_items_body(l: Seq<ItemView>, rest: Seq<char>)
    ensures
        parse_items_body(enc_items_body(l) + rest) == Some((l, rest)),
    decreases l.len(),
{
    let s = enc_items_body(l) + rest;
    reveal_strlit("{\"title\":");
    if l.len() == 0 {
        assert(s =~= seq![']'] + rest);
        assert(s[0] == ']');
        assert(s.drop_first() =~= rest);
        assert(Seq::<ItemView>::empty() =~= l);
    } else if l.len() == 1 {
        let b = seq![']'] + rest;
        assert(s =~= enc_item(l[0]) + b);
        lemma_parse_item(l[0], b);
        assert(s[0] == '{');
        assert(b[0] == ']');
        assert(b.drop_first() =~= rest);
        assert(seq![l[0]] =~= l);
    } else {
        let b = seq![','] + (enc_items_body(l.drop_first()) + rest);
        assert(s =~= enc_item(l[0]) + b);
        lemma_parse_item(l[0], b);
        assert(s[0] == '{');
        assert(b[0] == ',');
        assert(b.drop_first() =~= enc_items_body(l.drop_first()) + rest);
        lemma_parse_items_body(l.drop_first(), rest);
        assert(seq![l[0]] + l.drop_first() =~= l);
    }
}

// ---------- the whole state ----------
/// The whole backing file for a state: its two fields in a fixed order.
pub open spec fn enc_state(sv: StateView) -> Seq<char> {
    "{\"feeds\":["@ + enc_urls_body(sv.feeds) + ",\"read_later\":["@ + enc_items_body(sv.read_later) + "}"@
}

/// Reads a whole backing file; the document must end with the closing
/// brace, with nothing after it.
pub open spec fn parse_state(s: Seq<char>) -> Option<StateView> {
    match strip_prefix(s, "{\"feeds\":["@) {
        None => None,
        Some(s1) => match parse_urls_body(s1) {
            None => None,
            Some((feeds, s2)) => match strip_prefix(s2, ",\"read_later\":["@) {
                None => None,
                Some(s3) => match parse_items_body(s3) {
                    None => None,
                    Some((read_later, s4)) => match strip_prefix(s4, "}"@) {
                        None => None,
                        Some(s5) => if s5.len() == 0 {
                            Some(StateView { feeds, read_later })
                        } else {
                            None
                        },
                    },
                },
            },
        },
    }
}

/// Round-trip fidelity of persistence: the file written for any state
/// parses back to exactly that state.
pub proof fn lemma_state_round_trip(sv: StateView)
    ensures
        parse_state(enc_state(sv)) == Some(sv),
{
    let tail0 = Seq::<char>::empty();
    let b3 = "}"@ + tail0;
    let c2 = enc_items_body(sv.read_later) + b3;
    let b2 = ",\"read_later\":["@ + c2;
    let c1 = enc_urls_body(sv.feeds) + b2;
    let s = enc_state(sv);
    assert(s =~= "{\"feeds\":["@ + c1);
    lemma_strip_prefix("{\"feeds\":["@, c1);
    lemma_parse_urls_body(sv.feeds, b2);
    lemma_strip_prefix(",\"read_later\":["@, c2);
    lemma_parse_items_body(sv.read_later, b3);
    lemma_strip_prefix("}"@, tail0);
    assert(StateView { feeds: sv.feeds, read_later: sv.read_later } =~= sv);
}

// ---------- executable encoder ----------
/// The views of a sequence of strings.
pub open spec fn url_views(q: Seq<String>) -> Seq<Seq<char>> {
    Seq::new(q.len(), |i: int| q[i]@)
}

/// The views of a sequence of items.
pub open spec fn item_views(q: Seq<FeedItem>) -> Seq<ItemView> {
    Seq::new(q.len(), |i: int| q[i]@)
}

/// Relies on String's FromIterator over char: collecting characters gives
/// the string of exactly those characters, in order.
#[verifier::external_body]
pub(crate) fn string_from_chars(v: &Vec<char>) -> (r: String)
    ensures
        r@ == v@,
{
    v.iter().collect()
}

/// The characters of a string, one by one.
fn chars_of(s: &str) -> (r: Vec<char>)
    ensures
        r@ == s@,
{
    let n = s.unicode_len();
    let mut out: Vec<char> = Vec::new();
    let mut i: usize = 0;
    while i < n
        invariant
            i <= n,
            n == s@.len(),
            out@.len() == i,
            forall|j: int| 0 <= j < i ==> out@[j] == s@[j],
        decreases n - i,
    {
        out.push(s.get_char(i));
        i = i + 1;
    }
    proof {
        assert(out@ =~= s@);
    }
    out
}

/// Appends the characters of a string fragment.
pub(crate) fn push_lit(out: &mut Vec<char>, lit: &str)
    ensures
        final(out)@ == old(out)@ + lit@,
{
    let n = lit.unicode_len();
    let mut i: usize = 0;
    while i < n
        invariant
            i <= n,
            n == lit@.len(),
            out@.len() == old(out)@.len() + i,
            out@ == old(out)@ + lit@.take(i as int),
        decreases n - i,
    {
        out.push(lit.get_char(i));
        proof {
            assert(old(out)@ + lit@.take(i + 1) =~= (old(out)@ + lit@.take(i as int)).push(lit@[i as int]));
        }
        i = i + 1;
    }
    proof {
        assert(lit@.take(n as int) =~= lit@);
    }
}

fn hex_digit_x(v: u8) -> (r: char)
    requires
        v < 16,
    ensures
        r == hex_digit(v as int),
{
    if v == 0 {
        '0'
    } else if v == 1 {
        '1'
    } else if v == 2 {
        '2'
    } else if v == 3 {
        '3'
    } else if v == 4 {
        '4'
    } else if v == 5 {
        '5'
    } else if v == 6 {
        '6'
    } else if v == 7 {
        '7'
    } else if v == 8 {
        '8'
    } else if v == 9 {
        '9'
    } else if v == 10 {
        'a'
    } else if v == 11 {
        'b'
    } else if v == 12 {
        'c'
    } else if v == 13 {
        'd'
    } else if v == 14 {
        'e'
    } else {
        'f'
    }
}

/// Appends the escaped form of one character.
fn push_esc(out: &mut Vec<char>, c: char)
    ensures
        final(out)@ == old(out)@ + esc_char(c),
{
    if c == '"' {
        out.push('\\');
        out.push('"');
        proof {
            assert(out@ =~= old(out)@ + esc_char(c));
        }
    } else if c == '\\' {
        out.push('\\');
        out.push('\\');
        proof {
            assert(out@ =~= old(out)@ + esc_char(c));
        }
    } else if c == '\n' {
        out.push('\\');
        out.push('n');
        proof {
            assert(out@ =~= old(out)@ + esc_char(c));
        }
    } else if c == '\r' {
        out.push('\\');
        out.push('r');
        proof {
            assert(out@ =~= old(out)@ + esc_char(c));
        }
    } else if c == '\t' {
        out.push('\\');
        out.push('t');
        proof {
            assert(out@ =~= old(out)@ + esc_char(c));
        }
    } else {
        let v = c as u32;
        if v < 32 {
            out.push('\\');
            out.push('u');
            out.push('0');
            out.push('0');
            out.push(hex_digit_x((v / 16) as u8));
            out.push(hex_digit_x((v % 16) as u8));
            proof {
                assert(out@ =~= old(out)@ + esc_char(c));
            }
        } else {
            out.push(c);
            proof {
                assert(out@ =~= old(out)@ + esc_char(c));
            }
        }
    }
}

/// Escaping one character more appends its escape.
proof fn lemma_escape_snoc(p: Seq<char>, c: char)
    ensures
        escape(p.push(c)) == escape(p) + esc_char(c),
    decreases p.len(),
{
    if p.len() == 0 {
        assert(p.push(c).len() == 1);
        assert(p.push(c)[0] == c);
        assert(p.push(c).drop_first() =~= Seq::<char>::empty());
        assert(escape(p.push(c).drop_first()) == Seq::<char>::empty());
        assert(escape(p.push(c)) == esc_char(c) + escape(p.push(c).drop_first()));
        assert(escape(p.push(c)) =~= esc_char(c));
        assert(escape(p) + esc_char(c) =~= esc_char(c));
    } else {
        assert(p.push(c)[0] == p[0]);
        assert(p.push(c).drop_first() =~= p.drop_first().push(c));
        lemma_escape_snoc(p.drop_first(), c);
        assert(esc_char(p[0]) + (escape(p.drop_first()) + esc_char(c)) =~= (esc_char(p[0]) + escape(
            p.drop_first(),
        )) + esc_char(c));
    }
}

/// Appends a whole quoted string.
pub(crate) fn push_quoted(out: &mut Vec<char>, s: &str)
    ensures
        final(out)@ == old(out)@ + quoted(s@),
{
    out.push('"');
    let n = s.unicode_len();
    let mut i: usize = 0;
    while i < n
        invariant
            i <= n,
            n == s@.len(),
            out@ == old(out)@ + seq!['"'] + escape(s@.take(i as int)),
        decreases n - i,
    {
        let c = s.get_char(i);
        push_esc(out, c);
        proof {
            assert(s@.take(i + 1) =~= s@.take(i as int).push(s@[i as int]));
            lemma_escape_snoc(s@.take(i as int), s@[i as int]);
        }
        i = i + 1;
    }
    out.push('"');
    proof {
        assert(s@.take(n as int) =~= s@);
        assert(out@ =~= old(out)@ + quoted(s@));
    }
}

/// Appends the inside of the URL array.
fn e_urls_body(out: &mut Vec<char>, urls: &[String])
    ensures
        final(out)@ == old(out)@ + enc_urls_body(url_views(urls@)),
    decreases urls.len(),
{
    let ghost l = url_views(urls@);
    if urls.len() == 0 {
        out.push(']');
        proof {
            assert(out@ =~= old(out)@ + enc_urls_body(l));
        }
    } else if urls.len() == 1 {
        push_quoted(out, urls[0].as_str());
        out.push(']');
        proof {
            assert(out@ =~= old(out)@ + enc_urls_body(l));
        }
    } else {
        push_quoted(out, urls[0].as_str());
        out.push(',');
        let sub = vstd::slice::slice_subrange(urls, 1, urls.len());
        proof {
            assert(url_views(sub@) =~= l.drop_first());
        }
        e_urls_body(out, sub);
        proof {
            assert(out@ =~= old(out)@ + enc_urls_body(l));
        }
    }
}

/// Appends one encoded read-later record.
fn e_item(out: &mut Vec<char>, it: &FeedItem)
    ensures
        final(out)@ == old(out)@ + enc_item(it@),
{
    push_lit(out, "{\"title\":");
    push_quoted(out, it.title.as_str());
    push_lit(out, ",\"link\":");
    push_quoted(out, it.link.as_str());
    push_lit(out, ",\"comments\":");
    push_quoted(out, it.comments.as_str());
    push_lit(out, ",\"description\":");
    push_quoted(out, it.description.as_str());
    push_lit(out, "}");
    proof {
        assert(out@ =~= old(out)@ + enc_item(it@));
    }
}

/// Appends the inside of the read-later array.
fn e_items_body(out: &mut Vec<char>, items: &[FeedItem])
    ensures
        final(out)@ == old(out)@ + enc_items_body(item_views(items@)),
    decreases items.len(),
{
    let ghost l = item_views(items@);
    if items.len() == 0 {
        out.push(']');
        proof {
            assert(out@ =~= old(out)@ + enc_items_body(l));
        }
    } else if items.len() == 1 {
        e_item(out, &items[0]);
        out.push(']');
        proof {
            assert(out@ =~= old(out)@ + enc_items_body(l));
        }
    } else {
        e_item(out, &items[0]);
        out.push(',');
        let sub = vstd::slice::slice_subrange(items, 1, items.len());
        proof {
            assert(item_views(sub@) =~= l.drop_first());
        }
        e_items_body(out, sub);
        proof {
            assert(out@ =~= old(out)@ + enc_items_body(l));
        }
    }
}

/// Writes the whole backing document for a state.
pub fn encode_state(st: &PersistentState) -> (r: String)
    ensures
        r@ == enc_state(st@),
{
    let mut out: Vec<char> = Vec::new();
    push_lit(&mut out, "{\"feeds\":[");
    e_urls_body(&mut out, st.feeds.as_slice());
    push_lit(&mut out, ",\"read_later\":[");
    e_items_body(&mut out, st.read_later.as_slice());
    push_lit(&mut out, "}");
    proof {
        assert(url_views(st.feeds@) =~= st@.feeds);
        assert(item_views(st.read_later@) =~= st@.read_later);
        assert(out@ =~= enc_state(st@));
    }
    string_from_chars(&out)
}

// ---------- executable parser ----------
/// Strips a fixed fragment from the front, or refuses the input.
fn take_prefix<'a>(s: &'a [char], p: &str) -> (r: Option<&'a [char]>)
    ensures
        match strip_prefix(s@, p@) {
            None => r is None,
            Some(t) => r matches Some(x) && x@ == t,
        },
{
    let n = p.unicode_len();
    if n > s.len() {
        return None;
    }
    let mut i: usize = 0;
    while i < n
        invariant
            i <= n,
            n == p@.len(),
            n <= s@.len(),
            forall|j: int| 0 <= j < i ==> s@[j] == p@[j],
        decreases n - i,
    {
        if s[i] != p.get_char(i) {
            proof {
                assert(s@.subrange(0, n as int)[i as int] == s@[i as int]);
                assert(s@.subrange(0, n as int) != p@);
            }
            return None;
        }
        i = i + 1;
    }
    proof {
        assert(s@.subrange(0, n as int) =~= p@);
    }
    Some(vstd::slice::slice_subrange(s, n, s.len()))
}

fn hex_val_x(c: char) -> (r: i32)
    ensures
        r as int == hex_val(c),
{
    if c == '0' {
        0
    } else if c == '1' {
        1
    } else if c == '2' {
        2
    } else if c == '3' {
        3
    } else if c == '4' {
        4
    } else if c == '5' {
        5
    } else if c == '6' {
        6
    } else if c == '7' {
        7
    } else if c == '8' {
        8
    } else if c == '9' {
        9
    } else if c == 'a' {
        10
    } else if c == 'b' {
        11
    } else if c == 'c' {
        12
    } else if c == 'd' {
        13
    } else if c == 'e' {
        14
    } else if c == 'f' {
        15
    } else {
        -1
    }
}

/// Reads an escaped string body up to and over its closing quote.
fn d_str_body<'a>(s: &'a [char]) -> (r: Option<(Vec<char>, &'a [char])>)
    ensures
        match parse_str_body(s@) {
            None => r is None,
            Some(p) => r matches Some(q) && q.0@ == p.0 && q.1@ == p.1,
        },
    decreases s.len(),
{
    if s.len() == 0 {
        return None;
    }
    let c = s[0];
    if c == '"' {
        let rest = vstd::slice::slice_subrange(s, 1, s.len());
        proof {
            assert(rest@ =~= s@.drop_first());
        }
        return Some((Vec::new(), rest));
    }
    if c == '\\' {
        if s.len() < 2 {
            return None;
        }
        let e = s[1];
        if e == '"' || e == '\\' || e == 'n' || e == 'r' || e == 't' {
            let sub = vstd::slice::slice_subrange(s, 2, s.len());
            proof {
                assert(sub@ =~= s@.skip(2));
            }
            match d_str_body(sub) {
                None => None,
                Some((mut x, rest)) => {
                    let u = if e == 'n' {
                        '\n'
                    } else if e == 'r' {
                        '\r'
                    } else if e == 't' {
                        '\t'
                    } else {
                        e
                    };
                    let ghost x0 = x@;
                    x.insert(0, u);
                    proof {
                        assert(x@ =~= seq![unesc_char(e)] + x0);
                    }
                    Some((x, rest))
                },
            }
        } else if e == 'u' {
            if s.len() < 6 {
                return None;
            }
            if s[2] != '0' || s[3] != '0' {
                return None;
            }
            let h1 = hex_val_x(s[4]);
            let h2 = hex_val_x(s[5]);
            if h1 < 0 || h2 < 0 || h1 * 16 + h2 >= 32 {
                return None;
            }
            let sub = vstd::slice::slice_subrange(s, 6, s.len());
            proof {
                assert(sub@ =~= s@.skip(6));
            }
            match d_str_body(sub) {
                None => None,
                Some((mut x, rest)) => {
                    let u = ((h1 * 16 + h2) as u8) as char;
                    let ghost x0 = x@;
                    x.insert(0, u);
                    proof {
                        assert(x@ =~= seq![code_char(hex_val(s@[4]) * 16 + hex_val(s@[5]))] + x0);
                    }
                    Some((x, rest))
                },
            }
        } else {
            None
        }
    } else {
        let sub = vstd::slice::slice_subrange(s, 1, s.len());
        proof {
            assert(sub@ =~= s@.drop_first());
        }
        match d_str_body(sub) {
            None => None,
            Some((mut x, rest)) => {
                let ghost x0 = x@;
                x.insert(0, c);
                proof {
                    assert(x@ =~= seq![s@[0]] + x0);
                }
                Some((x, rest))
            },
        }
    }
}

/// Reads a quoted string.
fn d_string<'a>(s: &'a [char]) -> (r: Option<(Vec<char>, &'a [char])>)
    ensures
        match parse_string(s@) {
            None => r is None,
            Some(p) => r matches Some(q) && q.0@ == p.0 && q.1@ == p.1,
        },
{
    if s.len() > 0 {
        if s[0] == '"' {
            let sub = vstd::slice::slice_subrange(s, 1, s.len());
            proof {
                assert(sub@ =~= s@.drop_first());
            }
            return d_str_body(sub);
        }
    }
    None
}

/// Reads the inside of the URL array.
fn d_urls_body<'a>(s: &'a [char]) -> (r: Option<(Vec<String>, &'a [char])>)
    ensures
        match parse_urls_body(s@) {
            None => r is None,
            Some(p) => r matches Some(q) && q.0@.len() == p.0.len() && (forall|i: int|
                0 <= i < p.0.len() ==> q.0@[i]@ == p.0[i]) && q.1@ == p.1,
        },
    decreases s.len(),
{
    if s.len() == 0 {
        return None;
    }
    if s[0] == ']' {
        let rest = vstd::slice::slice_subrange(s, 1, s.len());
        proof {
            assert(rest@ =~= s@.drop_first());
        }
        return Some((Vec::new(), rest));
    }
    match d_string(s) {
        None => None,
        Some((u, rest)) => {
            if rest.len() == 0 {
                return None;
            }
            let url = string_from_chars(&u);
            if rest[0] == ']' {
                let rest2 = vstd::slice::slice_subrange(rest, 1, rest.len());
                proof {
                    assert(rest2@ =~= rest@.drop_first());
                }
                let mut one: Vec<String> = Vec::new();
                one.push(url);
                return Some((one, rest2));
            }
            if rest[0] == ',' {
                let sub2 = vstd::slice::slice_subrange(rest, 1, rest.len());
                proof {
                    assert(sub2@ =~= rest@.drop_first());
                    lemma_string_consumes(s@);
                }
                match d_urls_body(sub2) {
                    None => None,
                    Some((mut more, rest2)) => {
                        let ghost m0 = more@;
                        more.insert(0, url);
                        proof {
                            assert(more@ =~= seq![url] + m0);
                        }
                        Some((more, rest2))
                    },
                }
            } else {
                None
            }
        },
    }
}

/// Reads one read-later record.
fn d_item<'a>(s: &'a [char]) -> (r: Option<(FeedItem, &'a [char])>)
    ensures
        match parse_item(s@) {
            None => r is None,
            Some(p) => r matches Some(q) && q.0@ == p.0 && q.1@ == p.1,
        },
{
    let s1 = match take_prefix(s, "{\"title\":") {
        None => {
            return None;
        },
        Some(t) => t,
    };
    let (title, s2) = match d_string(s1) {
        None => {
            return None;
        },
        Some(t) => t,
    };
    let s3 = match take_prefix(s2, ",\"link\":") {
        None => {
            return None;
        },
        Some(t) => t,
    };
    let (link, s4) = match d_string(s3) {
        None => {
            return None;
        },
        Some(t) => t,
    };
    let s5 = match take_prefix(s4, ",\"comments\":") {
        None => {
            return None;
        },
        Some(t) => t,
    };
    let (comments, s6) = match d_string(s5) {
        None => {
            return None;
        },
        Some(t) => t,
    };
    let s7 = match take_prefix(s6, ",\"description\":") {
        None => {
            return None;
        },
        Some(t) => t,
    };
    let (description, s8) = match d_string(s7) {
        None => {
            return None;
        },
        Some(t) => t,
    };
    let s9 = match take_prefix(s8, "}") {
        None => {
            return None;
        },
        Some(t) => t,
    };
    let it = FeedItem {
        title: string_from_chars(&title),
        link: string_from_chars(&link),
        comments: string_from_chars(&comments),
        description: string_from_chars(&description),
    };
    Some((it, s9))
}

/// Reads the inside of the read-later array.
fn d_items_body<'a>(s: &'a [char]) -> (r: Option<(Vec<FeedItem>, &'a [char])>)
    ensures
        match parse_items_body(s@) {
            None => r is None,
            Some(p) => r matches Some(q) && q.0@.len() == p.0.len() && (forall|i: int|
                0 <= i < p.0.len() ==> q.0@[i]@ == p.0[i]) && q.1@ == p.1,
        },
    decreases s.len(),
{
    if s.len() == 0 {
        return None;
    }
    if s[0] == ']' {
        let rest = vstd::slice::slice_subrange(s, 1, s.len());
        proof {
            assert(rest@ =~= s@.drop_first());
        }
        return Some((Vec::new(), rest));
    }
    match d_item(s) {
        None => None,
        Some((it, rest)) => {
            if rest.len() == 0 {
                return None;
            }
            if rest[0] == ']' {
                let rest2 = vstd::slice::slice_subrange(rest, 1, rest.len());
                proof {
                    assert(rest2@ =~= rest@.drop_first());
                }
                let mut one: Vec<FeedItem> = Vec::new();
                one.push(it);
                return Some((one, rest2));
            }
            if rest[0] == ',' {
                let sub2 = vstd::slice::slice_subrange(rest, 1, rest.len());
                proof {
                    assert(sub2@ =~= rest@.drop_first());
                    lemma_item_consumes(s@);
                }
                match d_items_body(sub2) {
                    None => None,
                    Some((mut more, rest2)) => {
                        let ghost m0 = more@;
                        more.insert(0, it);
                        proof {
                            assert(more@ =~= seq![it] + m0);
                        }
                        Some((more, rest2))
                    },
                }
            } else {
                None
            }
        },
    }
}

/// Reads a whole backing document back into a state. Refuses any text that
/// is not exactly a document the encoder writes.
pub fn decode_state(text: &str) -> (r: Option<PersistentState>)
    ensures
        match parse_state(text@) {
            None => r is None,
            Some(sv) => r matches Some(ps) && ps@ == sv,
        },
{
    let chars = chars_of(text);
    let s = chars.as_slice();
    let s1 = match take_prefix(s, "{\"feeds\":[") {
        None => {
            return None;
        },
        Some(t) => t,
    };
    let (feeds, s2) = match d_urls_body(s1) {
        None => {
            return None;
        },
        Some(t) => t,
    };
    let s3 = match take_prefix(s2, ",\"read_later\":[") {
        None => {
            return None;
        },
        Some(t) => t,
    };
    let (read_later, s4) = match d_items_body(s3) {
        None => {
            return None;
        },
        Some(t) => t,
    };
    let s5 = match take_prefix(s4, "}") {
        None => {
            return None;
        },
        Some(t) => t,
    };
    if s5.len() > 0 {
        return None;
    }
    let ps = PersistentState { feeds, read_later };
    proof {
        let sv = parse_state(text@)->Some_0;
        assert(ps@.feeds =~= sv.feeds);
        assert(ps@.read_later =~= sv.read_later);
        assert(ps@ =~= sv);
    }
    Some(ps)
}

} // verus!
