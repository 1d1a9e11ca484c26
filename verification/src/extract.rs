use vstd::prelude::*;
use crate::codec::string_from_chars;

verus! {

// ---------------------------------------------------------------------------
// The content extractor: a fixed, ordered chain of structural queries is
// run against a page, and the first query whose first matching element
// yields non-empty cleaned text wins. Matching elements are found by the
// scraper crate behind one trusted wrapper; joining the text nodes,
// trimming, collapsing line breaks and choosing along the chain are all
// verified here.
// ---------------------------------------------------------------------------
/// The descendant text nodes of the first element of the document `html`
/// that matches the CSS selector `selector`, in document order, or `None`
/// when no element matches (or the selector is invalid). A pure function
/// of its two arguments.
pub uninterp spec fn texts_of(html: Seq<char>, selector: Seq<char>) -> Option<Seq<Seq<char>>>;

/// Relies on scraper 0.27: Selector::parse (None on an invalid selector),
/// Html::parse_document, the select iterator's first element, and
/// ElementRef::text. The result depends on the two arguments alone.
#[verifier::external_body]
fn first_match_texts(html: &str, selector: &str) -> (r: Option<Vec<String>>)
    ensures
        r is Some <==> texts_of(html@, selector@) is Some,
        r matches Some(v) ==> v.deep_view() == texts_of(html@, selector@)->Some_0,
{
    let sel = scraper::Selector::parse(selector).ok()?;
    let doc = scraper::Html::parse_document(html);
    let el = doc.select(&sel).next()?;
    Some(el.text().map(|t| t.to_string()).collect())
}

/// Whether a character has the Unicode White_Space property, the set that
/// `str::trim` removes.
pub open spec fn is_ws(c: char) -> bool {
    let v = c as u32;
    (9 <= v && v <= 13) || v == 32 || v == 0x85 || v == 0xA0 || v == 0x1680 || (0x2000 <= v && v <= 0x200A)
        || v == 0x2028 || v == 0x2029 || v == 0x202F || v == 0x205F || v == 0x3000
}

fn is_ws_x(c: char) -> (r: bool)
    ensures
        r == is_ws(c),
{
    let v = c as u32;
    (9 <= v && v <= 13) || v == 32 || v == 0x85 || v == 0xA0 || v == 0x1680 || (0x2000 <= v && v <= 0x200A)
        || v == 0x2028 || v == 0x2029 || v == 0x202F || v == 0x205F || v == 0x3000
}

/// Leading whitespace removed.
pub open spec fn trim_front(s: Seq<char>) -> Seq<char>
    decreases s.len(),
{
    if s.len() > 0 && is_ws(s[0]) {
        trim_front(s.drop_first())
    } else {
        s
    }
}

/// Trailing whitespace removed.
pub open spec fn trim_back(s: Seq<char>) -> Seq<char>
    decreases s.len(),
{
    if s.len() > 0 && is_ws(s.last()) {
        trim_back(s.drop_last())
    } else {
        s
    }
}

/// What one character contributes after the break collapse: a newline
/// becomes a space, a carriage return disappears, anything else stays.
pub open spec fn break_char(c: char) -> Seq<char> {
    if c == '\n' {
        seq![' ']
    } else if c == '\r' {
        Seq::empty()
    } else {
        seq![c]
    }
}

/// Newlines replaced by spaces and carriage returns dropped.
pub open spec fn strip_breaks(s: Seq<char>) -> Seq<char>
    decreases s.len(),
{
    if s.len() == 0 {
        Seq::empty()
    } else {
        break_char(s[0]) + strip_breaks(s.drop_first())
    }
}

/// The whole cleaning pass: trim both ends, then collapse line breaks.
pub open spec fn clean_spec(s: Seq<char>) -> Seq<char> {
    strip_breaks(trim_back(trim_front(s)))
}

/// The text nodes joined with single spaces between them.
pub open spec fn join_texts(ts: Seq<Seq<char>>) -> Seq<char>
    decreases ts.len(),
{
    if ts.len() == 0 {
        Seq::empty()
    } else if ts.len() == 1 {
        ts[0]
    } else {
        ts[0] + seq![' '] + join_texts(ts.drop_first())
    }
}

/// The cleaned, space-joined text of the first element matching
/// `selector`, or `None` when nothing matches.
pub open spec fn cleaned_first_match(html: Seq<char>, selector: Seq<char>) -> Option<Seq<char>> {
    match texts_of(html, selector) {
        None => None,
        Some(ts) => Some(clean_spec(join_texts(ts))),
    }
}

/// Whether a query's outcome settles the chain: it matched, and its
/// cleaned text is non-empty.
pub open spec fn picks(c: Option<Seq<char>>) -> bool {
    c matches Some(t) && t.len() > 0
}

/// The result of the whole fallback chain, in its fixed priority order:
/// article container, main container, content division, post division,
/// then plain paragraphs.
pub open spec fn extraction(html: Seq<char>) -> Option<Seq<char>> {
    if picks(cleaned_first_match(html, "article"@)) {
        cleaned_first_match(html, "article"@)
    } else if picks(cleaned_first_match(html, "main"@)) {
        cleaned_first_match(html, "main"@)
    } else if picks(cleaned_first_match(html, "div.content"@)) {
        cleaned_first_match(html, "div.content"@)
    } else if picks(cleaned_first_match(html, "div.post"@)) {
        cleaned_first_match(html, "div.post"@)
    } else if picks(cleaned_first_match(html, "p"@)) {
        cleaned_first_match(html, "p"@)
    } else {
        None
    }
}

/// Collapsing one character more appends its contribution.
proof fn lemma_strip_breaks_snoc(p: Seq<char>, c: char)
    ensures
        strip_breaks(p.push(c)) == strip_breaks(p) + break_char(c),
    decreases p.len(),
{
    if p.len() == 0 {
        assert(p.push(c).len() == 1);
        assert(p.push(c)[0] == c);
        assert(p.push(c).drop_first() =~= Seq::<char>::empty());
        assert(strip_breaks(p.push(c).drop_first()) == Seq::<char>::empty());
        assert(strip_breaks(p.push(c)) == break_char(c) + strip_breaks(p.push(c).drop_first()));
        assert(strip_breaks(p.push(c)) =~= break_char(c));
        assert(strip_breaks(p) + break_char(c) =~= break_char(c));
    } else {
        assert(p.push(c)[0] == p[0]);
        assert(p.push(c).drop_first() =~= p.drop_first().push(c));
        lemma_strip_breaks_snoc(p.drop_first(), c);
        assert(break_char(p[0]) + (strip_breaks(p.drop_first()) + break_char(c)) =~= (break_char(p[0])
            + strip_breaks(p.drop_first())) + break_char(c));
    }
}

/// Trims both ends and collapses line breaks, exactly as `clean_spec`
/// says.
fn clean_chars(s: &Vec<char>) -> (r: Vec<char>)
    ensures
        r@ == clean_spec(s@),
{
    let mut lo: usize = 0;
    proof {
        assert(s@.skip(0) =~= s@);
    }
    while lo < s.len() && is_ws_x(s[lo])
        invariant
            lo <= s.len(),
            trim_front(s@) == trim_front(s@.skip(lo as int)),
        decreases s.len() - lo,
    {
        proof {
            assert(s@.skip(lo as int)[0] == s@[lo as int]);
            assert(s@.skip(lo as int).drop_first() =~= s@.skip(lo + 1));
        }
        lo = lo + 1;
    }
    proof {
        if lo < s.len() {
            assert(!is_ws(s@.skip(lo as int)[0]));
        }
        assert(trim_front(s@) == s@.skip(lo as int));
    }
    let mut hi: usize = s.len();
    while hi > lo && is_ws_x(s[hi - 1])
        invariant
            lo <= hi <= s.len(),
            trim_front(s@) == s@.skip(lo as int),
            trim_back(s@.skip(lo as int)) == trim_back(s@.subrange(lo as int, hi as int)),
        decreases hi,
    {
        proof {
            let u = s@.subrange(lo as int, hi as int);
            assert(u.last() == s@[hi - 1]);
            assert(u.drop_last() =~= s@.subrange(lo as int, hi - 1));
        }
        hi = hi - 1;
    }
    proof {
        let u = s@.subrange(lo as int, hi as int);
        if hi > lo {
            assert(u.last() == s@[hi - 1]);
            assert(!is_ws(u.last()));
        }
        assert(trim_back(u) == u);
        assert(trim_back(trim_front(s@)) == s@.subrange(lo as int, hi as int));
    }
    let mut out: Vec<char> = Vec::new();
    let mut i: usize = lo;
    while i < hi
        invariant
            lo <= i <= hi <= s.len(),
            out@ == strip_breaks(s@.subrange(lo as int, i as int)),
        decreases hi - i,
    {
        let c = s[i];
        proof {
            assert(s@.subrange(lo as int, i + 1) =~= s@.subrange(lo as int, i as int).push(s@[i as int]));
            lemma_strip_breaks_snoc(s@.subrange(lo as int, i as int), s@[i as int]);
        }
        if c == '\n' {
            out.push(' ');
            proof {
                assert(out@ =~= strip_breaks(s@.subrange(lo as int, i + 1)));
            }
        } else if c == '\r' {
            proof {
                assert(out@ =~= strip_breaks(s@.subrange(lo as int, i + 1)));
            }
        } else {
            out.push(c);
            proof {
                assert(out@ =~= strip_breaks(s@.subrange(lo as int, i + 1)));
            }
        }
        i = i + 1;
    }
    out
}

/// Joins the remaining text nodes with single spaces.
fn join_slice(out: &mut Vec<char>, ts: &[String])
    ensures
        final(out)@ == old(out)@ + join_texts(ts.deep_view()),
    decreases ts.len(),
{
    if ts.len() == 0 {
        proof {
            assert(out@ =~= old(out)@ + join_texts(ts.deep_view()));
        }
    } else if ts.len() == 1 {
        crate::codec::push_lit(out, ts[0].as_str());
        proof {
            assert(ts.deep_view()[0] == ts@[0]@);
            assert(out@ =~= old(out)@ + join_texts(ts.deep_view()));
        }
    } else {
        crate::codec::push_lit(out, ts[0].as_str());
        out.push(' ');
        let sub = vstd::slice::slice_subrange(ts, 1, ts.len());
        proof {
            assert(sub.deep_view() =~= ts.deep_view().drop_first());
        }
        join_slice(out, sub);
        proof {
            assert(out@ =~= old(out)@ + join_texts(ts.deep_view()));
        }
    }
}

/// Runs one query of the chain: the cleaned text of the first match, or
/// `None` when nothing matches or the cleaned text is empty.
fn try_selector(html: &str, selector: &str) -> (r: Option<Vec<char>>)
    ensures
        picks(cleaned_first_match(html@, selector@)) ==> (r matches Some(v) && v@ == cleaned_first_match(
            html@,
            selector@,
        )->Some_0),
        !picks(cleaned_first_match(html@, selector@)) ==> r is None,
{
    match first_match_texts(html, selector) {
        None => None,
        Some(ts) => {
            let mut joined: Vec<char> = Vec::new();
            join_slice(&mut joined, ts.as_slice());
            let cleaned = clean_chars(&joined);
            if cleaned.len() > 0 {
                Some(cleaned)
            } else {
                None
            }
        },
    }
}

/// The content extractor: the first query of the fixed chain whose first
/// matching element has non-empty cleaned text decides; when no query
/// yields text, there is no content, which is an expected outcome and not
/// an error.
pub fn extract_content(html: &str) -> (r: Option<String>)
    ensures
        match extraction(html@) {
            None => r is None,
            Some(t) => r matches Some(s0) && s0@ == t,
        },
        r matches Some(s0) ==> s0@.len() > 0,
{
    if let Some(v) = try_selector(html, "article") {
        return Some(string_from_chars(&v));
    }
    if let Some(v) = try_selector(html, "main") {
        return Some(string_from_chars(&v));
    }
    if let Some(v) = try_selector(html, "div.content") {
        return Some(string_from_chars(&v));
    }
    if let Some(v) = try_selector(html, "div.post") {
        return Some(string_from_chars(&v));
    }
    if let Some(v) = try_selector(html, "p") {
        return Some(string_from_chars(&v));
    }
    None
}

} // verus!
