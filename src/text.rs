use vstd::prelude::*;

verus! {

/// Relies on str::chars: the characters of the string, in order.
#[verifier::external_body]
pub(crate) fn chars_of(s: &str) -> (r: Vec<char>)
    ensures
        r@ == s@,
{
    s.chars().collect()
}

/// Relies on String's FromIterator<&char>: the string of those characters.
#[verifier::external_body]
pub(crate) fn string_of(v: &Vec<char>) -> (r: String)
    ensures
        r@ == v@,
{
    v.iter().collect()
}

/// The characters that `char::is_whitespace` accepts (Unicode White_Space).
pub open spec fn is_ws(c: char) -> bool {
    c == ' ' || ('\t' <= c && c <= '\r') || c == '\u{85}' || c == '\u{a0}' || c == '\u{1680}'
        || ('\u{2000}' <= c && c <= '\u{200a}') || c == '\u{2028}' || c == '\u{2029}'
        || c == '\u{202f}' || c == '\u{205f}' || c == '\u{3000}'
}

pub fn is_whitespace(c: char) -> (r: bool)
    ensures
        r == is_ws(c),
{
    c == ' ' || ('\t' <= c && c <= '\r') || c == '\u{85}' || c == '\u{a0}' || c == '\u{1680}'
        || ('\u{2000}' <= c && c <= '\u{200a}') || c == '\u{2028}' || c == '\u{2029}'
        || c == '\u{202f}' || c == '\u{205f}' || c == '\u{3000}'
}

pub open spec fn trim_left(s: Seq<char>) -> Seq<char>
    decreases s.len(),
{
    if s.len() > 0 && is_ws(s[0]) {
        trim_left(s.drop_first())
    } else {
        s
    }
}

pub open spec fn trim_right(s: Seq<char>) -> Seq<char>
    decreases s.len(),
{
    if s.len() > 0 && is_ws(s.last()) {
        trim_right(s.drop_last())
    } else {
        s
    }
}

/// The text without leading and trailing whitespace.
pub open spec fn trimmed(s: Seq<char>) -> Seq<char> {
    trim_right(trim_left(s))
}

pub open spec fn is_trimmed(s: Seq<char>) -> bool {
    s.len() == 0 || (!is_ws(s[0]) && !is_ws(s.last()))
}

proof fn lemma_trim_left_step(s: Seq<char>, i: int)
    requires
        0 <= i < s.len(),
        is_ws(s[i]),
    ensures
        trim_left(s.subrange(i, s.len() as int)) == trim_left(s.subrange(i + 1, s.len() as int)),
{
    assert(s.subrange(i, s.len() as int).drop_first() =~= s.subrange(i + 1, s.len() as int));
}

proof fn lemma_trim_right_step(s: Seq<char>, j: int)
    requires
        0 < j <= s.len(),
        is_ws(s[j - 1]),
    ensures
        trim_right(s.subrange(0, j)) == trim_right(s.subrange(0, j - 1)),
{
    assert(s.subrange(0, j).drop_last() =~= s.subrange(0, j - 1));
}

/// The bounds `(lo, hi)` of the text without its outer whitespace.
pub fn trim_bounds(s: &Vec<char>) -> (r: (usize, usize))
    ensures
        r.0 <= r.1 <= s@.len(),
        s@.subrange(r.0 as int, r.1 as int) == trimmed(s@),
{
    let n = s.len();
    let mut lo: usize = 0;
    proof { assert(s@.subrange(0, n as int) =~= s@); }
    while lo < n && is_whitespace(s[lo])
        invariant
            lo <= n == s@.len(),
            trim_left(s@.subrange(lo as int, n as int)) == trim_left(s@),
        decreases n - lo,
    {
        proof { lemma_trim_left_step(s@, lo as int); }
        lo = lo + 1;
    }
    let ghost t = s@.subrange(lo as int, n as int);
    proof {
        if lo < n {
            assert(t[0] == s@[lo as int]);
        }
        assert(trim_left(t) == t);
    }
    let mut hi: usize = n;
    while hi > lo && is_whitespace(s[hi - 1])
        invariant
            lo <= hi <= n == s@.len(),
            t == s@.subrange(lo as int, n as int),
            trim_right(s@.subrange(lo as int, hi as int)) == trim_right(t),
        decreases hi,
    {
        proof {
            let u = s@.subrange(lo as int, hi as int);
            assert(u[hi - 1 - lo] == s@[hi - 1]);
            lemma_trim_right_step(u, (hi - lo) as int);
            assert(u.subrange(0, (hi - lo) as int) =~= u);
            assert(u.subrange(0, (hi - 1 - lo) as int) =~= s@.subrange(lo as int, hi - 1));
        }
        hi = hi - 1;
    }
    proof {
        let u = s@.subrange(lo as int, hi as int);
        if u.len() > 0 {
            assert(u.last() == s@[hi - 1]);
        }
    }
    (lo, hi)
}

/// The text without leading and trailing whitespace.
pub fn trim(s: &str) -> (r: String)
    ensures
        r@ == trimmed(s@),
{
    let v = chars_of(s);
    let (lo, hi) = trim_bounds(&v);
    let w = slice_of(&v, lo, hi);
    string_of(&w)
}

/// The characters of `v` in `[lo, hi)`.
pub fn slice_of(v: &Vec<char>, lo: usize, hi: usize) -> (r: Vec<char>)
    requires
        lo <= hi <= v@.len(),
    ensures
        r@ == v@.subrange(lo as int, hi as int),
{
    let mut r: Vec<char> = Vec::new();
    let mut i: usize = lo;
    while i < hi
        invariant
            lo <= i <= hi <= v@.len(),
            r@ == v@.subrange(lo as int, i as int),
        decreases hi - i,
    {
        r.push(v[i]);
        i = i + 1;
        proof { assert(r@ =~= v@.subrange(lo as int, i as int)); }
    }
    r
}

/// Where the comment stripper stands between two characters.
pub enum StripMode {
    /// Outside string literals and comments.
    Code,
    /// After a `/` outside a string literal, before the next character.
    Slash,
    /// Inside a string literal.
    Str,
    /// Inside a string literal, right after a backslash.
    StrEscape,
    /// Inside a `//` comment.
    LineComment,
    /// Inside a `/* */` comment; the flag says the last character was `*`.
    BlockComment(bool),
}

/// One character of input: the next mode and what is emitted.
pub open spec fn strip_step(m: StripMode, c: char) -> (StripMode, Seq<char>) {
    match m {
        StripMode::Code => if c == '/' {
            (StripMode::Slash, Seq::empty())
        } else if c == '"' {
            (StripMode::Str, seq![c])
        } else {
            (StripMode::Code, seq![c])
        },
        StripMode::Slash => if c == '/' {
            (StripMode::LineComment, Seq::empty())
        } else if c == '*' {
            (StripMode::BlockComment(false), Seq::empty())
        } else if c == '"' {
            (StripMode::Str, seq!['/', c])
        } else {
            (StripMode::Code, seq!['/', c])
        },
        StripMode::Str => if c == '\\' {
            (StripMode::StrEscape, seq![c])
        } else if c == '"' {
            (StripMode::Code, seq![c])
        } else {
            (StripMode::Str, seq![c])
        },
        StripMode::StrEscape => (StripMode::Str, seq![c]),
        StripMode::LineComment => if c == '\n' {
            (StripMode::Code, seq![c])
        } else {
            (StripMode::LineComment, Seq::empty())
        },
        StripMode::BlockComment(star) => if star && c == '/' {
            (StripMode::Code, Seq::empty())
        } else {
            (StripMode::BlockComment(c == '*'), Seq::empty())
        },
    }
}

/// What is emitted when the input ends in the given mode.
pub open spec fn strip_finish(m: StripMode) -> Seq<char> {
    match m {
        StripMode::Slash => seq!['/'],
        _ => Seq::empty(),
    }
}

/// What the stripper emits for `s[i..]`, starting in mode `m`.
pub open spec fn strip_from(s: Seq<char>, i: int, m: StripMode) -> Seq<char>
    decreases s.len() - i,
{
    if i >= s.len() {
        strip_finish(m)
    } else {
        let (m2, out) = strip_step(m, s[i]);
        out + strip_from(s, i + 1, m2)
    }
}

/// The text with `//` and `/* */` comments removed; comment markers inside
/// string literals (with backslash escapes) are kept. A line comment keeps
/// its terminating newline.
pub open spec fn without_comments(s: Seq<char>) -> Seq<char> {
    strip_from(s, 0, StripMode::Code)
}

fn strip_step_exec(m: StripMode, c: char, out: &mut Vec<char>) -> (r: StripMode)
    ensures
        r == strip_step(m, c).0,
        final(out)@ == old(out)@ + strip_step(m, c).1,
{
    match m {
        StripMode::Code => if c == '/' {
            StripMode::Slash
        } else if c == '"' {
            out.push(c);
            StripMode::Str
        } else {
            out.push(c);
            StripMode::Code
        },
        StripMode::Slash => if c == '/' {
            StripMode::LineComment
        } else if c == '*' {
            StripMode::BlockComment(false)
        } else {
            out.push('/');
            out.push(c);
            if c == '"' {
                StripMode::Str
            } else {
                StripMode::Code
            }
        },
        StripMode::Str => {
            out.push(c);
            if c == '\\' {
                StripMode::StrEscape
            } else if c == '"' {
                StripMode::Code
            } else {
                StripMode::Str
            }
        },
        StripMode::StrEscape => {
            out.push(c);
            StripMode::Str
        },
        StripMode::LineComment => if c == '\n' {
            out.push(c);
            StripMode::Code
        } else {
            StripMode::LineComment
        },
        StripMode::BlockComment(star) => if star && c == '/' {
            StripMode::Code
        } else {
            StripMode::BlockComment(c == '*')
        },
    }
}

/// Removes `//` and `/* */` comments from JSON text, leaving string
/// literals intact.
pub fn strip_json_comments(content: &str) -> (r: String)
    ensures
        r@ == without_comments(content@),
{
    let s = chars_of(content);
    let mut out: Vec<char> = Vec::new();
    let mut m = StripMode::Code;
    let mut i: usize = 0;
    while i < s.len()
        invariant
            i <= s@.len(),
            s@ == content@,
            out@ + strip_from(s@, i as int, m) == without_comments(content@),
        decreases s@.len() - i,
    {
        let ghost m0 = m;
        let ghost o0 = out@;
        m = strip_step_exec(m, s[i], &mut out);
        proof {
            assert(strip_from(s@, i as int, m0) == strip_step(m0, s@[i as int]).1 + strip_from(s@, i + 1, m));
            assert(o0 + (strip_step(m0, s@[i as int]).1 + strip_from(s@, i + 1, m))
                =~= out@ + strip_from(s@, i + 1, m));
        }
        i = i + 1;
    }
    match m {
        StripMode::Slash => out.push('/'),
        _ => {},
    }
    proof {
        assert(out@ =~= without_comments(content@));
    }
    string_of(&out)
}

/// The structured document's text as it is parsed: comments removed and
/// outer whitespace trimmed. Empty text stands for an empty document.
pub fn normalize_config_text(content: &str) -> (r: String)
    ensures
        r@ == trimmed(without_comments(content@)),
{
    let stripped = strip_json_comments(content);
    trim(stripped.as_str())
}

} // verus!
