use vstd::prelude::*;
use crate::fields::{FieldValue, Fields};
use crate::text::{chars_of, slice_of, string_of, trim, trim_left, trim_right, trimmed, is_trimmed, is_ws};

verus! {

/// A Markdown file split into its frontmatter fields and its body text.
pub struct FrontmatterDoc {
    pub fields: Fields,
    pub body: String,
}

impl FrontmatterDoc {
    pub open spec fn wf(&self) -> bool {
        self.fields.wf()
    }
}

/// Length of a line break (`\r\n` or `\n`) at `p`, or 0.
pub open spec fn eol_len(s: Seq<char>, p: int) -> int {
    if 0 <= p && p + 1 < s.len() && s[p] == '\r' && s[p + 1] == '\n' {
        2
    } else if 0 <= p && p < s.len() && s[p] == '\n' {
        1
    } else {
        0
    }
}

pub open spec fn dashes_at(s: Seq<char>, p: int) -> bool {
    0 <= p && p + 3 <= s.len() && s[p] == '-' && s[p + 1] == '-' && s[p + 2] == '-'
}

/// Length of the opening `---` line, or 0 when the text does not start with one.
pub open spec fn open_len(s: Seq<char>) -> int {
    if dashes_at(s, 0) && eol_len(s, 3) > 0 {
        3 + eol_len(s, 3)
    } else {
        0
    }
}

/// Length of a closing delimiter (line break, `---`, line break) at `p`, or 0.
pub open spec fn delim_len(s: Seq<char>, p: int) -> int {
    let a = eol_len(s, p);
    if a > 0 && dashes_at(s, p + a) && eol_len(s, p + a + 3) > 0 {
        a + 3 + eol_len(s, p + a + 3)
    } else {
        0
    }
}

/// `p` is the first closing delimiter at or after `start`.
pub open spec fn first_delim(s: Seq<char>, start: int, p: int) -> bool {
    start <= p && delim_len(s, p) > 0 && forall|q: int| start <= q < p ==> delim_len(s, q) == 0
}

/// The frontmatter frame of a text: the block between the delimiters and
/// what follows the closing one, when the text has that shape.
pub open spec fn frame_parts(s: Seq<char>) -> Option<(Seq<char>, Seq<char>)> {
    if open_len(s) > 0 && exists|p: int| first_delim(s, open_len(s), p) {
        let p = choose|p: int| first_delim(s, open_len(s), p);
        Some((s.subrange(open_len(s), p), s.subrange(p + delim_len(s, p), s.len() as int)))
    } else {
        None
    }
}

proof fn lemma_first_delim_unique(s: Seq<char>, start: int, p: int, q: int)
    requires
        first_delim(s, start, p),
        first_delim(s, start, q),
    ensures
        p == q,
{
    if p < q {
        assert(delim_len(s, p) == 0);
    } else if q < p {
        assert(delim_len(s, q) == 0);
    }
}

fn eol_len_at(v: &Vec<char>, p: usize) -> (r: usize)
    ensures
        r == eol_len(v@, p as int),
        r <= 2,
        r > 0 ==> p + r <= v@.len(),
{
    if p < v.len() && v[p] == '\n' {
        1
    } else if p < v.len() && v[p] == '\r' && p + 1 < v.len() && v[p + 1] == '\n' {
        2
    } else {
        0
    }
}

fn dashes_at_exec(v: &Vec<char>, p: usize) -> (r: bool)
    ensures
        r == dashes_at(v@, p as int),
        r ==> p + 3 <= v@.len(),
{
    p < v.len() && v[p] == '-' && p + 1 < v.len() && v[p + 1] == '-' && p + 2 < v.len() && v[p + 2] == '-'
}

fn delim_len_at(v: &Vec<char>, p: usize) -> (r: usize)
    requires
        p <= v@.len(),
    ensures
        r == delim_len(v@, p as int),
{
    let n = v.len();
    let a = eol_len_at(v, p);
    if a == 0 {
        return 0;
    }
    let q = p + a;
    if !dashes_at_exec(v, q) {
        return 0;
    }
    let b = eol_len_at(v, q + 3);
    if b > 0 {
        a + 3 + b
    } else {
        0
    }
}

/// Splits a text into its frontmatter block and the text after the closing
/// delimiter; `None` when the text does not have the frontmatter shape.
pub fn split_frontmatter(content: &str) -> (r: Option<(String, String)>)
    ensures
        match r {
            Some((b, rest)) => frame_parts(content@) == Some((b@, rest@)),
            None => frame_parts(content@) is None,
        },
{
    let v = chars_of(content);
    let n = v.len();
    let start: usize = if dashes_at_exec(&v, 0) {
        let e = eol_len_at(&v, 3);
        if e > 0 { 3 + e } else { 0 }
    } else {
        0
    };
    if start == 0 {
        return None;
    }
    let mut p: usize = start;
    while p < n
        invariant
            start == open_len(v@),
            start > 0,
            start <= p <= n == v@.len(),
            v@ == content@,
            forall|q: int| start <= q < p ==> delim_len(v@, q) == 0,
        decreases n - p,
    {
        let d = delim_len_at(&v, p);
        if d > 0 {
            proof {
                assert(first_delim(v@, start as int, p as int));
                let pc = choose|pp: int| first_delim(v@, open_len(v@), pp);
                lemma_first_delim_unique(v@, start as int, p as int, pc);
            }
            let block = slice_of(&v, start, p);
            let rest = slice_of(&v, p + d, n);
            let bs = string_of(&block);
            let rs = string_of(&rest);
            proof {
                assert(exists|pp: int| first_delim(v@, open_len(v@), pp));
                let pc = choose|pp: int| first_delim(v@, open_len(v@), pp);
                assert(pc == p);
                assert(delim_len(v@, pc) == d);
                assert(bs@ == v@.subrange(open_len(v@), pc));
                assert(rs@ == v@.subrange(pc + delim_len(v@, pc), v@.len() as int));
                assert(frame_parts(v@) == Some((bs@, rs@)));
            }
            return Some((bs, rs));
        }
        p = p + 1;
    }
    proof {
        assert forall|pp: int| !first_delim(v@, start as int, pp) by {
            if first_delim(v@, start as int, pp) && pp >= n {
                assert(eol_len(v@, pp) == 0);
            }
        }
    }
    None
}

/// A frontmatter file read back: the raw field block, if the text has the
/// frontmatter shape, and the trimmed body.
pub open spec fn read_parts(s: Seq<char>) -> (Option<Seq<char>>, Seq<char>) {
    match frame_parts(s) {
        Some((b, rest)) => (Some(b), trimmed(rest)),
        None => (None, trimmed(s)),
    }
}

/// Reads a frontmatter file's text: the field block to be parsed, if there
/// is one, and the body with its outer whitespace trimmed.
pub fn parse_frontmatter_text(content: &str) -> (r: (Option<String>, String))
    ensures
        (match r.0 {
            Some(b) => read_parts(content@).0 == Some(b@),
            None => read_parts(content@).0 is None,
        }),
        r.1@ == read_parts(content@).1,
{
    match split_frontmatter(content) {
        Some((block, rest)) => {
            let body = trim(rest.as_str());
            (Some(block), body)
        },
        None => (None, trim(content)),
    }
}

/// The text of a frontmatter file whose serialized field block is `block`.
pub open spec fn frame(block: Seq<char>, body: Seq<char>) -> Seq<char> {
    seq!['-', '-', '-', '\n'] + block + seq!['-', '-', '-', '\n', '\n'] + body
}

/// Lays out a frontmatter file: the opening delimiter, the serialized field
/// block (which ends with a line break), the closing delimiter, a blank line
/// and the body.
pub fn render_frontmatter(block: &str, body: &str) -> (r: String)
    ensures
        r@ == frame(block@, body@),
{
    let mut out: Vec<char> = Vec::new();
    out.push('-');
    out.push('-');
    out.push('-');
    out.push('\n');
    let b = chars_of(block);
    let mut i: usize = 0;
    while i < b.len()
        invariant
            i <= b@.len(),
            out@ == seq!['-', '-', '-', '\n'] + b@.subrange(0, i as int),
        decreases b@.len() - i,
    {
        out.push(b[i]);
        i = i + 1;
        proof { assert(out@ =~= seq!['-', '-', '-', '\n'] + b@.subrange(0, i as int)); }
    }
    out.push('-');
    out.push('-');
    out.push('-');
    out.push('\n');
    out.push('\n');
    let t = chars_of(body);
    let ghost head = out@;
    let mut j: usize = 0;
    while j < t.len()
        invariant
            j <= t@.len(),
            out@ == head + t@.subrange(0, j as int),
        decreases t@.len() - j,
    {
        out.push(t[j]);
        j = j + 1;
        proof { assert(out@ =~= head + t@.subrange(0, j as int)); }
    }
    proof {
        assert(b@.subrange(0, b@.len() as int) =~= b@);
        assert(t@.subrange(0, t@.len() as int) =~= t@);
        assert(out@ =~= frame(block@, body@));
    }
    string_of(&out)
}

/// The fields that a frontmatter file keeps: those whose value is not null.
pub open spec fn non_null(m: Map<Seq<char>, FieldValue>) -> Map<Seq<char>, FieldValue> {
    m.restrict(m.dom().filter(|k: Seq<char>| !m[k].spec_is_null()))
}

/// Drops the fields whose value is null; a frontmatter file omits them.
pub fn without_nulls(fields: Fields) -> (r: Fields)
    requires
        fields.wf(),
    ensures
        r.wf(),
        r@ == non_null(fields@),
{
    let ghost orig = fields@;
    let mut rest = fields;
    let mut r = Fields::new();
    proof { rest.lemma_view_finite(); }
    loop
        invariant_except_break
            rest.wf(),
            r.wf(),
            rest@.dom().finite(),
            forall|k: Seq<char>| #[trigger] rest@.contains_key(k) ==> orig.contains_key(k) && rest@[k] == orig[k],
            forall|k: Seq<char>| #[trigger] r@.contains_key(k) <==>
                (orig.contains_key(k) && !rest@.contains_key(k) && !orig[k].spec_is_null()),
            forall|k: Seq<char>| #[trigger] r@.contains_key(k) ==> r@[k] == orig[k],
        ensures
            r.wf(),
            r@ == non_null(orig),
        decreases rest@.len(),
    {
        let e = rest.pop();
        match e {
            Some((k, v)) => {
                if !v.is_null() {
                    r.insert(k, v);
                }
            },
            None => {
                proof {
                    rest@.dom().lemma_len0_is_empty();
                    assert(rest@.dom() =~= Set::<Seq<char>>::empty());
                    assert(r@ =~= non_null(orig));
                }
                break;
            },
        }
    }
    r
}

/// Laying out a field block and a body, then reading the text back, gives
/// back the block (without the line break that ends it) and the body, when
/// the block holds no delimiter line of its own and the body has no outer
/// whitespace.
pub proof fn lemma_frame_round_trip(block: Seq<char>, body: Seq<char>)
    requires
        block.len() > 0,
        block.last() == '\n',
        forall|q: int| 4 <= q < 4 + block.len() - 1 ==> delim_len(frame(block, body), q) == 0,
        is_trimmed(body),
    ensures
        read_parts(frame(block, body)) == (Some(block.drop_last()), body),
{
    let s = frame(block, body);
    let n = block.len() as int;
    assert(s[0] == '-' && s[1] == '-' && s[2] == '-' && s[3] == '\n');
    assert(open_len(s) == 4);
    let p = 4 + n - 1;
    assert(s[p] == '\n');
    assert(s[p + 1] == '-' && s[p + 2] == '-' && s[p + 3] == '-' && s[p + 4] == '\n');
    assert(delim_len(s, p) == 5);
    assert(first_delim(s, 4, p));
    let pc = choose|pp: int| first_delim(s, open_len(s), pp);
    lemma_first_delim_unique(s, 4, p, pc);
    assert(s.subrange(4, p) =~= block.drop_last());
    let rest = s.subrange(p + 5, s.len() as int);
    assert(rest =~= seq!['\n'] + body);
    assert(rest.drop_first() =~= body);
    assert(is_ws(rest[0]));
    if body.len() > 0 {
        assert(trim_left(rest) == trim_left(body));
        assert(trim_left(body) == body);
    } else {
        assert(rest.drop_first().len() == 0);
        assert(trim_left(rest) == trim_left(body));
    }
    assert(trim_right(body) == body);
}

} // verus!
