use vstd::prelude::*;
use crate::paths::{join, join_path};
use crate::text::{chars_of, slice_of, string_of, trim, trimmed};

verus! {

/// The pattern of a file reference: `{file:<target>}`, matched case-insensitively.
pub const FILE_REFERENCE_PATTERN: &'static str = "(?i)^\\{file:(.+)\\}$";

pub open spec fn either(c: char, lower: char, upper: char) -> bool {
    c == lower || c == upper
}

/// The target captured from a text of the shape `{file:<target>}`, where
/// `file` may be written in any case and the target is one or more
/// characters, none of them a line feed.
pub open spec fn file_reference(s: Seq<char>) -> Option<Seq<char>> {
    if s.len() >= 8 && s[0] == '{' && either(s[1], 'f', 'F') && either(s[2], 'i', 'I')
        && either(s[3], 'l', 'L') && either(s[4], 'e', 'E') && s[5] == ':' && s.last() == '}'
        && forall|i: int| 6 <= i < s.len() - 1 ==> s[i] != '\n' {
        Some(s.subrange(6, s.len() - 1))
    } else {
        None
    }
}

/// Relies on regex::Regex::new and Regex::captures: with the file reference
/// pattern, which is anchored at both ends, group 1 is what `.+` matched
/// between `{file:` (any case) and the final `}`; `.` matches any character
/// but a line feed.
#[verifier::external_body]
fn capture_file_target(pattern: &str, s: &str) -> (r: Option<String>)
    requires
        pattern == FILE_REFERENCE_PATTERN,
    ensures
        match r {
            Some(t) => file_reference(s@) == Some(t@),
            None => file_reference(s@) is None,
        },
{
    let re = regex::Regex::new(pattern).ok()?;
    re.captures(s).and_then(|c| c.get(1)).map(|m| m.as_str().to_string())
}

/// Says whether a value, once trimmed, is a file reference.
pub fn is_prompt_file_reference(value: &str) -> (r: bool)
    ensures
        r == (file_reference(trimmed(value@)) is Some),
{
    let t = trim(value);
    capture_file_target(FILE_REFERENCE_PATTERN, t.as_str()).is_some()
}

pub open spec fn starts_dot_slash(t: Seq<char>) -> bool {
    t.len() >= 2 && t[0] == '.' && t[1] == '/'
}

/// Where a file reference points: a target starting with `./` or any other
/// relative target lies under the configuration directory; an absolute one
/// is taken as it is. An empty target points nowhere.
pub open spec fn reference_path(config_dir: Seq<char>, reference: Seq<char>) -> Option<Seq<char>> {
    match file_reference(trimmed(reference)) {
        None => None,
        Some(raw) => {
            let t = trimmed(raw);
            if t.len() == 0 {
                None
            } else if starts_dot_slash(t) {
                Some(join(config_dir, t.subrange(2, t.len() as int)))
            } else if t[0] == '/' {
                Some(t)
            } else {
                Some(join(config_dir, t))
            }
        },
    }
}

/// Resolves a file reference to the path of the file it names.
pub fn resolve_prompt_file_path(reference: &str, config_dir: &str) -> (r: Option<String>)
    ensures
        match r {
            Some(p) => reference_path(config_dir@, reference@) == Some(p@),
            None => reference_path(config_dir@, reference@) is None,
        },
{
    let trimmed_ref = trim(reference);
    let captured = capture_file_target(FILE_REFERENCE_PATTERN, trimmed_ref.as_str());
    match captured {
        None => None,
        Some(raw) => {
            let target = trim(raw.as_str());
            let v = chars_of(target.as_str());
            let n = v.len();
            if n == 0 {
                None
            } else if n >= 2 && v[0] == '.' && v[1] == '/' {
                let tail = string_of(&slice_of(&v, 2, n));
                Some(join_path(config_dir, tail.as_str()))
            } else if v[0] == '/' {
                Some(target)
            } else {
                Some(join_path(config_dir, target.as_str()))
            }
        },
    }
}

} // verus!
