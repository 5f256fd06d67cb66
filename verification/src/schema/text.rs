//! Small text operations the schema rules are written in: comparing, joining,
//! indenting and filtering strings, and the few mappings that std and syn
//! perform for us (uppercasing, debug quoting, reading a path).

use vstd::prelude::*;
use vstd::string::StrSliceExecFns;
use vstd::string::StringExecFns;

verus! {

/// The texts held by a sequence of strings.
pub open spec fn texts(v: Seq<String>) -> Seq<Seq<char>> {
    v.map_values(|s: String| s@)
}

/// `a` and `b` hold the same text.
pub fn same_text(a: &str, b: &str) -> (same: bool)
    ensures
        same == (a@ == b@),
{
    let left = a.to_owned();
    let right = b.to_owned();
    left == right
}

/// `a` followed by `b`.
pub fn concat(a: &str, b: &str) -> (joined: String)
    ensures
        joined@ == a@ + b@,
{
    let mut joined = a.to_owned();
    joined.append(b);
    joined
}

/// A copy of each string, in order.
pub fn copy_texts(v: &Vec<String>) -> (copy: Vec<String>)
    ensures
        texts(copy@) == texts(v@),
{
    let mut copy: Vec<String> = Vec::new();
    let mut i: usize = 0;
    while i < v.len()
        invariant
            i <= v@.len(),
            copy@.len() == i,
            forall|j: int| 0 <= j < i ==> #[trigger] copy@[j]@ == v@[j]@,
        decreases v@.len() - i,
    {
        copy.push(v[i].clone());
        i = i + 1;
    }
    assert(texts(copy@) =~= texts(v@));
    copy
}

/// The parts with `sep` between each adjacent pair.
pub open spec fn spec_join(parts: Seq<Seq<char>>, sep: Seq<char>) -> Seq<char>
    decreases parts.len(),
{
    if parts.len() == 0 {
        seq![]
    } else if parts.len() == 1 {
        parts[0]
    } else {
        spec_join(parts.drop_last(), sep) + sep + parts.last()
    }
}

/// Join the parts with `sep` between each adjacent pair.
pub fn join_texts(parts: &Vec<String>, sep: &str) -> (joined: String)
    ensures
        joined@ == spec_join(texts(parts@), sep@),
{
    let mut joined = String::new();
    let mut i: usize = 0;
    while i < parts.len()
        invariant
            i <= parts@.len(),
            joined@ == spec_join(texts(parts@.subrange(0, i as int)), sep@),
        decreases parts@.len() - i,
    {
        proof {
            let head = texts(parts@.subrange(0, i as int + 1));
            assert(head.drop_last() =~= texts(parts@.subrange(0, i as int)));
            assert(head.last() == parts@[i as int]@);
        }
        if i > 0 {
            joined.append(sep);
        }
        joined.append(parts[i].as_str());
        i = i + 1;
    }
    assert(parts@.subrange(0, parts@.len() as int) =~= parts@);
    joined
}

/// Two spaces per level of depth.
pub open spec fn spec_indent(depth: nat) -> Seq<char>
    decreases depth,
{
    if depth == 0 {
        seq![]
    } else {
        spec_indent((depth - 1) as nat) + seq![' ', ' ']
    }
}

/// Two spaces per level of depth.
pub fn indent(depth: usize) -> (pad: String)
    ensures
        pad@ == spec_indent(depth as nat),
{
    let mut pad = String::new();
    let mut i: usize = 0;
    while i < depth
        invariant
            i <= depth,
            pad@ == spec_indent(i as nat),
        decreases depth - i,
    {
        pad.append("  ");
        proof {
            reveal_strlit("  ");
        }
        i = i + 1;
    }
    pad
}

/// The text with every space removed.
pub open spec fn without_spaces(s: Seq<char>) -> Seq<char>
    decreases s.len(),
{
    if s.len() == 0 {
        seq![]
    } else if s.last() == ' ' {
        without_spaces(s.drop_last())
    } else {
        without_spaces(s.drop_last()).push(s.last())
    }
}

/// The text with every space removed.
pub fn remove_spaces(text: &str) -> (out: String)
    ensures
        out@ == without_spaces(text@),
{
    let n = text.unicode_len();
    let mut out = String::new();
    let mut i: usize = 0;
    while i < n
        invariant
            n == text@.len(),
            i <= n,
            out@ == without_spaces(text@.subrange(0, i as int)),
        decreases n - i,
    {
        let c = text.get_char(i);
        proof {
            let head = text@.subrange(0, i as int + 1);
            assert(head.drop_last() =~= text@.subrange(0, i as int));
            assert(head.last() == c);
        }
        if c != ' ' {
            let piece = text.substring_char(i, i + 1);
            out.append(piece);
            proof {
                assert(piece@ =~= seq![c]);
                assert(out@ =~= without_spaces(text@.subrange(0, i as int)).push(c));
            }
        }
        i = i + 1;
    }
    assert(text@.subrange(0, n as int) =~= text@);
    out
}

/// The Unicode uppercase mapping of a text, as `str::to_uppercase` computes it.
pub uninterp spec fn spec_uppercase(text: Seq<char>) -> Seq<char>;

/// Every char of `text` is ASCII.
pub open spec fn all_ascii(text: Seq<char>) -> bool {
    forall|i: int| 0 <= i < text.len() ==> (#[trigger] text[i] as int) < 128
}

/// `c` with ASCII `a`-`z` raised to `A`-`Z`; any other char as it is.
pub open spec fn ascii_upper(c: char) -> char {
    if 97 <= (c as int) <= 122 {
        ((c as int) - 32) as char
    } else {
        c
    }
}

/// `str::to_uppercase`: each char replaced by its Unicode uppercase mapping.
/// The mapping itself is left to the name [`spec_uppercase`]; on ASCII text it
/// raises `a`-`z` to `A`-`Z` and keeps every other char.
#[verifier::external_body]
pub(crate) fn uppercase(text: &str) -> (upper: String)
    ensures
        upper@ == spec_uppercase(text@),
        all_ascii(text@) ==> upper@ == text@.map_values(|c: char| ascii_upper(c)),
{
    text.to_uppercase()
}

/// What `{:?}` makes of a `str`: the text in double quotes, with quotes,
/// backslashes and unprintable chars escaped.
pub uninterp spec fn spec_debug_quoted(text: Seq<char>) -> Seq<char>;

/// `<str as Debug>::fmt` through `format!("{:?}", ..)`. What it writes is left
/// to the name [`spec_debug_quoted`].
#[verifier::external_body]
pub(crate) fn debug_quoted(text: &str) -> (quoted: String)
    ensures
        quoted@ == spec_debug_quoted(text@),
{
    format!("{:?}", text)
}

/// Whether syn reads the whole of `text` as a Rust path.
pub uninterp spec fn spec_is_path(text: Seq<char>) -> bool;

/// `syn::parse_str::<syn::Path>` succeeds on `text`. Which texts it accepts is
/// left to the name [`spec_is_path`].
#[verifier::external_body]
pub(crate) fn parses_as_path(text: &str) -> (ok: bool)
    ensures
        ok == spec_is_path(text@),
{
    syn::parse_str::<syn::Path>(text).is_ok()
}

} // verus!
