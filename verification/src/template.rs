//! Minimal `{{ expr }}` interpolation over raw bytes.
//!
//! Substitutes `{{ expr }}` tokens in a byte slice (typically config file
//! contents read before parsing) with values supplied by a [`Resolver`]. The
//! expression syntax is opaque to this module: the resolver decides what an
//! `expr` means; [`EnvResolver`] reads `env::NAME`, for example. Resolvers
//! compose: a tuple of resolvers is itself a [`Resolver`] that tries each in
//! order, first match wins.
//!
//! A resolver may consult state that changes between calls (the process
//! environment, say), so the contracts below speak of the sequence of answers
//! the resolver gave, one per expression it was asked about, each of which the
//! resolver's own `resolves` relation allows.

use std::borrow::Cow;
use vstd::prelude::*;
use vstd::utf8::valid_utf8;
use vstd::utf8::decode_utf8;
use vstd::string::StringSliceAdditionalSpecFns;
use vstd::string::StrSliceExecFns;

verus! {

// ---------------------------------------------------------------------------
// Lexical structure of a template
// ---------------------------------------------------------------------------

/// `{{` starts at byte `p`.
pub open spec fn opens_at(s: Seq<u8>, p: int) -> bool {
    0 <= p && p + 1 < s.len() && s[p] == 0x7bu8 && s[p + 1] == 0x7bu8
}

/// `}}` starts at byte `p`.
pub open spec fn closes_at(s: Seq<u8>, p: int) -> bool {
    0 <= p && p + 1 < s.len() && s[p] == 0x7du8 && s[p + 1] == 0x7du8
}

/// The input holds at least one `{{`.
pub open spec fn spec_has_template(s: Seq<u8>) -> bool {
    exists|p: int| opens_at(s, p)
}

/// The first `}}` at or after `start`, if any.
pub open spec fn first_closing(s: Seq<u8>, start: int) -> Option<int>
    decreases s.len() - start,
{
    if start < 0 || start + 1 >= s.len() {
        None
    } else if closes_at(s, start) {
        Some(start)
    } else {
        first_closing(s, start + 1)
    }
}

/// A token `{{ ... }}` begins at `pos`; the result is the position of its `}}`.
/// An unclosed `{{` is no token.
pub open spec fn token_end(s: Seq<u8>, pos: int) -> Option<int> {
    if opens_at(s, pos) {
        first_closing(s, pos + 2)
    } else {
        None
    }
}

/// Unicode `White_Space`, the whitespace that `str::trim` removes.
pub open spec fn is_white_space(c: char) -> bool {
    let u = c as u32;
    ||| 0x9 <= u <= 0xd
    ||| u == 0x20
    ||| u == 0x85
    ||| u == 0xa0
    ||| u == 0x1680
    ||| 0x2000 <= u <= 0x200a
    ||| u == 0x2028
    ||| u == 0x2029
    ||| u == 0x202f
    ||| u == 0x205f
    ||| u == 0x3000
}

pub open spec fn trim_start(s: Seq<char>) -> Seq<char>
    decreases s.len(),
{
    if s.len() > 0 && is_white_space(s[0]) {
        trim_start(s.drop_first())
    } else {
        s
    }
}

pub open spec fn trim_end(s: Seq<char>) -> Seq<char>
    decreases s.len(),
{
    if s.len() > 0 && is_white_space(s.last()) {
        trim_end(s.drop_last())
    } else {
        s
    }
}

/// The text with leading and trailing whitespace removed.
pub open spec fn spec_trim(s: Seq<char>) -> Seq<char> {
    trim_end(trim_start(s))
}

/// The expression a resolver is asked about for the raw bytes between `{{` and `}}`.
pub open spec fn expr_text(raw: Seq<u8>) -> Seq<char> {
    spec_trim(decode_utf8(raw))
}

/// What a strict render failure carries.
pub ghost enum TemplateFailure {
    Unresolved { expr: Seq<char>, offset: int },
    InvalidExpr { offset: int },
}

/// Put `head` in front of a successful outcome.
pub open spec fn prefix_ok(
    head: Seq<u8>,
    rest: Option<Result<Seq<u8>, TemplateFailure>>,
) -> Option<Result<Seq<u8>, TemplateFailure>> {
    match rest {
        Some(Ok(tail)) => Some(Ok(head + tail)),
        other => other,
    }
}

/// Put `head` in front of a lenient outcome.
pub open spec fn prefix_some(head: Seq<u8>, rest: Option<Seq<u8>>) -> Option<Seq<u8>> {
    match rest {
        Some(tail) => Some(head + tail),
        None => None,
    }
}

/// Strict rendering of `s` from byte `pos`, given the answers `outs` the resolver
/// gives, in order, to the expressions it is asked about. `None` when `outs` is
/// not exactly the sequence of answers such a run consumes, or when an answer
/// is one the resolver does not allow.
pub open spec fn strict_spec<R: Resolver>(
    resolver: &R,
    s: Seq<u8>,
    pos: int,
    outs: Seq<Option<Seq<u8>>>,
) -> Option<Result<Seq<u8>, TemplateFailure>>
    decreases s.len() - pos,
{
    if pos < 0 || pos >= s.len() {
        if outs.len() == 0 {
            Some(Ok(seq![]))
        } else {
            None
        }
    } else if let Some(end) = token_end(s, pos) {
        proof {
            lemma_first_closing_bounds(s, pos + 2);
        }
        let raw = s.subrange(pos + 2, end);
        if !valid_utf8(raw) {
            if outs.len() == 0 {
                Some(Err(TemplateFailure::InvalidExpr { offset: pos }))
            } else {
                None
            }
        } else if outs.len() == 0 || !resolver.resolves(expr_text(raw), outs[0]) {
            None
        } else {
            match outs[0] {
                None => if outs.len() == 1 {
                    Some(Err(TemplateFailure::Unresolved { expr: expr_text(raw), offset: pos }))
                } else {
                    None
                },
                Some(value) => prefix_ok(value, strict_spec(resolver, s, end + 2, outs.drop_first())),
            }
        }
    } else {
        prefix_ok(seq![s[pos]], strict_spec(resolver, s, pos + 1, outs))
    }
}

/// Lenient rendering of `s` from byte `pos`, given the resolver's answers `outs`
/// (see [`strict_spec`]). A token whose expression is unresolved or not UTF-8
/// is copied through verbatim, `{{` and `}}` included.
pub open spec fn lenient_spec<R: Resolver>(
    resolver: &R,
    s: Seq<u8>,
    pos: int,
    outs: Seq<Option<Seq<u8>>>,
) -> Option<Seq<u8>>
    decreases s.len() - pos,
{
    if pos < 0 || pos >= s.len() {
        if outs.len() == 0 {
            Some(seq![])
        } else {
            None
        }
    } else if let Some(end) = token_end(s, pos) {
        proof {
            lemma_first_closing_bounds(s, pos + 2);
        }
        let raw = s.subrange(pos + 2, end);
        if !valid_utf8(raw) {
            prefix_some(s.subrange(pos, end + 2), lenient_spec(resolver, s, end + 2, outs))
        } else if outs.len() == 0 || !resolver.resolves(expr_text(raw), outs[0]) {
            None
        } else {
            let piece = match outs[0] {
                Some(value) => value,
                None => s.subrange(pos, end + 2),
            };
            prefix_some(piece, lenient_spec(resolver, s, end + 2, outs.drop_first()))
        }
    } else {
        prefix_some(seq![s[pos]], lenient_spec(resolver, s, pos + 1, outs))
    }
}

pub proof fn lemma_first_closing_bounds(s: Seq<u8>, start: int)
    ensures
        first_closing(s, start) matches Some(end) ==> start <= end && closes_at(s, end),
    decreases s.len() - start,
{
    if !(start < 0 || start + 1 >= s.len()) && !closes_at(s, start) {
        lemma_first_closing_bounds(s, start + 1);
    }
}

// ---------------------------------------------------------------------------
// Resolvers
// ---------------------------------------------------------------------------

/// The bytes of an optional resolver answer.
pub open spec fn answer_bytes(out: Option<Cow<'_, [u8]>>) -> Option<Seq<u8>> {
    match out {
        Some(value) => Some(value@),
        None => None,
    }
}

/// Resolves a template expression to its replacement bytes, or `None` if it
/// can't (which strict [`render`] turns into an error and [`render_lenient`]
/// leaves untouched).
pub trait Resolver: Send + Sync {
    /// The answers this resolver may give for `expr`. Unless an
    /// implementation says more, any answer may come.
    open spec fn resolves(&self, expr: Seq<char>, out: Option<Seq<u8>>) -> bool {
        true
    }

    /// Look up `expr` (the trimmed contents of a `{{ }}`), returning its bytes.
    fn resolve(&self, expr: &str) -> (out: Option<Cow<'_, [u8]>>)
        ensures
            self.resolves(expr@, answer_bytes(out)),
    ;
}

impl<A: Resolver, B: Resolver> Resolver for (A, B) {
    open spec fn resolves(&self, expr: Seq<char>, out: Option<Seq<u8>>) -> bool {
        ||| out is Some && self.0.resolves(expr, out)
        ||| self.0.resolves(expr, None) && self.1.resolves(expr, out)
    }

    fn resolve(&self, expr: &str) -> (out: Option<Cow<'_, [u8]>>) {
        match self.0.resolve(expr) {
            Some(value) => Some(value),
            None => self.1.resolve(expr),
        }
    }
}

impl<A: Resolver, B: Resolver, C: Resolver> Resolver for (A, B, C) {
    open spec fn resolves(&self, expr: Seq<char>, out: Option<Seq<u8>>) -> bool {
        ||| out is Some && self.0.resolves(expr, out)
        ||| self.0.resolves(expr, None) && out is Some && self.1.resolves(expr, out)
        ||| self.0.resolves(expr, None) && self.1.resolves(expr, None) && self.2.resolves(
            expr,
            out,
        )
    }

    fn resolve(&self, expr: &str) -> (out: Option<Cow<'_, [u8]>>) {
        match self.0.resolve(expr) {
            Some(value) => Some(value),
            None => match self.1.resolve(expr) {
                Some(value) => Some(value),
                None => self.2.resolve(expr),
            },
        }
    }
}

impl<A: Resolver, B: Resolver, C: Resolver, D: Resolver> Resolver for (A, B, C, D) {
    open spec fn resolves(&self, expr: Seq<char>, out: Option<Seq<u8>>) -> bool {
        ||| out is Some && self.0.resolves(expr, out)
        ||| self.0.resolves(expr, None) && out is Some && self.1.resolves(expr, out)
        ||| self.0.resolves(expr, None) && self.1.resolves(expr, None) && out is Some
            && self.2.resolves(expr, out)
        ||| self.0.resolves(expr, None) && self.1.resolves(expr, None) && self.2.resolves(
            expr,
            None,
        ) && self.3.resolves(expr, out)
    }

    fn resolve(&self, expr: &str) -> (out: Option<Cow<'_, [u8]>>) {
        match self.0.resolve(expr) {
            Some(value) => Some(value),
            None => match self.1.resolve(expr) {
                Some(value) => Some(value),
                None => match self.2.resolve(expr) {
                    Some(value) => Some(value),
                    None => self.3.resolve(expr),
                },
            },
        }
    }
}

/// `out` is the only answer `r` may give for `expr`.
pub open spec fn only_answer<R: Resolver>(r: &R, expr: Seq<char>, out: Option<Seq<u8>>) -> bool {
    forall|o: Option<Seq<u8>>| #[trigger] r.resolves(expr, o) ==> o == out
}

/// A pair of resolvers tries the first, then the second: when the first
/// answers, its answer wins; the second is asked only when the first has no
/// answer; no answer comes when neither has one.
pub proof fn law_pair_first_answer_wins<A: Resolver, B: Resolver>(
    r: (A, B),
    expr: Seq<char>,
    out: Option<Seq<u8>>,
    v: Seq<u8>,
)
    requires
        r.resolves(expr, out),
    ensures
        only_answer(&r.0, expr, Some(v)) ==> out == Some(v),
        only_answer(&r.0, expr, None) ==> r.1.resolves(expr, out),
        out is Some ==> r.0.resolves(expr, out) || r.1.resolves(expr, out),
        out is None ==> r.0.resolves(expr, None) && r.1.resolves(expr, None),
{
    if only_answer(&r.0, expr, Some(v)) {
        if r.0.resolves(expr, None) {
            assert(r.0.resolves(expr, None));
        }
    }
    if only_answer(&r.0, expr, None) {
        if out is Some && r.0.resolves(expr, out) {
            assert(r.0.resolves(expr, out));
        }
    }
}

/// A triple of resolvers tries each in order and the first that answers wins:
/// the second is asked only when the first has no answer, the third only when
/// neither of the first two has one; no answer comes when none has one.
pub proof fn law_triple_first_answer_wins<A: Resolver, B: Resolver, C: Resolver>(
    r: (A, B, C),
    expr: Seq<char>,
    out: Option<Seq<u8>>,
    v: Seq<u8>,
)
    requires
        r.resolves(expr, out),
    ensures
        only_answer(&r.0, expr, Some(v)) ==> out == Some(v),
        only_answer(&r.0, expr, None) && only_answer(&r.1, expr, Some(v)) ==> out == Some(v),
        only_answer(&r.0, expr, None) && only_answer(&r.1, expr, None) ==> r.2.resolves(expr, out),
        out is Some ==> r.0.resolves(expr, out) || r.1.resolves(expr, out) || r.2.resolves(
            expr,
            out,
        ),
        out is None ==> r.0.resolves(expr, None) && r.1.resolves(expr, None) && r.2.resolves(
            expr,
            None,
        ),
{
    if only_answer(&r.0, expr, Some(v)) {
        if r.0.resolves(expr, None) {
            assert(r.0.resolves(expr, None));
        }
    }
    if only_answer(&r.0, expr, None) {
        if out is Some && r.0.resolves(expr, out) {
            assert(r.0.resolves(expr, out));
        }
        if only_answer(&r.1, expr, Some(v)) {
            if r.1.resolves(expr, None) {
                assert(r.1.resolves(expr, None));
            }
            if out is Some && r.1.resolves(expr, out) {
                assert(r.1.resolves(expr, out));
            }
        }
        if only_answer(&r.1, expr, None) {
            if out is Some && r.1.resolves(expr, out) {
                assert(r.1.resolves(expr, out));
            }
        }
    }
}

/// Four resolvers are tried in order and the first that answers wins: each
/// is asked only when every one before it has no answer; no answer comes when
/// none has one.
pub proof fn law_quad_first_answer_wins<A: Resolver, B: Resolver, C: Resolver, D: Resolver>(
    r: (A, B, C, D),
    expr: Seq<char>,
    out: Option<Seq<u8>>,
    v: Seq<u8>,
)
    requires
        r.resolves(expr, out),
    ensures
        only_answer(&r.0, expr, Some(v)) ==> out == Some(v),
        only_answer(&r.0, expr, None) && only_answer(&r.1, expr, Some(v)) ==> out == Some(v),
        only_answer(&r.0, expr, None) && only_answer(&r.1, expr, None) && only_answer(
            &r.2,
            expr,
            Some(v),
        ) ==> out == Some(v),
        only_answer(&r.0, expr, None) && only_answer(&r.1, expr, None) && only_answer(
            &r.2,
            expr,
            None,
        ) ==> r.3.resolves(expr, out),
        out is Some ==> r.0.resolves(expr, out) || r.1.resolves(expr, out) || r.2.resolves(
            expr,
            out,
        ) || r.3.resolves(expr, out),
        out is None ==> r.0.resolves(expr, None) && r.1.resolves(expr, None) && r.2.resolves(
            expr,
            None,
        ) && r.3.resolves(expr, None),
{
    if only_answer(&r.0, expr, Some(v)) {
        if r.0.resolves(expr, None) {
            assert(r.0.resolves(expr, None));
        }
    }
    if only_answer(&r.0, expr, None) {
        if out is Some && r.0.resolves(expr, out) {
            assert(r.0.resolves(expr, out));
        }
        if r.1.resolves(expr, None) {
            assert(r.1.resolves(expr, None));
        }
        if out is Some && r.1.resolves(expr, out) {
            assert(r.1.resolves(expr, out));
        }
        if only_answer(&r.1, expr, None) {
            if r.2.resolves(expr, None) {
                assert(r.2.resolves(expr, None));
            }
            if out is Some && r.2.resolves(expr, out) {
                assert(r.2.resolves(expr, out));
            }
        }
    }
}

/// The scheme that [`EnvResolver`] answers for.
pub open spec fn env_scheme() -> Seq<char> {
    "env::"@
}

/// Resolver for `env::NAME` expressions, reading the named environment variable.
pub struct EnvResolver;

impl Resolver for EnvResolver {
    /// Only expressions of the form `env::NAME` can resolve; which bytes they
    /// resolve to depends on the process environment.
    open spec fn resolves(&self, expr: Seq<char>, out: Option<Seq<u8>>) -> bool {
        out is Some ==> expr.len() >= env_scheme().len() && expr.subrange(
            0,
            env_scheme().len() as int,
        ) == env_scheme()
    }

    fn resolve(&self, expr: &str) -> (out: Option<Cow<'_, [u8]>>) {
        let var_name = match env_var_name(expr) {
            Some(name) => name,
            None => return None,
        };
        env_answer(crate::resolve::environment_text(var_name))
    }
}

/// What [`EnvResolver`] answers once the named variable has been looked up:
/// the value's UTF-8 bytes when it is set, no answer when it is not.
pub fn env_answer(found: Option<String>) -> (out: Option<Cow<'static, [u8]>>)
    ensures
        answer_bytes(out) == match found {
            Some(value) => Some(vstd::utf8::encode_utf8(value@)),
            None => None::<Seq<u8>>,
        },
{
    match found {
        Some(value) => Some(Cow::Owned(value.as_str().as_bytes_vec())),
        None => None,
    }
}

/// The variable an `env::` expression names: the text after the scheme, or
/// `None` when the expression does not start with `env::`.
pub fn env_var_name(expr: &str) -> (name: Option<&str>)
    ensures
        name is Some <==> (expr@.len() >= env_scheme().len() && expr@.subrange(
            0,
            env_scheme().len() as int,
        ) == env_scheme()),
        name matches Some(n) ==> expr@ == env_scheme() + n@,
{
    let name = strip_prefix_text(expr, "env::");
    proof {
        reveal_strlit("env::");
        assert(env_scheme() =~= "env::"@);
    }
    name
}

/// `str::strip_prefix` with a string pattern: the rest of `text` after `prefix`,
/// when `text` starts with `prefix`.
#[verifier::external_body]
fn strip_prefix_text<'a>(text: &'a str, prefix: &str) -> (rest: Option<&'a str>)
    ensures
        rest is Some <==> (prefix@.len() <= text@.len() && text@.subrange(
            0,
            prefix@.len() as int,
        ) == prefix@),
        rest matches Some(r) ==> text@ == prefix@ + r@,
{
    text.strip_prefix(prefix)
}

/// `std::str::from_utf8`: succeeds exactly on valid UTF-8, and the string it
/// returns has exactly the given bytes.
#[verifier::external_body]
fn utf8_text(bytes: &[u8]) -> (text: Option<&str>)
    ensures
        text is Some <==> valid_utf8(bytes@),
        text matches Some(t) ==> t.spec_bytes() == bytes@,
{
    std::str::from_utf8(bytes).ok()
}

/// `str::trim`: the text without leading and trailing Unicode `White_Space`.
#[verifier::external_body]
fn trim_text(text: &str) -> (trimmed: &str)
    ensures
        trimmed@ == spec_trim(text@),
{
    text.trim()
}

// ---------------------------------------------------------------------------
// Rendering
// ---------------------------------------------------------------------------

/// Failure from strict [`render`].
#[derive(Debug)]
pub enum TemplateError {
    /// No resolver produced a value for the expression.
    Unresolved {
        /// The unresolved expression text.
        expr: String,
        /// Byte offset of the opening `{{` in the input.
        offset: usize,
    },
    /// The bytes between `{{` and `}}` were not valid UTF-8.
    InvalidExpr {
        /// Byte offset of the opening `{{` in the input.
        offset: usize,
    },
}

impl TemplateError {
    /// The failure this error reports.
    pub open spec fn failure(&self) -> TemplateFailure {
        match self {
            TemplateError::Unresolved { expr, offset } => TemplateFailure::Unresolved {
                expr: expr@,
                offset: *offset as int,
            },
            TemplateError::InvalidExpr { offset } => TemplateFailure::InvalidExpr {
                offset: *offset as int,
            },
        }
    }
}

/// The bytes of a render outcome.
pub open spec fn rendered(r: Result<Cow<'_, [u8]>, TemplateError>) -> Result<
    Seq<u8>,
    TemplateFailure,
> {
    match r {
        Ok(out) => Ok(out@),
        Err(e) => Err(e.failure()),
    }
}

fn append_bytes(dst: &mut Vec<u8>, src: &[u8])
    ensures
        final(dst)@ == old(dst)@ + src@,
{
    let mut i: usize = 0;
    while i < src.len()
        invariant
            i <= src@.len(),
            dst@ == old(dst)@ + src@.subrange(0, i as int),
        decreases src@.len() - i,
    {
        dst.push(src[i]);
        i = i + 1;
        assert(dst@ =~= old(dst)@ + src@.subrange(0, i as int));
    }
    assert(src@.subrange(0, src@.len() as int) =~= src@);
}

/// Whether the input contains `{{` anywhere.
fn has_template(input: &[u8]) -> (found: bool)
    ensures
        found == spec_has_template(input@),
{
    let mut i: usize = 0;
    while input.len() - i > 1
        invariant
            i <= input@.len(),
            forall|p: int| 0 <= p < i ==> !opens_at(input@, p),
        decreases input@.len() - i,
    {
        if input[i] == 0x7bu8 && input[i + 1] == 0x7bu8 {
            assert(opens_at(input@, i as int));
            return true;
        }
        i = i + 1;
    }
    assert forall|p: int| !opens_at(input@, p) by {
        if opens_at(input@, p) {
            assert(p < i);
        }
    }
    false
}

/// Position of the first `}}` at or after `start`.
fn find_closing(input: &[u8], start: usize) -> (found: Option<usize>)
    ensures
        match found {
            Some(end) => first_closing(input@, start as int) == Some(end as int),
            None => first_closing(input@, start as int) is None,
        },
{
    if start >= input.len() {
        return None;
    }
    let mut pos = start;
    while input.len() - pos > 1
        invariant
            start <= pos <= input@.len(),
            first_closing(input@, start as int) == first_closing(input@, pos as int),
        decreases input@.len() - pos,
    {
        if input[pos] == 0x7du8 && input[pos + 1] == 0x7du8 {
            return Some(pos);
        }
        pos = pos + 1;
    }
    None
}

proof fn lemma_plain_renders_itself<R: Resolver>(resolver: &R, s: Seq<u8>, pos: int)
    requires
        0 <= pos <= s.len(),
        !spec_has_template(s),
    ensures
        strict_spec(resolver, s, pos, seq![]) == Some(
            Ok::<Seq<u8>, TemplateFailure>(s.subrange(pos, s.len() as int)),
        ),
        lenient_spec(resolver, s, pos, seq![]) == Some(s.subrange(pos, s.len() as int)),
    decreases s.len() - pos,
{
    if pos < s.len() {
        assert(!opens_at(s, pos));
        lemma_plain_renders_itself(resolver, s, pos + 1);
        assert(seq![s[pos]] + s.subrange(pos + 1, s.len() as int) =~= s.subrange(
            pos,
            s.len() as int,
        ));
    } else {
        assert(s.subrange(pos, s.len() as int) =~= Seq::<u8>::empty());
    }
}

/// Expand every `{{ expr }}` token via `resolver`. Returns the input unchanged
/// (borrowed) when it contains no tokens; errors on an unresolved expression or
/// non-UTF-8 token. Unclosed `{{` is left literal.
pub fn render<'a, R: Resolver>(input: &'a [u8], resolver: &R) -> (r: Result<
    Cow<'a, [u8]>,
    TemplateError,
>)
    ensures
        !spec_has_template(input@) ==> r == Ok::<Cow<'a, [u8]>, TemplateError>(
            Cow::Borrowed(input),
        ),
        spec_has_template(input@) ==> (r matches Ok(out) ==> out is Owned),
        exists|outs: Seq<Option<Seq<u8>>>| #[trigger]
            strict_spec(resolver, input@, 0, outs) == Some(rendered(r)),
{
    let ghost s = input@;
    if !has_template(input) {
        proof {
            lemma_plain_renders_itself(resolver, s, 0);
            assert(s.subrange(0, s.len() as int) =~= s);
            assert(strict_spec(resolver, s, 0, seq![]) == Some(
                rendered(Ok::<Cow<'a, [u8]>, TemplateError>(Cow::Borrowed(input))),
            ));
        }
        return Ok(Cow::Borrowed(input));
    }
    let mut result: Vec<u8> = Vec::new();
    let mut pos: usize = 0;
    let ghost mut outs: Seq<Option<Seq<u8>>> = seq![];
    proof {
        assert forall|fut: Seq<Option<Seq<u8>>>|
            #[trigger] strict_spec(resolver, s, 0, outs + fut) == prefix_ok(
                result@,
                strict_spec(resolver, s, pos as int, fut),
            ) by {
            assert(outs + fut =~= fut);
            match strict_spec(resolver, s, 0, fut) {
                Some(Ok(tail)) => {
                    assert(result@ + tail =~= tail);
                },
                _ => {},
            }
        }
    }
    while pos < input.len()
        invariant
            s == input@,
            pos <= s.len(),
            forall|fut: Seq<Option<Seq<u8>>>|
                #[trigger] strict_spec(resolver, s, 0, outs + fut) == prefix_ok(
                    result@,
                    strict_spec(resolver, s, pos as int, fut),
                ),
        decreases s.len() - pos,
    {
        if pos + 1 < input.len() && input[pos] == 0x7bu8 && input[pos + 1] == 0x7bu8 {
            if let Some(end) = find_closing(input, pos + 2) {
                proof {
                    lemma_first_closing_bounds(s, pos + 2);
                }
                let ghost raw = s.subrange(pos + 2, end as int);
                let expr = &input[pos + 2..end];
                assert(expr@ == raw);
                let expr_str = match utf8_text(expr) {
                    Some(text) => text,
                    None => {
                        let r = Err(TemplateError::InvalidExpr { offset: pos });
                        proof {
                            let fut: Seq<Option<Seq<u8>>> = seq![];
                            assert(outs + fut =~= outs);
                            assert(strict_spec(resolver, s, 0, outs + fut) == Some(rendered(r)));
                        }
                        return r;
                    },
                };
                proof {
                    vstd::utf8::encode_utf8_decode_utf8(expr_str@);
                    assert(expr_str@ == decode_utf8(raw));
                }
                let trimmed = trim_text(expr_str);
                let value = resolver.resolve(trimmed);
                match value {
                    None => {
                        let r = Err(
                            TemplateError::Unresolved { expr: trimmed.to_owned(), offset: pos },
                        );
                        proof {
                            let fut: Seq<Option<Seq<u8>>> = seq![None];
                            assert(fut.drop_first() =~= Seq::<Option<Seq<u8>>>::empty());
                            assert(strict_spec(resolver, s, pos as int, fut) == Some(rendered(r)));
                            assert(strict_spec(resolver, s, 0, outs + fut) == Some(rendered(r)));
                        }
                        return r;
                    },
                    Some(bytes) => {
                        let ghost old_result = result@;
                        let ghost old_outs = outs;
                        let ghost v = bytes@;
                        match &bytes {
                            Cow::Borrowed(b) => append_bytes(&mut result, b),
                            Cow::Owned(o) => append_bytes(&mut result, o.as_slice()),
                        }
                        assert(result@ == old_result + v);
                        proof {
                            outs = old_outs.push(Some(v));
                            assert forall|fut: Seq<Option<Seq<u8>>>|
                                #[trigger] strict_spec(resolver, s, 0, outs + fut) == prefix_ok(
                                    result@,
                                    strict_spec(resolver, s, end + 2, fut),
                                ) by {
                                let f1 = seq![Some(v)] + fut;
                                assert(outs + fut =~= old_outs + f1);
                                assert(f1.drop_first() =~= fut);
                                assert(strict_spec(resolver, s, pos as int, f1) == prefix_ok(
                                    v,
                                    strict_spec(resolver, s, end + 2, fut),
                                ));
                                match strict_spec(resolver, s, end + 2, fut) {
                                    Some(Ok(tail)) => {
                                        assert(old_result + (v + tail) =~= result@ + tail);
                                    },
                                    _ => {},
                                }
                            }
                        }
                    },
                }
                pos = end + 2;
                continue ;
            }
        }
        let ghost old_result = result@;
        let b = input[pos];
        result.push(b);
        proof {
            assert(token_end(s, pos as int) is None);
            assert forall|fut: Seq<Option<Seq<u8>>>|
                #[trigger] strict_spec(resolver, s, 0, outs + fut) == prefix_ok(
                    result@,
                    strict_spec(resolver, s, pos + 1, fut),
                ) by {
                assert(strict_spec(resolver, s, pos as int, fut) == prefix_ok(
                    seq![b],
                    strict_spec(resolver, s, pos + 1, fut),
                ));
                match strict_spec(resolver, s, pos + 1, fut) {
                    Some(Ok(tail)) => {
                        assert(old_result + (seq![b] + tail) =~= result@ + tail);
                    },
                    _ => {},
                }
            }
        }
        pos = pos + 1;
    }
    let r = Ok(Cow::Owned(result));
    proof {
        let fut: Seq<Option<Seq<u8>>> = seq![];
        assert(outs + fut =~= outs);
        assert(result@ + Seq::<u8>::empty() =~= result@);
        assert(strict_spec(resolver, s, 0, outs + fut) == Some(rendered(r)));
    }
    r
}

/// Like [`render`] but never fails: an unresolved or non-UTF-8 token is copied
/// through verbatim (`{{ … }}` and all) instead of producing an error.
pub fn render_lenient<'a, R: Resolver>(input: &'a [u8], resolver: &R) -> (r: Cow<'a, [u8]>)
    ensures
        !spec_has_template(input@) ==> r == Cow::<'a, [u8]>::Borrowed(input),
        spec_has_template(input@) ==> r is Owned,
        exists|outs: Seq<Option<Seq<u8>>>| #[trigger]
            lenient_spec(resolver, input@, 0, outs) == Some(r@),
{
    let ghost s = input@;
    if !has_template(input) {
        proof {
            lemma_plain_renders_itself(resolver, s, 0);
            assert(s.subrange(0, s.len() as int) =~= s);
        }
        return Cow::Borrowed(input);
    }
    let mut result: Vec<u8> = Vec::new();
    let mut pos: usize = 0;
    let ghost mut outs: Seq<Option<Seq<u8>>> = seq![];
    proof {
        assert forall|fut: Seq<Option<Seq<u8>>>|
            #[trigger] lenient_spec(resolver, s, 0, outs + fut) == prefix_some(
                result@,
                lenient_spec(resolver, s, pos as int, fut),
            ) by {
            assert(outs + fut =~= fut);
            match lenient_spec(resolver, s, 0, fut) {
                Some(tail) => {
                    assert(result@ + tail =~= tail);
                },
                _ => {},
            }
        }
    }
    while pos < input.len()
        invariant
            s == input@,
            pos <= s.len(),
            forall|fut: Seq<Option<Seq<u8>>>|
                #[trigger] lenient_spec(resolver, s, 0, outs + fut) == prefix_some(
                    result@,
                    lenient_spec(resolver, s, pos as int, fut),
                ),
        decreases s.len() - pos,
    {
        if pos + 1 < input.len() && input[pos] == 0x7bu8 && input[pos + 1] == 0x7bu8 {
            if let Some(end) = find_closing(input, pos + 2) {
                proof {
                    lemma_first_closing_bounds(s, pos + 2);
                }
                let ghost raw = s.subrange(pos + 2, end as int);
                let ghost verbatim = s.subrange(pos as int, end + 2);
                let ghost old_result = result@;
                let ghost old_outs = outs;
                let expr = &input[pos + 2..end];
                assert(expr@ == raw);
                let ghost piece: Seq<u8>;
                match utf8_text(expr) {
                    Some(expr_str) => {
                        proof {
                            vstd::utf8::encode_utf8_decode_utf8(expr_str@);
                            assert(expr_str@ == decode_utf8(raw));
                        }
                        let trimmed = trim_text(expr_str);
                        match resolver.resolve(trimmed) {
                            Some(bytes) => {
                                proof {
                                    piece = bytes@;
                                }
                                match &bytes {
                                    Cow::Borrowed(b) => append_bytes(&mut result, b),
                                    Cow::Owned(o) => append_bytes(&mut result, o.as_slice()),
                                }
                                proof {
                                    outs = old_outs.push(Some(piece));
                                }
                            },
                            None => {
                                proof {
                                    piece = verbatim;
                                }
                                append_bytes(&mut result, &input[pos..pos + 2]);
                                append_bytes(&mut result, expr);
                                append_bytes(&mut result, &input[end..end + 2]);
                                proof {
                                    assert(s.subrange(pos as int, pos + 2) + raw + s.subrange(
                                        end as int,
                                        end + 2,
                                    ) =~= verbatim);
                                    outs = old_outs.push(None);
                                }
                            },
                        }
                        assert(result@ == old_result + piece);
                        proof {
                            assert forall|fut: Seq<Option<Seq<u8>>>|
                                #[trigger] lenient_spec(resolver, s, 0, outs + fut)
                                    == prefix_some(
                                    result@,
                                    lenient_spec(resolver, s, end + 2, fut),
                                ) by {
                                let f1 = seq![outs.last()] + fut;
                                assert(outs + fut =~= old_outs + f1);
                                assert(f1.drop_first() =~= fut);
                                assert(lenient_spec(resolver, s, pos as int, f1) == prefix_some(
                                    piece,
                                    lenient_spec(resolver, s, end + 2, fut),
                                ));
                                match lenient_spec(resolver, s, end + 2, fut) {
                                    Some(tail) => {
                                        assert(old_result + (piece + tail) =~= result@ + tail);
                                    },
                                    _ => {},
                                }
                            }
                        }
                    },
                    None => {
                        proof {
                            piece = verbatim;
                        }
                        append_bytes(&mut result, &input[pos..end + 2]);
                        proof {
                            assert forall|fut: Seq<Option<Seq<u8>>>|
                                #[trigger] lenient_spec(resolver, s, 0, outs + fut)
                                    == prefix_some(
                                    result@,
                                    lenient_spec(resolver, s, end + 2, fut),
                                ) by {
                                assert(lenient_spec(resolver, s, pos as int, fut) == prefix_some(
                                    piece,
                                    lenient_spec(resolver, s, end + 2, fut),
                                ));
                                match lenient_spec(resolver, s, end + 2, fut) {
                                    Some(tail) => {
                                        assert(old_result + (piece + tail) =~= result@ + tail);
                                    },
                                    _ => {},
                                }
                            }
                        }
                    },
                }
                pos = end + 2;
                continue ;
            }
        }
        let ghost old_result = result@;
        let b = input[pos];
        result.push(b);
        proof {
            assert(token_end(s, pos as int) is None);
            assert forall|fut: Seq<Option<Seq<u8>>>|
                #[trigger] lenient_spec(resolver, s, 0, outs + fut) == prefix_some(
                    result@,
                    lenient_spec(resolver, s, pos + 1, fut),
                ) by {
                assert(lenient_spec(resolver, s, pos as int, fut) == prefix_some(
                    seq![b],
                    lenient_spec(resolver, s, pos + 1, fut),
                ));
                match lenient_spec(resolver, s, pos + 1, fut) {
                    Some(tail) => {
                        assert(old_result + (seq![b] + tail) =~= result@ + tail);
                    },
                    _ => {},
                }
            }
        }
        pos = pos + 1;
    }
    let r: Cow<'a, [u8]> = Cow::Owned(result);
    proof {
        let fut: Seq<Option<Seq<u8>>> = seq![];
        assert(outs + fut =~= outs);
        assert(result@ + Seq::<u8>::empty() =~= result@);
        assert(lenient_spec(resolver, s, 0, outs + fut) == Some(r@));
    }
    r
}

/// Convenience entry point: call [`render`]/[`render_lenient`] directly on a
/// `str` or `[u8]` rather than passing it as an argument.
pub trait Resolvable {
    /// The bytes that are rendered.
    spec fn template_bytes(&self) -> Seq<u8>;

    /// Strict render; see [`render`].
    fn resolve<R: Resolver>(&self, resolver: &R) -> (r: Result<Cow<'_, [u8]>, TemplateError>)
        ensures
            exists|outs: Seq<Option<Seq<u8>>>| #[trigger]
                strict_spec(resolver, self.template_bytes(), 0, outs) == Some(rendered(r)),
    ;

    /// Lenient render; see [`render_lenient`].
    fn resolve_lenient<R: Resolver>(&self, resolver: &R) -> (r: Cow<'_, [u8]>)
        ensures
            exists|outs: Seq<Option<Seq<u8>>>| #[trigger]
                lenient_spec(resolver, self.template_bytes(), 0, outs) == Some(r@),
    ;
}

impl Resolvable for [u8] {
    open spec fn template_bytes(&self) -> Seq<u8> {
        self@
    }

    fn resolve<R: Resolver>(&self, resolver: &R) -> (r: Result<Cow<'_, [u8]>, TemplateError>) {
        let r = render(self, resolver);
        proof {
            let outs = choose|outs: Seq<Option<Seq<u8>>>|
                #[trigger] strict_spec(resolver, self@, 0, outs) == Some(rendered(r));
            assert(strict_spec(resolver, self.template_bytes(), 0, outs) == Some(rendered(r)));
        }
        r
    }

    fn resolve_lenient<R: Resolver>(&self, resolver: &R) -> (r: Cow<'_, [u8]>) {
        let r = render_lenient(self, resolver);
        proof {
            let outs = choose|outs: Seq<Option<Seq<u8>>>|
                #[trigger] lenient_spec(resolver, self@, 0, outs) == Some(r@);
            assert(lenient_spec(resolver, self.template_bytes(), 0, outs) == Some(r@));
        }
        r
    }
}

impl Resolvable for str {
    open spec fn template_bytes(&self) -> Seq<u8> {
        self.spec_bytes()
    }

    fn resolve<R: Resolver>(&self, resolver: &R) -> (r: Result<Cow<'_, [u8]>, TemplateError>) {
        let bytes = self.as_bytes();
        let r = render(bytes, resolver);
        proof {
            let outs = choose|outs: Seq<Option<Seq<u8>>>|
                #[trigger] strict_spec(resolver, bytes@, 0, outs) == Some(rendered(r));
            assert(strict_spec(resolver, self.template_bytes(), 0, outs) == Some(rendered(r)));
        }
        r
    }

    fn resolve_lenient<R: Resolver>(&self, resolver: &R) -> (r: Cow<'_, [u8]>) {
        let bytes = self.as_bytes();
        let r = render_lenient(bytes, resolver);
        proof {
            let outs = choose|outs: Seq<Option<Seq<u8>>>|
                #[trigger] lenient_spec(resolver, bytes@, 0, outs) == Some(r@);
            assert(lenient_spec(resolver, self.template_bytes(), 0, outs) == Some(r@));
        }
        r
    }
}

/// When strict rendering succeeds, lenient rendering with the same resolver
/// answers produces the same bytes.
pub proof fn law_strict_success_agrees_with_lenient<R: Resolver>(
    resolver: &R,
    s: Seq<u8>,
    pos: int,
    outs: Seq<Option<Seq<u8>>>,
    out: Seq<u8>,
)
    requires
        strict_spec(resolver, s, pos, outs) == Some(Ok::<Seq<u8>, TemplateFailure>(out)),
    ensures
        lenient_spec(resolver, s, pos, outs) == Some(out),
    decreases s.len() - pos,
{
    if pos < 0 || pos >= s.len() {
    } else if let Some(end) = token_end(s, pos) {
        lemma_first_closing_bounds(s, pos + 2);
        let raw = s.subrange(pos + 2, end);
        if valid_utf8(raw) {
            if let Some(Ok(tail)) = strict_spec(resolver, s, end + 2, outs.drop_first()) {
                law_strict_success_agrees_with_lenient(
                    resolver,
                    s,
                    end + 2,
                    outs.drop_first(),
                    tail,
                );
            }
        }
    } else {
        if let Some(Ok(tail)) = strict_spec(resolver, s, pos + 1, outs) {
            law_strict_success_agrees_with_lenient(resolver, s, pos + 1, outs, tail);
        }
    }
}

/// Lenient rendering in which no expression resolves gives back the input
/// unchanged.
pub proof fn law_lenient_unresolved_is_identity<R: Resolver>(
    resolver: &R,
    s: Seq<u8>,
    pos: int,
    outs: Seq<Option<Seq<u8>>>,
    out: Seq<u8>,
)
    requires
        0 <= pos <= s.len(),
        lenient_spec(resolver, s, pos, outs) == Some(out),
        forall|i: int| 0 <= i < outs.len() ==> outs[i] is None,
    ensures
        out == s.subrange(pos, s.len() as int),
    decreases s.len() - pos,
{
    if pos >= s.len() {
        assert(s.subrange(pos, s.len() as int) =~= Seq::<u8>::empty());
    } else if let Some(end) = token_end(s, pos) {
        lemma_first_closing_bounds(s, pos + 2);
        let raw = s.subrange(pos + 2, end);
        let rest_outs = if valid_utf8(raw) {
            outs.drop_first()
        } else {
            outs
        };
        let tail = lenient_spec(resolver, s, end + 2, rest_outs).unwrap();
        law_lenient_unresolved_is_identity(resolver, s, end + 2, rest_outs, tail);
        assert(s.subrange(pos, end + 2) + s.subrange(end + 2, s.len() as int) =~= s.subrange(
            pos,
            s.len() as int,
        ));
    } else {
        let tail = lenient_spec(resolver, s, pos + 1, outs).unwrap();
        law_lenient_unresolved_is_identity(resolver, s, pos + 1, outs, tail);
        assert(seq![s[pos]] + s.subrange(pos + 1, s.len() as int) =~= s.subrange(
            pos,
            s.len() as int,
        ));
    }
}


/// A resolver that gives at most one answer for each expression.
pub open spec fn deterministic<R: Resolver>(resolver: &R) -> bool {
    forall|expr: Seq<char>, a: Option<Seq<u8>>, b: Option<Seq<u8>>|
        #![trigger resolver.resolves(expr, a), resolver.resolves(expr, b)]
        resolver.resolves(expr, a) && resolver.resolves(expr, b) ==> a == b
}

/// A resolver that never resolves anything.
pub open spec fn never_resolves<R: Resolver>(resolver: &R) -> bool {
    forall|expr: Seq<char>, out: Option<Seq<u8>>| #[trigger]
        resolver.resolves(expr, out) ==> out is None
}

/// With a resolver that gives one answer per expression, lenient rendering
/// differs from strict rendering only where strict rendering fails: whatever
/// answers each run is given, when the strict run succeeds the lenient run
/// produces the same bytes. (With [`render`] and [`render_lenient`], which
/// both borrow exactly when the input has no token, the two calls then agree
/// in bytes and in variant.)
pub proof fn law_lenient_agrees_with_successful_render<R: Resolver>(
    resolver: &R,
    s: Seq<u8>,
    pos: int,
    strict_outs: Seq<Option<Seq<u8>>>,
    lenient_outs: Seq<Option<Seq<u8>>>,
    out: Seq<u8>,
    lenient: Seq<u8>,
)
    requires
        deterministic(resolver),
        strict_spec(resolver, s, pos, strict_outs) == Some(Ok::<Seq<u8>, TemplateFailure>(out)),
        lenient_spec(resolver, s, pos, lenient_outs) == Some(lenient),
    ensures
        lenient == out,
    decreases s.len() - pos,
{
    if pos < 0 || pos >= s.len() {
    } else if let Some(end) = token_end(s, pos) {
        lemma_first_closing_bounds(s, pos + 2);
        let raw = s.subrange(pos + 2, end);
        let expr = expr_text(raw);
        assert(resolver.resolves(expr, strict_outs[0]));
        assert(resolver.resolves(expr, lenient_outs[0]));
        assert(strict_outs[0] == lenient_outs[0]);
        let value = strict_outs[0]->Some_0;
        let tail = strict_spec(resolver, s, end + 2, strict_outs.drop_first())->Some_0->Ok_0;
        let ltail = lenient_spec(resolver, s, end + 2, lenient_outs.drop_first())->Some_0;
        law_lenient_agrees_with_successful_render(
            resolver,
            s,
            end + 2,
            strict_outs.drop_first(),
            lenient_outs.drop_first(),
            tail,
            ltail,
        );
    } else {
        let tail = strict_spec(resolver, s, pos + 1, strict_outs)->Some_0->Ok_0;
        let ltail = lenient_spec(resolver, s, pos + 1, lenient_outs)->Some_0;
        law_lenient_agrees_with_successful_render(
            resolver,
            s,
            pos + 1,
            strict_outs,
            lenient_outs,
            tail,
            ltail,
        );
    }
}

/// With a resolver that never resolves anything, lenient rendering gives
/// back its input byte for byte: every token is copied through as it stands.
pub proof fn law_lenient_never_resolving_is_identity<R: Resolver>(
    resolver: &R,
    s: Seq<u8>,
    pos: int,
    outs: Seq<Option<Seq<u8>>>,
    out: Seq<u8>,
)
    requires
        never_resolves(resolver),
        0 <= pos <= s.len(),
        lenient_spec(resolver, s, pos, outs) == Some(out),
    ensures
        out == s.subrange(pos, s.len() as int),
    decreases s.len() - pos,
{
    if pos >= s.len() {
        assert(s.subrange(pos, s.len() as int) =~= Seq::<u8>::empty());
    } else if let Some(end) = token_end(s, pos) {
        lemma_first_closing_bounds(s, pos + 2);
        let raw = s.subrange(pos + 2, end);
        let rest_outs = if valid_utf8(raw) {
            assert(resolver.resolves(expr_text(raw), outs[0]));
            outs.drop_first()
        } else {
            outs
        };
        let tail = lenient_spec(resolver, s, end + 2, rest_outs)->Some_0;
        law_lenient_never_resolving_is_identity(resolver, s, end + 2, rest_outs, tail);
        assert(s.subrange(pos, end + 2) + s.subrange(end + 2, s.len() as int) =~= s.subrange(
            pos,
            s.len() as int,
        ));
    } else {
        let tail = lenient_spec(resolver, s, pos + 1, outs)->Some_0;
        law_lenient_never_resolving_is_identity(resolver, s, pos + 1, outs, tail);
        assert(seq![s[pos]] + s.subrange(pos + 1, s.len() as int) =~= s.subrange(
            pos,
            s.len() as int,
        ));
    }
}

} // verus!
