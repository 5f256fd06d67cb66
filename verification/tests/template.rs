use std::borrow::Cow;

use conflaguration::template::render;
use conflaguration::template::render_lenient;
use conflaguration::template::env_var_name;
use conflaguration::template::EnvResolver;
use conflaguration::template::Resolvable;
use conflaguration::template::Resolver;
use conflaguration::template::TemplateError;

struct FixedResolver(&'static [u8]);
impl Resolver for FixedResolver {
    fn resolve(&self, _expr: &str) -> Option<Cow<'_, [u8]>> {
        Some(Cow::Borrowed(self.0))
    }
}

struct NeverResolver;
impl Resolver for NeverResolver {
    fn resolve(&self, _expr: &str) -> Option<Cow<'_, [u8]>> {
        None
    }
}

struct EchoResolver;
impl Resolver for EchoResolver {
    fn resolve(&self, expr: &str) -> Option<Cow<'_, [u8]>> {
        Some(Cow::Owned(format!("<{expr}>").into_bytes()))
    }
}

#[test]
fn no_templates_borrows() {
    let result = render(b"plain", &NeverResolver).expect("render");
    assert!(matches!(result, Cow::Borrowed(_)));
    assert_eq!(&*result, b"plain");
}

#[test]
fn resolved_returns_owned() {
    let result = render(b"{{x}}", &FixedResolver(b"y")).expect("render");
    assert!(matches!(result, Cow::Owned(_)));
    assert_eq!(&*result, b"y");
}

#[test]
fn env_resolver() {
    temp_env::with_vars([("CONFLAG_TPL_TEST", Some("works"))], || {
        let result = render(b"{{env::CONFLAG_TPL_TEST}}", &EnvResolver).expect("render");
        assert_eq!(&*result, b"works");
    });
}

#[test]
fn env_resolver_ignores_other_schemes() {
    temp_env::with_vars([("CONFLAG_TPL_OTHER", Some("works"))], || {
        let err = render(b"{{CONFLAG_TPL_OTHER}}", &EnvResolver).unwrap_err();
        assert!(matches!(err, TemplateError::Unresolved { .. }));
    });
}

#[test]
fn unresolved_errors() {
    let err = render(b"{{missing}}", &NeverResolver).unwrap_err();
    assert!(matches!(err, TemplateError::Unresolved { .. }));
}

#[test]
fn lenient_passes_through() {
    let result = render_lenient(b"{{missing}}", &NeverResolver);
    assert_eq!(&*result, b"{{missing}}");
}

struct AResolver;
impl Resolver for AResolver {
    fn resolve(&self, expr: &str) -> Option<Cow<'_, [u8]>> {
        if expr == "a" { Some(Cow::Borrowed(b"alpha")) } else { None }
    }
}

struct BResolver;
impl Resolver for BResolver {
    fn resolve(&self, expr: &str) -> Option<Cow<'_, [u8]>> {
        if expr == "b" { Some(Cow::Borrowed(b"beta")) } else { None }
    }
}

#[test]
fn tuple_composition() {
    let chain = (AResolver, BResolver);
    assert_eq!(&*render(b"{{a}}", &chain).expect("a"), b"alpha");
    assert_eq!(&*render(b"{{b}}", &chain).expect("b"), b"beta");
}

#[test]
fn first_wins_in_chain() {
    let chain = (FixedResolver(b"first"), FixedResolver(b"second"));
    let result = render(b"{{anything}}", &chain).expect("render");
    assert_eq!(&*result, b"first");
}

#[test]
fn longer_chains_fall_through_in_order() {
    let three = (NeverResolver, AResolver, FixedResolver(b"third"));
    assert_eq!(&*render(b"{{a}}{{z}}", &three).expect("three"), b"alphathird");
    let four = (NeverResolver, AResolver, BResolver, FixedResolver(b"fourth"));
    assert_eq!(&*render(b"{{a}}{{b}}{{z}}", &four).expect("four"), b"alphabetafourth");
}

struct BinResolver;
impl Resolver for BinResolver {
    fn resolve(&self, _expr: &str) -> Option<Cow<'_, [u8]>> {
        Some(Cow::Owned(vec![0xFF, 0x00, 0xFE]))
    }
}

#[test]
fn binary_values() {
    let result = render(b"[{{blob}}]", &BinResolver).expect("render");
    assert_eq!(&*result, &[b'[', 0xFF, 0x00, 0xFE, b']']);
}

#[test]
fn unclosed_passes_through() {
    let result = render(b"hello {{ no close", &NeverResolver).expect("render");
    assert_eq!(&*result, b"hello {{ no close");
}

#[test]
fn error_offset() {
    let err = render(b"hello {{bad}} world", &NeverResolver).unwrap_err();
    match err {
        TemplateError::Unresolved { expr, offset } => {
            assert_eq!(expr, "bad");
            assert_eq!(offset, 6);
        }
        other => panic!("expected Unresolved, got {other:?}"),
    }
}

#[test]
fn invalid_utf8_expression_is_reported_at_its_offset() {
    let err = render(b"ab{{\xff}}", &EchoResolver).unwrap_err();
    match err {
        TemplateError::InvalidExpr { offset } => assert_eq!(offset, 2),
        other => panic!("expected InvalidExpr, got {other:?}"),
    }
}

#[test]
fn lenient_copies_invalid_utf8_token_verbatim() {
    let result = render_lenient(b"ab{{\xff}}cd", &EchoResolver);
    assert_eq!(&*result, b"ab{{\xff}}cd");
}

#[test]
fn expression_is_trimmed_before_resolving() {
    let result = render(b"x={{  name \t}};", &EchoResolver).expect("render");
    assert_eq!(&*result, b"x=<name>;");
}

#[test]
fn lenient_keeps_untrimmed_text_of_unresolved_token() {
    let result = render_lenient(b"{{ a }} and {{ missing }}", &AResolver);
    assert_eq!(&*result, b"alpha and {{ missing }}");
}

#[test]
fn closing_is_the_first_after_opening() {
    let result = render(b"{{a}}}}", &EchoResolver).expect("render");
    assert_eq!(&*result, b"<a>}}");
}

#[test]
fn resolvable_bytes() {
    let result = b"{{x}}".resolve(&FixedResolver(b"y")).expect("resolve");
    assert_eq!(&*result, b"y");
}

#[test]
fn resolvable_str() {
    let result = "{{x}}".resolve(&FixedResolver(b"y")).expect("resolve");
    assert_eq!(&*result, b"y");
}

#[test]
fn resolvable_lenient() {
    let result = "{{missing}}".resolve_lenient(&NeverResolver);
    assert_eq!(&*result, b"{{missing}}");
}

#[test]
fn empty_input() {
    let result = render(b"", &NeverResolver).expect("render");
    assert!(result.is_empty());
    assert!(matches!(result, Cow::Borrowed(_)));
}

#[test]
fn strict_success_agrees_with_lenient() {
    let input = b"a {{x}} b {{y}} c";
    let strict = render(input, &EchoResolver).expect("render");
    let lenient = render_lenient(input, &EchoResolver);
    assert_eq!(&*strict, &*lenient);
}

#[test]
fn lenient_with_nothing_resolved_is_identity() {
    let input = b"a {{x}} b {{ y }} c {{ unclosed";
    let lenient = render_lenient(input, &NeverResolver);
    assert_eq!(&*lenient, &input[..]);
}

#[test]
fn env_var_name_is_the_text_after_the_scheme() {
    assert_eq!(env_var_name("env::HOME"), Some("HOME"));
    assert_eq!(env_var_name("env::"), Some(""));
    assert_eq!(env_var_name("file::x"), None);
    assert_eq!(env_var_name("env:"), None);
}
