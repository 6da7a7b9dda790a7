use decorate::{decorate, Delim, ErrorKind, Token};
use proc_macro2::{Delimiter, Group, Ident, Literal, Punct, Spacing, Span, TokenStream, TokenTree};

fn convert(ts: TokenStream, next: &mut usize) -> Vec<Token> {
    let mut out = Vec::new();
    for tt in ts {
        *next += 1;
        let span = *next;
        out.push(match tt {
            TokenTree::Ident(i) => Token::Ident { text: i.to_string(), span },
            TokenTree::Punct(p) => Token::Punct {
                ch: p.as_char(),
                joint: p.spacing() == Spacing::Joint,
                span,
            },
            TokenTree::Literal(l) => Token::Literal { text: l.to_string(), span },
            TokenTree::Group(g) => {
                let delim = match g.delimiter() {
                    Delimiter::Parenthesis => Delim::Paren,
                    Delimiter::Bracket => Delim::Bracket,
                    Delimiter::Brace => Delim::Brace,
                    Delimiter::None => Delim::Invisible,
                };
                Token::Group { delim, inner: convert(g.stream(), next), span }
            }
        });
    }
    out
}

/// The tokens of `s`, numbered from 1 in reading order.
fn lex(s: &str) -> Vec<Token> {
    let mut next = 0;
    convert(s.parse().unwrap(), &mut next)
}

fn unlex(ts: &[Token]) -> TokenStream {
    ts.iter()
        .map(|t| -> TokenTree {
            match t {
                Token::Ident { text, .. } => Ident::new(text, Span::call_site()).into(),
                Token::Punct { ch, joint, .. } => {
                    let spacing = if *joint { Spacing::Joint } else { Spacing::Alone };
                    Punct::new(*ch, spacing).into()
                }
                Token::Literal { text, .. } => text.parse::<Literal>().unwrap().into(),
                Token::Group { delim, inner, .. } => {
                    let d = match delim {
                        Delim::Paren => Delimiter::Parenthesis,
                        Delim::Bracket => Delimiter::Bracket,
                        Delim::Brace => Delimiter::Brace,
                        Delim::Invisible => Delimiter::None,
                    };
                    Group::new(d, unlex(inner)).into()
                }
            }
        })
        .collect()
}

fn norm(s: &str) -> String {
    s.parse::<TokenStream>().unwrap().to_string()
}

fn expand(attr: &str, item: &str) -> String {
    let out = decorate(lex(attr), lex(item)).unwrap();
    unlex(&out).to_string()
}

fn refusal(attr: &str, item: &str) -> (ErrorKind, usize, String) {
    let e = decorate(lex(attr), lex(item)).unwrap_err();
    (e.kind, e.span, e.detail)
}

#[test]
fn test_basic_decoration() {
    assert_eq!(
        expand("test_decorator", "fn add(x: i32, y: i32) -> i32 { x + y }"),
        norm("fn add(x: i32, y: i32) -> i32 { test_decorator(|| { x + y }) }")
    );
}

#[test]
fn test_pub_decoration() {
    assert_eq!(
        expand("test_decorator", "pub fn multiply(x: i32, y: i32) -> i32 { x * y }"),
        norm("pub fn multiply(x: i32, y: i32) -> i32 { test_decorator(|| { x * y }) }")
    );
}

#[test]
fn test_async_decoration() {
    assert_eq!(
        expand("test_decorator", "async fn async_fn(x: i32) -> i32 { x + 1 }"),
        norm("async fn async_fn(x: i32) -> i32 { test_decorator(|| async move { { x + 1 } }).await }")
    );
}

#[test]
fn test_generic_decoration() {
    assert_eq!(
        expand(
            "test_decorator",
            "fn generic_fn<T: std::fmt::Display>(x: T) -> String { format!(\"Value: {}\", x) }"
        ),
        norm(
            "fn generic_fn<T: std::fmt::Display>(x: T) -> String { test_decorator(|| { format!(\"Value: {}\", x) }) }"
        )
    );
}

#[test]
fn test_generic_with_where_clause() {
    assert_eq!(
        expand(
            "test_decorator",
            "fn bounded_fn<T>(x: T) -> T where T: std::fmt::Debug + Clone { println!(\"Debug: {:?}\", x); x.clone() }"
        ),
        norm(
            "fn bounded_fn<T>(x: T) -> T where T: std::fmt::Debug + Clone { test_decorator(|| { println!(\"Debug: {:?}\", x); x.clone() }) }"
        )
    );
}

#[test]
fn test_struct_method_decoration() {
    assert_eq!(
        expand("test_decorator", "fn get_value(&self) -> i32 { self.0 }"),
        norm("fn get_value(&self) -> i32 { test_decorator(|| { self.0 }) }")
    );
}

#[test]
fn test_mut_method_decoration() {
    assert_eq!(
        expand("test_decorator", "fn increment(&mut self) -> i32 { self.0 += 1; self.0 }"),
        norm("fn increment(&mut self) -> i32 { test_decorator(|| { self.0 += 1; self.0 }) }")
    );
}

#[test]
fn test_async_functions() {
    assert_eq!(
        expand("log_async", "async fn simple_async() -> i32 { 42 }"),
        norm("async fn simple_async() -> i32 { log_async(|| async move { { 42 } }).await }")
    );
}

const COMPUTE: &str = "fn compute(x: i32, y: i32) -> i32 { x + y }";
const ADD: &str = "fn add(x: i32, y: i32) -> i32 { x + y }";

#[test]
fn test_transform_params() {
    assert_eq!(
        expand(
            "transform_params = transform_params, transform_result = transform_result, log_execution",
            COMPUTE
        ),
        norm(
            "fn compute(x: i32, y: i32) -> i32 { log_execution(|| { let (x, y) = transform_params(x, y); { let result = { x + y }; transform_result(result) } }) }"
        )
    );
}

#[test]
fn test_param_transform() {
    assert_eq!(
        expand("transform_params = transform_params, log_execution", ADD),
        norm(
            "fn add(x: i32, y: i32) -> i32 { log_execution(|| { let (x, y) = transform_params(x, y); { x + y } }) }"
        )
    );
}

#[test]
fn test_result_transform() {
    assert_eq!(
        expand("transform_result = transform_result, log_execution", ADD),
        norm(
            "fn add(x: i32, y: i32) -> i32 { log_execution(|| { let result = { x + y }; transform_result(result) }) }"
        )
    );
}

#[test]
fn test_both_transforms() {
    assert_eq!(
        expand(
            "transform_params = double_params, transform_result = add_one_result, log_execution",
            ADD
        ),
        norm(
            "fn add(x: i32, y: i32) -> i32 { log_execution(|| { let (x, y) = double_params(x, y); { let result = { x + y }; add_one_result(result) } }) }"
        )
    );
}

#[test]
fn test_multiple_decorators() {
    assert_eq!(
        expand(
            "transform_params = transform_params, transform_result = transform_result, log_execution",
            ADD
        ),
        norm(
            "fn add(x: i32, y: i32) -> i32 { log_execution(|| { let (x, y) = transform_params(x, y); { let result = { x + y }; transform_result(result) } }) }"
        )
    );
}

#[test]
fn test_transform_order() {
    assert_eq!(
        expand(
            "pre = \"println!(\\\"Starting\\\");\", transform_params = transform_params, transform_result = transform_result, post = \"println!(\\\"Finished\\\");\", log_execution",
            ADD
        ),
        norm(
            "fn add(x: i32, y: i32) -> i32 { log_execution(|| { let (x, y) = transform_params(x, y); { \"println!(\\\"Starting\\\");\"; { let result = { let result = { x + y }; transform_result(result) }; \"println!(\\\"Finished\\\");\"; result } } }) }"
        )
    );
}

#[test]
fn single_decorator_is_a_plain_call() {
    assert_eq!(
        expand("d", "fn f() -> i32 { 7 }"),
        norm("fn f() -> i32 { d(|| { 7 }) }")
    );
}

#[test]
fn first_listed_is_outermost() {
    assert_eq!(
        expand("log_start, log_middle, log_end", "fn test_function(x: i32) -> i32 { x * 2 }"),
        norm(
            "fn test_function(x: i32) -> i32 { log_start(|| log_middle(|| log_end(|| { x * 2 }))) }"
        )
    );
}

#[test]
fn hooks_surround_the_body() {
    assert_eq!(
        expand(
            "pre = EXECUTION_COUNT.fetch_add(1, Ordering::SeqCst), post = println!(\"Execution finished\"), log_execution",
            COMPUTE
        ),
        norm(
            "fn compute(x: i32, y: i32) -> i32 { log_execution(|| { EXECUTION_COUNT.fetch_add(1, Ordering::SeqCst); { let result = { x + y }; println!(\"Execution finished\"); result } }) }"
        )
    );
}

#[test]
fn arguments_come_before_the_closure() {
    assert_eq!(
        expand("with_threshold(0, 100), with_retry(2)", "fn complex_decoration(x: i32) -> i32 { x * 2 }"),
        norm(
            "fn complex_decoration(x: i32) -> i32 { with_threshold(0, 100, || with_retry(2, || { x * 2 })) }"
        )
    );
    assert_eq!(
        expand("with_retry(3)", "fn simple_retry() -> i32 { 42 }"),
        norm("fn simple_retry() -> i32 { with_retry(3, || { 42 }) }")
    );
}

#[test]
fn associated_function_paths() {
    assert_eq!(
        expand("Logger::with_logging(\"Counter\")", "fn get_value(&self) -> i32 { self.value }"),
        norm("fn get_value(&self) -> i32 { Logger::with_logging(\"Counter\", || { self.value }) }")
    );
}

#[test]
fn self_paths_become_member_calls() {
    assert_eq!(
        expand(
            "\"self.logger.log\", Logger::static_log(\"Static\")",
            "fn get_value(&self) -> i32 { self.value }"
        ),
        norm(
            "fn get_value(&self) -> i32 { self.logger.log(|| Logger::static_log(\"Static\", || { self.value })) }"
        )
    );
}

#[test]
fn paths_may_carry_turbofish_generics() {
    assert_eq!(
        expand(
            "transform_result = convert::<i64> , with_cache::<u64, Vec<u8>>(10), Logger::<T>::log",
            "fn f(x: u8) -> i64 { x as i64 }"
        ),
        norm(
            "fn f(x: u8) -> i64 { with_cache::<u64, Vec<u8>>(10, || { let result = Logger::<T>::log(|| { x as i64 }); convert::<i64>(result) }) }"
        )
    );
    assert_eq!(refusal("d::<u8", "fn f() {}").0, ErrorKind::UnexpectedToken);
}

#[test]
fn self_path_strings_are_read_as_rust_strings() {
    assert_eq!(
        expand("r\"self.logger.log\"", "fn f(&self) {}"),
        norm("fn f(&self) { self.logger.log(|| {}) }")
    );
    assert_eq!(
        expand("\"self.\\x61\"", "fn f(&self) {}"),
        norm("fn f(&self) { self.a(|| {}) }")
    );
    assert_eq!(refusal("b\"self.a\"", "fn f() {}").0, ErrorKind::ExpectedDecorator);
}

#[test]
fn async_layers_are_awaited_each() {
    assert_eq!(
        expand("a, b(1)", "pub async fn f(x: u8) -> u8 { x }"),
        norm("pub async fn f(x: u8) -> u8 { a(|| async move { b(1, || async move { { x } }).await }).await }")
    );
}

#[test]
fn generic_parameter_types_keep_their_commas() {
    assert_eq!(
        expand(
            "transform_params = t, d",
            "fn f<K: Fn(u8) -> u8, V>(#[allow(unused)] m: HashMap<K, V>, mut y: i32, (a, b): (u8, u8), _: u8) {}"
        ),
        norm(
            "fn f<K: Fn(u8) -> u8, V>(#[allow(unused)] m: HashMap<K, V>, mut y: i32, (a, b): (u8, u8), _: u8) { d(|| { let (m, y) = t(m, y); {} }) }"
        )
    );
}

#[test]
fn identifier_patterns_are_rebound() {
    assert_eq!(
        expand(
            "transform_params = t, d",
            "fn f(x @ Some(_): Option<u8>, mut y: u8, ref z: u8, Wrapper(w): Wrapper) {}"
        ),
        norm(
            "fn f(x @ Some(_): Option<u8>, mut y: u8, ref z: u8, Wrapper(w): Wrapper) { d(|| { let (x, y, z) = t(x, y, z); {} }) }"
        )
    );
}

#[test]
fn no_named_parameters_means_no_rebinding() {
    assert_eq!(
        expand("transform_params = t, d", "fn f(&self) -> u8 { 1 }"),
        norm("fn f(&self) -> u8 { d(|| { 1 }) }")
    );
}

#[test]
fn trailing_commas_and_empty_arguments() {
    assert_eq!(
        expand("a(), b(1,),", "fn f() {}"),
        norm("fn f() { a(|| b(1, || {})) }")
    );
}

#[test]
fn turbofish_arguments_stay_whole() {
    assert_eq!(
        expand("d(Vec::<(u8, u8)>::new(), HashMap::<K, V>::new())", "fn f() {}"),
        norm("fn f() { d(Vec::<(u8, u8)>::new(), HashMap::<K, V>::new(), || {}) }")
    );
}

#[test]
fn expressions_with_top_level_commas_stay_whole() {
    assert_eq!(
        expand("d(|a, b| a + b)", "fn f() {}"),
        norm("fn f() { d(|a, b| a + b, || {}) }")
    );
    assert_eq!(
        expand("pre = |a, b| f(a, b), d", "fn f() {}"),
        norm("fn f() { d(|| { |a, b| f(a, b); {} }) }")
    );
    assert_eq!(
        expand("d(x as HashMap<K, V>, <HashMap<K, V>>::new(), 3)", "fn f() {}"),
        norm("fn f() { d(x as HashMap<K, V>, <HashMap<K, V>>::new(), 3, || {}) }")
    );
    assert_eq!(
        expand("post = g(|a, b| a), e(1), d", "fn f() {}"),
        norm("fn f() { e(1, || { let result = d(|| {}); g(|a, b| a); result }) }")
    );
}

#[test]
fn repeated_key_keeps_the_last_value() {
    assert_eq!(
        expand("pre = a(), pre = b(), d", "fn f() {}"),
        norm("fn f() { d(|| { b(); {} }) }")
    );
}

#[test]
fn empty_list_is_refused_for_every_shape() {
    for item in [
        "fn f() {}",
        "async fn f() {}",
        "const fn f() -> u8 { 1 }",
        "struct S;",
        "pub fn g<T>(&self, t: T) -> T { t }",
    ] {
        assert_eq!(refusal("", item).0, ErrorKind::NoDecoratorsProvided);
    }
}

#[test]
fn const_functions_are_refused() {
    // `pub` is token 1, `const` token 2.
    let (kind, span, _) = refusal("test_decorator", "pub const fn constant_fn(x: i32) -> i32 { x + 1 }");
    assert_eq!(kind, ErrorKind::ConstFunctionNotSupported);
    assert_eq!(span, 2);
    assert_eq!(
        refusal("a, b(1), pre = p, c", "const fn f() {}").0,
        ErrorKind::ConstFunctionNotSupported
    );
}

#[test]
fn malformed_self_path_is_refused() {
    let (kind, span, detail) = refusal("\"invalid.path\"", "fn test(&self) -> i32 { self.value }");
    assert_eq!(kind, ErrorKind::MalformedSelfPath);
    assert_eq!(span, 1);
    assert_eq!(detail, "invalid");
    assert_eq!(refusal("\"other.field\"", "fn f() {}").0, ErrorKind::MalformedSelfPath);
}

#[test]
fn empty_path_segment_is_refused() {
    let (kind, _, detail) = refusal("\"self..field\"", "fn f() {}");
    assert_eq!(kind, ErrorKind::EmptyPathSegment);
    assert_eq!(detail, "self..field");
    assert_eq!(refusal("\"self.a.\"", "fn f() {}").0, ErrorKind::EmptyPathSegment);
}

#[test]
fn invalid_identifier_segment_is_refused() {
    let (kind, _, detail) = refusal("\"self.ok.9lives\"", "fn f() {}");
    assert_eq!(kind, ErrorKind::InvalidIdentifierSegment);
    assert_eq!(detail, "9lives");
    assert_eq!(refusal("\"self.a-b\"", "fn f() {}").0, ErrorKind::InvalidIdentifierSegment);
}

#[test]
fn unknown_config_option_is_refused() {
    let (kind, span, detail) = refusal("invalid_option = \"test\", log_execution", "fn f() -> i32 { 42 }");
    assert_eq!(kind, ErrorKind::UnknownConfigOption);
    assert_eq!(span, 1);
    assert_eq!(detail, "invalid_option");
}

#[test]
fn braced_entry_is_refused() {
    assert_eq!(
        refusal("{invalid_option = \"test\"}, log_execution", "fn test_function() -> i32 { 42 }").0,
        ErrorKind::ExpectedDecorator
    );
}

#[test]
fn configuration_without_decorator_is_refused() {
    assert_eq!(
        refusal("transform_params = wrong_params", "fn add(x: i32, y: i32) -> i32 { x + y }").0,
        ErrorKind::ExpectedDecorator
    );
}

#[test]
fn empty_values_are_refused() {
    assert_eq!(refusal("pre =, d", "fn f() {}").0, ErrorKind::ExpectedExpression);
    assert_eq!(refusal("d(1,,2)", "fn f() {}").0, ErrorKind::ExpectedExpression);
    assert_eq!(refusal("a,,b", "fn f() {}").0, ErrorKind::ExpectedDecorator);
}

#[test]
fn malformed_expressions_are_refused() {
    // `pre` is token 1.
    let (kind, span, detail) = refusal("pre = 1 2, d", "fn f() {}");
    assert_eq!(kind, ErrorKind::ExpectedExpression);
    assert_eq!(span, 1);
    assert_eq!(detail, "pre");
    assert_eq!(refusal("d(1 2)", "fn f() {}").0, ErrorKind::ExpectedExpression);
}

#[test]
fn malformed_functions_are_refused() {
    assert_eq!(refusal("d", "fn f() { let }").0, ErrorKind::NotAFunction);
    assert_eq!(refusal("d", "fn f(x i32) {}").0, ErrorKind::NotAFunction);
}

#[test]
fn transform_must_be_a_path() {
    assert_eq!(
        refusal("transform_result = |r| r * 2, d", "fn f() -> i32 { 1 }").0,
        ErrorKind::ExpectedPath
    );
}

#[test]
fn junk_after_decorator_is_refused() {
    let (kind, span, _) = refusal("d e", "fn f() {}");
    assert_eq!(kind, ErrorKind::UnexpectedToken);
    assert_eq!(span, 2);
}

#[test]
fn non_functions_are_refused() {
    assert_eq!(refusal("d", "struct S;").0, ErrorKind::NotAFunction);
    assert_eq!(refusal("d", "impl S {}").0, ErrorKind::NotAFunction);
}

#[test]
fn diagnostics_have_words() {
    let e = decorate(lex(""), lex("fn f() {}")).unwrap_err();
    assert_eq!(e.message(), "No decorator paths provided");
    assert_eq!(e.hint(), Some("Expected at least one decorator function"));
    let e = decorate(lex("d"), lex("const fn f() {}")).unwrap_err();
    assert_eq!(e.message(), "Cannot decorate const functions");
    assert!(e.hint().unwrap().contains("remove the const"));
}
