use decorate::{
    analyze_function, analyze_shape, calculate_value, ErrorKind, compose_body, parse_decorators, resolve_self_path,
    Config, DecoratorRef, Delim, FnShape, PathError, SelfPath, Token,
};

fn ident(s: &str) -> Token {
    Token::Ident { text: s.to_string(), span: 0 }
}

fn punct(c: char) -> Token {
    Token::Punct { ch: c, joint: false, span: 0 }
}

fn group(delim: Delim, inner: Vec<Token>) -> Token {
    Token::Group { delim, inner, span: 0 }
}

fn fields(p: &SelfPath) -> Vec<&str> {
    p.fields.iter().map(|f| f.as_str()).collect()
}

#[test]
fn resolves_a_member_chain() {
    let p = resolve_self_path("self.logger.log").unwrap();
    assert_eq!(fields(&p), vec!["logger", "log"]);
    assert_eq!(
        p.to_tokens(),
        vec![ident("self"), punct('.'), ident("logger"), punct('.'), ident("log")]
    );
}

#[test]
fn resolving_twice_gives_the_same_chain() {
    let a = resolve_self_path("self.a.b").unwrap();
    let b = resolve_self_path("self.a.b").unwrap();
    assert_eq!(a, b);
    let text = format!("self.{}", a.fields.join("."));
    assert_eq!(resolve_self_path(&text).unwrap(), a);
}

#[test]
fn bare_receiver_has_no_fields() {
    assert!(resolve_self_path("self").unwrap().fields.is_empty());
}

#[test]
fn path_refusals_name_the_segment() {
    assert_eq!(resolve_self_path("other.field"), Err(PathError::MalformedSelfPath));
    assert_eq!(resolve_self_path(""), Err(PathError::MalformedSelfPath));
    assert_eq!(
        resolve_self_path("self..field"),
        Err(PathError::EmptyPathSegment { index: 1 })
    );
    assert_eq!(
        resolve_self_path("self.ok.2x"),
        Err(PathError::InvalidIdentifierSegment { index: 2 })
    );
}

#[test]
fn identifiers_follow_unicode_letters() {
    assert_eq!(fields(&resolve_self_path("self.été._x9").unwrap()), vec!["été", "_x9"]);
    assert_eq!(
        resolve_self_path("self.9"),
        Err(PathError::InvalidIdentifierSegment { index: 1 })
    );
    assert_eq!(
        resolve_self_path("self.a$"),
        Err(PathError::InvalidIdentifierSegment { index: 1 })
    );
}

#[test]
fn parses_configuration_and_arguments() {
    // pre = a, retry(3)
    let attr = vec![
        ident("pre"),
        punct('='),
        ident("a"),
        punct(','),
        ident("retry"),
        group(Delim::Paren, vec![Token::Literal { text: "3".to_string(), span: 0 }]),
    ];
    let es = parse_decorators(&attr).unwrap();
    assert_eq!(es.len(), 1);
    assert_eq!(
        es[0].config,
        Some(Config { pre: Some(vec![ident("a")]), post: None, transform_params: None, transform_result: None })
    );
    assert_eq!(es[0].reference, DecoratorRef::StaticPath(vec![ident("retry")]));
    assert_eq!(
        es[0].args,
        Some(vec![vec![Token::Literal { text: "3".to_string(), span: 0 }]])
    );
}

#[test]
fn entries_without_configuration_have_none() {
    let attr = vec![ident("a"), punct(','), Token::Literal { text: "\"self.x\"".to_string(), span: 0 }];
    let es = parse_decorators(&attr).unwrap();
    assert_eq!(es.len(), 2);
    assert_eq!(es[0].config, None);
    assert_eq!(es[0].args, None);
    assert_eq!(
        es[1].reference,
        DecoratorRef::SelfExpr(SelfPath { fields: vec!["x".to_string()] })
    );
}

#[test]
fn reads_the_function_shape() {
    // async fn f(&self, a: u8) {}
    let item = vec![
        ident("async"),
        ident("fn"),
        ident("f"),
        group(
            Delim::Paren,
            vec![punct('&'), ident("self"), punct(','), ident("a"), punct(':'), ident("u8")],
        ),
        group(Delim::Brace, vec![]),
    ];
    let shape = analyze_function(&item).unwrap();
    assert_eq!(shape, FnShape { is_async: true, params: vec!["a".to_string()] });
}

#[test]
fn shape_follows_what_was_read() {
    // pub const fn f() {}
    let item = vec![
        ident("pub"),
        Token::Ident { text: "const".to_string(), span: 7 },
        ident("fn"),
        ident("f"),
        group(Delim::Paren, vec![]),
        group(Delim::Brace, vec![]),
    ];
    let read = Some((false, true, vec![None, Some("a".to_string()), Some("b".to_string())]));
    assert_eq!(
        analyze_shape(&item, read).unwrap(),
        FnShape { is_async: true, params: vec!["a".to_string(), "b".to_string()] }
    );
    let e = analyze_shape(&item, Some((true, false, vec![]))).unwrap_err();
    assert_eq!(e.kind, ErrorKind::ConstFunctionNotSupported);
    assert_eq!(e.span, 7);
    assert_eq!(analyze_shape(&item, None).unwrap_err().kind, ErrorKind::NotAFunction);
}

#[test]
fn composes_around_a_body() {
    let attr = vec![ident("a"), punct(','), ident("b")];
    let es = parse_decorators(&attr).unwrap();
    let shape = FnShape { is_async: false, params: vec![] };
    let body = group(Delim::Brace, vec![ident("x")]);
    let out = compose_body(es, &shape, body);
    let mut inner_b = bars();
    inner_b.push(group(Delim::Brace, vec![ident("x")]));
    let mut inner_a = bars();
    inner_a.push(ident("b"));
    inner_a.push(group(Delim::Paren, inner_b));
    assert_eq!(out, vec![ident("a"), group(Delim::Paren, inner_a)]);
}

fn bars() -> Vec<Token> {
    vec![Token::Punct { ch: '|', joint: true, span: 0 }, punct('|')]
}

#[test]
fn calculate_value_doubles() {
    assert_eq!(calculate_value(5), 10);
    assert_eq!(calculate_value(0), 0);
}
