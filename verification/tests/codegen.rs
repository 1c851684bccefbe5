//! Generated code.

use dial9_tokio_telemetry::codegen::main_fn::{
    check_argument, expand_attribute, expand_function, expand_main, parse_argument, ExpandError,
    MainFunction,
};
use dial9_tokio_telemetry::codegen::syntax::ParsedFunction;
use dial9_tokio_telemetry::codegen::trace_event::{
    derive_for_shape, derive_trace_event, DeriveError, DeriveShape, RecordField,
};
use quote::ToTokens;
use std::future::Future;

fn main_function(attrs: &str, output: &str, body: &str) -> MainFunction {
    MainFunction {
        attrs: attrs.to_string(),
        vis: String::new(),
        is_async: true,
        name: "main".to_string(),
        output: output.to_string(),
        body: body.to_string(),
    }
}

fn parse(text: &str) -> syn::File {
    let tokens: proc_macro2::TokenStream = text.parse().expect("failed to lex the expansion");
    syn::parse2(tokens).expect("failed to parse the expansion")
}

fn the_function(file: &syn::File) -> &syn::ItemFn {
    assert_eq!(file.items.len(), 1);
    match &file.items[0] {
        syn::Item::Fn(f) => f,
        _ => panic!("expected a function"),
    }
}

#[test]
fn expand_basic() {
    let input = main_function("", "", "do_work().await;");
    let text = expand_main("my_config", &input).expect("expansion failed");
    assert_eq!(
        text,
        "  fn main()  { let __dial9_config = my_config(); let (__dial9_runtime, __dial9_guard) = \
         __dial9_config.build().expect(\"failed to initialize dial9 runtime\"); let __dial9_handle \
         = __dial9_guard.handle(); let __dial9_body_handle = __dial9_handle.clone(); \
         __dial9_runtime.block_on(async move { match __dial9_handle.spawn(async move { let handle \
         = __dial9_body_handle; do_work().await; }).await { Ok(output) => output, Err(e) if \
         e.is_panic() => ::std::panic::resume_unwind(e.into_panic()), Err(_) => \
         ::std::unreachable!(\"task cannot be cancelled inside block_on\"), } }) }"
    );
    let file = parse(&text);
    let f = the_function(&file);
    assert_eq!(f.sig.ident.to_string(), "main");
    assert!(f.sig.asyncness.is_none());
    assert_eq!(f.block.stmts.len(), 5);
    let item = "async fn main() { do_work().await; }";
    let from_item = expand_attribute("config = my_config", item).expect("expansion failed");
    assert_eq!(squeezed(&from_item), squeezed(&text));
}

#[test]
fn expand_with_return_type() {
    let output = "-> Result<(), Box<dyn std::error::Error>>";
    let input = main_function("", output, "do_work().await?; Ok(())");
    let text = expand_main("my_config", &input).expect("expansion failed");
    let file = parse(&text);
    assert!(matches!(the_function(&file).sig.output, syn::ReturnType::Type(..)));
    assert!(text.contains("do_work().await?; Ok(())"));
    let item = format!("async fn main() {output} {{ do_work().await?; Ok(()) }}");
    let from_item = expand_attribute("config = my_config", &item).expect("expansion failed");
    assert_eq!(squeezed(&from_item), squeezed(&text));
}

#[test]
fn expand_with_attributes() {
    let input = main_function("#[allow(unused)]", "", "let _ = 42;");
    let text = expand_main("my_config", &input).expect("expansion failed");
    let file = parse(&text);
    assert_eq!(the_function(&file).attrs.len(), 1);
    assert!(text.contains("let _ = 42;"));
    let item = "#[allow(unused)] async fn main() { let _ = 42; }";
    let from_item = expand_attribute("config = my_config", item).expect("expansion failed");
    assert_eq!(squeezed(&from_item), squeezed(&text));
}

#[test]
fn error_not_async() {
    let mut input = main_function("", "", "");
    input.is_async = false;
    let err = expand_main("my_config", &input).expect_err("expected error for non-async fn");
    let msg = err.message();
    assert!(msg.contains("async"), "error should mention async: {msg}");
    assert_eq!(msg, "the `async` keyword is missing from the function declaration");
    assert_eq!(expand_attribute("config = my_config", "fn main() {}"), Err(ExpandError::NotAsync));
}

#[test]
fn argument_has_to_be_config() {
    assert!(check_argument("config").is_ok());
    assert_eq!(check_argument("conf"), Err(ExpandError::ExpectedConfig));
    assert_eq!(ExpandError::ExpectedConfig.message(), "expected `config`");
    for (text, expected) in [
        ("config = my_config", Ok("my_config")),
        ("  config=a::b  ", Ok("a :: b")),
        ("conf = my_config", Err(ExpandError::ExpectedConfig)),
        ("conf, my_config", Err(ExpandError::ExpectedConfig)),
        ("r#config = my_config", Err(ExpandError::ExpectedConfig)),
        ("Länder = x", Err(ExpandError::ExpectedConfig)),
        ("config", Err(ExpandError::ArgumentSyntax)),
        ("config my_config", Err(ExpandError::ArgumentSyntax)),
        ("config = ", Err(ExpandError::ArgumentSyntax)),
        ("config = a b", Err(ExpandError::ArgumentSyntax)),
        ("config == a", Err(ExpandError::ArgumentSyntax)),
        ("fn = a", Err(ExpandError::ArgumentSyntax)),
        ("= a", Err(ExpandError::ArgumentSyntax)),
        ("", Err(ExpandError::ArgumentSyntax)),
    ] {
        assert_eq!(parse_argument(text), expected.map(|p| p.to_string()), "{text}");
    }
    assert_eq!(ExpandError::ArgumentSyntax.message(), "expected `config = path`");
}

#[test]
fn argument_is_looked_at_before_the_function() {
    let async_fn = "pub async fn main() {}";
    assert_eq!(expand_attribute("conf = x", "struct S;"), Err(ExpandError::ExpectedConfig));
    assert_eq!(expand_attribute("config = x", "struct S;"), Err(ExpandError::ItemSyntax));
    assert_eq!(expand_attribute("config = ", async_fn), Err(ExpandError::ArgumentSyntax));
    assert!(expand_attribute("config = x", async_fn).is_ok());
    assert_eq!(ExpandError::ItemSyntax.message(), "expected a function");
}

#[test]
fn attributes_and_statements_are_lined_up() {
    let f = ParsedFunction {
        attrs: vec!["#[a]".to_string(), "#[b]".to_string()],
        vis: "pub".to_string(),
        is_async: true,
        name: "go".to_string(),
        output: String::new(),
        stmts: vec!["x();".to_string(), "y();".to_string()],
    };
    let text = expand_function("c", f).unwrap();
    assert!(text.starts_with("#[a] #[b]  pub fn go()  { let __dial9_config = c();"));
    assert!(text.contains("let handle = __dial9_body_handle; x(); y();  }).await"));
}

fn tokens(t: impl ToTokens) -> String {
    t.to_token_stream().to_string()
}

fn lexed(text: &str) -> String {
    tokens(text.parse::<proc_macro2::TokenStream>().expect("failed to lex"))
}

/// The tokens without the blanks between them.
fn squeezed(text: &str) -> String {
    lexed(text).replace(' ', "")
}

fn async_stmts(e: &syn::Expr) -> &Vec<syn::Stmt> {
    match e {
        syn::Expr::Async(a) => {
            assert!(a.capture.is_some());
            &a.block.stmts
        }
        _ => panic!("expected an async block"),
    }
}

/// The task that an expanded function runs on the runtime, and how it goes on
/// with what the task ended in: the arms, each with its pattern, its guard and
/// its value.
fn task_and_arms(text: &str) -> (String, Vec<(String, Option<String>, String)>) {
    let file = parse(text);
    let block_on = match the_function(&file).block.stmts.last() {
        Some(syn::Stmt::Expr(syn::Expr::MethodCall(call), None)) => call.clone(),
        _ => panic!("expected a call at the end"),
    };
    assert_eq!(tokens(&block_on.receiver), "__dial9_runtime");
    assert_eq!(block_on.method.to_string(), "block_on");
    let stmts = async_stmts(&block_on.args[0]);
    assert_eq!(stmts.len(), 1);
    let end = match &stmts[0] {
        syn::Stmt::Expr(syn::Expr::Match(m), None) => m,
        _ => panic!("expected a match on what the task ended in"),
    };
    let spawn = match &*end.expr {
        syn::Expr::Await(a) => match &*a.base {
            syn::Expr::MethodCall(call) => call,
            _ => panic!("expected a spawned task"),
        },
        _ => panic!("expected an await"),
    };
    assert_eq!(tokens(&spawn.receiver), "__dial9_handle");
    assert_eq!(spawn.method.to_string(), "spawn");
    let task = async_stmts(&spawn.args[0]);
    assert_eq!(tokens(&task[0]), lexed("let handle = __dial9_body_handle;"));
    let body = task[1..].iter().map(tokens).collect::<Vec<String>>().join(" ");
    let arms = end
        .arms
        .iter()
        .map(|a| (tokens(&a.pat), a.guard.as_ref().map(|g| tokens(&g.1)), tokens(&a.body)))
        .collect();
    (body, arms)
}

/// How an expanded function goes on: with the output of its task, or with the
/// payload of the panic that ended it.
fn expected_arms() -> Vec<(String, Option<String>, String)> {
    vec![
        (lexed("Ok(output)"), None, lexed("output")),
        (
            lexed("Err(e)"),
            Some(lexed("e.is_panic()")),
            lexed("::std::panic::resume_unwind(e.into_panic())"),
        ),
        (
            lexed("Err(_)"),
            None,
            lexed("::std::unreachable!(\"task cannot be cancelled inside block_on\")"),
        ),
    ]
}

/// Runs `body` as a spawned task and goes on as the arms do: with its output, or
/// with the payload of its panic.
fn run_spawned<F>(body: F) -> Result<F::Output, Box<dyn std::any::Any + Send>>
where
    F: Future + Send + 'static,
    F::Output: Send + 'static,
{
    let runtime = tokio::runtime::Builder::new_current_thread().enable_all().build().unwrap();
    runtime.block_on(async move {
        match tokio::spawn(body).await {
            Ok(output) => Ok(output),
            Err(e) if e.is_panic() => Err(e.into_panic()),
            Err(_) => unreachable!("task cannot be cancelled inside block_on"),
        }
    })
}

#[test]
fn macro_propagates_panic_payload() {
    let input = main_function("", "", "panic!(\"boom\")");
    let (body, arms) = task_and_arms(&expand_main("test_config", &input).unwrap());
    assert_eq!(body, lexed("panic!(\"boom\")"));
    assert_eq!(arms, expected_arms());
    let payload =
        run_spawned(async { if true { panic!("boom") } }).expect_err("should have panicked");
    let msg = payload.downcast_ref::<&str>().expect("payload should be &str");
    assert_eq!(*msg, "boom");
}

#[test]
fn macro_propagates_unwrap_panic() {
    let input = main_function("", "", "let x: Option<i32> = None; x.unwrap();");
    let (body, arms) = task_and_arms(&expand_main("test_config", &input).unwrap());
    assert_eq!(body, lexed("let x: Option<i32> = None; x.unwrap();"));
    assert_eq!(arms, expected_arms());
    let payload = run_spawned(async {
        let x: Option<i32> = std::hint::black_box(None);
        x.unwrap();
    })
    .expect_err("should have panicked");
    let msg = payload
        .downcast_ref::<&str>()
        .map(|s| s.to_string())
        .or_else(|| payload.downcast_ref::<String>().cloned())
        .expect("payload should be &str or String");
    assert!(msg.contains("None"), "expected unwrap message, got: {msg}");
}

#[test]
fn macro_propagates_err_variant() {
    let body = "Err(\"something went wrong\".into())";
    let input = main_function("", "-> Result<(), String>", body);
    let text = expand_main("test_config", &input).unwrap();
    let (task, arms) = task_and_arms(&text);
    assert_eq!(task, lexed(body));
    assert_eq!(arms, expected_arms());
    let result: Result<(), String> =
        run_spawned(async { Err("something went wrong".into()) }).expect("should not panic");
    assert_eq!(result.unwrap_err(), "something went wrong");
}

#[test]
fn macro_propagates_io_error() {
    let body = "Err(std::io::Error::new(std::io::ErrorKind::NotFound, \"missing\"))";
    let input = main_function("", "-> Result<i32, std::io::Error>", body);
    let text = expand_main("test_config", &input).unwrap();
    let (task, arms) = task_and_arms(&text);
    assert_eq!(task, lexed(body));
    assert_eq!(arms, expected_arms());
    let result: Result<i32, std::io::Error> =
        run_spawned(async { Err(std::io::Error::new(std::io::ErrorKind::NotFound, "missing")) })
            .expect("should not panic");
    let err = result.unwrap_err();
    assert_eq!(err.kind(), std::io::ErrorKind::NotFound);
    assert_eq!(err.to_string(), "missing");
}

fn field(name: &str, ty: &str) -> RecordField {
    RecordField { name: name.to_string(), ty: ty.to_string() }
}

#[test]
fn derived_code_follows_the_fields() {
    let shape = DeriveShape::NamedFields(vec![field("timestamp_ns", "u64"), field("worker", "u8")]);
    let text = derive_for_shape("PollEnd", &shape).unwrap();
    let file = parse(&text);
    assert_eq!(file.items.len(), 2);
    match &file.items[0] {
        syn::Item::Struct(s) => {
            assert_eq!(s.ident.to_string(), "PollEndRef");
            assert_eq!(s.fields.len(), 2);
        }
        _ => panic!("expected a struct"),
    }
    match &file.items[1] {
        syn::Item::Impl(i) => assert_eq!(i.items.len(), 5),
        _ => panic!("expected an impl"),
    }
    assert!(text.contains("fn event_name() -> &'static str { \"PollEnd\" }"));
    assert!(text.contains("worker: <u8 as ::dial9_trace_format::TraceField>::decode_ref(fields.get(1usize)?)?"));
    assert!(!text.contains("_marker"));
    let first = text.find("encode_field(&self.timestamp_ns, buf)").unwrap();
    let second = text.find("encode_field(&self.worker, buf)").unwrap();
    assert!(first < second);
    let record = "struct PollEnd { timestamp_ns: u64, worker: u8 }";
    assert_eq!(derive_trace_event(record), Ok(text));
}

#[test]
fn fieldless_records_get_a_marker() {
    let text = derive_for_shape("Tick", &DeriveShape::NamedFields(Vec::new())).unwrap();
    parse(&text);
    assert_eq!(text.matches("_marker").count(), 2);
}

#[test]
fn only_structs_with_named_fields_are_supported() {
    let e = derive_for_shape("X", &DeriveShape::OtherFields).unwrap_err();
    assert_eq!(e, DeriveError::OtherFields);
    assert_eq!(e.message(), "TraceEvent only supports named fields");
    let e = derive_for_shape("X", &DeriveShape::NotAStruct).unwrap_err();
    assert_eq!(e.message(), "TraceEvent can only be derived for structs");
}

#[test]
fn records_are_told_apart_by_their_declaration() {
    let record = "#[derive(Debug)] pub struct S { a: Vec<u8>, pub b: u64 }";
    let text = derive_trace_event(record).unwrap();
    assert!(text.contains("pub a: <Vec < u8 > as ::dial9_trace_format::TraceField>::Ref<'a>, "));
    assert_eq!(derive_trace_event("struct S(u8);"), Err(DeriveError::OtherFields));
    assert_eq!(derive_trace_event("struct S;"), Err(DeriveError::OtherFields));
    assert_eq!(derive_trace_event("enum E { A }"), Err(DeriveError::NotAStruct));
    assert_eq!(derive_trace_event("union U { a: u8 }"), Err(DeriveError::NotAStruct));
    assert_eq!(derive_trace_event("fn f() {}"), Err(DeriveError::Syntax));
    assert_eq!(derive_trace_event("struct {"), Err(DeriveError::Syntax));
    assert!(derive_trace_event("struct S {}").unwrap().contains("_marker"));
    assert_eq!(DeriveError::Syntax.message(), "expected a struct, an enum or a union");
}
