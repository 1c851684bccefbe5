//! The main function that a traced async main function becomes.

use crate::codegen::syntax::{
    is_ident, parse_function, parse_path, parsed_function, parsed_path, reads_as_ident, texts,
    FunctionModel, ParsedFunction,
};
use crate::text::{
    from_chars, is_space, push_text, same_text, space, tail_chars, to_chars, trimmed,
    trimmed_range,
};
use vstd::prelude::*;

verus! {

/// A function, taken apart into the text of its pieces.
#[derive(Debug, Clone)]
pub struct MainFunction {
    /// The attributes, one behind the other.
    pub attrs: String,
    /// The visibility.
    pub vis: String,
    pub is_async: bool,
    pub name: String,
    /// The return type with its arrow, or nothing.
    pub output: String,
    /// The statements of the body.
    pub body: String,
}

/// Why a function cannot be expanded.
#[derive(Debug, Clone, Copy, PartialEq, Eq, Structural)]
pub enum ExpandError {
    /// The argument is not of the form `name = path`.
    ArgumentSyntax,
    /// The argument is not named `config`.
    ExpectedConfig,
    /// There is no function.
    ItemSyntax,
    /// The function is not async.
    NotAsync,
}

impl ExpandError {
    /// What is wrong, in words.
    pub fn message(&self) -> (s: &'static str)
        ensures
            s@ == (match *self {
                ExpandError::ArgumentSyntax => "expected `config = path`"@,
                ExpandError::ExpectedConfig => "expected `config`"@,
                ExpandError::ItemSyntax => "expected a function"@,
                ExpandError::NotAsync => "the `async` keyword is missing from the function declaration"@,
            }),
    {
        match self {
            ExpandError::ArgumentSyntax => "expected `config = path`",
            ExpandError::ExpectedConfig => "expected `config`",
            ExpandError::ItemSyntax => "expected a function",
            ExpandError::NotAsync => "the `async` keyword is missing from the function declaration",
        }
    }
}

/// The argument of the attribute has to be named `config`.
pub fn check_argument(name: &str) -> (r: Result<(), ExpandError>)
    ensures
        match r {
            Ok(_) => name@ == "config"@,
            Err(e) => name@ != "config"@ && e == ExpandError::ExpectedConfig,
        },
{
    if same_text(name, "config") {
        Ok(())
    } else {
        Err(ExpandError::ExpectedConfig)
    }
}

/// Whether `c` can stand in an identifier: an ASCII letter or digit, `_`, or any
/// other character outside of ASCII that is no white space.
pub open spec fn is_word_char(c: char) -> bool {
    'a' <= c <= 'z' || 'A' <= c <= 'Z' || '0' <= c <= '9' || c == '_' || (c as u32 >= 0x80
        && !is_space(c))
}

/// The first word of `s`: all characters in front of the first one that cannot
/// stand in an identifier.
pub open spec fn first_word(s: Seq<char>) -> Seq<char>
    decreases s.len(),
{
    if s.len() > 0 && is_word_char(s[0]) {
        seq![s[0]] + first_word(s.skip(1))
    } else {
        Seq::empty()
    }
}

/// The argument of the attribute: the path in `config = path`. Another name is
/// told from a text that is of another form.
pub open spec fn parsed_argument(text: Seq<char>) -> Result<Seq<char>, ExpandError> {
    let t = trimmed(text);
    let word = first_word(t);
    let rest = trimmed(t.skip(word.len() as int));
    if word == "config"@ {
        if rest.len() > 0 && rest[0] == '=' {
            match parsed_path(rest.skip(1)) {
                Some(path) => Ok(path),
                None => Err(ExpandError::ArgumentSyntax),
            }
        } else {
            Err(ExpandError::ArgumentSyntax)
        }
    } else if reads_as_ident(word) {
        Err(ExpandError::ExpectedConfig)
    } else {
        Err(ExpandError::ArgumentSyntax)
    }
}

fn word_char(c: char) -> (b: bool)
    ensures
        b == is_word_char(c),
{
    ('a' <= c && c <= 'z') || ('A' <= c && c <= 'Z') || ('0' <= c && c <= '9') || c == '_' || (
    c as u32 >= 0x80 && !space(c))
}

/// How long the first word is.
fn first_word_len(v: &Vec<char>) -> (n: usize)
    ensures
        n <= v@.len(),
        v@.take(n as int) == first_word(v@),
{
    let mut n: usize = 0;
    assert(v@.skip(0) =~= v@);
    assert(v@.take(0) + first_word(v@.skip(0)) =~= first_word(v@));
    while n < v.len() && word_char(v[n])
        invariant
            n <= v@.len(),
            v@.take(n as int) + first_word(v@.skip(n as int)) == first_word(v@),
        decreases v@.len() - n,
    {
        let ghost rest = v@.skip(n as int);
        assert(rest.skip(1) =~= v@.skip(n + 1));
        assert(first_word(rest) == seq![rest[0]] + first_word(rest.skip(1)));
        assert(v@.take(n + 1) + first_word(v@.skip(n + 1)) =~= v@.take(n as int) + first_word(
            rest,
        ));
        n = n + 1;
    }
    assert(v@.take(n as int) + first_word(v@.skip(n as int)) =~= v@.take(n as int));
    n
}

/// The characters without the white space around them.
fn trimmed_chars(v: &Vec<char>) -> (t: Vec<char>)
    ensures
        t@ == trimmed(v@),
{
    let (from, to) = trimmed_range(v);
    to_chars(from_chars(v, from, to).as_str())
}

/// The path in the argument of the attribute, `config = path`.
pub fn parse_argument(text: &str) -> (r: Result<String, ExpandError>)
    ensures
        match r {
            Ok(path) => parsed_argument(text@) == Ok::<Seq<char>, ExpandError>(path@),
            Err(e) => parsed_argument(text@) == Err::<Seq<char>, ExpandError>(e),
        },
{
    let t = trimmed_chars(&to_chars(text));
    let n = first_word_len(&t);
    let word = from_chars(&t, 0, n);
    assert(word@ =~= t@.take(n as int));
    if check_argument(word.as_str()).is_err() {
        return if is_ident(word.as_str()) {
            Err(ExpandError::ExpectedConfig)
        } else {
            Err(ExpandError::ArgumentSyntax)
        };
    }
    let rest = trimmed_chars(&tail_chars(&t, n));
    if rest.len() == 0 || rest[0] != '=' {
        return Err(ExpandError::ArgumentSyntax);
    }
    let path = from_chars(&rest, 1, rest.len());
    assert(path@ =~= rest@.skip(1));
    match parse_path(path.as_str()) {
        Some(path) => Ok(path),
        None => Err(ExpandError::ArgumentSyntax),
    }
}

/// Texts one behind the other, each with a blank behind it.
pub open spec fn lined_up(texts: Seq<Seq<char>>) -> Seq<char>
    decreases texts.len(),
{
    if texts.len() == 0 {
        Seq::empty()
    } else {
        lined_up(texts.drop_last()) + texts.last() + " "@
    }
}

fn line_up(all: &Vec<String>) -> (s: String)
    ensures
        s@ == lined_up(texts(all@)),
{
    let ghost model = texts(all@);
    let mut s = String::new();
    let mut i: usize = 0;
    assert(model.take(0) =~= Seq::empty());
    while i < all.len()
        invariant
            i <= all@.len(),
            model == texts(all@),
            s@ == lined_up(model.take(i as int)),
        decreases all@.len() - i,
    {
        let ghost next = model.take(i + 1);
        assert(next.drop_last() =~= model.take(i as int));
        assert(next.last() == all@[i as int]@);
        push_text(&mut s, all[i].as_str());
        push_text(&mut s, " ");
        i = i + 1;
    }
    assert(model.take(i as int) =~= model);
    s
}

/// Whether `r` is what the function `f` becomes with the configuration `config`.
pub open spec fn is_expanded(
    config: Seq<char>,
    f: FunctionModel,
    r: Result<String, ExpandError>,
) -> bool {
    if f.is_async {
        r matches Ok(text) && text@ == expanded(
            config,
            lined_up(f.attrs),
            f.vis,
            f.name,
            f.output,
            lined_up(f.stmts),
        )
    } else {
        r matches Err(e) && e == ExpandError::NotAsync
    }
}

/// The function that the function in `item` becomes under the attribute with the
/// argument `attr`.
pub fn expand_attribute(attr: &str, item: &str) -> (r: Result<String, ExpandError>)
    ensures
        match parsed_argument(attr@) {
            Err(e) => r matches Err(error) && error == e,
            Ok(config) => match parsed_function(item@) {
                None => r matches Err(e) && e == ExpandError::ItemSyntax,
                Some(f) => is_expanded(config, f, r),
            },
        },
{
    let config = match parse_argument(attr) {
        Ok(config) => config,
        Err(e) => return Err(e),
    };
    match parse_function(item) {
        Some(f) => expand_function(config.as_str(), f),
        None => Err(ExpandError::ItemSyntax),
    }
}

/// The function that `f` becomes with the configuration `config`.
pub fn expand_function(config: &str, f: ParsedFunction) -> (r: Result<String, ExpandError>)
    ensures
        is_expanded(config@, f@, r),
        !f.is_async ==> (r matches Err(e) && e == ExpandError::NotAsync),
        f.is_async ==> (r matches Ok(text) && (lined_up(texts(f.attrs@)) + " "@ + f.vis@ + " fn "@
            + f.name@ + "() "@ + f.output@ + " { let __dial9_config = "@ + config@).is_prefix_of(
            text@,
        )),
{
    let input = MainFunction {
        attrs: line_up(&f.attrs),
        vis: f.vis,
        is_async: f.is_async,
        name: f.name,
        output: f.output,
        body: line_up(&f.stmts),
    };
    expand_main(config, &input)
}

/// What stands between the configuration and the body: the runtime is built, and
/// the body runs as a task that is spawned on it, so that its polls are
/// recorded. The body has the telemetry handle as `handle`.
pub open spec fn before_body() -> Seq<char> {
    "(); let (__dial9_runtime, __dial9_guard) = __dial9_config.build()"@
        + ".expect(\"failed to initialize dial9 runtime\"); "@
        + "let __dial9_handle = __dial9_guard.handle(); "@
        + "let __dial9_body_handle = __dial9_handle.clone(); "@
        + "__dial9_runtime.block_on(async move { match __dial9_handle.spawn(async move { "@
        + "let handle = __dial9_body_handle; "@
}

/// What stands behind the body: its output is handed back, and a panic of it
/// goes on in the caller, with the body's own payload.
pub open spec fn after_body() -> Seq<char> {
    " }).await { Ok(output) => output, "@
        + "Err(e) if e.is_panic() => ::std::panic::resume_unwind(e.into_panic()), "@
        + "Err(_) => ::std::unreachable!(\"task cannot be cancelled inside block_on\"), } }) }"@
}

/// The function that calls `config`, builds the runtime and runs the body on
/// it.
pub open spec fn expanded(
    config: Seq<char>,
    attrs: Seq<char>,
    vis: Seq<char>,
    name: Seq<char>,
    output: Seq<char>,
    body: Seq<char>,
) -> Seq<char> {
    attrs + " "@ + vis + " fn "@ + name + "() "@ + output + " { let __dial9_config = "@ + config
        + before_body() + body + after_body()
}

/// The function that an async main function becomes; `config` is the path of
/// the function that makes its configuration. One that is not async is refused.
pub fn expand_main(config: &str, input: &MainFunction) -> (r: Result<String, ExpandError>)
    ensures
        match r {
            Ok(text) => input.is_async && text@ == expanded(
                config@,
                input.attrs@,
                input.vis@,
                input.name@,
                input.output@,
                input.body@,
            ),
            Err(e) => !input.is_async && e == ExpandError::NotAsync,
        },
{
    if !input.is_async {
        return Err(ExpandError::NotAsync);
    }
    let mut text = String::new();
    push_text(&mut text, input.attrs.as_str());
    push_text(&mut text, " ");
    push_text(&mut text, input.vis.as_str());
    push_text(&mut text, " fn ");
    push_text(&mut text, input.name.as_str());
    push_text(&mut text, "() ");
    push_text(&mut text, input.output.as_str());
    push_text(&mut text, " { let __dial9_config = ");
    push_text(&mut text, config);
    push_text(&mut text, "(); let (__dial9_runtime, __dial9_guard) = __dial9_config.build()");
    push_text(&mut text, ".expect(\"failed to initialize dial9 runtime\"); ");
    push_text(&mut text, "let __dial9_handle = __dial9_guard.handle(); ");
    push_text(&mut text, "let __dial9_body_handle = __dial9_handle.clone(); ");
    push_text(
        &mut text,
        "__dial9_runtime.block_on(async move { match __dial9_handle.spawn(async move { ",
    );
    push_text(&mut text, "let handle = __dial9_body_handle; ");
    push_text(&mut text, input.body.as_str());
    push_text(&mut text, " }).await { Ok(output) => output, ");
    push_text(
        &mut text,
        "Err(e) if e.is_panic() => ::std::panic::resume_unwind(e.into_panic()), ",
    );
    push_text(
        &mut text,
        "Err(_) => ::std::unreachable!(\"task cannot be cancelled inside block_on\"), } }) }",
    );
    assert(text@ =~= expanded(
        config@,
        input.attrs@,
        input.vis@,
        input.name@,
        input.output@,
        input.body@,
    ));
    Ok(text)
}

/// The name of an argument is a stretch of identifier characters, as long as it
/// can be.
pub proof fn lemma_first_word_is_as_long_as_it_can_be(s: Seq<char>)
    ensures
        first_word(s).is_prefix_of(s),
        forall|i: int| 0 <= i < first_word(s).len() ==> is_word_char(#[trigger] s[i]),
        first_word(s).len() < s.len() ==> !is_word_char(s[first_word(s).len() as int]),
    decreases s.len(),
{
    if s.len() > 0 && is_word_char(s[0]) {
        let rest = s.skip(1);
        lemma_first_word_is_as_long_as_it_can_be(rest);
        let word = first_word(rest);
        assert(first_word(s) =~= s.take(first_word(s).len() as int)) by {
            assert(word =~= rest.take(word.len() as int));
            assert forall|i: int| 0 <= i < first_word(s).len() implies #[trigger] first_word(s)[i]
                == s[i] by {
                if i > 0 {
                    assert(word[i - 1] == rest[i - 1]);
                }
            }
        }
        assert forall|i: int| 0 <= i < first_word(s).len() implies is_word_char(#[trigger] s[i]) by {
            if i > 0 {
                assert(rest[i - 1] == s[i]);
            }
        }
    }
}

/// In ASCII, letters, digits and the underscore can stand in an identifier.
pub proof fn lemma_ascii_word_chars(c: char)
    requires
        c as u32 <= 0x7f,
    ensures
        is_word_char(c) <==> ('a' <= c <= 'z' || 'A' <= c <= 'Z' || '0' <= c <= '9' || c == '_'),
{
}

/// The pieces of a function are lined up in their order, each once, with a blank
/// behind it.
pub proof fn lemma_pieces_are_lined_up_in_order(pieces: Seq<Seq<char>>, piece: Seq<char>)
    ensures
        lined_up(Seq::empty()) == Seq::<char>::empty(),
        lined_up(pieces.push(piece)) == lined_up(pieces) + piece + seq![' '],
{
    reveal_strlit(" ");
    assert(" "@ =~= seq![' ']);
    assert(pieces.push(piece).drop_last() =~= pieces);
}

/// The function keeps its attributes, its visibility, its name and its return
/// type, in front of everything else and in this order. It calls the path of the
/// configuration, and its own body runs unchanged, once, as a task that is
/// spawned on the runtime, with the telemetry handle at hand.
pub proof fn lemma_expansion_keeps_the_function(
    config: Seq<char>,
    attrs: Seq<char>,
    vis: Seq<char>,
    name: Seq<char>,
    output: Seq<char>,
    body: Seq<char>,
) -> (r: (Seq<char>, Seq<char>))
    ensures
        expanded(config, attrs, vis, name, output, body) == r.0 + body + r.1,
        (attrs + " "@ + vis + " fn "@ + name + "() "@ + output + " { let __dial9_config = "@ + config
            + "(); let (__dial9_runtime, __dial9_guard) = __dial9_config.build()"@).is_prefix_of(r.0),
        ("let __dial9_handle = __dial9_guard.handle(); "@
            + "let __dial9_body_handle = __dial9_handle.clone(); "@
            + "__dial9_runtime.block_on(async move { match __dial9_handle.spawn(async move { "@
            + "let handle = __dial9_body_handle; "@).is_suffix_of(r.0),
        (" }).await { Ok(output) => output, "@
            + "Err(e) if e.is_panic() => ::std::panic::resume_unwind(e.into_panic()), "@).is_prefix_of(
            r.1,
        ),
        "Err(_) => ::std::unreachable!(\"task cannot be cancelled inside block_on\"), } }) }"@.is_suffix_of(
            r.1,
        ),
{
    let front = attrs + " "@ + vis + " fn "@ + name + "() "@ + output + " { let __dial9_config = "@
        + config + before_body();
    assert(expanded(config, attrs, vis, name, output, body) =~= front + body + after_body());
    (front, after_body())
}

/// The argument is the word `config`, an equals sign and a path, with white space
/// around each or without. Another identifier in place of the word is told as
/// such, and everything else as being of another form.
pub proof fn lemma_argument_is_config_and_a_path(text: Seq<char>, path: Seq<char>)
    ensures
        ({
            let t = trimmed(text);
            let word = first_word(t);
            let rest = trimmed(t.skip(word.len() as int));
            &&& parsed_argument(text) == Ok::<Seq<char>, ExpandError>(path) <==> word == "config"@
                && rest.len() > 0 && rest[0] == '=' && parsed_path(rest.skip(1)) == Some(path)
            &&& parsed_argument(text) == Err::<Seq<char>, ExpandError>(ExpandError::ExpectedConfig)
                <==> word != "config"@ && reads_as_ident(word)
            &&& parsed_argument(text) matches Err(e) ==> e == ExpandError::ExpectedConfig || e
                == ExpandError::ArgumentSyntax
        }),
{
}

/// An async function becomes one with the same attributes, visibility, name and
/// return type, whose body has the statements of the function, all in order; one
/// that is not async is refused.
pub proof fn lemma_function_becomes_its_expansion(
    config: Seq<char>,
    f: FunctionModel,
    r: Result<String, ExpandError>,
)
    requires
        is_expanded(config, f, r),
    ensures
        !f.is_async ==> (r matches Err(e) && e == ExpandError::NotAsync),
        f.is_async ==> (r matches Ok(text) && {
            &&& text@ == expanded(
                config,
                lined_up(f.attrs),
                f.vis,
                f.name,
                f.output,
                lined_up(f.stmts),
            )
            &&& (lined_up(f.attrs) + " "@ + f.vis + " fn "@ + f.name + "() "@ + f.output
                + " { let __dial9_config = "@ + config).is_prefix_of(text@)
        }),
{
}

} // verus!
