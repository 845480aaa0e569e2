//! The rule language of the `Rule` attribute: its grammar over the tokens
//! of the attribute, and the builder code that a parsed rule stands for.
//!
//! A rule is a struct name (`MyRule`), a factory (`fn = make_rule`), or an
//! expression in braces built from matchers such as `starts_with("42")`,
//! each optionally followed by `.method(args)` calls, and combined with
//! `!` (not), `&` (and), `|` (or) and `->` (then), in that order of
//! precedence, with parentheses for grouping.

use vstd::prelude::*;

use crate::json::str_equal;

verus! {

/// The delimiters of a token group.
#[derive(Debug, Clone, Copy, PartialEq, Eq, Structural)]
pub enum Delim {
    Paren,
    Brace,
    Bracket,
}

/// A token of the attribute, with groups flattened into their opening and
/// closing delimiters.
#[derive(Debug)]
pub enum RuleToken {
    /// An identifier or keyword.
    Ident(String),
    /// A punctuation character; `true` when the next character is joined to
    /// it, as in `->` or `::`.
    Punct(char, bool),
    /// A string literal, as written.
    Str(String),
    /// Any other literal, as written.
    Lit(String),
    Open(Delim),
    Close(Delim),
}

/// The plain form of a [`RuleToken`].
pub enum TokenView {
    Ident(Seq<char>),
    Punct(char, bool),
    Str(Seq<char>),
    Lit(Seq<char>),
    Open(Delim),
    Close(Delim),
}

impl View for RuleToken {
    type V = TokenView;

    open spec fn view(&self) -> TokenView {
        match self {
            RuleToken::Ident(s) => TokenView::Ident(s@),
            RuleToken::Punct(c, j) => TokenView::Punct(*c, *j),
            RuleToken::Str(s) => TokenView::Str(s@),
            RuleToken::Lit(s) => TokenView::Lit(s@),
            RuleToken::Open(d) => TokenView::Open(*d),
            RuleToken::Close(d) => TokenView::Close(*d),
        }
    }
}

/// The plain form of a token list.
pub open spec fn tokens_view(ts: Seq<RuleToken>) -> Seq<TokenView> {
    ts.map_values(|t: RuleToken| t@)
}

/// The words that cannot name a matcher, a method or a struct: Rust's
/// keywords and `_`.
pub open spec fn keywords() -> Seq<Seq<char>> {
    seq![
        "_"@, "abstract"@, "as"@, "async"@, "await"@, "become"@, "box"@, "break"@, "const"@,
        "continue"@, "crate"@, "do"@, "dyn"@, "else"@, "enum"@, "extern"@, "false"@, "final"@,
        "fn"@, "for"@, "if"@, "impl"@, "in"@, "let"@, "loop"@, "macro"@, "match"@, "mod"@,
        "move"@, "mut"@, "override"@, "priv"@, "pub"@, "ref"@, "return"@, "Self"@, "self"@,
        "static"@, "struct"@, "super"@, "trait"@, "true"@, "try"@, "type"@, "typeof"@,
        "unsafe"@, "unsized"@, "use"@, "virtual"@, "where"@, "while"@, "yield"@,
    ]
}

/// Whether `s` is a keyword.
pub open spec fn is_keyword(s: Seq<char>) -> bool {
    keywords().contains(s)
}

fn keyword_list() -> (v: Vec<&'static str>)
    ensures
        v@.map_values(|s: &str| s@) == keywords(),
{
    let v = vec![
        "_", "abstract", "as", "async", "await", "become", "box", "break", "const",
        "continue", "crate", "do", "dyn", "else", "enum", "extern", "false", "final",
        "fn", "for", "if", "impl", "in", "let", "loop", "macro", "match", "mod",
        "move", "mut", "override", "priv", "pub", "ref", "return", "Self", "self",
        "static", "struct", "super", "trait", "true", "try", "type", "typeof",
        "unsafe", "unsized", "use", "virtual", "where", "while", "yield",
    ];
    assert(v@.map_values(|s: &str| s@) =~= keywords());
    v
}

/// Whether `s` is a keyword.
fn keyword(s: &str) -> (r: bool)
    ensures
        r == is_keyword(s@),
{
    let list = keyword_list();
    let ghost kws = list@.map_values(|x: &str| x@);
    let mut i: usize = 0;
    while i < list.len()
        invariant
            i <= list.len(),
            kws == list@.map_values(|x: &str| x@),
            kws == keywords(),
            forall|j: int| 0 <= j < i ==> kws[j] != s@,
        decreases list.len() - i,
    {
        if str_equal(list[i], s) {
            assert(kws[i as int] == s@);
            return true;
        }
        i = i + 1;
    }
    false
}

/// Whether `syn` reads `text` as one Rust expression
/// (`syn::parse_str::<syn::Expr>`).
pub uninterp spec fn rust_expr(text: Seq<char>) -> bool;

/// Whether `syn` reads `text` as one Rust type (`syn::parse_str::<syn::Type>`).
pub uninterp spec fn rust_type(text: Seq<char>) -> bool;

/// Whether `syn` reads `text` as one Rust closure
/// (`syn::parse_str::<syn::ExprClosure>`).
pub uninterp spec fn rust_closure(text: Seq<char>) -> bool;

/// Whether `syn` reads `text` as one path expression
/// (`syn::parse_str::<syn::ExprPath>`).
pub uninterp spec fn rust_path(text: Seq<char>) -> bool;

/// Whether `text` is one Rust expression, as `syn::parse_str::<syn::Expr>`
/// decides; the contract claims only that the answer is a function of the
/// text (the name `rust_expr`).
#[verifier::external_body]
fn parses_as_expr(text: &str) -> (r: bool)
    ensures
        r == rust_expr(text@),
{
    syn::parse_str::<syn::Expr>(text).is_ok()
}

/// Whether `text` is one Rust type, as `syn::parse_str::<syn::Type>`
/// decides; the contract claims only that the answer is a function of the
/// text (the name `rust_type`).
#[verifier::external_body]
fn parses_as_type(text: &str) -> (r: bool)
    ensures
        r == rust_type(text@),
{
    syn::parse_str::<syn::Type>(text).is_ok()
}

/// Whether `text` is one Rust closure, as
/// `syn::parse_str::<syn::ExprClosure>` decides; the contract claims only
/// that the answer is a function of the text (the name `rust_closure`).
#[verifier::external_body]
fn parses_as_closure(text: &str) -> (r: bool)
    ensures
        r == rust_closure(text@),
{
    syn::parse_str::<syn::ExprClosure>(text).is_ok()
}

/// Whether `text` is one path expression, as
/// `syn::parse_str::<syn::ExprPath>` decides; the contract claims only that
/// the answer is a function of the text (the name `rust_path`).
#[verifier::external_body]
fn parses_as_path(text: &str) -> (r: bool)
    ensures
        r == rust_path(text@),
{
    syn::parse_str::<syn::ExprPath>(text).is_ok()
}

/// Whether the argument `ts[a..b]` of the matcher `name` has the syntax
/// the matcher takes: a type for `json_schema`, a closure for `custom`, an
/// expression for the others.
pub open spec fn arg_syntax_ok(ts: Seq<TokenView>, name: Seq<char>, a: int, b: int) -> bool {
    if name == "json_schema"@ {
        rust_type(span_text(ts, a, b))
    } else if name == "custom"@ {
        rust_closure(span_text(ts, a, b))
    } else {
        rust_expr(span_text(ts, a, b))
    }
}

/// The refusal of an argument of the matcher `name` at position `a` whose
/// syntax is wrong.
pub open spec fn arg_syntax_error(name: Seq<char>, a: int) -> RuleError {
    if name == "json_schema"@ {
        RuleError::ExpectedType(a as usize)
    } else if name == "custom"@ {
        RuleError::ExpectedClosure(a as usize)
    } else {
        RuleError::ExpectedExpression(a as usize)
    }
}

/// The identifier (not a keyword) at position `i`.
pub open spec fn ident_at(ts: Seq<TokenView>, i: int) -> Option<Seq<char>> {
    if 0 <= i < ts.len() {
        match ts[i] {
            TokenView::Ident(s) => if is_keyword(s) {
                None
            } else {
                Some(s)
            },
            _ => None,
        }
    } else {
        None
    }
}

/// Whether the punctuation character `c` is at position `i`.
pub open spec fn punct_at(ts: Seq<TokenView>, i: int, c: char) -> bool {
    0 <= i < ts.len() && (ts[i] matches TokenView::Punct(x, _) && x == c)
}

/// Whether `->` starts at position `i`.
pub open spec fn arrow_at(ts: Seq<TokenView>, i: int) -> bool {
    &&& 0 <= i && i + 1 < ts.len()
    &&& ts[i] == TokenView::Punct('-', true)
    &&& (ts[i + 1] matches TokenView::Punct(x, _) && x == '>')
}

/// Whether a group with delimiter `d` opens at position `i`.
pub open spec fn open_at(ts: Seq<TokenView>, i: int, d: Delim) -> bool {
    0 <= i < ts.len() && ts[i] == TokenView::Open(d)
}

/// The position of the delimiter that closes the group whose contents
/// start at `j`, `depth` groups deep.
pub open spec fn close_from(ts: Seq<TokenView>, j: int, depth: nat) -> Option<int>
    decreases ts.len() - j,
{
    if j < 0 || j >= ts.len() {
        None
    } else {
        match ts[j] {
            TokenView::Open(_) => close_from(ts, j + 1, depth + 1),
            TokenView::Close(_) => if depth == 0 {
                Some(j)
            } else {
                close_from(ts, j + 1, (depth - 1) as nat)
            },
            _ => close_from(ts, j + 1, depth),
        }
    }
}

/// The position of the delimiter that closes the group opened at `i`.
pub open spec fn matching_close(ts: Seq<TokenView>, i: int) -> Option<int> {
    close_from(ts, i + 1, 0)
}

proof fn lemma_close_from_after(ts: Seq<TokenView>, j: int, depth: nat)
    ensures
        close_from(ts, j, depth) matches Some(c) ==> j <= c < ts.len(),
    decreases ts.len() - j,
{
    if 0 <= j < ts.len() {
        match ts[j] {
            TokenView::Open(_) => lemma_close_from_after(ts, j + 1, depth + 1),
            TokenView::Close(_) => if depth > 0 {
                lemma_close_from_after(ts, j + 1, (depth - 1) as nat);
            },
            _ => lemma_close_from_after(ts, j + 1, depth),
        }
    }
}

/// Finds the delimiter that closes the group opened at `i`.
fn find_close(ts: &Vec<RuleToken>, i: usize) -> (r: Option<usize>)
    requires
        i < ts.len(),
    ensures
        match matching_close(tokens_view(ts@), i as int) {
            Some(c) => r == Some(c as usize) && i < c < ts.len(),
            None => r is None,
        },
{
    let ghost tv = tokens_view(ts@);
    let mut j: usize = i + 1;
    let mut depth: usize = 0;
    while j < ts.len()
        invariant
            i < j <= ts.len(),
            tv == tokens_view(ts@),
            tv.len() == ts.len(),
            matching_close(tv, i as int) == close_from(tv, j as int, depth as nat),
            depth <= j,
        decreases ts.len() - j,
    {
        assert(tv[j as int] == ts@[j as int]@);
        match &ts[j] {
            RuleToken::Open(_) => {
                depth = depth + 1;
            },
            RuleToken::Close(_) => {
                if depth == 0 {
                    proof {
                        lemma_close_from_after(tv, j as int, 0);
                    }
                    return Some(j);
                }
                depth = depth - 1;
            },
            _ => {},
        }
        j = j + 1;
    }
    None
}

/// A range of token positions: `start` included, `end` excluded.
#[derive(Debug, Clone, Copy, PartialEq, Eq, Structural)]
pub struct Span {
    pub start: usize,
    pub end: usize,
}

/// The text argument of a matcher: a string literal or a constant's name,
/// by its token position.
#[derive(Debug, Clone, Copy, PartialEq, Eq, Structural)]
pub enum TextArg {
    Literal(usize),
    Constant(usize),
}

/// A matcher of the rule language, with its arguments as token positions.
#[derive(Debug, Clone, Copy, PartialEq, Eq, Structural)]
pub enum MatcherCall {
    Any,
    Never,
    Exact(TextArg),
    StartsWith(TextArg),
    EndsWith(TextArg),
    Contains(TextArg),
    Regex(TextArg),
    BinaryExact(Span),
    BinaryStartsWith(Span),
    BinaryEndsWith(Span),
    BinaryContains(Span),
    MessageType(usize),
    JsonSchema(Span),
    Custom(Span),
}

/// Why a rule was refused, with the token position it concerns.
#[derive(Debug, Clone, Copy, PartialEq, Eq, Structural)]
pub enum RuleError {
    /// Neither a struct name, `fn = path`, nor an expression in braces.
    ExpectedRule,
    /// A matcher must start with an identifier.
    ExpectedMatcherIdent(usize),
    /// A matcher's name must be followed by parentheses.
    MissingMatcherParens(usize),
    /// No matcher has this name.
    UnknownMatcher(usize),
    /// `any` and `never` take no arguments.
    MatcherTakesNoArguments(usize),
    /// A text matcher takes one string literal or constant.
    ExpectedText(usize),
    /// `message_type` takes one identifier.
    ExpectedIdent(usize),
    /// The matcher needs an argument.
    ExpectedArgument(usize),
    /// The argument is not a Rust expression.
    ExpectedExpression(usize),
    /// The argument is not a Rust type.
    ExpectedType(usize),
    /// The argument is not a Rust closure.
    ExpectedClosure(usize),
    /// A chained method must start with an identifier.
    ExpectedMethodIdent(usize),
    /// A chained method's name must be followed by parentheses.
    MissingMethodParens(usize),
    /// `fn` must be followed by `=` and a path.
    ExpectedPath(usize),
    /// A group is not closed.
    Unbalanced(usize),
    /// A token that the grammar does not allow here.
    UnexpectedToken(usize),
}

/// The text argument of a matcher whose parentheses hold `ts[a..b]`.
pub open spec fn text_arg(ts: Seq<TokenView>, a: int, b: int) -> Result<TextArg, RuleError> {
    if b == a + 1 && 0 <= a < ts.len() {
        match ts[a] {
            TokenView::Str(_) => Ok(TextArg::Literal(a as usize)),
            TokenView::Ident(s) => if is_keyword(s) {
                Err(RuleError::ExpectedText(a as usize))
            } else {
                Ok(TextArg::Constant(a as usize))
            },
            _ => Err(RuleError::ExpectedText(a as usize)),
        }
    } else {
        Err(RuleError::ExpectedText(a as usize))
    }
}

/// The expression argument of a matcher whose parentheses hold `ts[a..b]`.
pub open spec fn expr_arg(a: int, b: int) -> Result<Span, RuleError> {
    if a < b {
        Ok(Span { start: a as usize, end: b as usize })
    } else {
        Err(RuleError::ExpectedArgument(a as usize))
    }
}

/// The matcher named `name` (at position `n`) whose parentheses hold
/// `ts[a..b]`.
pub open spec fn matcher_of(ts: Seq<TokenView>, name: Seq<char>, n: int, a: int, b: int) -> Result<MatcherCall, RuleError> {
    if name == "any"@ || name == "never"@ {
        if a == b {
            Ok(if name == "any"@ { MatcherCall::Any } else { MatcherCall::Never })
        } else {
            Err(RuleError::MatcherTakesNoArguments(n as usize))
        }
    } else if name == "exact"@ || name == "starts_with"@ || name == "ends_with"@ || name == "contains"@ || name == "regex"@ {
        match text_arg(ts, a, b) {
            Ok(t) => Ok(
                if name == "exact"@ {
                    MatcherCall::Exact(t)
                } else if name == "starts_with"@ {
                    MatcherCall::StartsWith(t)
                } else if name == "ends_with"@ {
                    MatcherCall::EndsWith(t)
                } else if name == "contains"@ {
                    MatcherCall::Contains(t)
                } else {
                    MatcherCall::Regex(t)
                },
            ),
            Err(e) => Err(e),
        }
    } else if name == "binary_exact"@ || name == "binary_starts_with"@ || name == "binary_ends_with"@
        || name == "binary_contains"@ || name == "json_schema"@ || name == "custom"@ {
        match expr_arg(a, b) {
            Ok(sp) => if !arg_syntax_ok(ts, name, a, b) {
                Err(arg_syntax_error(name, a))
            } else {
                Ok(
                if name == "binary_exact"@ {
                    MatcherCall::BinaryExact(sp)
                } else if name == "binary_starts_with"@ {
                    MatcherCall::BinaryStartsWith(sp)
                } else if name == "binary_ends_with"@ {
                    MatcherCall::BinaryEndsWith(sp)
                } else if name == "binary_contains"@ {
                    MatcherCall::BinaryContains(sp)
                } else if name == "json_schema"@ {
                    MatcherCall::JsonSchema(sp)
                } else {
                    MatcherCall::Custom(sp)
                },
            )
            },
            Err(e) => Err(e),
        }
    } else if name == "message_type"@ {
        if b == a + 1 && ident_at(ts, a) is Some {
            Ok(MatcherCall::MessageType(a as usize))
        } else {
            Err(RuleError::ExpectedIdent(a as usize))
        }
    } else {
        Err(RuleError::UnknownMatcher(n as usize))
    }
}

/// The matcher at position `i`, and the position after it.
pub open spec fn parse_matcher(ts: Seq<TokenView>, i: int) -> Result<(MatcherCall, int), RuleError> {
    match ident_at(ts, i) {
        None => Err(RuleError::ExpectedMatcherIdent(i as usize)),
        Some(name) => if open_at(ts, i + 1, Delim::Paren) {
            match matching_close(ts, i + 1) {
                Some(c) => match matcher_of(ts, name, i, i + 2, c) {
                    Ok(m) => Ok((m, c + 1)),
                    Err(e) => Err(e),
                },
                None => Err(RuleError::Unbalanced((i + 1) as usize)),
            }
        } else {
            Err(RuleError::MissingMatcherParens(i as usize))
        },
    }
}

/// The identifier (not a keyword) at position `i`.
fn token_ident(ts: &Vec<RuleToken>, i: usize) -> (r: Option<&str>)
    ensures
        match ident_at(tokens_view(ts@), i as int) {
            Some(s) => r matches Some(x) && x@ == s,
            None => r is None,
        },
{
    if i < ts.len() {
        assert(tokens_view(ts@)[i as int] == ts@[i as int]@);
        match &ts[i] {
            RuleToken::Ident(s) => {
                if keyword(s.as_str()) {
                    None
                } else {
                    Some(s.as_str())
                }
            },
            _ => None,
        }
    } else {
        None
    }
}

/// Whether a group with delimiter `d` opens at position `i`.
fn token_open(ts: &Vec<RuleToken>, i: usize, d: Delim) -> (r: bool)
    ensures
        r == open_at(tokens_view(ts@), i as int, d),
{
    if i < ts.len() {
        assert(tokens_view(ts@)[i as int] == ts@[i as int]@);
        match &ts[i] {
            RuleToken::Open(x) => *x == d,
            _ => false,
        }
    } else {
        false
    }
}

/// Whether the punctuation character `c` is at position `i`.
fn token_punct(ts: &Vec<RuleToken>, i: usize, c: char) -> (r: bool)
    ensures
        r == punct_at(tokens_view(ts@), i as int, c),
{
    if i < ts.len() {
        assert(tokens_view(ts@)[i as int] == ts@[i as int]@);
        match &ts[i] {
            RuleToken::Punct(x, _) => *x == c,
            _ => false,
        }
    } else {
        false
    }
}

/// Reads the text argument of a matcher whose parentheses hold `ts[a..b]`.
fn read_text_arg(ts: &Vec<RuleToken>, a: usize, b: usize) -> (r: Result<TextArg, RuleError>)
    ensures
        r == text_arg(tokens_view(ts@), a as int, b as int),
{
    if a < ts.len() && b == a + 1 {
        assert(tokens_view(ts@)[a as int] == ts@[a as int]@);
        match &ts[a] {
            RuleToken::Str(_) => Ok(TextArg::Literal(a)),
            RuleToken::Ident(s) => if keyword(s.as_str()) {
                Err(RuleError::ExpectedText(a))
            } else {
                Ok(TextArg::Constant(a))
            },
            _ => Err(RuleError::ExpectedText(a)),
        }
    } else {
        Err(RuleError::ExpectedText(a))
    }
}

/// Reads the matcher named `name` (at position `n`) whose parentheses hold
/// `ts[a..b]`.
fn read_matcher_args(ts: &Vec<RuleToken>, name: &str, n: usize, a: usize, b: usize) -> (r: Result<MatcherCall, RuleError>)
    requires
        a <= b,
    ensures
        r == matcher_of(tokens_view(ts@), name@, n as int, a as int, b as int),
{
    if str_equal(name, "any") || str_equal(name, "never") {
        if a == b {
            Ok(if str_equal(name, "any") { MatcherCall::Any } else { MatcherCall::Never })
        } else {
            Err(RuleError::MatcherTakesNoArguments(n))
        }
    } else if str_equal(name, "exact") || str_equal(name, "starts_with") || str_equal(name, "ends_with")
        || str_equal(name, "contains") || str_equal(name, "regex") {
        match read_text_arg(ts, a, b) {
            Ok(t) => Ok(
                if str_equal(name, "exact") {
                    MatcherCall::Exact(t)
                } else if str_equal(name, "starts_with") {
                    MatcherCall::StartsWith(t)
                } else if str_equal(name, "ends_with") {
                    MatcherCall::EndsWith(t)
                } else if str_equal(name, "contains") {
                    MatcherCall::Contains(t)
                } else {
                    MatcherCall::Regex(t)
                },
            ),
            Err(e) => Err(e),
        }
    } else if str_equal(name, "binary_exact") || str_equal(name, "binary_starts_with") || str_equal(
        name,
        "binary_ends_with",
    ) || str_equal(name, "binary_contains") || str_equal(name, "json_schema") || str_equal(name, "custom") {
        if a < b {
            let sp = Span { start: a, end: b };
            let mut text = String::new();
            write_span(ts, a, b, &mut text);
            assert(text@ == span_text(tokens_view(ts@), a as int, b as int)) by {
                assert(Seq::<char>::empty() + span_text(tokens_view(ts@), a as int, b as int) =~= span_text(tokens_view(ts@), a as int, b as int));
            }
            if str_equal(name, "json_schema") {
                if !parses_as_type(text.as_str()) {
                    return Err(RuleError::ExpectedType(a));
                }
            } else if str_equal(name, "custom") {
                if !parses_as_closure(text.as_str()) {
                    return Err(RuleError::ExpectedClosure(a));
                }
            } else if !parses_as_expr(text.as_str()) {
                return Err(RuleError::ExpectedExpression(a));
            }
            Ok(
                if str_equal(name, "binary_exact") {
                    MatcherCall::BinaryExact(sp)
                } else if str_equal(name, "binary_starts_with") {
                    MatcherCall::BinaryStartsWith(sp)
                } else if str_equal(name, "binary_ends_with") {
                    MatcherCall::BinaryEndsWith(sp)
                } else if str_equal(name, "binary_contains") {
                    MatcherCall::BinaryContains(sp)
                } else if str_equal(name, "json_schema") {
                    MatcherCall::JsonSchema(sp)
                } else {
                    MatcherCall::Custom(sp)
                },
            )
        } else {
            Err(RuleError::ExpectedArgument(a))
        }
    } else if str_equal(name, "message_type") {
        if a < b && b - a == 1 && token_ident(ts, a).is_some() {
            Ok(MatcherCall::MessageType(a))
        } else {
            Err(RuleError::ExpectedIdent(a))
        }
    } else {
        Err(RuleError::UnknownMatcher(n))
    }
}

/// Reads the matcher at position `i`.
fn read_matcher(ts: &Vec<RuleToken>, i: usize) -> (r: Result<(MatcherCall, usize), RuleError>)
    ensures
        match parse_matcher(tokens_view(ts@), i as int) {
            Ok((m, j)) => r matches Ok((x, k)) && x == m && k == j && i < k <= ts.len(),
            Err(e) => r == Err::<(MatcherCall, usize), RuleError>(e),
        },
{
    match token_ident(ts, i) {
        None => Err(RuleError::ExpectedMatcherIdent(i)),
        Some(name) => {
            assert(tokens_view(ts@).len() == ts.len());
            assert(i < ts.len());
            if token_open(ts, i + 1, Delim::Paren) {
                match find_close(ts, i + 1) {
                    Some(c) => match read_matcher_args(ts, name, i, i + 2, c) {
                        Ok(m) => Ok((m, c + 1)),
                        Err(e) => Err(e),
                    },
                    None => Err(RuleError::Unbalanced(i + 1)),
                }
            } else {
                Err(RuleError::MissingMatcherParens(i))
            }
        },
    }
}

/// The position of the first comma outside any group in `ts[j..b]`,
/// `depth` groups deep; `b` when there is none.
pub open spec fn comma_from(ts: Seq<TokenView>, j: int, b: int, depth: nat) -> int
    decreases b - j,
{
    if j >= b || j < 0 || j >= ts.len() {
        b
    } else {
        match ts[j] {
            TokenView::Open(_) => comma_from(ts, j + 1, b, depth + 1),
            TokenView::Close(_) => comma_from(ts, j + 1, b, if depth > 0 { (depth - 1) as nat } else { 0 }),
            TokenView::Punct(c, _) => if c == ',' && depth == 0 {
                j
            } else {
                comma_from(ts, j + 1, b, depth)
            },
            _ => comma_from(ts, j + 1, b, depth),
        }
    }
}

proof fn lemma_comma_from_bounds(ts: Seq<TokenView>, j: int, b: int, depth: nat)
    requires
        j <= b,
    ensures
        j <= comma_from(ts, j, b, depth) <= b,
    decreases b - j,
{
    if j < b && 0 <= j < ts.len() {
        match ts[j] {
            TokenView::Open(_) => lemma_comma_from_bounds(ts, j + 1, b, depth + 1),
            TokenView::Close(_) => lemma_comma_from_bounds(ts, j + 1, b, if depth > 0 { (depth - 1) as nat } else { 0 }),
            TokenView::Punct(c, _) => if !(c == ',' && depth == 0) {
                lemma_comma_from_bounds(ts, j + 1, b, depth);
            },
            _ => lemma_comma_from_bounds(ts, j + 1, b, depth),
        }
    }
}

/// The comma-separated arguments in `ts[a..b]`: each a non-empty run of
/// tokens; a single comma may end the list.
pub open spec fn split_args(ts: Seq<TokenView>, a: int, b: int) -> Result<Seq<Span>, RuleError>
    decreases b - a,
{
    if a >= b {
        Ok(Seq::empty())
    } else {
        let e = comma_from(ts, a, b, 0);
        if e <= a || e > b {
            Err(RuleError::UnexpectedToken(a as usize))
        } else if e == b {
            Ok(seq![Span { start: a as usize, end: b as usize }])
        } else {
            match split_args(ts, e + 1, b) {
                Ok(rest) => Ok(seq![Span { start: a as usize, end: e as usize }] + rest),
                Err(err) => Err(err),
            }
        }
    }
}

/// A method called on a matcher: its name's position and its arguments.
#[derive(Debug)]
pub struct ChainedMethod {
    pub ident: usize,
    pub args: Vec<Span>,
}

/// The plain form of a [`ChainedMethod`].
pub struct MethodView {
    pub ident: usize,
    pub args: Seq<Span>,
}

impl View for ChainedMethod {
    type V = MethodView;

    open spec fn view(&self) -> MethodView {
        MethodView { ident: self.ident, args: self.args@ }
    }
}

/// A matcher and the methods called on it.
#[derive(Debug)]
pub struct MethodChain {
    pub base: MatcherCall,
    pub methods: Vec<ChainedMethod>,
}

/// The plain form of a [`MethodChain`].
pub struct ChainView {
    pub base: MatcherCall,
    pub methods: Seq<MethodView>,
}

impl View for MethodChain {
    type V = ChainView;

    open spec fn view(&self) -> ChainView {
        ChainView { base: self.base, methods: self.methods@.map_values(|m: ChainedMethod| m@) }
    }
}

/// The position, in `args`, of the first argument that is not a Rust
/// expression.
pub open spec fn first_bad_arg(ts: Seq<TokenView>, args: Seq<Span>) -> Option<int>
    decreases args.len(),
{
    if args.len() == 0 {
        None
    } else {
        match first_bad_arg(ts, args.drop_last()) {
            Some(k) => Some(k),
            None => if rust_expr(span_text(ts, args.last().start as int, args.last().end as int)) {
                None
            } else {
                Some(args.len() - 1)
            },
        }
    }
}

/// A bad argument found in a prefix of the arguments is the first one.
proof fn lemma_first_bad_prefix(ts: Seq<TokenView>, args: Seq<Span>, m: int)
    requires
        0 <= m <= args.len(),
        first_bad_arg(ts, args.take(m)) is Some,
    ensures
        first_bad_arg(ts, args) == first_bad_arg(ts, args.take(m)),
    decreases args.len(),
{
    if args.len() > m {
        assert(args.drop_last().take(m) =~= args.take(m));
        lemma_first_bad_prefix(ts, args.drop_last(), m);
    } else {
        assert(args.take(m) =~= args);
    }
}

/// The method whose name is at position `i` (after its `.`), and the
/// position after it; each argument must be a Rust expression.
pub open spec fn parse_method(ts: Seq<TokenView>, i: int) -> Result<(MethodView, int), RuleError> {
    match ident_at(ts, i) {
        None => Err(RuleError::ExpectedMethodIdent(i as usize)),
        Some(_) => if open_at(ts, i + 1, Delim::Paren) {
            match matching_close(ts, i + 1) {
                Some(c) => match split_args(ts, i + 2, c) {
                    Ok(args) => match first_bad_arg(ts, args) {
                        Some(k) => Err(RuleError::ExpectedExpression(args[k].start)),
                        None => Ok((MethodView { ident: i as usize, args }, c + 1)),
                    },
                    Err(e) => Err(e),
                },
                None => Err(RuleError::Unbalanced((i + 1) as usize)),
            }
        } else {
            Err(RuleError::MissingMethodParens(i as usize))
        },
    }
}

/// The methods called from position `j` on, and the position after them.
pub open spec fn parse_methods(ts: Seq<TokenView>, j: int) -> Result<(Seq<MethodView>, int), RuleError>
    decreases ts.len() - j,
{
    if punct_at(ts, j, '.') {
        match parse_method(ts, j + 1) {
            Ok((m, k)) => if j < k <= ts.len() {
                match parse_methods(ts, k) {
                    Ok((ms, l)) => Ok((seq![m] + ms, l)),
                    Err(e) => Err(e),
                }
            } else {
                Err(RuleError::UnexpectedToken(j as usize))
            },
            Err(e) => Err(e),
        }
    } else {
        Ok((Seq::empty(), j))
    }
}

/// The matcher at position `i` with the methods called on it, and the
/// position after them.
pub open spec fn parse_chain(ts: Seq<TokenView>, i: int) -> Result<(ChainView, int), RuleError> {
    match parse_matcher(ts, i) {
        Ok((m, j)) => match parse_methods(ts, j) {
            Ok((ms, k)) => Ok((ChainView { base: m, methods: ms }, k)),
            Err(e) => Err(e),
        },
        Err(e) => Err(e),
    }
}

/// Splits the arguments in `ts[a..b]`.
fn read_args(ts: &Vec<RuleToken>, a: usize, b: usize) -> (r: Result<Vec<Span>, RuleError>)
    requires
        a <= b <= ts.len(),
    ensures
        match split_args(tokens_view(ts@), a as int, b as int) {
            Ok(args) => r matches Ok(v) && v@ == args,
            Err(e) => r == Err::<Vec<Span>, RuleError>(e),
        },
{
    let ghost tv = tokens_view(ts@);
    let mut out: Vec<Span> = Vec::new();
    let mut start: usize = a;
    while start < b
        invariant
            a <= start <= b <= ts.len(),
            tv == tokens_view(ts@),
            tv.len() == ts.len(),
            split_args(tv, a as int, b as int) == match split_args(tv, start as int, b as int) {
                Ok(rest) => Ok(out@ + rest),
                Err(e) => Err::<Seq<Span>, RuleError>(e),
            },
        decreases b - start,
    {
        let mut j: usize = start;
        let mut depth: usize = 0;
        proof {
            lemma_comma_from_bounds(tv, start as int, b as int, 0);
        }
        let ghost e = comma_from(tv, start as int, b as int, 0);
        while j < b
            invariant
                start <= j <= b <= ts.len(),
                tv == tokens_view(ts@),
                tv.len() == ts.len(),
                e == comma_from(tv, j as int, b as int, depth as nat),
                depth <= j,
            ensures
                j as int == e,
                start <= j <= b,
            decreases b - j,
        {
            assert(tv[j as int] == ts@[j as int]@);
            let stop = match &ts[j] {
                RuleToken::Open(_) => {
                    depth = depth + 1;
                    false
                },
                RuleToken::Close(_) => {
                    if depth > 0 {
                        depth = depth - 1;
                    }
                    false
                },
                RuleToken::Punct(c, _) => *c == ',' && depth == 0,
                _ => false,
            };
            if stop {
                break;
            }
            j = j + 1;
        }
        assert(j as int == e);
        if j == start {
            return Err(RuleError::UnexpectedToken(start));
        }
        let ghost before = out@;
        out.push(Span { start, end: j });
        if j == b {
            proof {
                assert(split_args(tv, b as int, b as int) == Ok::<Seq<Span>, RuleError>(Seq::empty()));
                assert(out@ =~= before + seq![Span { start: start, end: b }]);
                assert(out@ + Seq::<Span>::empty() =~= out@);
            }
            start = b;
        } else {
            proof {
                assert(before + (seq![Span { start: start, end: j }] + match split_args(tv, j + 1, b as int) {
                    Ok(rest) => rest,
                    Err(_) => Seq::empty(),
                }) =~= out@ + match split_args(tv, j + 1, b as int) {
                    Ok(rest) => rest,
                    Err(_) => Seq::empty(),
                });
            }
            start = j + 1;
        }
    }
    proof {
        assert(out@ + Seq::<Span>::empty() =~= out@);
    }
    Ok(out)
}

/// The position of the first argument that is not a Rust expression.
fn check_args(ts: &Vec<RuleToken>, args: &Vec<Span>) -> (r: Option<usize>)
    ensures
        match first_bad_arg(tokens_view(ts@), args@) {
            Some(k) => r == Some(k as usize) && 0 <= k < args.len(),
            None => r is None,
        },
        r matches Some(k) ==> k < args.len(),
{
    let ghost tv = tokens_view(ts@);
    let mut k: usize = 0;
    assert(args@.take(0) =~= Seq::<Span>::empty());
    while k < args.len()
        invariant
            k <= args.len(),
            tv == tokens_view(ts@),
            first_bad_arg(tv, args@.take(k as int)) is None,
        decreases args.len() - k,
    {
        let mut text = String::new();
        write_span(ts, args[k].start, args[k].end, &mut text);
        assert(Seq::<char>::empty() + span_text(tv, args@[k as int].start as int, args@[k as int].end as int)
            =~= span_text(tv, args@[k as int].start as int, args@[k as int].end as int));
        let ok = parses_as_expr(text.as_str());
        assert(args@.take(k + 1).drop_last() =~= args@.take(k as int));
        assert(args@.take(k + 1).last() == args@[k as int]);
        if !ok {
            proof {
                lemma_first_bad_prefix(tv, args@, k + 1);
            }
            return Some(k);
        }
        k = k + 1;
    }
    assert(args@.take(args.len() as int) =~= args@);
    None
}

/// Reads the method whose name is at position `i`.
fn read_method(ts: &Vec<RuleToken>, i: usize) -> (r: Result<(ChainedMethod, usize), RuleError>)
    ensures
        match parse_method(tokens_view(ts@), i as int) {
            Ok((m, j)) => r matches Ok((x, k)) && x@ == m && k == j && i < k <= ts.len(),
            Err(e) => r is Err && r->Err_0 == e,
        },
{
    match token_ident(ts, i) {
        None => Err(RuleError::ExpectedMethodIdent(i)),
        Some(_) => {
            assert(tokens_view(ts@).len() == ts.len());
            assert(i < ts.len());
            if token_open(ts, i + 1, Delim::Paren) {
                match find_close(ts, i + 1) {
                    Some(c) => match read_args(ts, i + 2, c) {
                        Ok(args) => match check_args(ts, &args) {
                            Some(k) => Err(RuleError::ExpectedExpression(args[k].start)),
                            None => Ok((ChainedMethod { ident: i, args }, c + 1)),
                        },
                        Err(e) => Err(e),
                    },
                    None => Err(RuleError::Unbalanced(i + 1)),
                }
            } else {
                Err(RuleError::MissingMethodParens(i))
            }
        },
    }
}

/// Reads the matcher at position `i` with the methods called on it.
fn read_chain(ts: &Vec<RuleToken>, i: usize) -> (r: Result<(MethodChain, usize), RuleError>)
    ensures
        match parse_chain(tokens_view(ts@), i as int) {
            Ok((c, j)) => r matches Ok((x, k)) && x@ == c && k == j && i < k <= ts.len(),
            Err(e) => r is Err && r->Err_0 == e,
        },
{
    let ghost tv = tokens_view(ts@);
    let (base, j0) = match read_matcher(ts, i) {
        Ok(x) => x,
        Err(e) => {
            return Err(e);
        },
    };
    let mut methods: Vec<ChainedMethod> = Vec::new();
    let mut j: usize = j0;
    assert(methods@.map_values(|m: ChainedMethod| m@) =~= Seq::<MethodView>::empty());
    while token_punct(ts, j, '.')
        invariant
            i < j0 <= j <= ts.len(),
            tv == tokens_view(ts@),
            tv.len() == ts.len(),
            parse_matcher(tv, i as int) == Ok::<(MatcherCall, int), RuleError>((base, j0 as int)),
            parse_methods(tv, j0 as int) == match parse_methods(tv, j as int) {
                Ok((ms, l)) => Ok((methods@.map_values(|m: ChainedMethod| m@) + ms, l)),
                Err(e) => Err::<(Seq<MethodView>, int), RuleError>(e),
            },
        decreases ts.len() - j,
    {
        let ghost before = methods@.map_values(|m: ChainedMethod| m@);
        match read_method(ts, j + 1) {
            Ok((m, k)) => {
                let ghost mv = m@;
                methods.push(m);
                proof {
                    assert(methods@.map_values(|m: ChainedMethod| m@) =~= before.push(mv));
                    match parse_methods(tv, k as int) {
                        Ok((ms, l)) => {
                            assert(before + (seq![mv] + ms) =~= before.push(mv) + ms);
                        },
                        Err(_) => {},
                    }
                }
                j = k;
            },
            Err(e) => {
                return Err(e);
            },
        }
    }
    proof {
        assert(methods@.map_values(|m: ChainedMethod| m@) + Seq::<MethodView>::empty() =~= methods@.map_values(
            |m: ChainedMethod| m@,
        ));
    }
    Ok((MethodChain { base, methods }, j))
}

/// An expression of the rule language.
#[derive(Debug)]
pub enum DslNode {
    /// `a -> b`
    Then(Box<DslNode>, Box<DslNode>),
    /// `a | b | c`
    Or(Vec<DslNode>),
    /// `a & b & c`
    And(Vec<DslNode>),
    /// `!a`
    Not(Box<DslNode>),
    /// A matcher and the methods called on it.
    MethodChain(MethodChain),
}

/// The plain form of a [`DslNode`].
pub enum NodeView {
    Then(Box<NodeView>, Box<NodeView>),
    Or(Seq<NodeView>),
    And(Seq<NodeView>),
    Not(Box<NodeView>),
    Chain(ChainView),
}

impl DslNode {
    pub open spec fn model(&self) -> NodeView
        decreases self,
    {
        match self {
            DslNode::Then(a, b) => NodeView::Then(Box::new(a.model()), Box::new(b.model())),
            DslNode::Or(v) => NodeView::Or(
                Seq::new(v.len() as nat, |k: int| if 0 <= k < v.len() { v@[k].model() } else { NodeView::Or(Seq::empty()) }),
            ),
            DslNode::And(v) => NodeView::And(
                Seq::new(v.len() as nat, |k: int| if 0 <= k < v.len() { v@[k].model() } else { NodeView::Or(Seq::empty()) }),
            ),
            DslNode::Not(a) => NodeView::Not(Box::new(a.model())),
            DslNode::MethodChain(c) => NodeView::Chain(c@),
        }
    }
}

impl View for DslNode {
    type V = NodeView;

    open spec fn view(&self) -> NodeView {
        self.model()
    }
}

/// The plain form of a list of expressions.
pub open spec fn nodes_view(v: Seq<DslNode>) -> Seq<NodeView> {
    Seq::new(v.len(), |k: int| v[k]@)
}

/// A list of operands: the one operand itself, or the operator applied to
/// all of them.
pub open spec fn combine(acc: Seq<NodeView>, is_or: bool) -> NodeView {
    if acc.len() == 1 {
        acc[0]
    } else if is_or {
        NodeView::Or(acc)
    } else {
        NodeView::And(acc)
    }
}

/// The expression at position `i` (`->` binds loosest), and the position
/// after it.
pub open spec fn parse_then(ts: Seq<TokenView>, i: int) -> Result<(NodeView, int), RuleError>
    decreases ts.len() - i, 4nat,
{
    if i < 0 || i > ts.len() {
        Err(RuleError::UnexpectedToken(0))
    } else {
        match parse_or(ts, i) {
            Ok((l, j)) => if i < j <= ts.len() {
                then_rest(ts, l, j)
            } else {
                Err(RuleError::UnexpectedToken(i as usize))
            },
            Err(e) => Err(e),
        }
    }
}

/// The rest of a `->` sequence after `left`, from position `j`.
pub open spec fn then_rest(ts: Seq<TokenView>, left: NodeView, j: int) -> Result<(NodeView, int), RuleError>
    decreases ts.len() - j, 5nat,
{
    if j < 0 || j > ts.len() {
        Err(RuleError::UnexpectedToken(0))
    } else if arrow_at(ts, j) {
        match parse_or(ts, j + 2) {
            Ok((r, k)) => if j < k <= ts.len() {
                then_rest(ts, NodeView::Then(Box::new(left), Box::new(r)), k)
            } else {
                Err(RuleError::UnexpectedToken(j as usize))
            },
            Err(e) => Err(e),
        }
    } else {
        Ok((left, j))
    }
}

/// The `|` alternatives at position `i`, and the position after them.
pub open spec fn parse_or(ts: Seq<TokenView>, i: int) -> Result<(NodeView, int), RuleError>
    decreases ts.len() - i, 3nat,
{
    if i < 0 || i > ts.len() {
        Err(RuleError::UnexpectedToken(0))
    } else {
        match parse_and(ts, i) {
            Ok((n, j)) => if i < j <= ts.len() {
                or_rest(ts, seq![n], j)
            } else {
                Err(RuleError::UnexpectedToken(i as usize))
            },
            Err(e) => Err(e),
        }
    }
}

/// The rest of the `|` alternatives after `acc`, from position `j`.
pub open spec fn or_rest(ts: Seq<TokenView>, acc: Seq<NodeView>, j: int) -> Result<(NodeView, int), RuleError>
    decreases ts.len() - j, 6nat,
{
    if j < 0 || j > ts.len() {
        Err(RuleError::UnexpectedToken(0))
    } else if punct_at(ts, j, '|') {
        match parse_and(ts, j + 1) {
            Ok((n, k)) => if j < k <= ts.len() {
                or_rest(ts, acc.push(n), k)
            } else {
                Err(RuleError::UnexpectedToken(j as usize))
            },
            Err(e) => Err(e),
        }
    } else {
        Ok((combine(acc, true), j))
    }
}

/// The `&` operands at position `i`, and the position after them.
pub open spec fn parse_and(ts: Seq<TokenView>, i: int) -> Result<(NodeView, int), RuleError>
    decreases ts.len() - i, 2nat,
{
    if i < 0 || i > ts.len() {
        Err(RuleError::UnexpectedToken(0))
    } else {
        match parse_not(ts, i) {
            Ok((n, j)) => if i < j <= ts.len() {
                and_rest(ts, seq![n], j)
            } else {
                Err(RuleError::UnexpectedToken(i as usize))
            },
            Err(e) => Err(e),
        }
    }
}

/// The rest of the `&` operands after `acc`, from position `j`.
pub open spec fn and_rest(ts: Seq<TokenView>, acc: Seq<NodeView>, j: int) -> Result<(NodeView, int), RuleError>
    decreases ts.len() - j, 6nat,
{
    if j < 0 || j > ts.len() {
        Err(RuleError::UnexpectedToken(0))
    } else if punct_at(ts, j, '&') {
        match parse_not(ts, j + 1) {
            Ok((n, k)) => if j < k <= ts.len() {
                and_rest(ts, acc.push(n), k)
            } else {
                Err(RuleError::UnexpectedToken(j as usize))
            },
            Err(e) => Err(e),
        }
    } else {
        Ok((combine(acc, false), j))
    }
}

/// An operand, negated by a leading `!`, at position `i`.
pub open spec fn parse_not(ts: Seq<TokenView>, i: int) -> Result<(NodeView, int), RuleError>
    decreases ts.len() - i, 1nat,
{
    if i < 0 || i > ts.len() {
        Err(RuleError::UnexpectedToken(0))
    } else if punct_at(ts, i, '!') {
        match parse_base(ts, i + 1) {
            Ok((n, j)) => Ok((NodeView::Not(Box::new(n)), j)),
            Err(e) => Err(e),
        }
    } else {
        parse_base(ts, i)
    }
}

/// A parenthesized expression or a method chain at position `i`.
pub open spec fn parse_base(ts: Seq<TokenView>, i: int) -> Result<(NodeView, int), RuleError>
    decreases ts.len() - i, 0nat,
{
    if i < 0 || i > ts.len() {
        Err(RuleError::UnexpectedToken(0))
    } else if open_at(ts, i, Delim::Paren) {
        match matching_close(ts, i) {
            Some(c) => match parse_then(ts, i + 1) {
                Ok((n, j)) => if j == c {
                    Ok((n, c + 1))
                } else {
                    Err(RuleError::UnexpectedToken(j as usize))
                },
                Err(e) => Err(e),
            },
            None => Err(RuleError::Unbalanced(i as usize)),
        }
    } else {
        match parse_chain(ts, i) {
            Ok((c, j)) => Ok((NodeView::Chain(c), j)),
            Err(e) => Err(e),
        }
    }
}

/// Whether `->` starts at position `i`.
fn token_arrow(ts: &Vec<RuleToken>, i: usize) -> (r: bool)
    ensures
        r == arrow_at(tokens_view(ts@), i as int),
{
    if i < ts.len() && ts.len() - i > 1 {
        assert(tokens_view(ts@)[i as int] == ts@[i as int]@);
        assert(tokens_view(ts@)[i + 1] == ts@[i + 1]@);
        let first = match &ts[i] {
            RuleToken::Punct(c, joint) => *c == '-' && *joint,
            _ => false,
        };
        let second = match &ts[i + 1] {
            RuleToken::Punct(c, _) => *c == '>',
            _ => false,
        };
        first && second
    } else {
        false
    }
}

/// Makes one expression of a non-empty list of operands.
fn combine_nodes(acc: Vec<DslNode>, is_or: bool) -> (r: DslNode)
    requires
        acc.len() >= 1,
    ensures
        r@ == combine(nodes_view(acc@), is_or),
{
    if acc.len() == 1 {
        let mut acc = acc;
        let ghost before = acc@;
        let n = acc.pop().unwrap();
        assert(n == before[0]);
        n
    } else if is_or {
        let r = DslNode::Or(acc);
        assert(r@->Or_0 =~= nodes_view(acc@));
        r
    } else {
        let r = DslNode::And(acc);
        assert(r@->And_0 =~= nodes_view(acc@));
        r
    }
}

/// Reads the expression at position `i`.
fn read_then(ts: &Vec<RuleToken>, i: usize) -> (r: Result<(DslNode, usize), RuleError>)
    requires
        i <= ts.len(),
    ensures
        match parse_then(tokens_view(ts@), i as int) {
            Ok((n, j)) => r matches Ok((x, k)) && x@ == n && k == j && i < k <= ts.len(),
            Err(e) => r is Err && r->Err_0 == e,
        },
    decreases ts.len() - i, 4nat,
{
    assert(tokens_view(ts@).len() == ts.len());
    match read_or(ts, i) {
        Ok((l, j)) => read_then_rest(ts, l, j),
        Err(e) => Err(e),
    }
}

/// Reads the rest of a `->` sequence after `left`, from position `j`.
fn read_then_rest(ts: &Vec<RuleToken>, left: DslNode, j: usize) -> (r: Result<(DslNode, usize), RuleError>)
    requires
        j <= ts.len(),
    ensures
        match then_rest(tokens_view(ts@), left@, j as int) {
            Ok((n, k)) => r matches Ok((x, kk)) && x@ == n && kk == k && j <= kk <= ts.len(),
            Err(e) => r is Err && r->Err_0 == e,
        },
    decreases ts.len() - j, 5nat,
{
    assert(tokens_view(ts@).len() == ts.len());
    if token_arrow(ts, j) {
        match read_or(ts, j + 2) {
            Ok((r, k)) => read_then_rest(ts, DslNode::Then(Box::new(left), Box::new(r)), k),
            Err(e) => Err(e),
        }
    } else {
        Ok((left, j))
    }
}

/// Reads the `|` alternatives at position `i`.
fn read_or(ts: &Vec<RuleToken>, i: usize) -> (r: Result<(DslNode, usize), RuleError>)
    requires
        i <= ts.len(),
    ensures
        match parse_or(tokens_view(ts@), i as int) {
            Ok((n, j)) => r matches Ok((x, k)) && x@ == n && k == j && i < k <= ts.len(),
            Err(e) => r is Err && r->Err_0 == e,
        },
    decreases ts.len() - i, 3nat,
{
    assert(tokens_view(ts@).len() == ts.len());
    match read_and(ts, i) {
        Ok((n, j)) => {
            let mut acc: Vec<DslNode> = Vec::new();
            let ghost nv = n@;
            acc.push(n);
            assert(nodes_view(acc@) =~= seq![nv]);
            read_or_rest(ts, acc, j)
        },
        Err(e) => Err(e),
    }
}

/// Reads the rest of the `|` alternatives after `acc`, from position `j`.
fn read_or_rest(ts: &Vec<RuleToken>, acc: Vec<DslNode>, j: usize) -> (r: Result<(DslNode, usize), RuleError>)
    requires
        j <= ts.len(),
        acc.len() >= 1,
    ensures
        match or_rest(tokens_view(ts@), nodes_view(acc@), j as int) {
            Ok((n, k)) => r matches Ok((x, kk)) && x@ == n && kk == k && j <= kk <= ts.len(),
            Err(e) => r is Err && r->Err_0 == e,
        },
    decreases ts.len() - j, 6nat,
{
    assert(tokens_view(ts@).len() == ts.len());
    if token_punct(ts, j, '|') {
        match read_and(ts, j + 1) {
            Ok((n, k)) => {
                let mut acc = acc;
                let ghost before = nodes_view(acc@);
                let ghost nv = n@;
                acc.push(n);
                assert(nodes_view(acc@) =~= before.push(nv));
                read_or_rest(ts, acc, k)
            },
            Err(e) => Err(e),
        }
    } else {
        Ok((combine_nodes(acc, true), j))
    }
}

/// Reads the `&` operands at position `i`.
fn read_and(ts: &Vec<RuleToken>, i: usize) -> (r: Result<(DslNode, usize), RuleError>)
    requires
        i <= ts.len(),
    ensures
        match parse_and(tokens_view(ts@), i as int) {
            Ok((n, j)) => r matches Ok((x, k)) && x@ == n && k == j && i < k <= ts.len(),
            Err(e) => r is Err && r->Err_0 == e,
        },
    decreases ts.len() - i, 2nat,
{
    assert(tokens_view(ts@).len() == ts.len());
    match read_not(ts, i) {
        Ok((n, j)) => {
            let mut acc: Vec<DslNode> = Vec::new();
            let ghost nv = n@;
            acc.push(n);
            assert(nodes_view(acc@) =~= seq![nv]);
            read_and_rest(ts, acc, j)
        },
        Err(e) => Err(e),
    }
}

/// Reads the rest of the `&` operands after `acc`, from position `j`.
fn read_and_rest(ts: &Vec<RuleToken>, acc: Vec<DslNode>, j: usize) -> (r: Result<(DslNode, usize), RuleError>)
    requires
        j <= ts.len(),
        acc.len() >= 1,
    ensures
        match and_rest(tokens_view(ts@), nodes_view(acc@), j as int) {
            Ok((n, k)) => r matches Ok((x, kk)) && x@ == n && kk == k && j <= kk <= ts.len(),
            Err(e) => r is Err && r->Err_0 == e,
        },
    decreases ts.len() - j, 6nat,
{
    assert(tokens_view(ts@).len() == ts.len());
    if token_punct(ts, j, '&') {
        match read_not(ts, j + 1) {
            Ok((n, k)) => {
                let mut acc = acc;
                let ghost before = nodes_view(acc@);
                let ghost nv = n@;
                acc.push(n);
                assert(nodes_view(acc@) =~= before.push(nv));
                read_and_rest(ts, acc, k)
            },
            Err(e) => Err(e),
        }
    } else {
        Ok((combine_nodes(acc, false), j))
    }
}

/// Reads an operand, negated by a leading `!`, at position `i`.
fn read_not(ts: &Vec<RuleToken>, i: usize) -> (r: Result<(DslNode, usize), RuleError>)
    requires
        i <= ts.len(),
    ensures
        match parse_not(tokens_view(ts@), i as int) {
            Ok((n, j)) => r matches Ok((x, k)) && x@ == n && k == j && i < k <= ts.len(),
            Err(e) => r is Err && r->Err_0 == e,
        },
    decreases ts.len() - i, 1nat,
{
    assert(tokens_view(ts@).len() == ts.len());
    if token_punct(ts, i, '!') {
        match read_base(ts, i + 1) {
            Ok((n, j)) => Ok((DslNode::Not(Box::new(n)), j)),
            Err(e) => Err(e),
        }
    } else {
        read_base(ts, i)
    }
}

/// Reads a parenthesized expression or a method chain at position `i`.
fn read_base(ts: &Vec<RuleToken>, i: usize) -> (r: Result<(DslNode, usize), RuleError>)
    requires
        i <= ts.len(),
    ensures
        match parse_base(tokens_view(ts@), i as int) {
            Ok((n, j)) => r matches Ok((x, k)) && x@ == n && k == j && i < k <= ts.len(),
            Err(e) => r is Err && r->Err_0 == e,
        },
    decreases ts.len() - i, 0nat,
{
    assert(tokens_view(ts@).len() == ts.len());
    if token_open(ts, i, Delim::Paren) {
        match find_close(ts, i) {
            Some(c) => match read_then(ts, i + 1) {
                Ok((n, j)) => if j == c {
                    Ok((n, c + 1))
                } else {
                    Err(RuleError::UnexpectedToken(j))
                },
                Err(e) => Err(e),
            },
            None => Err(RuleError::Unbalanced(i)),
        }
    } else {
        match read_chain(ts, i) {
            Ok((c, j)) => Ok((DslNode::MethodChain(c), j)),
            Err(e) => Err(e),
        }
    }
}

/// The payload of a `#[rule(...)]` attribute.
#[derive(Debug)]
pub enum RuleExpr {
    /// A rule type, by the position of its name: `rule(MyRule)`.
    Struct(usize),
    /// A function that makes the rule: `rule(fn = make_rule)`.
    FnRef(Span),
    /// A rule expression in braces: `rule({ starts_with("42") -> any() })`.
    Dsl(DslNode),
}

/// The plain form of a [`RuleExpr`].
pub enum RuleExprView {
    Struct(usize),
    FnRef(Span),
    Dsl(NodeView),
}

impl View for RuleExpr {
    type V = RuleExprView;

    open spec fn view(&self) -> RuleExprView {
        match self {
            RuleExpr::Struct(i) => RuleExprView::Struct(*i),
            RuleExpr::FnRef(s) => RuleExprView::FnRef(*s),
            RuleExpr::Dsl(n) => RuleExprView::Dsl(n@),
        }
    }
}

/// How the tokens of a `#[rule(...)]` attribute read: a single struct
/// name; `fn`, `=` and a path expression; or one braced expression.
pub open spec fn parse_rule_expr(ts: Seq<TokenView>) -> Result<RuleExprView, RuleError> {
    if ident_at(ts, 0) is Some {
        if ts.len() == 1 {
            Ok(RuleExprView::Struct(0))
        } else {
            Err(RuleError::UnexpectedToken(1))
        }
    } else if ts.len() > 0 && ts[0] == TokenView::Ident("fn"@) {
        if punct_at(ts, 1, '=') && ts.len() > 2 {
            if rust_path(span_text(ts, 2, ts.len() as int)) {
                Ok(RuleExprView::FnRef(Span { start: 2, end: ts.len() as usize }))
            } else {
                Err(RuleError::ExpectedPath(2))
            }
        } else {
            Err(RuleError::ExpectedPath(1))
        }
    } else if open_at(ts, 0, Delim::Brace) {
        match matching_close(ts, 0) {
            Some(c) => match parse_then(ts, 1) {
                Ok((n, j)) => if j != c {
                    Err(RuleError::UnexpectedToken(j as usize))
                } else if c + 1 != ts.len() {
                    Err(RuleError::UnexpectedToken((c + 1) as usize))
                } else {
                    Ok(RuleExprView::Dsl(n))
                },
                Err(e) => Err(e),
            },
            None => Err(RuleError::Unbalanced(0)),
        }
    } else {
        Err(RuleError::ExpectedRule)
    }
}

/// Reads the tokens of a `#[rule(...)]` attribute.
pub fn parse_rule(ts: &Vec<RuleToken>) -> (r: Result<RuleExpr, RuleError>)
    ensures
        match parse_rule_expr(tokens_view(ts@)) {
            Ok(x) => r matches Ok(e) && e@ == x,
            Err(e) => r is Err && r->Err_0 == e,
        },
{
    let ghost tv = tokens_view(ts@);
    assert(tv.len() == ts.len());
    if token_ident(ts, 0).is_some() {
        if ts.len() == 1 {
            Ok(RuleExpr::Struct(0))
        } else {
            Err(RuleError::UnexpectedToken(1))
        }
    } else if ts.len() > 0 && (match &ts[0] {
        RuleToken::Ident(s) => str_equal(s.as_str(), "fn"),
        _ => false,
    }) {
        assert(tv[0] == ts@[0]@);
        if token_punct(ts, 1, '=') && ts.len() > 2 {
            let mut text = String::new();
            write_span(ts, 2, ts.len(), &mut text);
            assert(Seq::<char>::empty() + span_text(tv, 2, ts.len() as int) =~= span_text(tv, 2, ts.len() as int));
            if parses_as_path(text.as_str()) {
                Ok(RuleExpr::FnRef(Span { start: 2, end: ts.len() }))
            } else {
                Err(RuleError::ExpectedPath(2))
            }
        } else {
            Err(RuleError::ExpectedPath(1))
        }
    } else if token_open(ts, 0, Delim::Brace) {
        proof {
            if ts.len() > 0 {
                assert(tv[0] == ts@[0]@);
            }
        }
        match find_close(ts, 0) {
            Some(c) => match read_then(ts, 1) {
                Ok((n, j)) => if j != c {
                    Err(RuleError::UnexpectedToken(j))
                } else if c + 1 != ts.len() {
                    Err(RuleError::UnexpectedToken(c + 1))
                } else {
                    Ok(RuleExpr::Dsl(n))
                },
                Err(e) => Err(e),
            },
            None => Err(RuleError::Unbalanced(0)),
        }
    } else {
        proof {
            if ts.len() > 0 {
                assert(tv[0] == ts@[0]@);
            }
        }
        Err(RuleError::ExpectedRule)
    }
}

/// The text of a token.
pub open spec fn token_text(t: TokenView) -> Seq<char> {
    match t {
        TokenView::Ident(s) => s,
        TokenView::Punct(c, _) => seq![c],
        TokenView::Str(s) => s,
        TokenView::Lit(s) => s,
        TokenView::Open(Delim::Paren) => "("@,
        TokenView::Open(Delim::Brace) => "{"@,
        TokenView::Open(Delim::Bracket) => "["@,
        TokenView::Close(Delim::Paren) => ")"@,
        TokenView::Close(Delim::Brace) => "}"@,
        TokenView::Close(Delim::Bracket) => "]"@,
    }
}

/// The text of the tokens `ts[a..b]`, each followed by a space unless it is
/// a punctuation character joined to the next.
pub open spec fn span_text(ts: Seq<TokenView>, a: int, b: int) -> Seq<char>
    decreases b - a,
{
    if a >= b || a < 0 || a >= ts.len() {
        Seq::empty()
    } else {
        token_text(ts[a]) + (if ts[a] matches TokenView::Punct(_, true) {
            Seq::empty()
        } else {
            " "@
        }) + span_text(ts, a + 1, b)
    }
}

/// The text of a token, by position; empty past the end.
pub open spec fn text_at(ts: Seq<TokenView>, i: int) -> Seq<char> {
    if 0 <= i < ts.len() {
        token_text(ts[i])
    } else {
        Seq::empty()
    }
}

/// The builder call of a matcher.
pub open spec fn matcher_code(ts: Seq<TokenView>, m: MatcherCall) -> Seq<char> {
    match m {
        MatcherCall::Any => "any()"@,
        MatcherCall::Never => "never()"@,
        MatcherCall::Exact(t) => "text_exact("@ + text_arg_code(ts, t) + ")"@,
        MatcherCall::StartsWith(t) => "text_starts_with("@ + text_arg_code(ts, t) + ")"@,
        MatcherCall::EndsWith(t) => "text_ends_with("@ + text_arg_code(ts, t) + ")"@,
        MatcherCall::Contains(t) => "text_contains("@ + text_arg_code(ts, t) + ")"@,
        MatcherCall::Regex(t) => "text_regex("@ + text_arg_code(ts, t) + ")"@,
        MatcherCall::BinaryExact(sp) => "binary_exact("@ + span_text(ts, sp.start as int, sp.end as int) + ")"@,
        MatcherCall::BinaryStartsWith(sp) => "binary_starts_with("@ + span_text(ts, sp.start as int, sp.end as int) + ")"@,
        MatcherCall::BinaryEndsWith(sp) => "binary_ends_with("@ + span_text(ts, sp.start as int, sp.end as int) + ")"@,
        MatcherCall::BinaryContains(sp) => "binary_contains("@ + span_text(ts, sp.start as int, sp.end as int) + ")"@,
        MatcherCall::MessageType(i) => "message_type("@ + text_at(ts, i as int) + ")"@,
        MatcherCall::JsonSchema(sp) => "json_schema::<"@ + span_text(ts, sp.start as int, sp.end as int) + ">()"@,
        MatcherCall::Custom(sp) => "custom("@ + span_text(ts, sp.start as int, sp.end as int) + ")"@,
    }
}

/// The text of a matcher's text argument.
pub open spec fn text_arg_code(ts: Seq<TokenView>, t: TextArg) -> Seq<char> {
    match t {
        TextArg::Literal(i) => text_at(ts, i as int),
        TextArg::Constant(i) => text_at(ts, i as int),
    }
}

/// The arguments of a method call, each followed by a comma.
pub open spec fn args_code(ts: Seq<TokenView>, args: Seq<Span>) -> Seq<char>
    decreases args.len(),
{
    if args.len() == 0 {
        Seq::empty()
    } else {
        args_code(ts, args.drop_last()) + span_text(ts, args.last().start as int, args.last().end as int) + ","@
    }
}

/// The calls of the methods of a chain.
pub open spec fn methods_code(ts: Seq<TokenView>, ms: Seq<MethodView>) -> Seq<char>
    decreases ms.len(),
{
    if ms.len() == 0 {
        Seq::empty()
    } else {
        methods_code(ts, ms.drop_last()) + "."@ + text_at(ts, ms.last().ident as int) + "("@ + args_code(ts, ms.last().args)
            + ")"@
    }
}

/// The builder of a matcher with its methods.
pub open spec fn chain_code(ts: Seq<TokenView>, c: ChainView) -> Seq<char> {
    "::binary_options_tools_core::rules::RuleBuilder::"@ + matcher_code(ts, c.base) + methods_code(ts, c.methods)
}

/// What an empty conjunction or disjunction stands for: a panic.
pub open spec fn empty_operands_code(is_or: bool) -> Seq<char> {
    if is_or {
        "panic!(\"OR operator requires at least one operand\")"@
    } else {
        "panic!(\"AND operator requires at least one operand\")"@
    }
}

/// The builder of an expression, not yet built.
pub open spec fn node_code(ts: Seq<TokenView>, n: NodeView) -> Seq<char>
    decreases n,
{
    match n {
        NodeView::Then(a, b) => node_code(ts, *a) + ".then("@ + node_code(ts, *b) + ".build())"@,
        NodeView::Or(ns) => if ns.len() == 0 {
            empty_operands_code(true)
        } else {
            proof {
                assert(decreases_to!(n => ns));
                assert(decreases_to!(ns => ns[0]));
                assert(decreases_to!(ns => ns.subrange(1, ns.len() as int)));
            }
            node_code(ts, ns[0]) + operands_code(ts, ns.subrange(1, ns.len() as int), true)
        },
        NodeView::And(ns) => if ns.len() == 0 {
            empty_operands_code(false)
        } else {
            proof {
                assert(decreases_to!(n => ns));
                assert(decreases_to!(ns => ns[0]));
                assert(decreases_to!(ns => ns.subrange(1, ns.len() as int)));
            }
            node_code(ts, ns[0]) + operands_code(ts, ns.subrange(1, ns.len() as int), false)
        },
        NodeView::Not(a) => node_code(ts, *a) + ".not()"@,
        NodeView::Chain(c) => chain_code(ts, c),
    }
}

/// The operands after the first of a disjunction (`.or(..)`) or a
/// conjunction (`.and(..)`), each built.
pub open spec fn operands_code(ts: Seq<TokenView>, ns: Seq<NodeView>, is_or: bool) -> Seq<char>
    decreases ns,
{
    if ns.len() == 0 {
        Seq::empty()
    } else {
        proof {
            assert(decreases_to!(ns => ns.subrange(0, ns.len() - 1)));
            assert(decreases_to!(ns => ns[ns.len() - 1]));
        }
        operands_code(ts, ns.subrange(0, ns.len() - 1), is_or) + (if is_or { ".or("@ } else { ".and("@ })
            + node_code(ts, ns[ns.len() - 1]) + ".build())"@
    }
}

/// The built rule of an expression.
pub open spec fn built_code(ts: Seq<TokenView>, n: NodeView) -> Seq<char> {
    match n {
        NodeView::Or(ns) => if ns.len() == 0 {
            empty_operands_code(true)
        } else {
            node_code(ts, n) + ".build()"@
        },
        NodeView::And(ns) => if ns.len() == 0 {
            empty_operands_code(false)
        } else {
            node_code(ts, n) + ".build()"@
        },
        _ => node_code(ts, n) + ".build()"@,
    }
}

/// The boxed rule that a `#[rule(...)]` payload stands for.
pub open spec fn rule_code(ts: Seq<TokenView>, r: RuleExprView) -> Seq<char> {
    match r {
        RuleExprView::Struct(i) => "::std::boxed::Box::new("@ + text_at(ts, i as int) + "::new())"@,
        RuleExprView::FnRef(sp) => "::std::boxed::Box::new("@ + span_text(ts, sp.start as int, sp.end as int) + "())"@,
        RuleExprView::Dsl(n) => "::std::boxed::Box::new("@ + built_code(ts, n) + ")"@,
    }
}

/// The text of a token.
fn token_str(t: &RuleToken) -> (r: String)
    ensures
        r@ == token_text(t@),
{
    match t {
        RuleToken::Ident(s) => s.clone(),
        RuleToken::Punct(c, _) => {
            let v: Vec<char> = vec![*c];
            let r = string_of_chars(&v);
            assert(v@ =~= seq![*c]);
            r
        },
        RuleToken::Str(s) => s.clone(),
        RuleToken::Lit(s) => s.clone(),
        RuleToken::Open(Delim::Paren) => String::from_str("("),
        RuleToken::Open(Delim::Brace) => String::from_str("{"),
        RuleToken::Open(Delim::Bracket) => String::from_str("["),
        RuleToken::Close(Delim::Paren) => String::from_str(")"),
        RuleToken::Close(Delim::Brace) => String::from_str("}"),
        RuleToken::Close(Delim::Bracket) => String::from_str("]"),
    }
}

fn string_of_chars(v: &Vec<char>) -> (s: String)
    ensures
        s@ == v@,
{
    crate::text::string_of(v.as_slice())
}

/// Appends the text of the token at position `i` (nothing past the end).
fn write_at(ts: &Vec<RuleToken>, i: usize, out: &mut String)
    ensures
        final(out)@ == old(out)@ + text_at(tokens_view(ts@), i as int),
{
    if i < ts.len() {
        assert(tokens_view(ts@)[i as int] == ts@[i as int]@);
        let t = token_str(&ts[i]);
        out.append(t.as_str());
    } else {
        assert(old(out)@ + Seq::<char>::empty() =~= old(out)@);
    }
}

/// Appends the text of the tokens `ts[a..b]`.
fn write_span(ts: &Vec<RuleToken>, a: usize, b: usize, out: &mut String)
    ensures
        final(out)@ == old(out)@ + span_text(tokens_view(ts@), a as int, b as int),
{
    let ghost tv = tokens_view(ts@);
    let ghost start = out@;
    let mut k: usize = a;
    assert(start + span_text(tv, a as int, b as int) =~= out@ + span_text(tv, k as int, b as int));
    while k < b && k < ts.len()
        invariant
            a <= k,
            tv == tokens_view(ts@),
            tv.len() == ts.len(),
            start + span_text(tv, a as int, b as int) == out@ + span_text(tv, k as int, b as int),
        decreases b - k,
    {
        assert(tv[k as int] == ts@[k as int]@);
        let t = token_str(&ts[k]);
        out.append(t.as_str());
        let joint = match &ts[k] {
            RuleToken::Punct(_, j) => *j,
            _ => false,
        };
        if !joint {
            out.append(" ");
        }
        proof {
            reveal_strlit(" ");
            let sep = if tv[k as int] matches TokenView::Punct(_, true) { Seq::<char>::empty() } else { " "@ };
            assert(span_text(tv, k as int, b as int) == token_text(tv[k as int]) + sep + span_text(tv, k + 1, b as int));
        }
        k = k + 1;
    }
    assert(span_text(tv, k as int, b as int) =~= Seq::<char>::empty());
    assert(out@ + Seq::<char>::empty() =~= out@);
}

/// Appends the builder call of a matcher.
fn write_matcher(ts: &Vec<RuleToken>, m: MatcherCall, out: &mut String)
    ensures
        final(out)@ == old(out)@ + matcher_code(tokens_view(ts@), m),
{
    let ghost start = out@;
    let ghost tv = tokens_view(ts@);
    match m {
        MatcherCall::Any => out.append("any()"),
        MatcherCall::Never => out.append("never()"),
        MatcherCall::Exact(t) | MatcherCall::StartsWith(t) | MatcherCall::EndsWith(t) | MatcherCall::Contains(t)
        | MatcherCall::Regex(t) => {
            let head = match m {
                MatcherCall::Exact(_) => "text_exact(",
                MatcherCall::StartsWith(_) => "text_starts_with(",
                MatcherCall::EndsWith(_) => "text_ends_with(",
                MatcherCall::Contains(_) => "text_contains(",
                _ => "text_regex(",
            };
            out.append(head);
            let i = match t {
                TextArg::Literal(i) => i,
                TextArg::Constant(i) => i,
            };
            write_at(ts, i, out);
            out.append(")");
            assert(out@ =~= start + matcher_code(tv, m));
        },
        MatcherCall::BinaryExact(sp) | MatcherCall::BinaryStartsWith(sp) | MatcherCall::BinaryEndsWith(sp)
        | MatcherCall::BinaryContains(sp) | MatcherCall::Custom(sp) => {
            let head = match m {
                MatcherCall::BinaryExact(_) => "binary_exact(",
                MatcherCall::BinaryStartsWith(_) => "binary_starts_with(",
                MatcherCall::BinaryEndsWith(_) => "binary_ends_with(",
                MatcherCall::BinaryContains(_) => "binary_contains(",
                _ => "custom(",
            };
            out.append(head);
            write_span(ts, sp.start, sp.end, out);
            out.append(")");
            assert(out@ =~= start + matcher_code(tv, m));
        },
        MatcherCall::MessageType(i) => {
            out.append("message_type(");
            write_at(ts, i, out);
            out.append(")");
            assert(out@ =~= start + matcher_code(tv, m));
        },
        MatcherCall::JsonSchema(sp) => {
            out.append("json_schema::<");
            write_span(ts, sp.start, sp.end, out);
            out.append(">()");
            assert(out@ =~= start + matcher_code(tv, m));
        },
    }
}

/// Appends the arguments of a method call, each followed by a comma.
fn write_args(ts: &Vec<RuleToken>, args: &Vec<Span>, out: &mut String)
    ensures
        final(out)@ == old(out)@ + args_code(tokens_view(ts@), args@),
{
    let ghost tv = tokens_view(ts@);
    let ghost start = out@;
    let mut k: usize = 0;
    assert(args@.take(0) =~= Seq::<Span>::empty());
    assert(start + Seq::<char>::empty() =~= start);
    while k < args.len()
        invariant
            k <= args.len(),
            tv == tokens_view(ts@),
            out@ == start + args_code(tv, args@.take(k as int)),
        decreases args.len() - k,
    {
        let sp = args[k];
        write_span(ts, sp.start, sp.end, out);
        out.append(",");
        proof {
            assert(args@.take(k + 1).drop_last() =~= args@.take(k as int));
            assert(args@.take(k + 1).last() == sp);
            assert(out@ =~= start + args_code(tv, args@.take(k + 1)));
        }
        k = k + 1;
    }
    assert(args@.take(args.len() as int) =~= args@);
}

/// Appends the calls of the methods of a chain.
fn write_methods(ts: &Vec<RuleToken>, ms: &Vec<ChainedMethod>, out: &mut String)
    ensures
        final(out)@ == old(out)@ + methods_code(tokens_view(ts@), ms@.map_values(|m: ChainedMethod| m@)),
{
    let ghost tv = tokens_view(ts@);
    let ghost start = out@;
    let ghost mv = ms@.map_values(|m: ChainedMethod| m@);
    let mut k: usize = 0;
    assert(mv.take(0) =~= Seq::<MethodView>::empty());
    assert(start + Seq::<char>::empty() =~= start);
    while k < ms.len()
        invariant
            k <= ms.len(),
            tv == tokens_view(ts@),
            mv == ms@.map_values(|m: ChainedMethod| m@),
            out@ == start + methods_code(tv, mv.take(k as int)),
        decreases ms.len() - k,
    {
        let m = &ms[k];
        out.append(".");
        write_at(ts, m.ident, out);
        out.append("(");
        write_args(ts, &m.args, out);
        out.append(")");
        proof {
            assert(mv.take(k + 1).drop_last() =~= mv.take(k as int));
            assert(mv.take(k + 1).last() == mv[k as int]);
            assert(mv[k as int] == ms@[k as int]@);
            assert(out@ =~= start + methods_code(tv, mv.take(k + 1)));
        }
        k = k + 1;
    }
    assert(mv.take(ms.len() as int) =~= mv);
}

/// Appends the builder of a matcher with its methods.
fn write_chain(ts: &Vec<RuleToken>, c: &MethodChain, out: &mut String)
    ensures
        final(out)@ == old(out)@ + chain_code(tokens_view(ts@), c@),
{
    let ghost start = out@;
    out.append("::binary_options_tools_core::rules::RuleBuilder::");
    write_matcher(ts, c.base, out);
    write_methods(ts, &c.methods, out);
    assert(out@ =~= start + chain_code(tokens_view(ts@), c@));
}

/// Appends the builder of an expression, not yet built.
#[verifier::loop_isolation(false)]
fn write_node(ts: &Vec<RuleToken>, n: &DslNode, out: &mut String)
    ensures
        final(out)@ == old(out)@ + node_code(tokens_view(ts@), n@),
    decreases n,
{
    let ghost tv = tokens_view(ts@);
    let ghost start = out@;
    match n {
        DslNode::Then(a, b) => {
            write_node(ts, a, out);
            out.append(".then(");
            write_node(ts, b, out);
            out.append(".build())");
            assert(out@ =~= start + node_code(tv, n@));
        },
        DslNode::Not(a) => {
            write_node(ts, a, out);
            out.append(".not()");
            assert(out@ =~= start + node_code(tv, n@));
        },
        DslNode::MethodChain(c) => {
            write_chain(ts, c, out);
        },
        DslNode::Or(v) | DslNode::And(v) => {
            let is_or = match n {
                DslNode::Or(_) => true,
                _ => false,
            };
            let ghost ns = if is_or { n@->Or_0 } else { n@->And_0 };
            assert(ns.len() == v.len());
            assert forall|k: int| 0 <= k < v.len() implies #[trigger] ns[k] == v@[k]@ by {}
            if v.len() == 0 {
                if is_or {
                    out.append("panic!(\"OR operator requires at least one operand\")");
                } else {
                    out.append("panic!(\"AND operator requires at least one operand\")");
                }
            } else {
                proof {
                    assert(decreases_to!(n => v@[0]));
                }
                write_node(ts, &v[0], out);
                let ghost first = out@;
                let mut k: usize = 1;
                assert(ns.subrange(1, 1) =~= Seq::<NodeView>::empty());
                assert(first + Seq::<char>::empty() =~= first);
                while k < v.len()
                    invariant
                        1 <= k <= v.len(),
                        v.len() == ns.len(),
                        tv == tokens_view(ts@),
                        forall|j: int| 0 <= j < v.len() ==> #[trigger] ns[j] == v@[j]@,
                        out@ == first + operands_code(tv, ns.subrange(1, k as int), is_or),
                    decreases v.len() - k,
                {
                    proof {
                        assert(decreases_to!(n => v@[k as int]));
                    }
                    let ghost before = out@;
                    if is_or {
                        out.append(".or(");
                    } else {
                        out.append(".and(");
                    }
                    write_node(ts, &v[k], out);
                    out.append(".build())");
                    proof {
                        let sub = ns.subrange(1, k + 1);
                        assert(sub.subrange(0, sub.len() - 1) =~= ns.subrange(1, k as int));
                        assert(sub[sub.len() - 1] == ns[k as int]);
                        assert(out@ =~= first + operands_code(tv, sub, is_or));
                    }
                    k = k + 1;
                }
                assert(out@ =~= start + node_code(tv, n@));
            }
        },
    }
}

/// The built rule of an expression.
fn write_built(ts: &Vec<RuleToken>, n: &DslNode, out: &mut String)
    ensures
        final(out)@ == old(out)@ + built_code(tokens_view(ts@), n@),
{
    let ghost start = out@;
    let empty = match n {
        DslNode::Or(v) => v.len() == 0,
        DslNode::And(v) => v.len() == 0,
        _ => false,
    };
    write_node(ts, n, out);
    if !empty {
        out.append(".build()");
    }
    assert(out@ =~= start + built_code(tokens_view(ts@), n@));
}

/// The boxed rule that a `#[rule(...)]` payload stands for, as code.
pub fn rule_to_code(ts: &Vec<RuleToken>, r: &RuleExpr) -> (code: String)
    ensures
        code@ == rule_code(tokens_view(ts@), r@),
{
    let mut out = String::from_str("::std::boxed::Box::new(");
    let ghost start = out@;
    match r {
        RuleExpr::Struct(i) => {
            write_at(ts, *i, &mut out);
            out.append("::new())");
        },
        RuleExpr::FnRef(sp) => {
            write_span(ts, sp.start, sp.end, &mut out);
            out.append("())");
        },
        RuleExpr::Dsl(n) => {
            write_built(ts, n, &mut out);
            out.append(")");
        },
    }
    assert(out@ =~= rule_code(tokens_view(ts@), r@));
    out
}

/// The item that the `Rule` attribute makes of a struct with visibility
/// `vis` and name `ident`: a struct holding the boxed rule `rule`, a `new`
/// function that builds it, and the `Rule` trait delegating to it.
pub open spec fn rule_item_code(vis: Seq<char>, ident: Seq<char>, rule: Seq<char>) -> Seq<char> {
    vis + " struct "@ + ident + " { inner: Box<dyn ::binary_options_tools_core::traits::Rule + Send + Sync> } impl "@
        + ident + " { "@ + vis + " fn new() -> Self { Self { inner: "@ + rule + ", } } } impl ::binary_options_tools_core::traits::Rule for "@
        + ident + " { fn call(&self, msg: &::binary_options_tools_core::reimports::Message) -> bool { self.inner.call(msg) } fn reset(&self) { self.inner.reset() } }"@
}

/// The item that the `Rule` attribute makes of a struct, as code.
pub fn rule_item(vis: &str, ident: &str, rule: &str) -> (code: String)
    ensures
        code@ == rule_item_code(vis@, ident@, rule@),
{
    let mut out = String::from_str(vis);
    out.append(" struct ");
    out.append(ident);
    out.append(" { inner: Box<dyn ::binary_options_tools_core::traits::Rule + Send + Sync> } impl ");
    out.append(ident);
    out.append(" { ");
    out.append(vis);
    out.append(" fn new() -> Self { Self { inner: ");
    out.append(rule);
    out.append(", } } } impl ::binary_options_tools_core::traits::Rule for ");
    out.append(ident);
    out.append(
        " { fn call(&self, msg: &::binary_options_tools_core::reimports::Message) -> bool { self.inner.call(msg) } fn reset(&self) { self.inner.reset() } }",
    );
    assert(out@ =~= rule_item_code(vis@, ident@, rule@));
    out
}

/// The message of a refusal; `name` is the text of the token it concerns.
pub open spec fn rule_error_message(e: RuleError, name: Seq<char>) -> Seq<char> {
    match e {
        RuleError::ExpectedRule => "Expected either a struct ident, a function reference (fn = ...), or a DSL expression!"@,
        RuleError::ExpectedMatcherIdent(_) => "Expected an ident for matcher!"@,
        RuleError::MissingMatcherParens(_) => "Expected parenthesis after matcher '"@ + name + "'"@,
        RuleError::UnknownMatcher(_) => "Unknown matcher '"@ + name + "'"@,
        RuleError::MatcherTakesNoArguments(_) => "Matcher '"@ + name + "' does not take any arguments"@,
        RuleError::ExpectedText(_) => "expected string literal"@,
        RuleError::ExpectedIdent(_) => "expected identifier"@,
        RuleError::ExpectedArgument(_) => "unexpected end of input, expected an expression"@,
        RuleError::ExpectedExpression(_) => "expected an expression"@,
        RuleError::ExpectedType(_) => "expected a type"@,
        RuleError::ExpectedClosure(_) => "expected a closure"@,
        RuleError::ExpectedMethodIdent(_) => "Expected ident!"@,
        RuleError::MissingMethodParens(_) => "Expected parenthesis after ident '"@ + name + "'"@,
        RuleError::ExpectedPath(_) => "expected `=` and a path"@,
        RuleError::Unbalanced(_) => "unbalanced delimiters"@,
        RuleError::UnexpectedToken(_) => "unexpected token"@,
    }
}

/// The token position a refusal concerns, if any.
pub open spec fn rule_error_position(e: RuleError) -> int {
    match e {
        RuleError::ExpectedRule => -1,
        RuleError::ExpectedMatcherIdent(i) => i as int,
        RuleError::MissingMatcherParens(i) => i as int,
        RuleError::UnknownMatcher(i) => i as int,
        RuleError::MatcherTakesNoArguments(i) => i as int,
        RuleError::ExpectedText(i) => i as int,
        RuleError::ExpectedIdent(i) => i as int,
        RuleError::ExpectedArgument(i) => i as int,
        RuleError::ExpectedExpression(i) => i as int,
        RuleError::ExpectedType(i) => i as int,
        RuleError::ExpectedClosure(i) => i as int,
        RuleError::ExpectedMethodIdent(i) => i as int,
        RuleError::MissingMethodParens(i) => i as int,
        RuleError::ExpectedPath(i) => i as int,
        RuleError::Unbalanced(i) => i as int,
        RuleError::UnexpectedToken(i) => i as int,
    }
}

impl RuleError {
    /// The message of the refusal, naming the matcher or method concerned.
    pub fn message(&self, ts: &Vec<RuleToken>) -> (m: String)
        ensures
            m@ == rule_error_message(*self, text_at(tokens_view(ts@), rule_error_position(*self))),
    {
        let mut name = String::new();
        match *self {
            RuleError::ExpectedRule => {},
            RuleError::ExpectedMatcherIdent(i) | RuleError::MissingMatcherParens(i) | RuleError::UnknownMatcher(i)
            | RuleError::MatcherTakesNoArguments(i) | RuleError::ExpectedText(i) | RuleError::ExpectedIdent(i)
            | RuleError::ExpectedArgument(i) | RuleError::ExpectedExpression(i) | RuleError::ExpectedType(i)
            | RuleError::ExpectedClosure(i) | RuleError::ExpectedMethodIdent(i) | RuleError::MissingMethodParens(i)
            | RuleError::ExpectedPath(i) | RuleError::Unbalanced(i) | RuleError::UnexpectedToken(i) => {
                write_at(ts, i, &mut name);
            },
        }
        assert(name@ == text_at(tokens_view(ts@), rule_error_position(*self)));
        match *self {
            RuleError::ExpectedRule => String::from_str(
                "Expected either a struct ident, a function reference (fn = ...), or a DSL expression!",
            ),
            RuleError::ExpectedMatcherIdent(_) => String::from_str("Expected an ident for matcher!"),
            RuleError::MissingMatcherParens(_) => String::from_str("Expected parenthesis after matcher '").concat(
                name.as_str(),
            ).concat("'"),
            RuleError::UnknownMatcher(_) => String::from_str("Unknown matcher '").concat(name.as_str()).concat("'"),
            RuleError::MatcherTakesNoArguments(_) => String::from_str("Matcher '").concat(name.as_str()).concat(
                "' does not take any arguments",
            ),
            RuleError::ExpectedText(_) => String::from_str("expected string literal"),
            RuleError::ExpectedIdent(_) => String::from_str("expected identifier"),
            RuleError::ExpectedArgument(_) => String::from_str("unexpected end of input, expected an expression"),
            RuleError::ExpectedExpression(_) => String::from_str("expected an expression"),
            RuleError::ExpectedType(_) => String::from_str("expected a type"),
            RuleError::ExpectedClosure(_) => String::from_str("expected a closure"),
            RuleError::ExpectedMethodIdent(_) => String::from_str("Expected ident!"),
            RuleError::MissingMethodParens(_) => String::from_str("Expected parenthesis after ident '").concat(
                name.as_str(),
            ).concat("'"),
            RuleError::ExpectedPath(_) => String::from_str("expected `=` and a path"),
            RuleError::Unbalanced(_) => String::from_str("unbalanced delimiters"),
            RuleError::UnexpectedToken(_) => String::from_str("unexpected token"),
        }
    }
}


/// The builder call of every parsed matcher keeps the matcher's own name:
/// `exact`, `starts_with`, `ends_with`, `contains` and `regex` become the
/// `text_` builder of that name on the literal or constant; the binary
/// matchers, `message_type` and `custom` become the builder of the same
/// name on the argument's text; `json_schema` becomes `json_schema::<T>()`;
/// `any` and `never` stay as they are.
pub proof fn lemma_matcher_code_keeps_name(ts: Seq<TokenView>, i: int)
    requires
        ts.len() <= usize::MAX,
        parse_matcher(ts, i) is Ok,
    ensures
        ({
            let name = ident_at(ts, i)->0;
            let code = matcher_code(ts, parse_matcher(ts, i)->Ok_0.0);
            let a = i + 2;
            let b = parse_matcher(ts, i)->Ok_0.1 - 1;
            &&& name == "any"@ ==> code == "any()"@
            &&& name == "never"@ ==> code == "never()"@
            &&& name == "exact"@ ==> code == "text_exact("@ + text_at(ts, a) + ")"@
            &&& name == "starts_with"@ ==> code == "text_starts_with("@ + text_at(ts, a) + ")"@
            &&& name == "ends_with"@ ==> code == "text_ends_with("@ + text_at(ts, a) + ")"@
            &&& name == "contains"@ ==> code == "text_contains("@ + text_at(ts, a) + ")"@
            &&& name == "regex"@ ==> code == "text_regex("@ + text_at(ts, a) + ")"@
            &&& name == "binary_exact"@ ==> code == "binary_exact("@ + span_text(ts, a, b) + ")"@
            &&& name == "binary_starts_with"@ ==> code == "binary_starts_with("@ + span_text(ts, a, b) + ")"@
            &&& name == "binary_ends_with"@ ==> code == "binary_ends_with("@ + span_text(ts, a, b) + ")"@
            &&& name == "binary_contains"@ ==> code == "binary_contains("@ + span_text(ts, a, b) + ")"@
            &&& name == "message_type"@ ==> code == "message_type("@ + text_at(ts, a) + ")"@
            &&& name == "json_schema"@ ==> code == "json_schema::<"@ + span_text(ts, a, b) + ">()"@
            &&& name == "custom"@ ==> code == "custom("@ + span_text(ts, a, b) + ")"@
        }),
{
    reveal_strlit("any");
    reveal_strlit("never");
    reveal_strlit("exact");
    reveal_strlit("starts_with");
    reveal_strlit("ends_with");
    reveal_strlit("contains");
    reveal_strlit("regex");
    reveal_strlit("binary_exact");
    reveal_strlit("binary_starts_with");
    reveal_strlit("binary_ends_with");
    reveal_strlit("binary_contains");
    reveal_strlit("message_type");
    reveal_strlit("json_schema");
    reveal_strlit("custom");
    assert("any"@.len() == 3 && "any"@[0] == 'a');
    assert("never"@.len() == 5 && "never"@[0] == 'n');
    assert("exact"@.len() == 5 && "exact"@[0] == 'e');
    assert("starts_with"@.len() == 11 && "starts_with"@[0] == 's');
    assert("ends_with"@.len() == 9 && "ends_with"@[0] == 'e');
    assert("contains"@.len() == 8 && "contains"@[0] == 'c');
    assert("regex"@.len() == 5 && "regex"@[0] == 'r');
    assert("binary_exact"@.len() == 12 && "binary_exact"@[0] == 'b');
    assert("binary_starts_with"@.len() == 18 && "binary_starts_with"@[0] == 'b');
    assert("binary_ends_with"@.len() == 16 && "binary_ends_with"@[0] == 'b');
    assert("binary_contains"@.len() == 15 && "binary_contains"@[0] == 'b');
    assert("message_type"@.len() == 12 && "message_type"@[0] == 'm');
    assert("json_schema"@.len() == 11 && "json_schema"@[0] == 'j');
    assert("custom"@.len() == 6 && "custom"@[0] == 'c');
    let name = ident_at(ts, i)->0;
    let c = matching_close(ts, i + 1)->0;
    lemma_close_from_after(ts, i + 2, 0);
    assert(0 <= i < ts.len());
    assert(i + 2 <= c < ts.len());
    let m = matcher_of(ts, name, i, i + 2, c)->Ok_0;
    assert(parse_matcher(ts, i)->Ok_0 == (m, c + 1));
    let a = i + 2;
    let sp = Span { start: a as usize, end: c as usize };
    assert(sp.start as int == a && sp.end as int == c);
    if name == "exact"@ || name == "starts_with"@ || name == "ends_with"@ || name == "contains"@ || name == "regex"@ {
        assert(matcher_of(ts, name, i, a, c) is Ok);
        assert(text_arg(ts, a, c) is Ok);
        let t = text_arg(ts, a, c)->Ok_0;
        assert(c == a + 1);
        match t {
            TextArg::Literal(k) => assert(k as int == a),
            TextArg::Constant(k) => assert(k as int == a),
        }
        assert(text_arg_code(ts, t) == text_at(ts, a));
        if name == "exact"@ {
            assert(m == MatcherCall::Exact(t));
        } else if name == "starts_with"@ {
            assert(m == MatcherCall::StartsWith(t));
        } else if name == "ends_with"@ {
            assert(m == MatcherCall::EndsWith(t));
        } else if name == "contains"@ {
            assert(m == MatcherCall::Contains(t));
        } else {
            assert(m == MatcherCall::Regex(t));
        }
    } else if name == "binary_exact"@ {
        assert(m == MatcherCall::BinaryExact(sp));
    } else if name == "binary_starts_with"@ {
        assert(m == MatcherCall::BinaryStartsWith(sp));
    } else if name == "binary_ends_with"@ {
        assert(m == MatcherCall::BinaryEndsWith(sp));
    } else if name == "binary_contains"@ {
        assert(m == MatcherCall::BinaryContains(sp));
    } else if name == "json_schema"@ {
        assert(m == MatcherCall::JsonSchema(sp));
    } else if name == "custom"@ {
        assert(m == MatcherCall::Custom(sp));
    } else if name == "message_type"@ {
        assert(m == MatcherCall::MessageType(a as usize));
    }
}


/// The operators and calls of the rule language become the builder's own
/// methods: `a | b` becomes `a.or(b.build())`, `a & b` becomes
/// `a.and(b.build())`, `!a` becomes `a.not()`, `a -> b` becomes
/// `a.then(b.build())`; a matcher with its methods is built from
/// `RuleBuilder::` with each method called by its name, each argument
/// followed by a comma; and a struct rule is made with its `new`.
pub proof fn lemma_rule_code_operators(
    ts: Seq<TokenView>,
    x: NodeView,
    y: NodeView,
    c: ChainView,
    mv: MethodView,
    s1: Span,
    s2: Span,
    i: usize,
)
    ensures
        node_code(ts, NodeView::Or(seq![x, y])) == node_code(ts, x) + ".or("@ + node_code(ts, y) + ".build())"@,
        node_code(ts, NodeView::And(seq![x, y])) == node_code(ts, x) + ".and("@ + node_code(ts, y) + ".build())"@,
        node_code(ts, NodeView::Not(Box::new(x))) == node_code(ts, x) + ".not()"@,
        node_code(ts, NodeView::Then(Box::new(x), Box::new(y))) == node_code(ts, x) + ".then("@ + node_code(ts, y)
            + ".build())"@,
        built_code(ts, NodeView::Chain(c)) == "::binary_options_tools_core::rules::RuleBuilder::"@ + matcher_code(
            ts,
            c.base,
        ) + methods_code(ts, c.methods) + ".build()"@,
        methods_code(ts, seq![mv]) == "."@ + text_at(ts, mv.ident as int) + "("@ + args_code(ts, mv.args) + ")"@,
        args_code(ts, seq![s1, s2]) == span_text(ts, s1.start as int, s1.end as int) + ","@ + span_text(
            ts,
            s2.start as int,
            s2.end as int,
        ) + ","@,
        rule_code(ts, RuleExprView::Struct(i)) == "::std::boxed::Box::new("@ + text_at(ts, i as int) + "::new())"@,
{
    let two = seq![x, y];
    assert(two.subrange(1, 2) =~= seq![y]);
    assert(seq![y].subrange(0, 0) =~= Seq::<NodeView>::empty());
    assert(operands_code(ts, seq![y], true) == operands_code(ts, Seq::<NodeView>::empty(), true) + ".or("@ + node_code(ts, y) + ".build())"@);
    assert(operands_code(ts, seq![y], false) == operands_code(ts, Seq::<NodeView>::empty(), false) + ".and("@ + node_code(ts, y) + ".build())"@);
    assert(Seq::<char>::empty() + ".or("@ + node_code(ts, y) + ".build())"@ =~= ".or("@ + node_code(ts, y) + ".build())"@);
    assert(Seq::<char>::empty() + ".and("@ + node_code(ts, y) + ".build())"@ =~= ".and("@ + node_code(ts, y) + ".build())"@);
    assert(node_code(ts, x) + (".or("@ + node_code(ts, y) + ".build())"@) =~= node_code(ts, x) + ".or("@ + node_code(ts, y) + ".build())"@);
    assert(node_code(ts, x) + (".and("@ + node_code(ts, y) + ".build())"@) =~= node_code(ts, x) + ".and("@ + node_code(ts, y) + ".build())"@);
    assert(seq![mv].drop_last() =~= Seq::<MethodView>::empty());
    assert(seq![mv].last() == mv);
    assert(methods_code(ts, Seq::<MethodView>::empty()) == Seq::<char>::empty());
    assert(methods_code(ts, seq![mv]) == Seq::<char>::empty() + "."@ + text_at(ts, mv.ident as int) + "("@ + args_code(ts, mv.args) + ")"@);
    assert(Seq::<char>::empty() + "."@ + text_at(ts, mv.ident as int) + "("@ + args_code(ts, mv.args) + ")"@
        =~= "."@ + text_at(ts, mv.ident as int) + "("@ + args_code(ts, mv.args) + ")"@);
    assert(seq![s1, s2].drop_last() =~= seq![s1]);
    assert(seq![s1].drop_last() =~= Seq::<Span>::empty());
    assert(seq![s1].last() == s1);
    assert(seq![s1, s2].last() == s2);
    assert(args_code(ts, Seq::<Span>::empty()) == Seq::<char>::empty());
    assert(args_code(ts, seq![s1]) == Seq::<char>::empty() + span_text(ts, s1.start as int, s1.end as int) + ","@);
    assert(args_code(ts, seq![s1]) =~= span_text(ts, s1.start as int, s1.end as int) + ","@);
}

} // verus!
