//! The plan of a lightweight module generated from its handler function:
//! the module's name, the fields it keeps, its rule, and how the handler is
//! called for each message.

use vstd::prelude::*;

use crate::json::str_equal;
use crate::text::{chars_of, seq_starts_with, slice_chars, starts_with, string_of};

verus! {

/// The options of the `lightweight_module` attribute; `P`, `E` and `T` are
/// the macro's path, expression and type syntax.
#[derive(Debug)]
pub struct LightweightModuleArgs<P, E, T> {
    pub name: Option<String>,
    pub rule_pattern: Option<String>,
    pub rule_fn: Option<P>,
    pub rule_builder: Option<E>,
    pub state_type: Option<T>,
}

/// A parameter of the handler function: named by a plain identifier, or
/// something else (a receiver or a pattern).
#[derive(Debug)]
pub enum HandlerParam {
    Named(String),
    Other,
}

/// The rule of the generated module.
#[derive(Debug)]
pub enum RuleSource<P, E> {
    /// The given rule builder expression, boxed.
    Builder(E),
    /// A call of the given function.
    Function(P),
    /// A two-step rule on the pattern (see [`pattern_rule`]).
    Pattern(String),
    /// A rule matching every message.
    AnyMessage,
}

/// The state type of the generated module.
#[derive(Debug)]
pub enum StateType<T> {
    Given(T),
    /// `crate::pocketoption::state::State`.
    Default,
}

/// An argument of the handler call.
#[derive(Debug, PartialEq, Eq)]
pub enum CallArg {
    /// The message, as `msg.as_ref()`.
    Message,
    /// A reference to the module's field of this name.
    Field(String),
}

/// The plan of a lightweight module.
#[derive(Debug)]
pub struct ModulePlan<P, E, T> {
    pub struct_name: String,
    pub needs_state: bool,
    pub needs_sender: bool,
    pub needs_runner_cmd: bool,
    pub state_type: StateType<T>,
    pub rule: RuleSource<P, E>,
    pub call_args: Vec<CallArg>,
}

/// What `char::to_uppercase` yields for `c`.
pub uninterp spec fn char_upper(c: char) -> Seq<char>;

/// Upper-cases a character with `char::to_uppercase`. The contract claims
/// that the result is a function of the character and, as the documentation
/// says, that an ASCII lower-case letter becomes its upper-case letter.
#[verifier::external_body]
fn upper_case(c: char) -> (r: String)
    ensures
        r@ == char_upper(c),
        'a' <= c <= 'z' ==> r@ == seq![((c as int) - 32) as char],
{
    c.to_uppercase().collect::<String>()
}

/// `s` without every leading copy of `p`, as `str::trim_start_matches`
/// gives it.
pub open spec fn trim_start_all(s: Seq<char>, p: Seq<char>) -> Seq<char>
    decreases s.len(),
{
    if p.len() > 0 && seq_starts_with(s, p) {
        trim_start_all(s.subrange(p.len() as int, s.len() as int), p)
    } else {
        s
    }
}

/// The module name made of the handler's name: without its leading
/// `handle_`s, and with its first character upper-cased.
pub open spec fn name_from_handler(fn_name: Seq<char>) -> Seq<char> {
    let base = trim_start_all(fn_name, "handle_"@);
    if base.len() == 0 {
        Seq::empty()
    } else {
        char_upper(base[0]) + base.subrange(1, base.len() as int)
    }
}

/// Whether a parameter is named `name`.
pub open spec fn param_named(p: HandlerParam, name: Seq<char>) -> bool {
    p matches HandlerParam::Named(n) && n@ == name
}

/// Whether some parameter is named `name`.
pub open spec fn has_param(params: Seq<HandlerParam>, name: Seq<char>) -> bool {
    exists|i: int| 0 <= i < params.len() && param_named(#[trigger] params[i], name)
}

/// The arguments of the handler call: the message for `msg`, the module's
/// field for every other named parameter; other parameters are skipped.
pub open spec fn call_args_of(params: Seq<HandlerParam>) -> Seq<CallArg>
    decreases params.len(),
{
    if params.len() == 0 {
        Seq::empty()
    } else {
        let rest = call_args_of(params.drop_last());
        match params.last() {
            HandlerParam::Named(n) => if n@ == "msg"@ {
                rest.push(CallArg::Message)
            } else {
                rest.push(CallArg::Field(n))
            },
            HandlerParam::Other => rest,
        }
    }
}

/// Strips every leading copy of a non-empty `p` from `s`.
fn trim_start_matches(s: &str, p: &str) -> (r: String)
    requires
        p@.len() > 0,
    ensures
        r@ == trim_start_all(s@, p@),
{
    let chars = chars_of(s);
    let pat = chars_of(p);
    let mut start: usize = 0;
    assert(chars@.subrange(0, chars.len() as int) =~= chars@);
    while start <= chars.len() && starts_with(&slice_chars(&chars, start, chars.len()), &pat)
        invariant
            start <= chars.len(),
            pat@ == p@,
            pat.len() > 0,
            trim_start_all(s@, p@) == trim_start_all(chars@.subrange(start as int, chars.len() as int), p@),
            chars@ == s@,
        decreases chars.len() - start,
    {
        let ghost rest = chars@.subrange(start as int, chars.len() as int);
        assert(rest.subrange(pat.len() as int, rest.len() as int) =~= chars@.subrange(start + pat.len(), chars.len() as int));
        start = start + pat.len();
    }
    string_of(&slice_chars(&chars, start, chars.len()))
}

/// The name of a module made of its handler's name.
pub fn struct_name_from(fn_name: &str) -> (r: String)
    ensures
        r@ == name_from_handler(fn_name@),
{
    proof {
        reveal_strlit("handle_");
    }
    let base = trim_start_matches(fn_name, "handle_");
    let chars = chars_of(base.as_str());
    if chars.len() == 0 {
        String::new()
    } else {
        let first = upper_case(chars[0]);
        let rest = string_of(&slice_chars(&chars, 1, chars.len()));
        first.concat(rest.as_str())
    }
}

/// Plans the module of a handler named `fn_name` with parameters `params`.
///
/// The module is named as the options say, else after the handler. It keeps
/// the state, the sender and the runner command channel only if the handler
/// has a parameter of that name. Its rule is the given builder, else the
/// given rule function, else a two-step rule on the given pattern, else a rule
/// matching every message.
pub fn plan_module<P, E, T>(args: LightweightModuleArgs<P, E, T>, fn_name: &str, params: &Vec<HandlerParam>) -> (r: ModulePlan<P, E, T>)
    ensures
        r.struct_name@ == (match args.name {
            Some(n) => n@,
            None => name_from_handler(fn_name@),
        }),
        r.needs_state == has_param(params@, "state"@),
        r.needs_sender == has_param(params@, "sender"@),
        r.needs_runner_cmd == has_param(params@, "runner_cmd"@),
        match args.state_type {
            Some(t) => r.state_type matches StateType::Given(x) && x == t,
            None => r.state_type is Default,
        },
        match args.rule_builder {
            Some(b) => r.rule matches RuleSource::Builder(x) && x == b,
            None => match args.rule_fn {
                Some(f) => r.rule matches RuleSource::Function(x) && x == f,
                None => match args.rule_pattern {
                    Some(p) => r.rule matches RuleSource::Pattern(x) && x@ == p@,
                    None => r.rule is AnyMessage,
                },
            },
        },
        r.call_args@ == call_args_of(params@),
{
    let struct_name = match args.name {
        Some(n) => n,
        None => struct_name_from(fn_name),
    };
    let mut needs_state = false;
    let mut needs_sender = false;
    let mut needs_runner_cmd = false;
    let mut call_args: Vec<CallArg> = Vec::new();
    let mut i: usize = 0;
    while i < params.len()
        invariant
            i <= params.len(),
            needs_state == has_param(params@.take(i as int), "state"@),
            needs_sender == has_param(params@.take(i as int), "sender"@),
            needs_runner_cmd == has_param(params@.take(i as int), "runner_cmd"@),
            call_args@ == call_args_of(params@.take(i as int)),
        decreases params.len() - i,
    {
        let ghost prefix = params@.take(i as int);
        let ghost next = params@.take(i + 1);
        proof {
            assert(next.drop_last() =~= prefix);
            assert(next.last() == params@[i as int]);
            assert forall|name: Seq<char>| has_param(next, name) == (has_param(prefix, name) || param_named(params@[i as int], name)) by {
                if has_param(next, name) {
                    let j = choose|j: int| 0 <= j < next.len() && param_named(#[trigger] next[j], name);
                    if j < i {
                        assert(prefix[j] == next[j]);
                    }
                }
                if has_param(prefix, name) {
                    let j = choose|j: int| 0 <= j < prefix.len() && param_named(#[trigger] prefix[j], name);
                    assert(next[j] == prefix[j]);
                }
                if param_named(params@[i as int], name) {
                    assert(next[i as int] == params@[i as int]);
                }
            }
        }
        match &params[i] {
            HandlerParam::Named(n) => {
                if str_equal(n.as_str(), "state") {
                    needs_state = true;
                }
                if str_equal(n.as_str(), "sender") {
                    needs_sender = true;
                }
                if str_equal(n.as_str(), "runner_cmd") {
                    needs_runner_cmd = true;
                }
                if str_equal(n.as_str(), "msg") {
                    call_args.push(CallArg::Message);
                } else {
                    call_args.push(CallArg::Field(n.clone()));
                }
            },
            HandlerParam::Other => {},
        }
        i = i + 1;
    }
    proof {
        assert(params@.take(params.len() as int) =~= params@);
    }
    let state_type = match args.state_type {
        Some(t) => StateType::Given(t),
        None => StateType::Default,
    };
    let rule = match args.rule_builder {
        Some(b) => RuleSource::Builder(b),
        None => match args.rule_fn {
            Some(f) => RuleSource::Function(f),
            None => match args.rule_pattern {
                Some(p) => RuleSource::Pattern(p),
                None => RuleSource::AnyMessage,
            },
        },
    };
    ModulePlan { struct_name, needs_state, needs_sender, needs_runner_cmd, state_type, rule, call_args }
}


/// How a character is written inside a Rust string literal: a backslash, a
/// double quote, a newline, a carriage return or a tab escaped, any other
/// character as it is.
pub open spec fn escaped_char(c: char) -> Seq<char> {
    if c == '\\' {
        seq!['\\', '\\']
    } else if c == '"' {
        seq!['\\', '"']
    } else if c == '\n' {
        seq!['\\', 'n']
    } else if c == '\r' {
        seq!['\\', 'r']
    } else if c == '\t' {
        seq!['\\', 't']
    } else {
        seq![c]
    }
}

/// The characters of `s` as written inside a Rust string literal.
pub open spec fn escaped(s: Seq<char>) -> Seq<char>
    decreases s.len(),
{
    if s.len() == 0 {
        Seq::empty()
    } else {
        escaped(s.drop_last()) + escaped_char(s.last())
    }
}

/// The Rust string literal that denotes `s`.
pub open spec fn str_literal(s: Seq<char>) -> Seq<char> {
    seq!['"'] + escaped(s) + seq!['"']
}

/// The rule that a module's pattern makes: a two-step rule on the pattern,
/// boxed.
pub open spec fn pattern_rule_code(pattern: Seq<char>) -> Seq<char> {
    "Box::new(TwoStepRule::new("@ + str_literal(pattern) + "))"@
}

/// The code of the rule that the pattern `pattern` makes.
pub fn pattern_rule(pattern: &str) -> (r: String)
    ensures
        r@ == pattern_rule_code(pattern@),
{
    let chars = chars_of(pattern);
    let mut out: Vec<char> = Vec::new();
    out.push('"');
    let mut i: usize = 0;
    while i < chars.len()
        invariant
            i <= chars.len(),
            chars@ == pattern@,
            out@ == seq!['"'] + escaped(chars@.take(i as int)),
        decreases chars.len() - i,
    {
        let c = chars[i];
        let ghost before = out@;
        if c == '\\' {
            out.push('\\');
            out.push('\\');
        } else if c == '"' {
            out.push('\\');
            out.push('"');
        } else if c == '\n' {
            out.push('\\');
            out.push('n');
        } else if c == '\r' {
            out.push('\\');
            out.push('r');
        } else if c == '\t' {
            out.push('\\');
            out.push('t');
        } else {
            out.push(c);
        }
        proof {
            assert(chars@.take(i + 1).drop_last() =~= chars@.take(i as int));
            assert(chars@.take(i + 1).last() == c);
            assert(out@ =~= before + escaped_char(c));
            assert(out@ =~= seq!['"'] + escaped(chars@.take(i + 1)));
        }
        i = i + 1;
    }
    out.push('"');
    assert(chars@.take(chars.len() as int) =~= chars@);
    assert(out@ =~= str_literal(pattern@));
    String::from_str("Box::new(TwoStepRule::new(").concat(string_of(out.as_slice()).as_str()).concat("))")
}

} // verus!
