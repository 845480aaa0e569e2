//! Message validators: predicates on the text of a message, and their
//! combinations.

use vstd::prelude::*;

use crate::text::{chars_of, contains, ends_with, seq_contains, seq_ends_with, seq_starts_with, starts_with};

verus! {

/// Whether `regex::Regex::new` accepts `pattern`.
pub uninterp spec fn regex_compiles(pattern: Seq<char>) -> bool;

/// Whether the regular expression `pattern` matches somewhere in `text`, as
/// `regex::Regex::is_match` decides it.
pub uninterp spec fn regex_is_match(pattern: Seq<char>, text: Seq<char>) -> bool;

/// Compiles `pattern` with `regex::Regex::new` and runs `Regex::is_match`
/// of it on `text`; the compiler's message when the pattern does not
/// compile. The contract claims only that the outcome is a function of
/// pattern and text (the names `regex_compiles` and `regex_is_match`).
#[verifier::external_body]
fn regex_search(pattern: &str, text: &str) -> (r: Result<bool, String>)
    ensures
        r is Ok == regex_compiles(pattern@),
        r is Ok ==> r->Ok_0 == regex_is_match(pattern@, text@),
{
    regex::Regex::new(pattern).map(|re| re.is_match(text)).map_err(|e| e.to_string())
}

/// A predicate on the text of a message.
#[derive(Debug)]
pub enum Validator {
    /// Accepts every message.
    AcceptAll,
    /// Accepts the messages in which the regular expression matches.
    Regex(String),
    /// Accepts the messages that start with the text.
    StartsWith(String),
    /// Accepts the messages that end with the text.
    EndsWith(String),
    /// Accepts the messages that contain the text.
    Contains(String),
    /// Accepts the messages that the inner validator refuses.
    Not(Box<Validator>),
    /// Accepts the messages that every inner validator accepts.
    All(Vec<Validator>),
    /// Accepts the messages that some inner validator accepts.
    Any(Vec<Validator>),
}

/// The plain form of a [`Validator`].
pub enum ValidatorView {
    AcceptAll,
    Regex(Seq<char>),
    StartsWith(Seq<char>),
    EndsWith(Seq<char>),
    Contains(Seq<char>),
    Not(Box<ValidatorView>),
    All(Seq<ValidatorView>),
    Any(Seq<ValidatorView>),
}

impl Validator {
    pub open spec fn model(&self) -> ValidatorView
        decreases self,
    {
        match self {
            Validator::AcceptAll => ValidatorView::AcceptAll,
            Validator::Regex(p) => ValidatorView::Regex(p@),
            Validator::StartsWith(p) => ValidatorView::StartsWith(p@),
            Validator::EndsWith(p) => ValidatorView::EndsWith(p@),
            Validator::Contains(p) => ValidatorView::Contains(p@),
            Validator::Not(v) => ValidatorView::Not(Box::new(v.model())),
            Validator::All(vs) => ValidatorView::All(
                Seq::new(vs.len() as nat, |i: int| if 0 <= i < vs.len() { vs@[i].model() } else { ValidatorView::AcceptAll }),
            ),
            Validator::Any(vs) => ValidatorView::Any(
                Seq::new(vs.len() as nat, |i: int| if 0 <= i < vs.len() { vs@[i].model() } else { ValidatorView::AcceptAll }),
            ),
        }
    }
}

impl View for Validator {
    type V = ValidatorView;

    open spec fn view(&self) -> ValidatorView {
        self.model()
    }
}

/// Whether the validator `v` accepts the message text `m`.
pub open spec fn accepts(v: ValidatorView, m: Seq<char>) -> bool
    decreases v,
{
    match v {
        ValidatorView::AcceptAll => true,
        ValidatorView::Regex(p) => regex_compiles(p) && regex_is_match(p, m),
        ValidatorView::StartsWith(p) => seq_starts_with(m, p),
        ValidatorView::EndsWith(p) => seq_ends_with(m, p),
        ValidatorView::Contains(p) => seq_contains(m, p),
        ValidatorView::Not(b) => !accepts(*b, m),
        ValidatorView::All(vs) => forall|i: int| 0 <= i < vs.len() ==> accepts(#[trigger] vs[i], m),
        ValidatorView::Any(vs) => exists|i: int| 0 <= i < vs.len() && accepts(#[trigger] vs[i], m),
    }
}

impl Validator {
    /// A validator that accepts the messages in which `pattern` matches,
    /// or the compiler's message when `pattern` is not a valid regular
    /// expression.
    pub fn regex(pattern: String) -> (r: Result<Validator, String>)
        ensures
            match r {
                Ok(v) => v@ == ValidatorView::Regex(pattern@) && regex_compiles(pattern@),
                Err(_) => !regex_compiles(pattern@),
            },
    {
        match regex_search(pattern.as_str(), "") {
            Ok(_) => Ok(Validator::Regex(pattern)),
            Err(e) => Err(e),
        }
    }

    /// A validator that accepts the messages starting with `prefix`.
    pub fn starts_with(prefix: String) -> (r: Validator)
        ensures
            r@ == ValidatorView::StartsWith(prefix@),
    {
        Validator::StartsWith(prefix)
    }

    /// A validator that accepts the messages ending with `suffix`.
    pub fn ends_with(suffix: String) -> (r: Validator)
        ensures
            r@ == ValidatorView::EndsWith(suffix@),
    {
        Validator::EndsWith(suffix)
    }

    /// A validator that accepts the messages containing `substring`.
    pub fn contains(substring: String) -> (r: Validator)
        ensures
            r@ == ValidatorView::Contains(substring@),
    {
        Validator::Contains(substring)
    }

    /// A validator that accepts what `v` refuses.
    pub fn negate(v: Validator) -> (r: Validator)
        ensures
            r@ == ValidatorView::Not(Box::new(v@)),
    {
        Validator::Not(Box::new(v))
    }

    /// A validator that accepts what all of `vs` accept.
    pub fn all(vs: Vec<Validator>) -> (r: Validator)
        ensures
            r@ is All,
            r@->All_0 == Seq::new(vs@.len(), |i: int| vs@[i]@),
    {
        let r = Validator::All(vs);
        assert(r@->All_0 =~= Seq::new(vs@.len(), |i: int| vs@[i]@));
        r
    }

    /// A validator that accepts what any of `vs` accepts.
    pub fn any(vs: Vec<Validator>) -> (r: Validator)
        ensures
            r@ is Any,
            r@->Any_0 == Seq::new(vs@.len(), |i: int| vs@[i]@),
    {
        let r = Validator::Any(vs);
        assert(r@->Any_0 =~= Seq::new(vs@.len(), |i: int| vs@[i]@));
        r
    }

    /// A copy of the validator.
    pub fn copy(&self) -> (r: Validator)
        ensures
            r@ == self@,
        decreases self,
    {
        match self {
            Validator::AcceptAll => Validator::AcceptAll,
            Validator::Regex(p) => Validator::Regex(p.clone()),
            Validator::StartsWith(p) => Validator::StartsWith(p.clone()),
            Validator::EndsWith(p) => Validator::EndsWith(p.clone()),
            Validator::Contains(p) => Validator::Contains(p.clone()),
            Validator::Not(b) => Validator::Not(Box::new(b.copy())),
            Validator::All(vs) => {
                let out = copy_all(self, vs);
                let r = Validator::All(out);
                assert(r@->All_0 =~= self@->All_0);
                r
            },
            Validator::Any(vs) => {
                let out = copy_all(self, vs);
                let r = Validator::Any(out);
                assert(r@->Any_0 =~= self@->Any_0);
                r
            },
        }
    }

    /// Whether the validator accepts the message text `msg`.
    #[verifier::loop_isolation(false)]
    pub fn call(&self, msg: &str) -> (r: bool)
        ensures
            r == accepts(self@, msg@),
        decreases self,
    {
        match self {
            Validator::AcceptAll => true,
            Validator::Regex(p) => match regex_search(p.as_str(), msg) {
                Ok(b) => b,
                Err(_) => false,
            },
            Validator::StartsWith(p) => {
                let m = chars_of(msg);
                let q = chars_of(p.as_str());
                starts_with(&m, &q)
            },
            Validator::EndsWith(p) => {
                let m = chars_of(msg);
                let q = chars_of(p.as_str());
                ends_with(&m, &q)
            },
            Validator::Contains(p) => {
                let m = chars_of(msg);
                let q = chars_of(p.as_str());
                contains(&m, &q)
            },
            Validator::Not(b) => !b.call(msg),
            Validator::All(vs) => {
                let ghost s = self@->All_0;
                let mut i: usize = 0;
                while i < vs.len()
                    invariant
                        i <= vs.len(),
                        s.len() == vs.len(),
                        forall|j: int| 0 <= j < vs.len() ==> #[trigger] s[j] == vs@[j]@,
                        forall|j: int| 0 <= j < i ==> accepts(#[trigger] s[j], msg@),
                    decreases vs.len() - i,
                {
                    proof {
                        assert(decreases_to!(self => vs@[i as int]));
                        assert(s[i as int] == vs@[i as int]@);
                    }
                    if !vs[i].call(msg) {
                        assert(!accepts(s[i as int], msg@));
                        return false;
                    }
                    i = i + 1;
                }
                true
            },
            Validator::Any(vs) => {
                let ghost s = self@->Any_0;
                let mut i: usize = 0;
                while i < vs.len()
                    invariant
                        i <= vs.len(),
                        s.len() == vs.len(),
                        forall|j: int| 0 <= j < vs.len() ==> #[trigger] s[j] == vs@[j]@,
                        forall|j: int| 0 <= j < i ==> !accepts(#[trigger] s[j], msg@),
                    decreases vs.len() - i,
                {
                    proof {
                        assert(decreases_to!(self => vs@[i as int]));
                        assert(s[i as int] == vs@[i as int]@);
                    }
                    if vs[i].call(msg) {
                        assert(accepts(s[i as int], msg@));
                        return true;
                    }
                    i = i + 1;
                }
                false
            },
        }
    }
}

fn copy_all(parent: &Validator, vs: &Vec<Validator>) -> (out: Vec<Validator>)
    requires
        (parent matches Validator::All(x) && x == *vs) || (parent matches Validator::Any(y) && y == *vs),
    ensures
        out.len() == vs.len(),
        forall|j: int| 0 <= j < vs.len() ==> (#[trigger] out@[j])@ == vs@[j]@,
    decreases parent, 0nat,
{
    let mut out: Vec<Validator> = Vec::new();
    let mut i: usize = 0;
    while i < vs.len()
        invariant
            i <= vs.len(),
            out.len() == i,
            forall|j: int| 0 <= j < i ==> (#[trigger] out@[j])@ == vs@[j]@,
            (parent matches Validator::All(x) && x == *vs) || (parent matches Validator::Any(y) && y == *vs),
        decreases vs.len() - i,
    {
        proof {
            assert(decreases_to!(parent => vs@[i as int]));
        }
        out.push(vs[i].copy());
        i = i + 1;
    }
    out
}


/// The default validator accepts every message.
pub proof fn lemma_accept_all(m: Seq<char>)
    ensures
        accepts(ValidatorView::AcceptAll, m),
{
}

/// A negated validator accepts exactly the messages that the validator
/// refuses.
pub proof fn lemma_negation(v: ValidatorView, m: Seq<char>)
    ensures
        accepts(ValidatorView::Not(Box::new(v)), m) == !accepts(v, m),
{
}

/// Negating twice gives back the same verdict.
pub proof fn lemma_double_negation(v: ValidatorView, m: Seq<char>)
    ensures
        accepts(ValidatorView::Not(Box::new(ValidatorView::Not(Box::new(v)))), m) == accepts(v, m),
{
    reveal_with_fuel(accepts, 2);
}

/// A conjunction of no validators accepts every message; a disjunction of
/// none accepts no message.
pub proof fn lemma_empty_combinations(m: Seq<char>)
    ensures
        accepts(ValidatorView::All(Seq::empty()), m),
        !accepts(ValidatorView::Any(Seq::empty()), m),
{
}

/// A conjunction or disjunction of a single validator decides as that
/// validator does.
pub proof fn lemma_singleton_combinations(v: ValidatorView, m: Seq<char>)
    ensures
        accepts(ValidatorView::All(seq![v]), m) == accepts(v, m),
        accepts(ValidatorView::Any(seq![v]), m) == accepts(v, m),
{
    let s = seq![v];
    assert(s[0] == v);
    let a = ValidatorView::All(s);
    let b = ValidatorView::Any(s);
    assert(a->All_0 == s && b->Any_0 == s);
    assert(decreases_to!(a => a->All_0));
    assert(decreases_to!(b => b->Any_0));
    assert(decreases_to!(a => s[0]));
    assert(decreases_to!(b => s[0]));
    let x = accepts(s[0], m);
    assert(accepts(a, m) == x);
    assert(accepts(b, m) == x);
    if accepts(v, m) {
        assert(accepts(s[0], m));
    }
}

/// De Morgan: the negation of a conjunction accepts what the disjunction of
/// the negations accepts.
pub proof fn lemma_de_morgan(vs: Seq<ValidatorView>, m: Seq<char>)
    ensures
        accepts(ValidatorView::Not(Box::new(ValidatorView::All(vs))), m) == accepts(
            ValidatorView::Any(vs.map_values(|v: ValidatorView| ValidatorView::Not(Box::new(v)))),
            m,
        ),
{
    let ns = vs.map_values(|v: ValidatorView| ValidatorView::Not(Box::new(v)));
    let a = ValidatorView::All(vs);
    let b = ValidatorView::Any(ns);
    assert(a->All_0 == vs && b->Any_0 == ns);
    assert(decreases_to!(a => a->All_0));
    assert(decreases_to!(b => b->Any_0));
    assert forall|i: int| 0 <= i < vs.len() implies accepts(#[trigger] ns[i], m) == !accepts(vs[i], m) by {
        assert(decreases_to!(a => vs[i]));
        assert(decreases_to!(b => ns[i]));
        assert(ns[i] == ValidatorView::Not(Box::new(vs[i])));
        lemma_negation(vs[i], m);
    }
    let all_hold = forall|i: int| 0 <= i < vs.len() ==> accepts(#[trigger] vs[i], m);
    let some_neg = exists|i: int| 0 <= i < ns.len() && accepts(#[trigger] ns[i], m);
    assert(accepts(a, m) == all_hold);
    assert(accepts(b, m) == some_neg);
    if !all_hold {
        let i = choose|i: int| 0 <= i < vs.len() && !accepts(#[trigger] vs[i], m);
        assert(accepts(ns[i], m));
    }
    if some_neg {
        let i = choose|i: int| 0 <= i < ns.len() && accepts(#[trigger] ns[i], m);
        assert(!accepts(vs[i], m));
    }
}

} // verus!
