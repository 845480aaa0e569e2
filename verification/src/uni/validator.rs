//! Message validators as the binding layer exposes them.

use std::sync::Arc;

use vstd::prelude::*;

use crate::uni::error::UniError;
use crate::validator::{Validator as InnerValidator, ValidatorView, accepts, regex_compiles};

verus! {

/// A message validator.
pub struct Validator {
    inner: InnerValidator,
}

impl View for Validator {
    type V = ValidatorView;

    closed spec fn view(&self) -> ValidatorView {
        self.inner@
    }
}

impl Validator {
    /// A validator that accepts every message.
    pub fn new() -> (r: Arc<Self>)
        ensures
            (*r)@ == ValidatorView::AcceptAll,
    {
        Arc::new(Validator { inner: InnerValidator::AcceptAll })
    }

    /// A validator that accepts the messages in which the regular expression
    /// `pattern` matches; an error when `pattern` does not compile.
    pub fn regex(pattern: String) -> (r: Result<Arc<Self>, UniError>)
        ensures
            match r {
                Ok(v) => (*v)@ == ValidatorView::Regex(pattern@),
                Err(e) => !regex_compiles(pattern@) && e is Validator && "Invalid regex pattern: "@.is_prefix_of(
                    e->Validator_0@,
                ),
            },
    {
        match InnerValidator::regex(pattern) {
            Ok(inner) => Ok(Arc::new(Validator { inner })),
            Err(e) => Err(UniError::Validator(String::from_str("Invalid regex pattern: ").concat(e.as_str()))),
        }
    }

    /// A validator that accepts the messages starting with `prefix`.
    pub fn starts_with(prefix: String) -> (r: Arc<Self>)
        ensures
            (*r)@ == ValidatorView::StartsWith(prefix@),
    {
        Arc::new(Validator { inner: InnerValidator::starts_with(prefix) })
    }

    /// A validator that accepts the messages ending with `suffix`.
    pub fn ends_with(suffix: String) -> (r: Arc<Self>)
        ensures
            (*r)@ == ValidatorView::EndsWith(suffix@),
    {
        Arc::new(Validator { inner: InnerValidator::ends_with(suffix) })
    }

    /// A validator that accepts the messages containing `substring`.
    pub fn contains(substring: String) -> (r: Arc<Self>)
        ensures
            (*r)@ == ValidatorView::Contains(substring@),
    {
        Arc::new(Validator { inner: InnerValidator::contains(substring) })
    }

    /// A validator that accepts the messages that `validator` refuses.
    pub fn ne(validator: Arc<Validator>) -> (r: Arc<Self>)
        ensures
            (*r)@ == ValidatorView::Not(Box::new((*validator)@)),
    {
        let v: &Validator = &*validator;
        let inner = v.inner.copy();
        Arc::new(Validator { inner: InnerValidator::negate(inner) })
    }

    /// A validator that accepts the messages that every one of `validators`
    /// accepts.
    pub fn all(validators: Vec<Arc<Validator>>) -> (r: Arc<Self>)
        ensures
            (*r)@ == ValidatorView::All(Seq::new(validators@.len(), |i: int| (*validators@[i])@)),
    {
        let inner = copy_inners(&validators);
        let r = Arc::new(Validator { inner: InnerValidator::all(inner) });
        assert((*r)@->All_0 =~= Seq::new(validators@.len(), |i: int| (*validators@[i])@));
        r
    }

    /// A validator that accepts the messages that some of `validators`
    /// accepts.
    pub fn any(validators: Vec<Arc<Validator>>) -> (r: Arc<Self>)
        ensures
            (*r)@ == ValidatorView::Any(Seq::new(validators@.len(), |i: int| (*validators@[i])@)),
    {
        let inner = copy_inners(&validators);
        let r = Arc::new(Validator { inner: InnerValidator::any(inner) });
        assert((*r)@->Any_0 =~= Seq::new(validators@.len(), |i: int| (*validators@[i])@));
        r
    }

    /// Whether the validator accepts `message`.
    pub fn check(&self, message: String) -> (r: bool)
        ensures
            r == accepts(self@, message@),
    {
        self.inner.call(message.as_str())
    }

    /// The platform validator inside.
    pub fn inner(&self) -> (r: &InnerValidator)
        ensures
            r@ == self@,
    {
        &self.inner
    }

    /// Wraps a platform validator.
    pub fn from_inner(inner: InnerValidator) -> (r: Arc<Self>)
        ensures
            (*r)@ == inner@,
    {
        Arc::new(Validator { inner })
    }
}

fn copy_inners(validators: &Vec<Arc<Validator>>) -> (out: Vec<InnerValidator>)
    ensures
        out.len() == validators.len(),
        forall|j: int| 0 <= j < out.len() ==> (#[trigger] out@[j])@ == (*validators@[j])@,
{
    let mut out: Vec<InnerValidator> = Vec::new();
    let mut i: usize = 0;
    while i < validators.len()
        invariant
            i <= validators.len(),
            out.len() == i,
            forall|j: int| 0 <= j < i ==> (#[trigger] out@[j])@ == (*validators@[j])@,
        decreases validators.len() - i,
    {
        let v: &Validator = &*validators[i];
        out.push(v.inner.copy());
        i = i + 1;
    }
    out
}

impl Default for Validator {
    fn default() -> (r: Self)
        ensures
            r@ == ValidatorView::AcceptAll,
    {
        Validator { inner: InnerValidator::AcceptAll }
    }
}

} // verus!
