use vstd::prelude::*;
use vstd::string::StringExecFns;

use crate::text::comma_join;
use crate::text::joined_labels;

verus! {

/// How a cause renders: the trace labels joined inside brackets, then the
/// error text.
pub open spec fn cause_text(error: Seq<char>, trace: Seq<Seq<char>>) -> Seq<char> {
    "["@ + comma_join(trace) + "] "@ + error
}

/// The spec-level picture of a cause: the error payload together with the
/// ordered trace of context labels, most recently added label first.
pub ghost struct CauseView<E, T> {
    pub error: E,
    pub trace: Seq<T>,
}

/// One error payload plus the ordered trace of context labels attached to it.
/// The front of the trace holds the label added last, so a rendered trace
/// reads from the outermost context inwards.
#[derive(Clone, Debug, PartialEq)]
pub struct Cause<E, T> {
    pub error: E,
    pub trace: Vec<T>,
}

impl<E, T> View for Cause<E, T> {
    type V = CauseView<E, T>;

    open spec fn view(&self) -> CauseView<E, T> {
        CauseView { error: self.error, trace: self.trace@ }
    }
}

impl<E, T> Cause<E, T> {
    /// A cause with an empty trace.
    pub fn new(e: E) -> (r: Self)
        ensures
            r@.error == e,
            r@.trace == Seq::<T>::empty(),
    {
        Cause { error: e, trace: Vec::new() }
    }

    /// Pushes one more context label to the front of the trace.
    pub fn trace(self, t: T) -> (r: Self)
        ensures
            r@.error == self@.error,
            r@.trace == seq![t] + self@.trace,
    {
        let mut trace = self.trace;
        trace.insert(0, t);
        proof {
            assert(trace@ =~= seq![t] + self.trace@);
        }
        Cause { error: self.error, trace }
    }

    /// Maps the error payload; the trace is unchanged.
    pub fn transform<E1, F: FnOnce(E) -> E1>(self, e: F) -> (r: Cause<E1, T>)
        requires
            call_requires(e, (self@.error,)),
        ensures
            call_ensures(e, (self@.error,), r@.error),
            r@.trace == self@.trace,
    {
        Cause { error: e(self.error), trace: self.trace }
    }
}

impl Cause<String, String> {
    /// Renders the cause as `[label0, label1, ...] error`, the trace labels
    /// in stored order.
    pub fn render(&self) -> (r: String)
        ensures
            r@ == cause_text(self.error@, self.trace@.map_values(|s: String| s@)),
    {
        let mut out = String::from_str("[");
        out.append(joined_labels(&self.trace).as_str());
        out.append("] ");
        out.append(self.error.as_str());
        out
    }
}

} // verus!
