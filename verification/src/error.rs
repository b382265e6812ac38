use vstd::prelude::*;
use vstd::string::StringExecFns;

use crate::cause::Cause;
use crate::cause::CauseView;
use crate::text::comma_join;
use crate::text::dec_rep;
use crate::text::decimal_string;
use crate::text::joined_labels;
use crate::text::strip_location;
use crate::text::strip_location_spec;

verus! {

/// The spec-level picture of an aggregate's causes: each cause's error
/// payload with its trace labels read as character sequences.
pub open spec fn aggregate_view<E>(cs: Seq<Cause<E, String>>) -> Seq<CauseView<E, Seq<char>>> {
    cs.map_values(
        |c: Cause<E, String>|
            (CauseView { error: c.error, trace: c.trace@.map_values(|s: String| s@) }),
    )
}

/// An ordered collection of causes with string trace labels: the aggregate
/// form in which accumulated validation failures are reported and rendered.
#[derive(Clone, Debug, PartialEq)]
pub struct ValidationError<E>(Vec<Cause<E, String>>);

impl<E> View for ValidationError<E> {
    type V = Seq<CauseView<E, Seq<char>>>;

    closed spec fn view(&self) -> Self::V {
        aggregate_view(self.0@)
    }
}

impl<E> ValidationError<E> {
    /// The causes held, in insertion order.
    pub fn as_vec(&self) -> (r: &Vec<Cause<E, String>>)
        ensures
            aggregate_view(r@) == self@,
    {
        &self.0
    }

    /// Concatenates two aggregates, this one's causes first.
    pub fn combine(self, other: ValidationError<E>) -> (r: ValidationError<E>)
        ensures
            r@ == self@ + other@,
    {
        let mut cs = self.0;
        let mut other_cs = other.0;
        let ghost left = cs@;
        let ghost right = other_cs@;
        cs.append(&mut other_cs);
        proof {
            assert(aggregate_view(cs@) =~= aggregate_view(left) + aggregate_view(right));
        }
        ValidationError(cs)
    }

    /// The aggregate with no causes: the identity of `combine`.
    pub fn empty() -> (r: Self)
        ensures
            r@ == Seq::<CauseView<E, Seq<char>>>::empty(),
    {
        let cs: Vec<Cause<E, String>> = Vec::new();
        proof {
            assert(aggregate_view(cs@) =~= Seq::<CauseView<E, Seq<char>>>::empty());
        }
        ValidationError(cs)
    }

    /// The aggregate holding one cause with an empty trace.
    pub fn new(e: E) -> (r: Self)
        ensures
            r@ == seq![(CauseView { error: e, trace: Seq::<Seq<char>>::empty() })],
    {
        let cause = Cause::new(e);
        let ghost cv = cause@;
        let cs = vec![cause];
        proof {
            assert(cv.trace.map_values(|s: String| s@) =~= Seq::<Seq<char>>::empty());
            assert(aggregate_view(cs@) =~= seq![
                (CauseView { error: cv.error, trace: Seq::<Seq<char>>::empty() }),
            ]);
        }
        ValidationError(cs)
    }

    /// The aggregate holding exactly the given causes, in their order.
    pub fn from_causes(causes: Vec<Cause<E, String>>) -> (r: Self)
        ensures
            r@ == aggregate_view(causes@),
    {
        ValidationError(causes)
    }

    /// The aggregate holding the one given cause.
    pub fn from_cause(cause: Cause<E, String>) -> (r: Self)
        ensures
            r@ == aggregate_view(seq![cause]),
    {
        let ghost cv = cause@;
        let cs = vec![cause];
        proof {
            assert(cs@ =~= seq![cs@[0]]);
        }
        ValidationError(cs)
    }

    /// Whether no causes are held.
    pub fn is_empty(&self) -> (r: bool)
        ensures
            r == (self@.len() == 0),
    {
        self.0.is_empty()
    }

    /// Prepends one more context label to the trace of every cause held,
    /// not only the newest one.
    pub fn trace(self, message: &str) -> (r: Self)
        ensures
            r@.len() == self@.len(),
            forall|i: int|
                0 <= i < self@.len() ==> {
                    &&& (#[trigger] r@[i]).error == self@[i].error
                    &&& r@[i].trace == seq![message@] + self@[i].trace
                },
    {
        let ghost orig = aggregate_view(self.0@);
        let mut rest = self.0;
        let mut out: Vec<Cause<E, String>> = Vec::new();
        proof {
            assert(aggregate_view(rest@) =~= orig.skip(0));
        }
        while rest.len() > 0
            invariant
                out@.len() + rest@.len() == orig.len(),
                aggregate_view(rest@) == orig.skip(out@.len() as int),
                aggregate_view(out@).len() == out@.len(),
                forall|i: int|
                    0 <= i < out@.len() ==> {
                        &&& (#[trigger] aggregate_view(out@)[i]).error == orig[i].error
                        &&& aggregate_view(out@)[i].trace == seq![message@] + orig[i].trace
                    },
            decreases rest@.len(),
        {
            let ghost k = out@.len() as int;
            let ghost prefix = aggregate_view(out@);
            let c = rest.remove(0);
            proof {
                assert(aggregate_view(rest@) =~= orig.skip(k).remove(0));
                assert(orig.skip(k).remove(0) =~= orig.skip(k + 1));
                assert(orig.skip(k)[0] == orig[k]);
            }
            let c2 = c.trace(message.to_owned());
            proof {
                assert(c2.trace@.map_values(|s: String| s@) =~= seq![message@]
                    + c.trace@.map_values(|s: String| s@));
            }
            out.push(c2);
            proof {
                assert(aggregate_view(out@) =~= prefix.push(
                    (CauseView {
                        error: c2.error,
                        trace: c2.trace@.map_values(|s: String| s@),
                    }),
                ));
            }
        }
        proof {
            assert(orig.take(orig.len() as int) =~= orig);
        }
        ValidationError(out)
    }

    /// Adds one more bare cause, with an empty trace, at the end.
    pub fn append(self, error: E) -> (r: Self)
        ensures
            r@ == self@.push((CauseView { error, trace: Seq::<Seq<char>>::empty() })),
    {
        let ghost orig = aggregate_view(self.0@);
        let mut cs = self.0;
        let cause = Cause::new(error);
        let ghost cv = cause@;
        cs.push(cause);
        proof {
            assert(cv.trace.map_values(|s: String| s@) =~= Seq::<Seq<char>>::empty());
            assert(aggregate_view(cs@) =~= orig.push(
                (CauseView { error: cv.error, trace: Seq::<Seq<char>>::empty() }),
            ));
        }
        ValidationError(cs)
    }

    /// Maps every cause's error payload; the traces are unchanged.
    pub fn transform<E1, F: Fn(E) -> E1>(self, f: F) -> (r: ValidationError<E1>)
        requires
            forall|i: int| 0 <= i < self@.len() ==> call_requires(f, ((#[trigger] self@[i]).error,)),
        ensures
            r@.len() == self@.len(),
            forall|i: int|
                0 <= i < self@.len() ==> {
                    &&& call_ensures(f, (self@[i].error,), (#[trigger] r@[i]).error)
                    &&& r@[i].trace == self@[i].trace
                },
    {
        let ghost orig = aggregate_view(self.0@);
        let mut rest = self.0;
        let mut out: Vec<Cause<E1, String>> = Vec::new();
        proof {
            assert(orig == self@);
            assert(aggregate_view(rest@) =~= orig.skip(0));
        }
        while rest.len() > 0
            invariant
                forall|i: int| 0 <= i < orig.len() ==> call_requires(f, ((#[trigger] orig[i]).error,)),
                out@.len() + rest@.len() == orig.len(),
                aggregate_view(rest@) == orig.skip(out@.len() as int),
                aggregate_view(out@).len() == out@.len(),
                forall|i: int|
                    0 <= i < out@.len() ==> {
                        &&& call_ensures(
                            f,
                            (orig[i].error,),
                            (#[trigger] aggregate_view(out@)[i]).error,
                        )
                        &&& aggregate_view(out@)[i].trace == orig[i].trace
                    },
            decreases rest@.len(),
        {
            let ghost k = out@.len() as int;
            let ghost prefix = aggregate_view(out@);
            let c = rest.remove(0);
            proof {
                assert(aggregate_view(rest@) =~= orig.skip(k).remove(0));
                assert(orig.skip(k).remove(0) =~= orig.skip(k + 1));
                assert(orig.skip(k)[0] == orig[k]);
            }
            let Cause { error, trace } = c;
            let error2 = f(error);
            let c2 = Cause { error: error2, trace };
            out.push(c2);
            proof {
                assert(aggregate_view(out@) =~= prefix.push(
                    (CauseView {
                        error: c2.error,
                        trace: c2.trace@.map_values(|s: String| s@),
                    }),
                ));
            }
        }
        ValidationError(out)
    }
}

/// How one cause renders inside the aggregate report: a bullet, the error
/// text, and — only when the trace is not empty — the joined trace labels
/// in brackets.
pub open spec fn bullet_line(error: Seq<char>, trace: Seq<Seq<char>>) -> Seq<char> {
    "\u{2022} "@ + error + (if trace.len() == 0 {
        Seq::<char>::empty()
    } else {
        " ["@ + comma_join(trace) + "]"@
    }) + "\n"@
}

/// How the aggregate renders: a header line, then one bullet line per
/// cause, in insertion order.
pub open spec fn error_report(causes: Seq<CauseView<String, Seq<char>>>) -> Seq<char>
    decreases causes.len(),
{
    if causes.len() == 0 {
        Seq::empty()
    } else {
        error_report(causes.drop_last()) + bullet_line(
            causes.last().error@,
            causes.last().trace,
        )
    }
}

/// One step of the path at which a structured deserialization failed.
#[derive(Clone, Debug, PartialEq)]
pub enum PathSegment {
    /// An index into a sequence.
    Index(usize),
    /// A key of a map.
    Key(String),
    /// The name of an enum variant.
    Variant(String),
    /// A part of the path the deserializer could not identify.
    Unknown,
}

/// How one path segment reads as a trace label.
pub open spec fn segment_text(seg: PathSegment) -> Seq<char> {
    match seg {
        PathSegment::Index(i) => "["@ + dec_rep(i as nat) + "]"@,
        PathSegment::Key(k) => k@,
        PathSegment::Variant(v) => v@,
        PathSegment::Unknown => "?"@,
    }
}

/// The trace that a failure path turns into: each segment's text, with a
/// dot label between two neighbouring segments except before an index
/// segment, whose brackets stand on their own — as in `a[2].b`.
pub open spec fn path_trace(segs: Seq<PathSegment>) -> Seq<Seq<char>>
    decreases segs.len(),
{
    if segs.len() == 0 {
        Seq::empty()
    } else if segs.len() == 1 {
        seq![segment_text(segs[0])]
    } else {
        path_trace(segs.drop_last()) + (if segs.last() is Index {
            seq![segment_text(segs.last())]
        } else {
            seq!["."@, segment_text(segs.last())]
        })
    }
}

/// One path segment rendered as a trace label.
fn segment_string(seg: &PathSegment) -> (r: String)
    ensures
        r@ == segment_text(*seg),
{
    match seg {
        PathSegment::Index(i) => {
            let mut out = String::from_str("[");
            out.append(decimal_string(*i).as_str());
            out.append("]");
            out
        },
        PathSegment::Key(k) => k.clone(),
        PathSegment::Variant(v) => v.clone(),
        PathSegment::Unknown => String::from_str("?"),
    }
}

impl ValidationError<String> {
    /// The single-cause aggregate for a structured deserialization failure,
    /// from its path and its message: the stringified path segments become
    /// the trace, and the message — prefixed with a fixed explanatory
    /// phrase and with any trailing location annotation stripped — becomes
    /// the error text.
    pub fn from_parsing_parts(segments: Vec<PathSegment>, message: String) -> (r: ValidationError<String>)
        ensures
            r@.len() == 1,
            r@[0].trace == path_trace(segments@),
            r@[0].error@ == strip_location_spec("Parsing failed because of "@ + message@),
    {
        let mut full = String::from_str("Parsing failed because of ");
        full.append(message.as_str());
        let stripped = strip_location(full.as_str());
        let mut trace: Vec<String> = Vec::new();
        let mut i: usize = 0;
        proof {
            assert(trace@.map_values(|s: String| s@) =~= path_trace(segments@.take(0)));
        }
        while i < segments.len()
            invariant
                i <= segments@.len(),
                trace@.map_values(|s: String| s@) == path_trace(segments@.take(i as int)),
            decreases segments@.len() - i,
        {
            let ghost prefix = trace@.map_values(|s: String| s@);
            let needs_dot = match &segments[i] {
                PathSegment::Index(_) => false,
                _ => true,
            };
            if i > 0 && needs_dot {
                trace.push(String::from_str("."));
            }
            let seg = segment_string(&segments[i]);
            let ghost sv = seg@;
            trace.push(seg);
            proof {
                assert(segments@.take(i + 1).drop_last() =~= segments@.take(i as int));
                assert(segments@.take(i + 1).last() == segments@[i as int]);
                if i == 0 {
                    assert(trace@.map_values(|s: String| s@) =~= seq![sv]);
                } else if needs_dot {
                    assert(trace@.map_values(|s: String| s@) =~= prefix + seq!["."@, sv]);
                } else {
                    assert(trace@.map_values(|s: String| s@) =~= prefix + seq![sv]);
                }
            }
            i += 1;
        }
        proof {
            assert(segments@.take(segments@.len() as int) =~= segments@);
        }
        let cause = Cause { error: stripped, trace };
        let ghost tv = cause.trace@.map_values(|s: String| s@);
        let cs = vec![cause];
        proof {
            assert(aggregate_view(cs@) =~= seq![(CauseView { error: cs@[0].error, trace: tv })]);
        }
        ValidationError(cs)
    }

    /// Renders the aggregate: the header line `Validation Error`, then one
    /// bullet line per cause.
    pub fn render(&self) -> (r: String)
        ensures
            r@ == "Validation Error\n"@ + error_report(self@),
    {
        let mut out = String::from_str("Validation Error\n");
        let ghost header = "Validation Error\n"@;
        let mut i: usize = 0;
        proof {
            assert(out@ =~= header + error_report(self@.take(0)));
        }
        while i < self.0.len()
            invariant
                i <= self.0@.len(),
                self@ == aggregate_view(self.0@),
                self@.len() == self.0@.len(),
                out@ == header + error_report(self@.take(i as int)),
            decreases self.0@.len() - i,
        {
            let ghost sofar = out@;
            let cause = &self.0[i];
            proof {
                assert(self@[i as int].error == cause.error);
                assert(self@[i as int].trace == cause.trace@.map_values(|s: String| s@));
            }
            out.append("\u{2022} ");
            out.append(cause.error.as_str());
            if cause.trace.len() > 0 {
                out.append(" [");
                out.append(joined_labels(&cause.trace).as_str());
                out.append("]");
            }
            out.append("\n");
            proof {
                assert(self@.take(i + 1).drop_last() =~= self@.take(i as int));
                assert(self@.take(i + 1).last() == self@[i as int]);
                assert(out@ =~= sofar + bullet_line(
                    self@[i as int].error@,
                    self@[i as int].trace,
                ));
            }
            i += 1;
        }
        proof {
            assert(self@.take(self@.len() as int) =~= self@);
        }
        out
    }
}

impl<E> Default for ValidationError<E> {
    /// The aggregate with no causes.
    fn default() -> (r: Self)
        ensures
            r@ == Seq::<CauseView<E, Seq<char>>>::empty(),
    {
        ValidationError::empty()
    }
}

#[verifier::external_type_specification]
#[verifier::external_body]
pub struct ExSerdeJsonError(serde_json::Error);

#[verifier::external_type_specification]
#[verifier::external_body]
#[verifier::reject_recursive_types(P)]
pub struct ExPathError<P>(serde_path_to_error::Error<P>);

#[verifier::external_type_specification]
#[verifier::external_body]
pub struct ExInvalidHeaderValue(http::header::InvalidHeaderValue);

/// The ordered path segments that a deserialization error holds, read as
/// the library's segments: a function of the error value alone.
pub uninterp spec fn serde_error_segments(
    e: serde_path_to_error::Error<serde_json::Error>,
) -> Seq<PathSegment>;

/// Relies on serde_path_to_error::Error::path and Path::iter for the
/// ordered path segments, a plain read of the error value, turned one for
/// one into the library's segments and named `serde_error_segments`; and on
/// serde_path_to_error::Error::inner with serde_json::Error's Display,
/// through ToString, for the message. The message gets no name: for an
/// error of serde_json's I/O category its Display consults the operating
/// system's description at call time, so it is not a function of the error
/// value alone, and nothing is promised of it.
#[verifier::external_body]
fn decompose_path_error(error: &serde_path_to_error::Error<serde_json::Error>) -> (r: (
    Vec<PathSegment>,
    String,
))
    ensures
        r.0@ == serde_error_segments(*error),
{
    let mut segments: Vec<PathSegment> = Vec::new();
    for segment in error.path().iter() {
        segments.push(match segment {
            serde_path_to_error::Segment::Seq { index } => PathSegment::Index(*index),
            serde_path_to_error::Segment::Map { key } => PathSegment::Key(key.clone()),
            serde_path_to_error::Segment::Enum { variant } => PathSegment::Variant(variant.clone()),
            serde_path_to_error::Segment::Unknown => PathSegment::Unknown,
        });
    }
    (segments, error.inner().to_string())
}

/// Relies on http's Display for InvalidHeaderValue, through ToString, which
/// renders the fixed text `failed to parse header value`.
#[verifier::external_body]
fn header_error_message(error: &http::header::InvalidHeaderValue) -> (r: String)
    ensures
        r@ == "failed to parse header value"@,
{
    error.to_string()
}

impl ValidationError<String> {
    /// The single-cause aggregate for a deserialization failure of an
    /// outside deserializer: the failing value's path becomes the trace,
    /// and the deserializer's message — prefixed and with any trailing
    /// location annotation stripped — becomes the error text. The message
    /// read from the outside error gets no exact clause, since it need not
    /// be a function of the error value alone; `from_parsing_parts` pins
    /// what is made of it.
    pub fn from_serde_error(error: serde_path_to_error::Error<serde_json::Error>) -> (r: ValidationError<
        String,
    >)
        ensures
            r@.len() == 1,
            r@[0].trace == path_trace(serde_error_segments(error)),
            exists|m: Seq<char>|
                r@[0].error@ == strip_location_spec("Parsing failed because of "@ + m),
    {
        let (segments, message) = decompose_path_error(&error);
        let ghost msg = message@;
        let r = ValidationError::from_parsing_parts(segments, message);
        proof {
            assert(r@[0].error@ == strip_location_spec("Parsing failed because of "@ + msg));
        }
        r
    }

    /// The single-cause aggregate for a header-value construction failure:
    /// the outside error's own message, with no trace.
    pub fn from_header_error(error: http::header::InvalidHeaderValue) -> (r: ValidationError<String>)
        ensures
            r@.len() == 1,
            r@[0].error@ == "failed to parse header value"@,
            r@[0].trace == Seq::<Seq<char>>::empty(),
    {
        ValidationError::new(header_error_message(&error))
    }
}

} // verus!
