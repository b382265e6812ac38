use vstd::prelude::*;

use crate::append::Append;
use crate::cause::Cause;
use crate::cause::CauseView;

verus! {

/// The spec-level picture of a validation outcome: either the success value
/// or the ordered sequence of accumulated cause views.
pub type ValidView<A, E, T> = Result<A, Seq<CauseView<E, T>>>;

/// A validation result: either a successful value of type `A` or an ordered
/// collection of causes with error payload `E` and trace labels `T`.
///
/// Unlike short-circuiting error handling, independent validations combined
/// through this type keep every failure, not just the first one.
#[derive(Debug, PartialEq)]
pub struct Valid<A, E, T>(Result<A, Vec<Cause<E, T>>>);

impl<A: Clone, E: Clone, T: Clone> Clone for Valid<A, E, T> {
    fn clone(&self) -> Self {
        match &self.0 {
            Ok(a) => Valid(Ok(a.clone())),
            Err(es) => Valid(Err(es.clone())),
        }
    }
}

impl<A, E, T> View for Valid<A, E, T> {
    type V = ValidView<A, E, T>;

    closed spec fn view(&self) -> ValidView<A, E, T> {
        match self.0 {
            Ok(a) => Ok(a),
            Err(cs) => Err(cs@.map_values(|c: Cause<E, T>| c@)),
        }
    }
}

/// The causes held by a failure; a success holds none.
pub open spec fn causes_of<A, E, T>(v: ValidView<A, E, T>) -> Seq<CauseView<E, T>> {
    match v {
        Ok(_) => Seq::empty(),
        Err(es) => es,
    }
}

/// How `zip` combines two outcomes: both successes pair up, and every cause
/// of both sides is kept, the left side's causes first.
pub open spec fn zip_view<A, B, E, T>(
    a: ValidView<A, E, T>,
    b: ValidView<B, E, T>,
) -> ValidView<(A, B), E, T> {
    match (a, b) {
        (Ok(x), Ok(y)) => Ok((x, y)),
        (Err(es), Ok(_)) => Err(es),
        (Ok(_), Err(fs)) => Err(fs),
        (Err(es), Err(fs)) => Err(es + fs),
    }
}

/// How tracing rewrites a failure's causes: each cause keeps its error and
/// its trace, with one more label — a clone of `t` — pushed to the front.
pub open spec fn traced<E, T: Clone>(
    es: Seq<CauseView<E, T>>,
    es2: Seq<CauseView<E, T>>,
    t: T,
) -> bool {
    &&& es2.len() == es.len()
    &&& forall|i: int|
        0 <= i < es.len() ==> {
            &&& (#[trigger] es2[i]).error == es[i].error
            &&& es2[i].trace.len() == es[i].trace.len() + 1
            &&& es2[i].trace.skip(1) == es[i].trace
            &&& cloned(t, es2[i].trace[0])
        }
}

/// The causes gathered from a sequence of validation results, in order.
pub open spec fn collected_causes<B, E, T>(rs: Seq<Valid<B, E, T>>) -> Seq<CauseView<E, T>>
    decreases rs.len(),
{
    if rs.len() == 0 {
        Seq::empty()
    } else {
        collected_causes(rs.drop_last()) + causes_of(rs.last()@)
    }
}

/// The success values gathered from a sequence of validation results, in
/// order, skipping the failed ones.
pub open spec fn collected_values<B, E, T>(rs: Seq<Valid<B, E, T>>) -> Seq<B>
    decreases rs.len(),
{
    if rs.len() == 0 {
        Seq::empty()
    } else {
        collected_values(rs.drop_last()) + (match rs.last()@ {
            Ok(b) => seq![b],
            Err(_) => Seq::<B>::empty(),
        })
    }
}

/// Operations shared by every container of a validation outcome.
pub trait Validator<A, E, T>: Sized {
    /// The outcome held by this container.
    spec fn validity(&self) -> ValidView<A, E, T>;

    /// Surrenders the outcome as a plain `Result`.
    fn to_result(self) -> (r: Result<A, Vec<Cause<E, T>>>)
        ensures
            self.validity() is Ok <==> r is Ok,
            self.validity() matches Ok(a) ==> r matches Ok(b) && a == b,
            self.validity() matches Err(es) ==> r matches Err(cs) && cs@.map_values(
                |c: Cause<E, T>| c@,
            ) == es,
    ;

    /// True when the outcome is a success.
    fn is_succeed(&self) -> (r: bool)
        ensures
            r == (self.validity() is Ok),
    ;

    /// True when the outcome holds causes.
    fn is_fail(&self) -> (r: bool)
        ensures
            r == (self.validity() is Err),
    ;
}

impl<A, E, T> Validator<A, E, T> for Valid<A, E, T> {
    open spec fn validity(&self) -> ValidView<A, E, T> {
        self@
    }

    fn to_result(self) -> (r: Result<A, Vec<Cause<E, T>>>) {
        self.0
    }

    fn is_succeed(&self) -> (r: bool) {
        self.0.is_ok()
    }

    fn is_fail(&self) -> (r: bool) {
        self.0.is_err()
    }
}

impl<A, E, T> Valid<A, E, T> {
    /// A successful validation holding `a`.
    pub fn succeed(a: A) -> (r: Self)
        ensures
            r@ == Ok::<A, Seq<CauseView<E, T>>>(a),
    {
        Valid(Ok(a))
    }

    /// A failed validation with a single cause and an empty trace.
    pub fn fail(e: E) -> (r: Self)
        ensures
            r@ matches Err(es) && es == seq![
                (CauseView { error: e, trace: Seq::<T>::empty() }),
            ],
    {
        let cause = Cause::new(e);
        let ghost cv = cause@;
        let causes = vec![cause];
        proof {
            assert(causes@.map_values(|c: Cause<E, T>| c@) =~= seq![cv]);
        }
        Valid(Err(causes))
    }

    /// A failed validation with a single cause carrying one trace label.
    pub fn fail_at(error: E, trace: T) -> (r: Self)
        ensures
            r@ matches Err(es) && es == seq![(CauseView { error, trace: seq![trace] })],
    {
        let cause = Cause::new(error).trace(trace);
        let ghost cv = cause@;
        let causes = vec![cause];
        proof {
            assert(cv.trace =~= seq![trace]);
            assert(causes@.map_values(|c: Cause<E, T>| c@) =~= seq![cv]);
        }
        Valid(Err(causes))
    }

    /// A success of `Some(a)`; `None` is reported through the given error.
    pub fn from_option(option: Option<A>, e: E) -> (r: Self)
        ensures
            option matches Some(a) ==> r@ == Ok::<A, Seq<CauseView<E, T>>>(a),
            option is None ==> (r@ matches Err(es) && es == seq![
                (CauseView { error: e, trace: Seq::<T>::empty() }),
            ]),
    {
        match option {
            Some(a) => Valid::succeed(a),
            None => Valid::fail(e),
        }
    }

    /// A successful validation of an absent value: success of `None`,
    /// distinct from any failure.
    pub fn none() -> (r: Valid<Option<A>, E, T>)
        ensures
            r@ == Ok::<Option<A>, Seq<CauseView<E, T>>>(None),
    {
        Valid::succeed(None)
    }

    /// A failed validation holding exactly the given causes. An empty vector
    /// is kept as a failure state with no causes, not turned into a success.
    pub fn from_causes(causes: Vec<Cause<E, T>>) -> (r: Self)
        ensures
            r@ matches Err(es) && es == causes@.map_values(|c: Cause<E, T>| c@),
    {
        Valid(Err(causes))
    }

    /// A failed validation holding the one given cause.
    pub fn from_cause(cause: Cause<E, T>) -> (r: Self)
        ensures
            r@ matches Err(es) && es == seq![cause@],
    {
        let ghost cv = cause@;
        let causes = vec![cause];
        proof {
            assert(causes@.map_values(|c: Cause<E, T>| c@) =~= seq![cv]);
        }
        Valid(Err(causes))
    }

    /// The validation that a `Result` over a single cause stands for.
    pub fn from_cause_result(value: Result<A, Cause<E, T>>) -> (r: Self)
        ensures
            value matches Ok(a) ==> r@ == Ok::<A, Seq<CauseView<E, T>>>(a),
            value matches Err(c) ==> r@ matches Err(es) && es == seq![c@],
    {
        match value {
            Ok(a) => Valid::succeed(a),
            Err(c) => Valid::from_cause(c),
        }
    }

    /// The validation that a `Result` over a cause vector stands for.
    pub fn from_result(value: Result<A, Vec<Cause<E, T>>>) -> (r: Self)
        ensures
            value matches Ok(a) ==> r@ == Ok::<A, Seq<CauseView<E, T>>>(a),
            value matches Err(cs) ==> r@ matches Err(es) && es == cs@.map_values(
                |c: Cause<E, T>| c@,
            ),
    {
        match value {
            Ok(a) => Valid::succeed(a),
            Err(cs) => Valid::from_causes(cs),
        }
    }

    /// Transforms the success value; a failure passes through unchanged.
    pub fn map<B, F: FnOnce(A) -> B>(self, f: F) -> (r: Valid<B, E, T>)
        requires
            self@ matches Ok(a) ==> call_requires(f, (a,)),
        ensures
            self@ matches Ok(a) ==> r@ matches Ok(b) && call_ensures(f, (a,), b),
            self@ matches Err(es) ==> r@ matches Err(es2) && es2 == es,
    {
        match self.0 {
            Ok(a) => Valid(Ok(f(a))),
            Err(es) => Valid(Err(es)),
        }
    }

    /// Feeds the success value to the next validation step; a failure is
    /// propagated without running the step.
    pub fn and_then<B, F: FnOnce(A) -> Valid<B, E, T>>(self, f: F) -> (r: Valid<B, E, T>)
        requires
            self@ matches Ok(a) ==> call_requires(f, (a,)),
        ensures
            self@ matches Ok(a) ==> call_ensures(f, (a,), r),
            self@ matches Err(es) ==> r@ matches Err(es2) && es2 == es,
    {
        match self.0 {
            Ok(a) => f(a),
            Err(es) => Valid(Err(es)),
        }
    }

    /// Reduces the success value to `()`; a failure keeps its causes.
    pub fn unit(self) -> (r: Valid<(), E, T>)
        ensures
            self@ is Ok ==> r@ == Ok::<(), Seq<CauseView<E, T>>>(()),
            self@ matches Err(es) ==> r@ matches Err(es2) && es2 == es,
    {
        match self.0 {
            Ok(_) => Valid(Ok(())),
            Err(es) => Valid(Err(es)),
        }
    }

    /// Wraps the success value in `Some`; a failure keeps its causes.
    pub fn some(self) -> (r: Valid<Option<A>, E, T>)
        ensures
            self@ matches Ok(a) ==> r@ == Ok::<Option<A>, Seq<CauseView<E, T>>>(Some(a)),
            self@ matches Err(es) ==> r@ matches Err(es2) && es2 == es,
    {
        match self.0 {
            Ok(a) => Valid(Ok(Some(a))),
            Err(es) => Valid(Err(es)),
        }
    }

    /// Replaces the success value by a constant; a failure keeps its causes.
    pub fn map_to<B>(self, b: B) -> (r: Valid<B, E, T>)
        ensures
            self@ is Ok ==> r@ == Ok::<B, Seq<CauseView<E, T>>>(b),
            self@ matches Err(es) ==> r@ matches Err(es2) && es2 == es,
    {
        match self.0 {
            Ok(_) => Valid(Ok(b)),
            Err(es) => Valid(Err(es)),
        }
    }

    /// Keeps this validation, reduced to `()`, only when the predicate
    /// holds; otherwise the validation vacuously succeeds.
    pub fn when<F: FnOnce() -> bool>(self, f: F) -> (r: Valid<(), E, T>)
        requires
            call_requires(f, ()),
        ensures
            exists|b: bool|
                {
                    &&& #[trigger] call_ensures(f, (), b)
                    &&& (b && self@ is Ok) ==> r@ == Ok::<(), Seq<CauseView<E, T>>>(())
                    &&& (b && self@ is Err) ==> (r@ matches Err(es2) && es2 == causes_of(
                        self@,
                    ))
                    &&& !b ==> r@ == Ok::<(), Seq<CauseView<E, T>>>(())
                },
    {
        let b = f();
        if b {
            self.unit()
        } else {
            Valid::succeed(())
        }
    }

    /// Combines two independently evaluated validations, keeping the right
    /// value on joint success and every cause of both sides on failure.
    pub fn and<B>(self, other: Valid<B, E, T>) -> (r: Valid<B, E, T>)
        ensures
            (self@ is Ok && other@ is Ok) ==> r@ == other@,
            !(self@ is Ok && other@ is Ok) ==> (r@ matches Err(es) && es == causes_of(self@)
                + causes_of(other@)),
    {
        match (self.0, other.0) {
            (Ok(_), Ok(b)) => Valid(Ok(b)),
            (Err(es), Ok(_)) => {
                proof {
                    assert(es@.map_values(|c: Cause<E, T>| c@) + Seq::<CauseView<E, T>>::empty()
                        =~= es@.map_values(|c: Cause<E, T>| c@));
                }
                Valid(Err(es))
            },
            (Ok(_), Err(fs)) => {
                proof {
                    assert(Seq::<CauseView<E, T>>::empty() + fs@.map_values(|c: Cause<E, T>| c@)
                        =~= fs@.map_values(|c: Cause<E, T>| c@));
                }
                Valid(Err(fs))
            },
            (Err(mut es), Err(mut fs)) => {
                let ghost left = es@;
                let ghost right = fs@;
                es.append(&mut fs);
                proof {
                    assert(es@.map_values(|c: Cause<E, T>| c@) =~= left.map_values(
                        |c: Cause<E, T>| c@,
                    ) + right.map_values(|c: Cause<E, T>| c@));
                }
                Valid(Err(es))
            },
        }
    }

    /// Annotates every cause of a failure with one more context label, the
    /// most recently attached label standing first; a success is unchanged.
    pub fn trace(self, label: T) -> (r: Self) where T: Clone
        ensures
            self@ matches Ok(a) ==> r@ == Ok::<A, Seq<CauseView<E, T>>>(a),
            self@ matches Err(es) ==> (r@ matches Err(es2) && traced(es, es2, label)),
    {
        match self.0 {
            Ok(a) => Valid(Ok(a)),
            Err(cs) => {
                let ghost orig = cs@.map_values(|c: Cause<E, T>| c@);
                let mut rest = cs;
                let mut out: Vec<Cause<E, T>> = Vec::new();
                proof {
                    assert(rest@.map_values(|c: Cause<E, T>| c@) =~= orig.skip(0));
                }
                while rest.len() > 0
                    invariant
                        out@.len() + rest@.len() == orig.len(),
                        rest@.map_values(|c: Cause<E, T>| c@) == orig.skip(out@.len() as int),
                        traced(
                            orig.take(out@.len() as int),
                            out@.map_values(|c: Cause<E, T>| c@),
                            label,
                        ),
                    decreases rest@.len(),
                {
                    let ghost k = out@.len() as int;
                    let ghost prefix = out@.map_values(|c: Cause<E, T>| c@);
                    let c = rest.remove(0);
                    proof {
                        assert(rest@.map_values(|c: Cause<E, T>| c@) =~= orig.skip(k).remove(0));
                        assert(orig.skip(k).remove(0) =~= orig.skip(k + 1));
                        assert(orig.skip(k)[0] == orig[k]);
                        assert(c@ == orig[k]);
                    }
                    let c2 = c.trace(label.clone());
                    out.push(c2);
                    proof {
                        assert(out@.map_values(|c: Cause<E, T>| c@) =~= prefix.push(c2@));
                        assert(orig.take(k + 1).drop_last() =~= orig.take(k));
                        assert(c2@.trace.skip(1) =~= orig[k].trace);
                        assert(traced(orig.take(k + 1), prefix.push(c2@), label));
                    }
                }
                proof {
                    assert(orig.take(orig.len() as int) =~= orig);
                }
                Valid(Err(out))
            },
        }
    }

    /// Resolves both branches: a success value is handed to `ok`, while a
    /// failure runs the fallback and keeps the original causes together
    /// with whatever causes the fallback adds.
    pub fn fold<B, F1: FnOnce(A) -> Valid<B, E, T>, F2: FnOnce() -> Valid<B, E, T>>(
        self,
        ok: F1,
        err: F2,
    ) -> (r: Valid<B, E, T>)
        requires
            self@ matches Ok(a) ==> call_requires(ok, (a,)),
            self@ is Err ==> call_requires(err, ()),
        ensures
            self@ matches Ok(a) ==> call_ensures(ok, (a,), r),
            self@ matches Err(es) ==> exists|v: Valid<B, E, T>|
                {
                    &&& #[trigger] call_ensures(err, (), v)
                    &&& r@ matches Err(es2)
                    &&& es2 == es + causes_of(v@)
                },
    {
        match self.0 {
            Ok(a) => ok(a),
            Err(es) => {
                let fallback = err();
                let ghost fb = fallback;
                let r = Valid::<B, E, T>(Err(es)).and(fallback);
                proof {
                    assert(call_ensures(err, (), fb) && (r@ matches Err(es2) && es2 == causes_of(
                        self@,
                    ) + causes_of(fb@)));
                }
                r
            },
        }
    }

    /// Hands a clone of the success value to the observer and returns the
    /// validation unchanged; the observer never runs on a failure.
    pub fn foreach<F: Fn(A)>(self, f: F) -> (r: Self) where A: Clone
        requires
            self@ is Ok ==> forall|c: A| #[trigger] cloned(self@->Ok_0, c) ==> call_requires(
                f,
                (c,),
            ),
        ensures
            r@ == self@,
            self@ is Ok ==> exists|c: A|
                {
                    &&& #[trigger] cloned(self@->Ok_0, c)
                    &&& call_ensures(f, (c,), ())
                },
    {
        match self.0 {
            Ok(a) => {
                let clone_fn = <A as Clone>::clone;
                let c = clone_fn(&a);
                let ghost gc = c;
                proof {
                    assert(self@ == Ok::<A, Seq<CauseView<E, T>>>(a));
                    assert(self@->Ok_0 == a);
                    assert(cloned(self@->Ok_0, c));
                    assert(call_requires(f, (c,)));
                }
                f(c);
                proof {
                    assert(call_ensures(f, (gc,), ()));
                }
                Valid(Ok(a))
            },
            Err(es) => Valid(Err(es)),
        }
    }

    /// Validates every item and keeps every failure: the result succeeds
    /// with all produced values only when no application produced a cause;
    /// otherwise it fails with the causes of every failed item, in input
    /// order.
    pub fn from_iter<B, F: Fn(A) -> Valid<B, E, T>>(items: Vec<A>, f: F) -> (r: Valid<
        Vec<B>,
        E,
        T,
    >)
        requires
            forall|i: int| 0 <= i < items@.len() ==> call_requires(f, (items@[i],)),
        ensures
            exists|rs: Seq<Valid<B, E, T>>|
                {
                    &&& rs.len() == items@.len()
                    &&& forall|i: int|
                        0 <= i < rs.len() ==> call_ensures(f, (items@[i],), #[trigger] rs[i])
                    &&& collected_causes(rs).len() == 0 ==> (r@ matches Ok(vs) && vs@
                        == collected_values(rs))
                    &&& collected_causes(rs).len() > 0 ==> (r@ matches Err(es) && es
                        == collected_causes(rs))
                },
    {
        let ghost orig = items@;
        let mut rest = items;
        let mut values: Vec<B> = Vec::new();
        let mut errors: Vec<Cause<E, T>> = Vec::new();
        let ghost mut rs: Seq<Valid<B, E, T>> = Seq::empty();
        proof {
            assert(rest@ =~= orig.skip(0));
        }
        while rest.len() > 0
            invariant
                forall|i: int| 0 <= i < orig.len() ==> call_requires(f, (orig[i],)),
                rs.len() + rest@.len() == orig.len(),
                rest@ == orig.skip(rs.len() as int),
                forall|i: int| 0 <= i < rs.len() ==> call_ensures(f, (orig[i],), #[trigger] rs[i]),
                values@ == collected_values(rs),
                errors@.map_values(|c: Cause<E, T>| c@) == collected_causes(rs),
            decreases rest@.len(),
        {
            let ghost k = rs.len() as int;
            let x = rest.remove(0);
            proof {
                assert(orig.skip(k).remove(0) =~= orig.skip(k + 1));
                assert(orig.skip(k)[0] == orig[k]);
                assert(x == orig[k]);
            }
            let v = f(x);
            let ghost prev = rs;
            proof {
                rs = prev.push(v);
                assert(rs.drop_last() =~= prev);
                assert(rs.last() == v);
            }
            match v.0 {
                Ok(b) => {
                    values.push(b);
                    proof {
                        assert(values@ =~= collected_values(rs));
                    }
                },
                Err(mut es) => {
                    let ghost held = errors@;
                    let ghost fresh = es@;
                    errors.append(&mut es);
                    proof {
                        assert(errors@.map_values(|c: Cause<E, T>| c@) =~= held.map_values(
                            |c: Cause<E, T>| c@,
                        ) + fresh.map_values(|c: Cause<E, T>| c@));
                        assert(values@ + Seq::<B>::empty() =~= values@);
                    }
                },
            }
        }
        proof {
            assert(collected_causes(rs).len() == errors@.map_values(|c: Cause<E, T>| c@).len());
        }
        if errors.is_empty() {
            Valid(Ok(values))
        } else {
            Valid(Err(errors))
        }
    }

    /// Combines two independently evaluated validations into a pair,
    /// keeping every cause of both sides on failure.
    pub fn zip<B>(self, other: Valid<B, E, T>) -> (r: Valid<(A, B), E, T>)
        ensures
            r@ == zip_view(self@, other@),
    {
        match self.0 {
            Ok(a) => match other.0 {
                Ok(b) => Valid(Ok((a, b))),
                Err(fs) => Valid(Err(fs)),
            },
            Err(mut es) => match other.0 {
                Ok(_) => Valid(Err(es)),
                Err(mut fs) => {
                    let ghost left = es@;
                    let ghost right = fs@;
                    es.append(&mut fs);
                    proof {
                        assert(es@.map_values(|c: Cause<E, T>| c@) =~= left.map_values(
                            |c: Cause<E, T>| c@,
                        ) + right.map_values(|c: Cause<E, T>| c@));
                    }
                    Valid(Err(es))
                },
            },
        }
    }
}

impl<A, E, T> Valid<A, E, T> {
    /// Opens a fusion chain on this validation and one more, pairing the
    /// success values and accumulating the causes as `zip` does.
    pub fn fuse<B>(self, other: Valid<B, E, T>) -> (r: Fusion<(A, B), E, T>)
        ensures
            r@ == zip_view(self@, other@),
    {
        Fusion(self.zip(other))
    }
}

/// An in-progress chain of validations whose success values are being
/// flattened into one combined value, while the causes of every failed link
/// keep accumulating. Only obtainable from a validation's fusion entry
/// point, and convertible back into a validation at the end of the chain.
pub struct Fusion<A, E, T>(Valid<A, E, T>);

impl<A, E, T> View for Fusion<A, E, T> {
    type V = ValidView<A, E, T>;

    closed spec fn view(&self) -> ValidView<A, E, T> {
        self.0@
    }
}

impl<A, E, T> Fusion<A, E, T> {
    /// Extends the chain with one more validation: on joint success the new
    /// value is appended onto the flattened combination, and otherwise the
    /// causes of both sides accumulate, the chain's own causes first.
    pub fn fuse<B>(self, other: Valid<B, E, T>) -> (r: Fusion<<A as Append<B>>::Out, E, T>) where
        A: Append<B>
        ensures
            (self@ is Ok && other@ is Ok) ==> (r@ matches Ok(o) && o == (self@->Ok_0).append_spec(
                other@->Ok_0,
            )),
            !(self@ is Ok && other@ is Ok) ==> (r@ matches Err(es) && es == causes_of(self@)
                + causes_of(other@)),
    {
        let ghost lv = self.0@;
        let ghost rv = other@;
        let zipped = self.0.zip(other);
        match zipped.0 {
            Ok(p) => {
                let (a, b) = p;
                Fusion(Valid(Ok(a.append(b))))
            },
            Err(es) => {
                proof {
                    if lv is Ok {
                        assert(Seq::<CauseView<E, T>>::empty() + causes_of(rv) =~= causes_of(rv));
                    } else if rv is Ok {
                        assert(causes_of(lv) + Seq::<CauseView<E, T>>::empty() =~= causes_of(lv));
                    }
                }
                Fusion(Valid(Err(es)))
            },
        }
    }
}

impl<A, E, T> Valid<A, E, T> {
    /// Closes a fusion chain, surrendering its outcome as a validation.
    pub fn from_fusion(fusion: Fusion<A, E, T>) -> (r: Self)
        ensures
            r@ == fusion@,
    {
        fusion.0
    }
}

impl<A, E, T> Validator<A, E, T> for Fusion<A, E, T> {
    open spec fn validity(&self) -> ValidView<A, E, T> {
        self@
    }

    fn to_result(self) -> (r: Result<A, Vec<Cause<E, T>>>) {
        self.0.to_result()
    }

    fn is_succeed(&self) -> (r: bool) {
        self.0.is_succeed()
    }

    fn is_fail(&self) -> (r: bool) {
        self.0.is_fail()
    }
}

/// Zipping against a success adds no causes: a successful side is an
/// identity element for accumulation.
pub proof fn lemma_zip_success_identity<A, B, E, T>(a: ValidView<A, E, T>, b: ValidView<B, E, T>)
    ensures
        a is Ok ==> causes_of(zip_view(a, b)) == causes_of(b),
        b is Ok ==> causes_of(zip_view(a, b)) == causes_of(a),
        zip_view(a, b) is Ok <==> (a is Ok && b is Ok),
{
}

/// Accumulation across `zip` is associative: however a chain of three
/// independently evaluated validations is parenthesised, it succeeds for
/// exactly the same inputs and gathers exactly the same causes, in
/// left-to-right order of the sides that produced them.
pub proof fn lemma_zip_accumulation_associative<A, B, C, E, T>(
    a: ValidView<A, E, T>,
    b: ValidView<B, E, T>,
    c: ValidView<C, E, T>,
)
    ensures
        zip_view(zip_view(a, b), c) is Ok <==> zip_view(a, zip_view(b, c)) is Ok,
        causes_of(zip_view(zip_view(a, b), c)) == causes_of(zip_view(a, zip_view(b, c))),
        (a is Err && b is Err && c is Err) ==> zip_view(zip_view(a, b), c) == Err::<
            ((A, B), C),
            Seq<CauseView<E, T>>,
        >(causes_of(a) + causes_of(b) + causes_of(c)),
{
    assert(causes_of(zip_view(zip_view(a, b), c)) =~= causes_of(zip_view(a, zip_view(b, c))));
}

} // verus!
