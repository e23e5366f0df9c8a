use vstd::prelude::*;

verus! {

/// The integers `0 .. keeps.len()` whose entry in `keeps` is true, in ascending order.
pub open spec fn passing(keeps: Seq<bool>) -> Seq<i32>
    decreases keeps.len(),
{
    if keeps.len() == 0 {
        Seq::empty()
    } else {
        let rest = passing(keeps.drop_last());
        if keeps.last() {
            rest.push((keeps.len() - 1) as i32)
        } else {
            rest
        }
    }
}

/// When each answer in `keeps` is what `pred` says of its index, the integers that pass
/// are exactly those of `0 .. keeps.len()` that satisfy `pred`, in ascending order.
pub proof fn lemma_passing_by_predicate(keeps: Seq<bool>, pred: spec_fn(i32) -> bool)
    requires
        keeps.len() <= i32::MAX,
        forall|i: int| 0 <= i < keeps.len() ==> keeps[i] == pred(i as i32),
    ensures
        passing(keeps) == Seq::new(keeps.len(), |i: int| i as i32).filter(pred),
    decreases keeps.len(),
{
    broadcast use vstd::seq_lib::group_seq_properties;
    let n = keeps.len();
    if n == 0 {
        reveal(Seq::filter);
    } else {
        let before = keeps.drop_last();
        lemma_passing_by_predicate(before, pred);
        let ints = Seq::new(n, |i: int| i as i32);
        let prefix = Seq::new((n - 1) as nat, |i: int| i as i32);
        assert(ints =~= prefix.push((n - 1) as i32));
        prefix.lemma_filter_push((n - 1) as i32, pred);
    }
}

/// A run configuration: an optional filter deciding which of the integers `0 .. 10`
/// are processed, and an optional action handed each integer that passes.
/// Without an action, the integers that pass are left to the default action,
/// which prints each in decimal.
pub struct Opt<F, P> {
    pub filter: Option<F>,
    pub printer: Option<P>,
}

/// `o` with its filter replaced by `g`, its action kept.
pub open spec fn with_filter<F, P, G>(o: Opt<F, P>, g: G) -> Opt<G, P> {
    Opt { filter: Some(g), printer: o.printer }
}

/// `o` with its action replaced by `q`, its filter kept.
pub open spec fn with_printer<F, P, Q>(o: Opt<F, P>, q: Q) -> Opt<F, Q> {
    Opt { filter: o.filter, printer: Some(q) }
}

/// Installing a filter twice leaves only the second one active.
pub proof fn lemma_second_filter_replaces_first<F, P, G, H>(o: Opt<F, P>, g: G, h: H)
    ensures
        with_filter(with_filter(o, g), h) == with_filter(o, h),
{
}

/// Installing an action twice leaves only the second one active.
pub proof fn lemma_second_printer_replaces_first<F, P, Q, R>(o: Opt<F, P>, q: Q, r: R)
    ensures
        with_printer(with_printer(o, q), r) == with_printer(o, r),
{
}

/// Installing a filter does not touch the action, nor installing an action the filter:
/// the two builders give the same configuration in either order.
pub proof fn lemma_builders_commute<F, P, G, Q>(o: Opt<F, P>, g: G, q: Q)
    ensures
        with_printer(with_filter(o, g), q) == with_filter(with_printer(o, q), g),
{
}

// Stand-ins that give the empty slots of `Opt::new` a concrete callback type;
// they are never called.
fn keep_none(i: i32) -> bool {
    false
}

fn show_nothing(i: i32) {
}

/// Marks the impl that holds `Opt::new`, so that `Opt::new()` needs no type annotation;
/// no value of it is ever built.
pub struct Unset;

impl Opt<Unset, Unset> {
    /// An empty configuration: no filter and no action.
    pub fn new() -> (r: Opt<impl FnMut(i32) -> bool, impl FnMut(i32)>)
        ensures
            r.filter is None,
            r.printer is None,
    {
        let mut r = Opt { filter: Some(keep_none), printer: Some(show_nothing) };
        r.filter = None;
        r.printer = None;
        r
    }
}

impl<F, P> Opt<F, P> {
    /// This configuration with `filter` as its filter, replacing any earlier one.
    pub fn filter<G: FnMut(i32) -> bool>(self, filter: G) -> (r: Opt<G, P>)
        ensures
            r == with_filter(self, filter),
    {
        Opt { filter: Some(filter), printer: self.printer }
    }

    /// This configuration with `printer` as its action, replacing any earlier one.
    pub fn printer<Q: FnMut(i32)>(self, printer: Q) -> (r: Opt<F, Q>)
        ensures
            r == with_printer(self, printer),
    {
        Opt { filter: self.filter, printer: Some(printer) }
    }

    /// Whether an action is installed; without one, `run` leaves the integers to the default action.
    pub fn has_printer(&self) -> (r: bool)
        ensures
            r == self.printer is Some,
    {
        self.printer.is_some()
    }
}

impl<F: FnMut(i32) -> bool, P: FnMut(i32)> Opt<F, P> {
    /// Asks the filter about each of `0 .. 10` in ascending order and hands each integer
    /// that passes to the action, if one is installed. Returns the integers that passed,
    /// in that order; without a filter, none does.
    pub fn run(&mut self) -> (visited: Vec<i32>)
        requires
            old(self).filter matches Some(f) ==> forall|i: i32| 0 <= i < 10 ==> call_requires(f, (i,)),
            old(self).printer matches Some(p) ==> forall|i: i32| 0 <= i < 10 ==> call_requires(p, (i,)),
        ensures
            final(self).filter is Some == old(self).filter is Some,
            final(self).printer is Some == old(self).printer is Some,
            old(self).filter is None ==> visited@ == Seq::<i32>::empty(),
            old(self).filter matches Some(f) ==> exists|keeps: Seq<bool>|
                keeps.len() == 10
                && (forall|i: i32| 0 <= i < 10 ==> #[trigger] call_ensures(f, (i,), keeps[i as int]))
                && visited@ == passing(keeps),
    {
        broadcast use vstd::function::group_function_axioms;
        let ghost keeps: Seq<bool> = Seq::empty();
        let mut visited: Vec<i32> = Vec::new();
        let mut i: i32 = 0;
        while i < 10
            invariant
                0 <= i <= 10,
                self.filter == old(self).filter,
                self.printer == old(self).printer,
                old(self).filter matches Some(f) ==> forall|i: i32| 0 <= i < 10 ==> call_requires(f, (i,)),
                old(self).printer matches Some(p) ==> forall|i: i32| 0 <= i < 10 ==> call_requires(p, (i,)),
                old(self).filter is None ==> visited@ == Seq::<i32>::empty(),
                old(self).filter matches Some(f) ==> {
                    &&& keeps.len() == i
                    &&& forall|j: i32| 0 <= j < i ==> #[trigger] call_ensures(f, (j,), keeps[j as int])
                    &&& visited@ == passing(keeps)
                },
            decreases 10 - i,
        {
            match &mut self.filter {
                Some(f) => {
                    let keep = f(i);
                    if keep {
                        match &mut self.printer {
                            Some(p) => { p(i); },
                            None => {},
                        }
                        visited.push(i);
                    }
                    proof {
                        let next = keeps.push(keep);
                        assert(next.drop_last() =~= keeps);
                        keeps = next;
                    }
                },
                None => {},
            }
            i = i + 1;
        }
        visited
    }
}

} // verus!
