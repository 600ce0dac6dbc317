//! Observable values: a value with a list of observers that are told each time
//! the value is replaced.
use vstd::prelude::*;

verus! {

/// Something that wants to hear of every new value of an `Observable`.
pub trait Observer<T>: Send {
    /// Whether this observer keeps a record (`heard`) of what it is told.
    open spec fn records(&self) -> bool {
        false
    }

    /// The values this observer has been told so far, oldest first, where it
    /// `records` them.
    open spec fn heard(&self) -> Seq<T> {
        Seq::empty()
    }

    /// Hears of a new value; an observer that records adds it to `heard`.
    fn notify(&mut self, value: &T)
        ensures
            old(self).records() ==> final(self).records() && final(self).heard() == old(self).heard().push(*value),
    ;
}

/// The abstract state of an `Observable`.
pub ghost struct ObservableModel<T> {
    /// The current value.
    pub value: T,
    /// The id the next observer will get.
    pub next_id: nat,
    /// The ids of the registered observers, oldest first.
    pub ids: Seq<u64>,
    /// For each registered observer, in the order of `ids`: whether it keeps a
    /// record of what it is told, and that record.
    pub heard: Seq<(bool, Seq<T>)>,
}

/// A value together with the observers that are notified when it is updated.
///
/// Observer ids are handed out in increasing order, so the registered ids are
/// strictly increasing and all below `next_id`. The observers are of type `O`,
/// by default boxed observers of any kind, and are kept with their ids in a
/// list, oldest first, so that each can be told in turn.
#[verifier::reject_recursive_types(T)]
#[verifier::reject_recursive_types(O)]
pub struct Observable<T: Clone, O: Observer<T> = Box<dyn Observer<T>>> {
    next_id: u64,
    value: T,
    observers: Vec<(u64, O)>,
}

/// A boxed observer hears what the observer inside hears.
impl<T> Observer<T> for Box<dyn Observer<T>> {
    open spec fn records(&self) -> bool {
        (**self).records()
    }

    open spec fn heard(&self) -> Seq<T> {
        (**self).heard()
    }

    fn notify(&mut self, value: &T) {
        (**self).notify(value)
    }
}

/// A change to an observable value. Only `Update` is acted upon.
pub enum Action<T: Clone> {
    Add(T),
    Remove(T),
    Update(T),
}

pub type ObservableU32 = Observable<u32>;

pub type ObservableString = Observable<String>;

/// Applies an `Action`.
pub trait Update<T: Clone> {
    fn update(&mut self, value: Action<T>);
}

/// Strictly increasing and bounded by `bound`.
pub open spec fn ids_ordered(ids: Seq<u64>, bound: nat) -> bool {
    &&& forall|i: int, j: int| 0 <= i < j < ids.len() ==> ids[i] < ids[j]
    &&& forall|i: int| 0 <= i < ids.len() ==> ids[i] < bound
}

/// A well-formed state: the registered ids are increasing and all were handed
/// out already, and there is one observer for each.
pub open spec fn valid<T>(m: ObservableModel<T>) -> bool {
    &&& ids_ordered(m.ids, m.next_id)
    &&& m.heard.len() == m.ids.len()
}

/// The state after an observer with the record `h` was registered: it gets the
/// next id.
pub open spec fn observed<T>(m: ObservableModel<T>, h: (bool, Seq<T>)) -> ObservableModel<T> {
    ObservableModel {
        next_id: m.next_id + 1,
        ids: m.ids.push(m.next_id as u64),
        heard: m.heard.push(h),
        ..m
    }
}

/// Whether an id is another than `id`.
pub open spec fn other_than(id: u64) -> spec_fn(u64) -> bool {
    |x: u64| x != id
}

/// `ids` without `id`.
pub open spec fn without(ids: Seq<u64>, id: u64) -> Seq<u64> {
    ids.filter(other_than(id))
}

/// The position of `id` among `ids`, or `ids.len()` where it is not there.
pub open spec fn position_of(ids: Seq<u64>, id: u64) -> int {
    if ids.contains(id) {
        choose|i: int| 0 <= i < ids.len() && ids[i] == id
    } else {
        ids.len() as int
    }
}

/// The state after the observer with id `id` was unregistered.
pub open spec fn stopped<T>(m: ObservableModel<T>, id: u64) -> ObservableModel<T> {
    ObservableModel {
        ids: without(m.ids, id),
        heard: if m.ids.contains(id) {
            m.heard.remove(position_of(m.ids, id))
        } else {
            m.heard
        },
        ..m
    }
}

/// `n` is `m` after every observer was told the current value: each observer
/// that keeps a record has the value added to it. (Of an observer that keeps
/// none nothing is known.)
pub open spec fn notified<T>(m: ObservableModel<T>, n: ObservableModel<T>) -> bool {
    &&& n.value == m.value
    &&& n.next_id == m.next_id
    &&& n.ids == m.ids
    &&& n.heard.len() == m.heard.len()
    &&& forall|i: int|
        0 <= i < m.heard.len() && (#[trigger] m.heard[i]).0 ==> n.heard[i] == (true, m.heard[i].1.push(m.value))
}

/// `n` is `m` after the action `a`: `Update(v)` makes `v` the value and tells
/// every observer; the other actions change nothing.
pub open spec fn updated<T: Clone>(m: ObservableModel<T>, a: Action<T>, n: ObservableModel<T>) -> bool {
    match a {
        Action::Update(v) => notified(ObservableModel { value: v, ..m }, n),
        _ => n == m,
    }
}

/// The record of an observer.
pub open spec fn record_of<T, O: Observer<T>>(o: O) -> (bool, Seq<T>) {
    (o.records(), o.heard())
}

/// The records of the observers in `obs`.
pub open spec fn heard_by<T, O: Observer<T>>(obs: Seq<O>) -> Seq<(bool, Seq<T>)> {
    obs.map_values(|o: O| record_of(o))
}

/// The state of an observable whose value is `value`, whose next id is
/// `next_id` and whose observers, with their ids, are `obs`.
pub open spec fn model_of<T, O: Observer<T>>(value: T, next_id: u64, obs: Seq<(u64, O)>) -> ObservableModel<T> {
    ObservableModel {
        value,
        next_id: next_id as nat,
        ids: obs.map_values(|p: (u64, O)| p.0),
        heard: obs.map_values(|p: (u64, O)| record_of(p.1)),
    }
}

impl<T: Clone> Observable<T> {
    /// A new observable holding `value`, with no observers.
    pub fn new(value: T) -> (o: Self)
        ensures
            o@ == (ObservableModel {
                value,
                next_id: 0,
                ids: Seq::<u64>::empty(),
                heard: Seq::<(bool, Seq<T>)>::empty(),
            }),
    {
        let o = Observable { next_id: 0, value, observers: Vec::new() };
        assert(o@.ids =~= Seq::<u64>::empty());
        assert(o@.heard =~= Seq::<(bool, Seq<T>)>::empty());
        o
    }
}

impl<T: Clone, O: Observer<T>> Observable<T, O> {
    pub closed spec fn view(&self) -> ObservableModel<T> {
        model_of(self.value, self.next_id, self.observers@)
    }

    /// Every observable is well-formed.
    #[verifier::type_invariant]
    spec fn well_formed(self) -> bool {
        valid(self@)
    }

    /// The id the next observer will get.
    pub fn next_id(&self) -> (n: u64)
        ensures
            n == self@.next_id,
            valid(self@),
    {
        proof {
            use_type_invariant(self);
        }
        self.next_id
    }

    /// A clone of the current value.
    pub fn get_value(&self) -> (v: T)
        ensures
            vstd::pervasive::cloned(self@.value, v),
    {
        self.value.clone()
    }

    /// Registers `observer`; returns its id, which `stop` takes.
    pub fn observe(&mut self, observer: O) -> (id: u64)
        requires
            old(self)@.next_id < u64::MAX,
        ensures
            id == old(self)@.next_id,
            final(self)@ == observed(old(self)@, record_of(observer)),
            valid(final(self)@),
    {
        proof {
            use_type_invariant(&*self);
        }
        let id = self.next_id;
        let ghost m = self@;
        let ghost obs = self.observers@;
        let ghost h = record_of(observer);
        proof {
            law_observe_fresh(m, h);
            assert(model_of(self.value, (id + 1) as u64, obs) == (ObservableModel { next_id: m.next_id + 1, ..m }));
            let after = model_of(self.value, (id + 1) as u64, obs.push((id, observer)));
            assert(after.ids =~= m.ids.push(id));
            assert(after.heard =~= m.heard.push(h));
        }
        let mut obs: Vec<(u64, O)> = Vec::new();
        std::mem::swap(&mut obs, &mut self.observers);
        self.next_id = id + 1;
        obs.push((id, observer));
        self.observers = obs;
        id
    }

    /// Unregisters the observer with id `id`, if there is one.
    pub fn stop(&mut self, id: u64)
        ensures
            final(self)@ == stopped(old(self)@, id),
            valid(final(self)@),
    {
        proof {
            use_type_invariant(&*self);
        }
        let ghost m = self@;
        let mut obs: Vec<(u64, O)> = Vec::new();
        std::mem::swap(&mut obs, &mut self.observers);
        let n = obs.len();
        let mut i: usize = 0;
        while i < n
            invariant
                n == obs@.len(),
                i <= n,
                m == model_of(self.value, self.next_id, obs@),
                m == old(self)@,
                valid(m),
                forall|j: int| 0 <= j < i ==> obs@[j].0 != id,
            decreases n - i,
        {
            if obs[i].0 == id {
                let ghost before = obs@;
                obs.remove(i);
                proof {
                    assert(m.ids[i as int] == id);
                    lemma_filter_remove_unique(m.ids, i as int, id);
                    lemma_position_unique(m.ids, i as int);
                    lemma_stopped_valid(m, id);
                    let after = model_of(self.value, self.next_id, obs@);
                    assert(obs@ == before.remove(i as int));
                    assert(after.ids =~= m.ids.remove(i as int));
                    assert(after.heard =~= m.heard.remove(i as int));
                    assert(m.ids.contains(id));
                    assert(stopped(m, id).ids == after.ids);
                    assert(stopped(m, id).heard == after.heard);
                    assert(stopped(m, id) == after);
                }
                self.observers = obs;
                return;
            }
            i += 1;
        }
        proof {
            assert forall|j: int| 0 <= j < m.ids.len() implies m.ids[j] != id by {
                assert(m.ids[j] == obs@[j].0);
            }
            lemma_filter_absent(m.ids, id);
            assert(!m.ids.contains(id));
        }
        self.observers = obs;
    }

    /// Tells every observer, oldest first, the current value.
    fn notify_observers(&mut self)
        ensures
            notified(old(self)@, final(self)@),
    {
        proof {
            use_type_invariant(&*self);
        }
        let ghost m = self@;
        let mut obs: Vec<(u64, O)> = Vec::new();
        std::mem::swap(&mut obs, &mut self.observers);
        let ghost start = obs@;
        let n = obs.len();
        let mut i: usize = 0;
        while i < n
            invariant
                n == obs@.len(),
                n == start.len(),
                i <= n,
                m == model_of(self.value, self.next_id, start),
                forall|j: int| 0 <= j < n ==> #[trigger] obs@[j].0 == start[j].0,
                forall|j: int|
                    0 <= j < i && start[j].1.records() ==> #[trigger] record_of(obs@[j].1) == (
                        true,
                        start[j].1.heard().push(self.value),
                    ),
                forall|j: int| i <= j < n ==> #[trigger] obs@[j] == start[j],
            decreases n - i,
        {
            let ghost before = obs@;
            let v = &self.value;
            obs[i].1.notify(v);
            assert(obs@ == before.update(i as int, obs@[i as int]));
            i += 1;
        }
        proof {
            let after = model_of(self.value, self.next_id, obs@);
            assert(after.ids =~= m.ids);
            assert forall|j: int| 0 <= j < m.heard.len() && (#[trigger] m.heard[j]).0 implies after.heard[j] == (
                true,
                m.heard[j].1.push(m.value),
            ) by {
                assert(m.heard[j] == record_of(start[j].1));
            }
        }
        self.observers = obs;
    }
}

impl<T: Clone, O: Observer<T>> Update<T> for Observable<T, O> {
    /// `Update(v)` replaces the value by `v` and notifies the observers; the
    /// other actions change nothing.
    fn update(&mut self, value: Action<T>)
        ensures
            updated(old(self)@, value, final(self)@),
    {
        proof {
            use_type_invariant(&*self);
        }
        match value {
            Action::Update(v) => {
                self.value = v;
                self.notify_observers();
            },
            _ => {},
        }
    }
}

/// A new observer's id is not among the registered ones, and registering keeps
/// the state well-formed.
pub proof fn law_observe_fresh<T>(m: ObservableModel<T>, h: (bool, Seq<T>))
    requires
        valid(m),
        m.next_id < u64::MAX,
    ensures
        !m.ids.contains(m.next_id as u64),
        valid(observed(m, h)),
        observed(m, h).ids.last() == m.next_id,
{
    let o = observed(m, h);
    assert forall|i: int, j: int| 0 <= i < j < o.ids.len() implies o.ids[i] < o.ids[j] by {
        if j == m.ids.len() {
            assert(o.ids[i] == m.ids[i]);
        }
    }
    assert forall|i: int| 0 <= i < o.ids.len() implies o.ids[i] < o.next_id by {
        if i < m.ids.len() {
            assert(o.ids[i] == m.ids[i]);
        }
    }
}

/// Unregistering the observer that was just registered gives back the
/// registered ids of before (its id is not handed out again).
pub proof fn law_stop_undoes_observe<T>(m: ObservableModel<T>, h: (bool, Seq<T>))
    requires
        valid(m),
        m.next_id < u64::MAX,
    ensures
        stopped(observed(m, h), m.next_id as u64) == (ObservableModel { next_id: m.next_id + 1, ..m }),
{
    let id = m.next_id as u64;
    let o = observed(m, h);
    reveal_with_fuel(Seq::filter, 1);
    assert(m.ids.push(id).drop_last() =~= m.ids);
    lemma_filter_absent(m.ids, id);
    law_observe_fresh(m, h);
    assert(o.ids[m.ids.len() as int] == id);
    lemma_position_unique(o.ids, m.ids.len() as int);
    assert(o.heard.remove(m.ids.len() as int) =~= m.heard);
}

/// Unregistering an id twice is unregistering it once.
pub proof fn law_stop_idempotent<T>(m: ObservableModel<T>, id: u64)
    ensures
        stopped(stopped(m, id), id) == stopped(m, id),
{
    let f = without(m.ids, id);
    assert forall|j: int| 0 <= j < f.len() implies f[j] != id by {
        m.ids.lemma_filter_pred(other_than(id), j);
    }
    lemma_filter_absent(f, id);
}

/// After `Update(v)` the value is `v`, the observers stay registered, and each
/// of them that keeps a record has heard `v` last.
pub proof fn law_update_then_read<T: Clone>(m: ObservableModel<T>, v: T, n: ObservableModel<T>)
    requires
        valid(m),
        updated(m, Action::Update(v), n),
    ensures
        n.value == v,
        n.ids == m.ids,
        n.next_id == m.next_id,
        valid(n),
        forall|i: int|
            0 <= i < m.ids.len() && (#[trigger] m.heard[i]).0 ==> n.heard[i].0 && n.heard[i].1.last() == v,
{
    assert forall|i: int| 0 <= i < m.ids.len() && (#[trigger] m.heard[i]).0 implies n.heard[i].0
        && n.heard[i].1.last() == v by {
        let u = ObservableModel { value: v, ..m };
        assert(u.heard[i] == m.heard[i]);
    }
}

/// `Add` and `Remove` change nothing.
pub proof fn law_add_remove_ignored<T: Clone>(m: ObservableModel<T>, v: T, n: ObservableModel<T>)
    requires
        updated(m, Action::Add(v), n) || updated(m, Action::Remove(v), n),
    ensures
        n == m,
{
}

/// In a strictly increasing sequence, `position_of` finds the one position of
/// a value.
proof fn lemma_position_unique(ids: Seq<u64>, i: int)
    requires
        0 <= i < ids.len(),
        forall|a: int, b: int| 0 <= a < b < ids.len() ==> ids[a] < ids[b],
    ensures
        ids.contains(ids[i]),
        position_of(ids, ids[i]) == i,
{
    assert(ids[i] == ids[i]);
    let k = position_of(ids, ids[i]);
    assert(0 <= k < ids.len() && ids[k] == ids[i]);
    if k < i {
        assert(ids[k] < ids[i]);
    } else if k > i {
        assert(ids[i] < ids[k]);
    }
}


/// Unregistering keeps the state well-formed.
proof fn lemma_stopped_valid<T>(m: ObservableModel<T>, id: u64)
    requires
        valid(m),
    ensures
        valid(stopped(m, id)),
{
    let ids = m.ids;
    let f = without(ids, id);
    lemma_filter_keeps_order(ids, id);
    if ids.contains(id) {
        let k = position_of(ids, id);
        lemma_filter_remove_unique(ids, k, id);
    } else {
        lemma_filter_absent(ids, id);
    }
    assert forall|i: int| 0 <= i < f.len() implies f[i] < m.next_id by {
        assert(ids.contains(f[i]));
    }
}

/// Filtering keeps a strictly increasing sequence strictly increasing.
proof fn lemma_filter_keeps_order(ids: Seq<u64>, id: u64)
    requires
        forall|a: int, b: int| 0 <= a < b < ids.len() ==> ids[a] < ids[b],
    ensures
        ({
            let f = without(ids, id);
            &&& forall|a: int, b: int| 0 <= a < b < f.len() ==> f[a] < f[b]
            &&& forall|a: int| 0 <= a < f.len() ==> ids.contains(f[a])
        }),
    decreases ids.len(),
{
    reveal_with_fuel(Seq::filter, 1);
    if ids.len() > 0 {
        let init = ids.drop_last();
        lemma_filter_keeps_order(init, id);
        let fi = without(init, id);
        let f = without(ids, id);
        assert forall|a: int| 0 <= a < fi.len() implies ids.contains(fi[a]) by {
            let k = choose|k: int| 0 <= k < init.len() && init[k] == fi[a];
            assert(ids[k] == fi[a]);
        }
        assert forall|a: int| 0 <= a < fi.len() implies fi[a] < ids.last() by {
            let k = choose|k: int| 0 <= k < init.len() && init[k] == fi[a];
            assert(ids[k] == init[k]);
        }
        if ids.last() != id {
            assert(f == fi.push(ids.last()));
            assert(ids[ids.len() - 1] == ids.last());
        } else {
            assert(f == fi);
        }
    }
}

/// Removing the one occurrence of `id` at position `i` of a strictly increasing
/// sequence is filtering `id` out.
proof fn lemma_filter_remove_unique(ids: Seq<u64>, i: int, id: u64)
    requires
        0 <= i < ids.len(),
        ids[i] == id,
        forall|a: int, b: int| 0 <= a < b < ids.len() ==> ids[a] < ids[b],
    ensures
        ids.remove(i) == without(ids, id),
    decreases ids.len(),
{
    reveal_with_fuel(Seq::filter, 1);
    let last = ids.len() - 1;
    if i == last {
        assert(ids.remove(i) =~= ids.drop_last());
        lemma_filter_absent(ids.drop_last(), id);
    } else {
        lemma_filter_remove_unique(ids.drop_last(), i, id);
        assert(ids.remove(i) =~= ids.drop_last().remove(i).push(ids.last()));
    }
}

/// Filtering out a value that does not occur changes nothing.
proof fn lemma_filter_absent(ids: Seq<u64>, id: u64)
    requires
        forall|j: int| 0 <= j < ids.len() ==> ids[j] != id,
    ensures
        without(ids, id) == ids,
    decreases ids.len(),
{
    reveal_with_fuel(Seq::filter, 1);
    if ids.len() > 0 {
        lemma_filter_absent(ids.drop_last(), id);
        assert(ids.drop_last().push(ids.last()) =~= ids);
    }
}

} // verus!
