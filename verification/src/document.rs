//! The parametric document: an ordered feature tree, named parameters and
//! the id allocator they share.
//!
//! Lookups by id follow the document's order: the first feature (or
//! parameter) carrying an id is the one an id refers to.

use vstd::prelude::*;

use crate::feature::{kind_dependencies, Feature, FeatureKind};
use crate::ids::{FeatureId, ParameterId};
use crate::parameter::Parameter;

verus! {

/// The project-file format version that new documents carry.
pub fn default_format_version() -> (v: u32)
    ensures
        v == 1,
{
    1
}

#[derive(Debug, Clone)]
pub struct Document {
    pub format_version: u32,
    pub name: String,
    pub features: Vec<Feature>,
    pub parameters: Vec<Parameter>,
    /// The next id the shared allocator hands out (features and parameters
    /// draw from the same counter).
    pub next_id: u64,
}

/// `i` is the position of the first feature of `fs` with id `id`.
pub open spec fn is_first_feature(fs: Seq<Feature>, id: FeatureId, i: int) -> bool {
    &&& 0 <= i < fs.len()
    &&& fs[i].id == id
    &&& forall|j: int| 0 <= j < i ==> (#[trigger] fs[j]).id != id
}

/// Position of the first feature with id `id`, if any.
pub open spec fn feature_pos(fs: Seq<Feature>, id: FeatureId) -> Option<int> {
    if exists|i: int| is_first_feature(fs, id, i) {
        Some(choose|i: int| is_first_feature(fs, id, i))
    } else {
        None
    }
}

/// `i` is the position of the first parameter of `ps` with id `id`.
pub open spec fn is_first_parameter(ps: Seq<Parameter>, id: ParameterId, i: int) -> bool {
    &&& 0 <= i < ps.len()
    &&& ps[i].id == id
    &&& forall|j: int| 0 <= j < i ==> (#[trigger] ps[j]).id != id
}

/// Position of the first parameter with id `id`, if any.
pub open spec fn parameter_pos(ps: Seq<Parameter>, id: ParameterId) -> Option<int> {
    if exists|i: int| is_first_parameter(ps, id, i) {
        Some(choose|i: int| is_first_parameter(ps, id, i))
    } else {
        None
    }
}

pub proof fn lemma_first_feature_unique(fs: Seq<Feature>, id: FeatureId, i: int)
    requires
        is_first_feature(fs, id, i),
    ensures
        feature_pos(fs, id) == Some(i),
{
    let k = choose|k: int| is_first_feature(fs, id, k);
    if k < i {
        assert(fs[k].id != id);
    } else if i < k {
        assert(fs[i].id != id);
    }
}

pub proof fn lemma_first_parameter_unique(ps: Seq<Parameter>, id: ParameterId, i: int)
    requires
        is_first_parameter(ps, id, i),
    ensures
        parameter_pos(ps, id) == Some(i),
{
    let k = choose|k: int| is_first_parameter(ps, id, k);
    if k < i {
        assert(ps[k].id != id);
    } else if i < k {
        assert(ps[i].id != id);
    }
}

/// Position of the first feature of `fs` with id `id` (exec).
fn find_feature(fs: &Vec<Feature>, id: FeatureId) -> (r: Option<usize>)
    ensures
        match r {
            Some(i) => feature_pos(fs@, id) == Some(i as int),
            None => feature_pos(fs@, id) is None,
        },
{
    let mut i: usize = 0;
    while i < fs.len()
        invariant
            i <= fs@.len(),
            forall|j: int| 0 <= j < i ==> (#[trigger] fs@[j]).id != id,
        decreases fs.len() - i,
    {
        if fs[i].id.0 == id.0 {
            proof {
                lemma_first_feature_unique(fs@, id, i as int);
            }
            return Some(i);
        }
        i = i + 1;
    }
    None
}

/// Position of the first parameter of `ps` with id `id` (exec).
fn find_parameter(ps: &Vec<Parameter>, id: ParameterId) -> (r: Option<usize>)
    ensures
        match r {
            Some(i) => parameter_pos(ps@, id) == Some(i as int),
            None => parameter_pos(ps@, id) is None,
        },
{
    let mut i: usize = 0;
    while i < ps.len()
        invariant
            i <= ps@.len(),
            forall|j: int| 0 <= j < i ==> (#[trigger] ps@[j]).id != id,
        decreases ps.len() - i,
    {
        if ps[i].id.0 == id.0 {
            proof {
                lemma_first_parameter_unique(ps@, id, i as int);
            }
            return Some(i);
        }
        i = i + 1;
    }
    None
}

/// Feature `f` directly depends on the feature `id`.
pub open spec fn depends_on(f: Feature, id: FeatureId) -> bool {
    kind_dependencies(f.kind).contains(id)
}

/// Feature `f` is nested directly under the feature `id`.
pub open spec fn is_child_of(f: Feature, id: FeatureId) -> bool {
    f.parent_id == Some(id)
}

/// The ids of the features of `fs` that satisfy `p`, in order.
pub open spec fn ids_where(fs: Seq<Feature>, p: spec_fn(Feature) -> bool) -> Seq<FeatureId> {
    fs.filter(p).map_values(|f: Feature| f.id)
}

pub proof fn lemma_filter_step<A>(s: Seq<A>, i: int, p: spec_fn(A) -> bool)
    requires
        0 <= i < s.len(),
    ensures
        s.take(i + 1).filter(p) == if p(s[i]) {
            s.take(i).filter(p).push(s[i])
        } else {
            s.take(i).filter(p)
        },
{
    reveal_with_fuel(Seq::filter, 1);
    assert(s.take(i + 1).drop_last() =~= s.take(i));
}

fn id_listed(v: &Vec<FeatureId>, id: FeatureId) -> (b: bool)
    ensures
        b == v@.contains(id),
{
    let mut i: usize = 0;
    while i < v.len()
        invariant
            i <= v@.len(),
            forall|j: int| 0 <= j < i ==> v@[j] != id,
        decreases v.len() - i,
    {
        if v[i].0 == id.0 {
            assert(v@[i as int] == id);
            return true;
        }
        i = i + 1;
    }
    false
}

fn feature_depends_on(f: &Feature, id: FeatureId) -> (b: bool)
    ensures
        b == depends_on(*f, id),
{
    let deps = f.dependencies();
    id_listed(&deps, id)
}

fn feature_is_child_of(f: &Feature, id: FeatureId) -> (b: bool)
    ensures
        b == is_child_of(*f, id),
{
    match f.parent_id {
        Some(p) => p.0 == id.0,
        None => false,
    }
}

/// Parent of the first feature with id `id` (none when there is no such
/// feature or it is top-level).
pub open spec fn parent_in(fs: Seq<Feature>, id: FeatureId) -> Option<FeatureId> {
    match feature_pos(fs, id) {
        Some(i) => fs[i].parent_id,
        None => None,
    }
}

/// The `n`-th step of the parent chain that starts at `start`: step 0 is
/// `start` itself, and the chain ends (`None`) at a top-level or missing
/// feature.
pub open spec fn ancestor_at(fs: Seq<Feature>, start: FeatureId, n: nat) -> Option<FeatureId>
    decreases n,
{
    if n == 0 {
        Some(start)
    } else {
        match ancestor_at(fs, start, (n - 1) as nat) {
            Some(x) => parent_in(fs, x),
            None => None,
        }
    }
}

/// Walking up the parent chain from `target` either reaches `ancestor` or
/// runs out; a chain that loops forever without meeting `ancestor` does not
/// end.
pub open spec fn walk_ends(fs: Seq<Feature>, ancestor: FeatureId, target: FeatureId) -> bool {
    exists|n: nat|
        #![trigger ancestor_at(fs, target, n)]
        ancestor_at(fs, target, n) is None || ancestor_at(fs, target, n) == Some(ancestor)
}

/// `ancestor` occurs on the parent chain of `target` (`target` itself
/// included).
pub open spec fn descends(fs: Seq<Feature>, ancestor: FeatureId, target: FeatureId) -> bool {
    exists|n: nat| #[trigger] ancestor_at(fs, target, n) == Some(ancestor)
}

pub proof fn lemma_chain_stays_ended(fs: Seq<Feature>, start: FeatureId, n: nat, m: nat)
    requires
        ancestor_at(fs, start, n) is None,
        n <= m,
    ensures
        ancestor_at(fs, start, m) is None,
    decreases m - n,
{
    if n < m {
        lemma_chain_stays_ended(fs, start, n, (m - 1) as nat);
    }
}

/// The feature list after moving the feature at `ci` to sit right after its
/// new parent (at `pi`) with its parent set to `parent`.
pub open spec fn reparented(fs: Seq<Feature>, ci: int, pi: int, parent: FeatureId) -> Seq<Feature> {
    let moved = Feature { parent_id: Some(parent), ..fs[ci] };
    let at = if ci < pi {
        pi
    } else {
        pi + 1
    };
    fs.remove(ci).insert(at, moved)
}

/// The ids of the features nested directly under `id`, in order.
/// `fs` without the features nested directly under `id`, in order.
pub open spec fn without_children(fs: Seq<Feature>, id: FeatureId) -> Seq<Feature> {
    fs.filter(|g: Feature| !is_child_of(g, id))
}

pub open spec fn children_ids(fs: Seq<Feature>, id: FeatureId) -> Seq<FeatureId> {
    ids_where(fs, |f: Feature| is_child_of(f, id))
}

/// Removing `id` with its nested features terminates within recursion
/// depth `n`: every feature nested under `id` can itself be removed within
/// depth `n - 1`. A parent chain that loops back on itself admits no such
/// depth.
pub open spec fn cascade_ok(fs: Seq<Feature>, id: FeatureId, n: nat) -> bool
    decreases n,
{
    n > 0 && forall|j: int|
        0 <= j < fs.len() && is_child_of(#[trigger] fs[j], id) ==> cascade_ok(
            fs,
            fs[j].id,
            (n - 1) as nat,
        )
}

/// Cascading removal of `id` from `fs` within recursion depth `n`: first
/// the features nested under `id` are removed, one after another in
/// feature order (each with its own nested features), then the first
/// feature with id `id`, if one is left. Returns the remaining features and
/// the removed ids in removal order.
pub open spec fn cascade(fs: Seq<Feature>, id: FeatureId, n: nat) -> (Seq<Feature>, Seq<FeatureId>)
    decreases n, 0nat,
{
    if n == 0 {
        (fs, seq![])
    } else {
        let (fs1, r1) = cascade_all(fs, children_ids(fs, id), (n - 1) as nat);
        match feature_pos(fs1, id) {
            Some(i) => (fs1.remove(i), r1.push(id)),
            None => (fs1, r1),
        }
    }
}

/// Cascading removal of each of `ids` in turn, within recursion depth `n`.
pub open spec fn cascade_all(fs: Seq<Feature>, ids: Seq<FeatureId>, n: nat) -> (
    Seq<Feature>,
    Seq<FeatureId>,
)
    decreases n, ids.len(),
{
    if ids.len() == 0 {
        (fs, seq![])
    } else {
        let (fs1, r1) = cascade_all(fs, ids.drop_last(), n);
        let (fs2, r2) = cascade(fs1, ids.last(), n);
        (fs2, r1 + r2)
    }
}

/// Every feature of `a` is a feature of `b`.
pub open spec fn features_within(a: Seq<Feature>, b: Seq<Feature>) -> bool {
    forall|j: int| 0 <= j < a.len() ==> b.contains(#[trigger] a[j])
}

pub proof fn lemma_cascade_ok_mono(fs: Seq<Feature>, gs: Seq<Feature>, id: FeatureId, n: nat)
    requires
        cascade_ok(fs, id, n),
        features_within(gs, fs),
    ensures
        cascade_ok(gs, id, n),
    decreases n,
{
    assert forall|j: int|
        0 <= j < gs.len() && is_child_of(#[trigger] gs[j], id) implies cascade_ok(
        gs,
        gs[j].id,
        (n - 1) as nat,
    ) by {
        assert(fs.contains(gs[j]));
        let k = choose|k: int| 0 <= k < fs.len() && fs[k] == gs[j];
        assert(is_child_of(fs[k], id));
        lemma_cascade_ok_mono(fs, gs, gs[j].id, (n - 1) as nat);
    }
}

pub proof fn lemma_cascade_within(fs: Seq<Feature>, id: FeatureId, n: nat)
    ensures
        features_within(cascade(fs, id, n).0, fs),
    decreases n, 0nat,
{
    if n > 0 {
        let (fs1, r1) = cascade_all(fs, children_ids(fs, id), (n - 1) as nat);
        lemma_cascade_all_within(fs, children_ids(fs, id), (n - 1) as nat);
        match feature_pos(fs1, id) {
            Some(i) => {
                assert forall|j: int| 0 <= j < fs1.remove(i).len() implies fs.contains(
                    #[trigger] fs1.remove(i)[j],
                ) by {
                    if j < i {
                        assert(fs1.remove(i)[j] == fs1[j]);
                        assert(fs.contains(fs1[j]));
                    } else {
                        assert(fs1.remove(i)[j] == fs1[j + 1]);
                        assert(fs.contains(fs1[j + 1]));
                    }
                }
            },
            None => {},
        }
    }
}

pub proof fn lemma_cascade_all_within(fs: Seq<Feature>, ids: Seq<FeatureId>, n: nat)
    ensures
        features_within(cascade_all(fs, ids, n).0, fs),
    decreases n, ids.len(),
{
    if ids.len() > 0 {
        let (fs1, r1) = cascade_all(fs, ids.drop_last(), n);
        lemma_cascade_all_within(fs, ids.drop_last(), n);
        lemma_cascade_within(fs1, ids.last(), n);
        let fs2 = cascade(fs1, ids.last(), n).0;
        assert forall|j: int| 0 <= j < fs2.len() implies fs.contains(#[trigger] fs2[j]) by {
            assert(fs1.contains(fs2[j]));
            let k = choose|k: int| 0 <= k < fs1.len() && fs1[k] == fs2[j];
            assert(fs.contains(fs1[k]));
        }
    }
}

impl Document {
    /// A new document with no features or parameters; ids start at 1.
    pub fn new(name: &str) -> (d: Self)
        ensures
            d.format_version == 1,
            d.name@ == name@,
            d.features@ == Seq::<Feature>::empty(),
            d.parameters@ == Seq::<Parameter>::empty(),
            d.next_id == 1,
    {
        Document {
            format_version: 1,
            name: name.to_owned(),
            features: Vec::new(),
            parameters: Vec::new(),
            next_id: 1,
        }
    }

    /// Allocate the next id.
    pub fn next_id(&mut self) -> (id: u64)
        requires
            old(self).next_id < u64::MAX,
        ensures
            id == old(self).next_id,
            final(self).next_id == id + 1,
            final(self).features@ == old(self).features@,
            final(self).parameters@ == old(self).parameters@,
            final(self).name@ == old(self).name@,
            final(self).format_version == old(self).format_version,
    {
        let id = self.next_id;
        self.next_id = self.next_id + 1;
        id
    }

    /// The id that the next `next_id()` call would return, without consuming
    /// it.
    pub fn peek_next_id(&self) -> (id: u64)
        ensures
            id == self.next_id,
    {
        self.next_id
    }

    pub fn new_feature_id(&mut self) -> (id: FeatureId)
        requires
            old(self).next_id < u64::MAX,
        ensures
            id == FeatureId(old(self).next_id),
            final(self).next_id == old(self).next_id + 1,
            final(self).features@ == old(self).features@,
            final(self).parameters@ == old(self).parameters@,
            final(self).name@ == old(self).name@,
            final(self).format_version == old(self).format_version,
    {
        FeatureId(self.next_id())
    }

    pub fn new_parameter_id(&mut self) -> (id: ParameterId)
        requires
            old(self).next_id < u64::MAX,
        ensures
            id == ParameterId(old(self).next_id),
            final(self).next_id == old(self).next_id + 1,
            final(self).features@ == old(self).features@,
            final(self).parameters@ == old(self).parameters@,
            final(self).name@ == old(self).name@,
            final(self).format_version == old(self).format_version,
    {
        ParameterId(self.next_id())
    }

    /// Add a parameter under a freshly allocated id and return that id.
    /// `value` is the `f64` bit pattern of the parameter's value.
    pub fn add_parameter(&mut self, name: &str, value: u64) -> (id: ParameterId)
        requires
            old(self).next_id < u64::MAX,
        ensures
            id == ParameterId(old(self).next_id),
            final(self).next_id == old(self).next_id + 1,
            final(self).parameters@.len() == old(self).parameters@.len() + 1,
            final(self).parameters@.drop_last() == old(self).parameters@,
            final(self).parameters@.last().id == id,
            final(self).parameters@.last().name@ == name@,
            final(self).parameters@.last().value == value,
            final(self).features@ == old(self).features@,
            final(self).name@ == old(self).name@,
            final(self).format_version == old(self).format_version,
    {
        let id = self.new_parameter_id();
        self.parameters.push(Parameter::new(id, name, value));
        assert(self.parameters@.drop_last() =~= old(self).parameters@);
        id
    }

    /// The first parameter with id `id`.
    pub fn get_parameter(&self, id: ParameterId) -> (r: Option<&Parameter>)
        ensures
            match parameter_pos(self.parameters@, id) {
                Some(i) => r == Some(&self.parameters@[i]),
                None => r is None,
            },
    {
        match find_parameter(&self.parameters, id) {
            Some(i) => Some(&self.parameters[i]),
            None => None,
        }
    }

    /// Mutable access to the first parameter with id `id`.
    pub fn get_parameter_mut(&mut self, id: ParameterId) -> (r: Option<&mut Parameter>)
        ensures
            match parameter_pos(old(self).parameters@, id) {
                Some(i) => r matches Some(p) && *p == old(self).parameters@[i]
                    && final(self).parameters@ == old(self).parameters@.update(i, *final(p)),
                None => r is None && final(self).parameters@ == old(self).parameters@,
            },
            final(self).features@ == old(self).features@,
            final(self).next_id == old(self).next_id,
            final(self).name@ == old(self).name@,
            final(self).format_version == old(self).format_version,
    {
        match find_parameter(&self.parameters, id) {
            Some(i) => Some(&mut self.parameters[i]),
            None => None,
        }
    }

    /// Append a feature at the end of the feature list.
    pub fn add_feature(&mut self, feature: Feature)
        ensures
            final(self).features@ == old(self).features@.push(feature),
            final(self).parameters@ == old(self).parameters@,
            final(self).next_id == old(self).next_id,
            final(self).name@ == old(self).name@,
            final(self).format_version == old(self).format_version,
    {
        self.features.push(feature);
    }

    /// The first feature with id `id`.
    pub fn get_feature(&self, id: FeatureId) -> (r: Option<&Feature>)
        ensures
            match feature_pos(self.features@, id) {
                Some(i) => r == Some(&self.features@[i]),
                None => r is None,
            },
    {
        match find_feature(&self.features, id) {
            Some(i) => Some(&self.features[i]),
            None => None,
        }
    }

    /// The kind of the first feature with id `id`.
    pub fn kind_of(&self, id: FeatureId) -> (r: Option<&FeatureKind>)
        ensures
            match feature_pos(self.features@, id) {
                Some(i) => r == Some(&self.features@[i].kind),
                None => r is None,
            },
    {
        match self.get_feature(id) {
            Some(f) => Some(&f.kind),
            None => None,
        }
    }

    /// Mutable access to the first feature with id `id`.
    pub fn get_feature_mut(&mut self, id: FeatureId) -> (r: Option<&mut Feature>)
        ensures
            match feature_pos(old(self).features@, id) {
                Some(i) => r matches Some(f) && *f == old(self).features@[i]
                    && final(self).features@ == old(self).features@.update(i, *final(f)),
                None => r is None && final(self).features@ == old(self).features@,
            },
            final(self).parameters@ == old(self).parameters@,
            final(self).next_id == old(self).next_id,
            final(self).name@ == old(self).name@,
            final(self).format_version == old(self).format_version,
    {
        match find_feature(&self.features, id) {
            Some(i) => Some(&mut self.features[i]),
            None => None,
        }
    }

    /// The ids of the features that directly depend on `id`, in feature
    /// order. Used to warn before deletion or to cascade suppression.
    pub fn dependents_of(&self, id: FeatureId) -> (r: Vec<FeatureId>)
        ensures
            r@ == ids_where(self.features@, |f: Feature| depends_on(f, id)),
    {
        let ghost p = |f: Feature| depends_on(f, id);
        let mut r: Vec<FeatureId> = Vec::new();
        let mut i: usize = 0;
        while i < self.features.len()
            invariant
                i <= self.features@.len(),
                p == (|f: Feature| depends_on(f, id)),
                r@ == ids_where(self.features@.take(i as int), p),
            decreases self.features.len() - i,
        {
            proof {
                lemma_filter_step(self.features@, i as int, p);
            }
            if feature_depends_on(&self.features[i], id) {
                r.push(self.features[i].id);
            }
            proof {
                assert(r@ =~= ids_where(self.features@.take(i + 1), p));
            }
            i = i + 1;
        }
        assert(self.features@.take(self.features@.len() as int) =~= self.features@);
        r
    }

    /// The ids of the features nested directly under `id`, in feature order.
    pub fn children_of(&self, id: FeatureId) -> (r: Vec<FeatureId>)
        ensures
            r@ == ids_where(self.features@, |f: Feature| is_child_of(f, id)),
    {
        let ghost p = |f: Feature| is_child_of(f, id);
        let mut r: Vec<FeatureId> = Vec::new();
        let mut i: usize = 0;
        while i < self.features.len()
            invariant
                i <= self.features@.len(),
                p == (|f: Feature| is_child_of(f, id)),
                r@ == ids_where(self.features@.take(i as int), p),
            decreases self.features.len() - i,
        {
            proof {
                lemma_filter_step(self.features@, i as int, p);
            }
            if feature_is_child_of(&self.features[i], id) {
                r.push(self.features[i].id);
            }
            proof {
                assert(r@ =~= ids_where(self.features@.take(i + 1), p));
            }
            i = i + 1;
        }
        assert(self.features@.take(self.features@.len() as int) =~= self.features@);
        r
    }

    /// Whether removing `id` would orphan downstream features: some feature
    /// depends on it or is nested under it.
    pub fn has_dependents(&self, id: FeatureId) -> (r: bool)
        ensures
            r == ((exists|i: int|
                0 <= i < self.features@.len() && depends_on(#[trigger] self.features@[i], id))
                || (exists|i: int|
                0 <= i < self.features@.len() && is_child_of(#[trigger] self.features@[i], id))),
    {
        let mut i: usize = 0;
        while i < self.features.len()
            invariant
                i <= self.features@.len(),
                forall|j: int| 0 <= j < i ==> !depends_on(#[trigger] self.features@[j], id),
            decreases self.features.len() - i,
        {
            if feature_depends_on(&self.features[i], id) {
                return true;
            }
            i = i + 1;
        }
        let mut k: usize = 0;
        while k < self.features.len()
            invariant
                k <= self.features@.len(),
                forall|j: int| 0 <= j < self.features@.len() ==> !depends_on(
                    #[trigger] self.features@[j],
                    id,
                ),
                forall|j: int| 0 <= j < k ==> !is_child_of(#[trigger] self.features@[j], id),
            decreases self.features.len() - k,
        {
            if feature_is_child_of(&self.features[k], id) {
                return true;
            }
            k = k + 1;
        }
        false
    }

    /// Make the first feature with id `id` top-level. Returns whether such a
    /// feature exists.
    pub fn detach_from_parent(&mut self, id: FeatureId) -> (found: bool)
        ensures
            match feature_pos(old(self).features@, id) {
                Some(i) => found && final(self).features@ == old(self).features@.update(
                    i,
                    Feature { parent_id: None, ..old(self).features@[i] },
                ),
                None => !found && final(self).features@ == old(self).features@,
            },
            final(self).parameters@ == old(self).parameters@,
            final(self).next_id == old(self).next_id,
            final(self).name@ == old(self).name@,
            final(self).format_version == old(self).format_version,
    {
        match self.get_feature_mut(id) {
            Some(f) => {
                f.parent_id = None;
                true
            },
            None => false,
        }
    }

    /// Remove the first feature with id `id` and return it, together with
    /// the features nested directly under it (those whose `parent_id` is
    /// `id`). Nothing changes when there is no feature with id `id`.
    /// Features that depend on the removed ones are left in place (see
    /// `has_dependents`).
    pub fn remove_feature(&mut self, id: FeatureId) -> (r: Option<Feature>)
        ensures
            match feature_pos(old(self).features@, id) {
                Some(i) => r == Some(old(self).features@[i]) && final(self).features@
                    == without_children(old(self).features@.remove(i), id),
                None => r is None && final(self).features@ == old(self).features@,
            },
            final(self).parameters@ == old(self).parameters@,
            final(self).next_id == old(self).next_id,
            final(self).name@ == old(self).name@,
            final(self).format_version == old(self).format_version,
    {
        let idx = find_feature(&self.features, id)?;
        let f = self.features.remove(idx);
        self.drop_children(id);
        Some(f)
    }

    /// Remove the first feature with id `id` alone.
    fn remove_one(&mut self, id: FeatureId) -> (r: Option<Feature>)
        ensures
            match feature_pos(old(self).features@, id) {
                Some(i) => r == Some(old(self).features@[i]) && final(self).features@
                    == old(self).features@.remove(i),
                None => r is None && final(self).features@ == old(self).features@,
            },
            final(self).parameters@ == old(self).parameters@,
            final(self).next_id == old(self).next_id,
            final(self).name@ == old(self).name@,
            final(self).format_version == old(self).format_version,
    {
        let idx = find_feature(&self.features, id)?;
        Some(self.features.remove(idx))
    }

    /// Remove every feature nested directly under `id`, keeping the order
    /// of the rest.
    fn drop_children(&mut self, id: FeatureId)
        ensures
            final(self).features@ == without_children(old(self).features@, id),
            final(self).parameters@ == old(self).parameters@,
            final(self).next_id == old(self).next_id,
            final(self).name@ == old(self).name@,
            final(self).format_version == old(self).format_version,
    {
        let ghost p = |g: Feature| !is_child_of(g, id);
        let mut all: Vec<Feature> = Vec::new();
        std::mem::swap(&mut all, &mut self.features);
        let ghost orig = all@;
        let n = all.len();
        let mut j: usize = 0;
        while all.len() > 0
            invariant
                n == orig.len(),
                j + all@.len() == n,
                all@ == orig.subrange(j as int, n as int),
                p == (|g: Feature| !is_child_of(g, id)),
                self.features@ == orig.take(j as int).filter(p),
                self.parameters@ == old(self).parameters@,
                self.next_id == old(self).next_id,
                self.name@ == old(self).name@,
                self.format_version == old(self).format_version,
            decreases all@.len(),
        {
            let g = all.remove(0);
            assert(g == orig[j as int]);
            proof {
                lemma_filter_step(orig, j as int, p);
            }
            let keep = match g.parent_id {
                Some(pid) => pid != id,
                None => true,
            };
            if keep {
                self.features.push(g);
            }
            assert(all@ =~= orig.subrange(j + 1, n as int));
            j = j + 1;
        }
        assert(orig.take(n as int) =~= orig);
    }

    /// The features whose `suppressed` flag is false, in tree order.
    pub fn active_features(&self) -> (r: Vec<&Feature>)
        ensures
            r@.len() == self.features@.filter(|f: Feature| !f.suppressed).len(),
            forall|k: int|
                0 <= k < r@.len() ==> *r@[k] == self.features@.filter(
                    |f: Feature| !f.suppressed,
                )[k],
    {
        let ghost p = |f: Feature| !f.suppressed;
        let mut r: Vec<&Feature> = Vec::new();
        let mut i: usize = 0;
        while i < self.features.len()
            invariant
                i <= self.features@.len(),
                p == (|f: Feature| !f.suppressed),
                r@.len() == self.features@.take(i as int).filter(p).len(),
                forall|k: int|
                    0 <= k < r@.len() ==> *r@[k] == self.features@.take(i as int).filter(p)[k],
            decreases self.features.len() - i,
        {
            proof {
                lemma_filter_step(self.features@, i as int, p);
            }
            let f = &self.features[i];
            if !f.suppressed {
                r.push(f);
            }
            i = i + 1;
        }
        assert(self.features@.take(self.features@.len() as int) =~= self.features@);
        r
    }

    /// Whether `ancestor_id` lies on the parent chain of `target_id`
    /// (`target_id` itself included).
    fn is_descendant_of(&self, ancestor_id: FeatureId, target_id: FeatureId) -> (r: bool)
        requires
            walk_ends(self.features@, ancestor_id, target_id),
        ensures
            r == descends(self.features@, ancestor_id, target_id),
    {
        let ghost fs = self.features@;
        let ghost bound: nat = choose|n: nat|
            #![trigger ancestor_at(fs, target_id, n)]
            ancestor_at(fs, target_id, n) is None || ancestor_at(fs, target_id, n) == Some(
                ancestor_id,
            );
        let mut current: Option<FeatureId> = Some(target_id);
        let ghost mut k: nat = 0;
        while current.is_some()
            invariant
                fs == self.features@,
                current == ancestor_at(fs, target_id, k),
                ancestor_at(fs, target_id, bound) is None || ancestor_at(fs, target_id, bound)
                    == Some(ancestor_id),
                k <= bound,
                forall|m: nat|
                    m < k ==> #[trigger] ancestor_at(fs, target_id, m) is Some && ancestor_at(
                        fs,
                        target_id,
                        m,
                    ) != Some(ancestor_id),
            decreases bound - k,
        {
            let id = current.unwrap();
            if id.0 == ancestor_id.0 {
                assert(ancestor_at(fs, target_id, k) == Some(ancestor_id));
                return true;
            }
            assert(k != bound);
            current = match find_feature(&self.features, id) {
                Some(i) => self.features[i].parent_id,
                None => None,
            };
            proof {
                assert(ancestor_at(fs, target_id, k + 1) == parent_in(fs, id));
                k = k + 1;
            }
        }
        proof {
            assert forall|n: nat| #[trigger] ancestor_at(fs, target_id, n) != Some(ancestor_id) by {
                if n >= k {
                    lemma_chain_stays_ended(fs, target_id, k, n);
                }
            }
        }
        false
    }

    /// Change a feature's parent. The feature is moved to just after the
    /// parent in the feature list so regeneration order stays sensible.
    ///
    /// Refused (returning false, nothing changed) when either feature is
    /// missing, when both ids are the same, or when the new parent is
    /// already on the child's own parent chain.
    pub fn reparent_to(&mut self, child_id: FeatureId, new_parent_id: FeatureId) -> (r: bool)
        requires
            feature_pos(old(self).features@, child_id) is Some && feature_pos(
                old(self).features@,
                new_parent_id,
            ) is Some && child_id != new_parent_id ==> walk_ends(
                old(self).features@,
                new_parent_id,
                child_id,
            ),
        ensures
            r == (feature_pos(old(self).features@, child_id) is Some && feature_pos(
                old(self).features@,
                new_parent_id,
            ) is Some && child_id != new_parent_id && !descends(
                old(self).features@,
                new_parent_id,
                child_id,
            )),
            r ==> final(self).features@ == reparented(
                old(self).features@,
                feature_pos(old(self).features@, child_id)->0,
                feature_pos(old(self).features@, new_parent_id)->0,
                new_parent_id,
            ),
            !r ==> final(self).features@ == old(self).features@,
            final(self).parameters@ == old(self).parameters@,
            final(self).next_id == old(self).next_id,
            final(self).name@ == old(self).name@,
            final(self).format_version == old(self).format_version,
    {
        let child_idx = match find_feature(&self.features, child_id) {
            Some(i) => i,
            None => return false,
        };
        let parent_idx = match find_feature(&self.features, new_parent_id) {
            Some(i) => i,
            None => return false,
        };
        if child_idx == parent_idx {
            return false;
        }
        assert(child_id != new_parent_id);
        if self.is_descendant_of(new_parent_id, child_id) {
            return false;
        }
        let ghost fs = self.features@;
        self.features[child_idx].parent_id = Some(new_parent_id);
        let f = self.features.remove(child_idx);
        let insert_at = if child_idx < parent_idx {
            parent_idx
        } else {
            parent_idx + 1
        };
        let insert_at = if insert_at > self.features.len() {
            self.features.len()
        } else {
            insert_at
        };
        self.features.insert(insert_at, f);
        proof {
            assert(self.features@ =~= reparented(
                fs,
                child_idx as int,
                parent_idx as int,
                new_parent_id,
            ));
        }
        true
    }

    fn remove_cascade_within(&mut self, id: FeatureId, Ghost(n): Ghost<nat>) -> (removed: Vec<
        FeatureId,
    >)
        requires
            cascade_ok(old(self).features@, id, n),
        ensures
            (final(self).features@, removed@) == cascade(old(self).features@, id, n),
            final(self).parameters@ == old(self).parameters@,
            final(self).next_id == old(self).next_id,
            final(self).name@ == old(self).name@,
            final(self).format_version == old(self).format_version,
        decreases n,
    {
        let ghost fs0 = self.features@;
        let child_ids = self.children_of(id);
        let mut removed: Vec<FeatureId> = Vec::new();
        let mut k: usize = 0;
        assert(child_ids@.take(0) =~= Seq::<FeatureId>::empty());
        while k < child_ids.len()
            invariant
                n > 0,
                cascade_ok(fs0, id, n),
                child_ids@ == children_ids(fs0, id),
                k <= child_ids@.len(),
                (self.features@, removed@) == cascade_all(
                    fs0,
                    child_ids@.take(k as int),
                    (n - 1) as nat,
                ),
                features_within(self.features@, fs0),
                self.parameters@ == old(self).parameters@,
                self.next_id == old(self).next_id,
                self.name@ == old(self).name@,
                self.format_version == old(self).format_version,
            decreases child_ids.len() - k,
        {
            let c = child_ids[k];
            proof {
                let p = |f: Feature| is_child_of(f, id);
                assert(child_ids@[k as int] == fs0.filter(p).map_values(|f: Feature| f.id)[k as int]);
                let fc = fs0.filter(p)[k as int];
                fs0.lemma_filter_pred(p, k as int);
                assert(fs0.filter(p).contains(fc));
                fs0.lemma_filter_contains_rev(p, fc);
                assert(fs0.contains(fc));
                let j = choose|j: int| 0 <= j < fs0.len() && fs0[j] == fc;
                assert(is_child_of(fs0[j], id));
                assert(cascade_ok(fs0, fs0[j].id, (n - 1) as nat));
                lemma_cascade_ok_mono(fs0, self.features@, c, (n - 1) as nat);
            }
            let ghost before_fs = self.features@;
            let ghost before_r = removed@;
            let mut sub = self.remove_cascade_within(c, Ghost((n - 1) as nat));
            removed.append(&mut sub);
            proof {
                assert(child_ids@.take(k + 1).drop_last() =~= child_ids@.take(k as int));
                assert(child_ids@.take(k + 1).last() == c);
                lemma_cascade_within(before_fs, c, (n - 1) as nat);
                let fs2 = self.features@;
                assert forall|j: int| 0 <= j < fs2.len() implies fs0.contains(#[trigger] fs2[j]) by {
                    assert(before_fs.contains(fs2[j]));
                    let q = choose|q: int| 0 <= q < before_fs.len() && before_fs[q] == fs2[j];
                    assert(fs0.contains(before_fs[q]));
                }
            }
            k = k + 1;
        }
        proof {
            assert(child_ids@.take(child_ids@.len() as int) =~= child_ids@);
        }
        if let Some(_) = self.remove_one(id) {
            removed.push(id);
        }
        removed
    }

    /// Remove a feature and, first, all features nested under it
    /// (recursively, in feature order). Returns the removed ids in removal
    /// order: nested features before the features they are nested under.
    ///
    /// Defined for every feature list on which the removal terminates, that
    /// is, where no parent chain below `id` loops back on itself.
    pub fn remove_feature_cascade(&mut self, id: FeatureId) -> (removed: Vec<FeatureId>)
        requires
            exists|n: nat| cascade_ok(old(self).features@, id, n),
        ensures
            (final(self).features@, removed@) == cascade(
                old(self).features@,
                id,
                choose|n: nat| cascade_ok(old(self).features@, id, n),
            ),
            final(self).parameters@ == old(self).parameters@,
            final(self).next_id == old(self).next_id,
            final(self).name@ == old(self).name@,
            final(self).format_version == old(self).format_version,
    {
        let ghost n = choose|n: nat| cascade_ok(self.features@, id, n);
        self.remove_cascade_within(id, Ghost(n))
    }

    /// Insert a feature at the rollback point, which currently is the end of
    /// the feature list.
    pub fn insert_after_rollback(&mut self, feature: Feature)
        ensures
            final(self).features@ == old(self).features@.push(feature),
            final(self).parameters@ == old(self).parameters@,
            final(self).next_id == old(self).next_id,
            final(self).name@ == old(self).name@,
            final(self).format_version == old(self).format_version,
    {
        self.features.push(feature);
    }
}

} // verus!

verus! {

/// Some feature with id `x` depends on the feature `on`.
pub open spec fn has_dependent(fs: Seq<Feature>, x: FeatureId, on: FeatureId) -> bool {
    exists|i: int| 0 <= i < fs.len() && fs[i].id == x && #[trigger] depends_on(fs[i], on)
}

/// `d[j]` is the id of a feature that depends on an earlier member of `d`.
pub open spec fn grounded_at(fs: Seq<Feature>, d: Seq<FeatureId>, j: int) -> bool {
    exists|k: int| 0 <= k < j && #[trigger] has_dependent(fs, d[j], d[k])
}

/// `d` is the dirty set for a change of `changed`: it starts with
/// `changed`, holds no id twice, every later member is the id of a feature
/// that depends on an earlier member, and every feature that depends on a
/// member is itself a member.
pub open spec fn is_dirty_closure(fs: Seq<Feature>, changed: FeatureId, d: Seq<FeatureId>) -> bool {
    &&& d.len() >= 1
    &&& d[0] == changed
    &&& d.no_duplicates()
    &&& forall|j: int| 0 < j < d.len() ==> #[trigger] grounded_at(fs, d, j)
    &&& forall|i: int, k: int|
        0 <= i < fs.len() && 0 <= k < d.len() && #[trigger] depends_on(fs[i], d[k])
            ==> d.contains(fs[i].id)
}

/// The ids a dirty set can hold: `changed` and the ids of the features.
pub open spec fn dirty_candidates(fs: Seq<Feature>, changed: FeatureId) -> Set<FeatureId> {
    fs.map_values(|f: Feature| f.id).to_set().insert(changed)
}

proof fn lemma_dirty_len(fs: Seq<Feature>, changed: FeatureId, d: Seq<FeatureId>)
    requires
        d.no_duplicates(),
        forall|j: int| 0 <= j < d.len() ==> dirty_candidates(fs, changed).contains(#[trigger] d[j]),
    ensures
        d.len() <= dirty_candidates(fs, changed).len(),
        dirty_candidates(fs, changed).finite(),
{
    let c = dirty_candidates(fs, changed);
    fs.map_values(|f: Feature| f.id).lemma_cardinality_of_set();
    assert(c.finite());
    d.unique_seq_to_set();
    assert(d.to_set().subset_of(c));
    vstd::set_lib::lemma_len_subset(d.to_set(), c);
}

/// Append to `stack` the ids of the features that depend on `id`, in
/// feature order.
fn push_dependents(fs: &Vec<Feature>, id: FeatureId, stack: &mut Vec<FeatureId>)
    ensures
        final(stack)@.len() >= old(stack)@.len(),
        final(stack)@.take(old(stack)@.len() as int) == old(stack)@,
        forall|q: int|
            old(stack)@.len() <= q < final(stack)@.len() ==> has_dependent(
                fs@,
                #[trigger] final(stack)@[q],
                id,
            ),
        forall|i: int|
            0 <= i < fs@.len() && #[trigger] depends_on(fs@[i], id) ==> final(stack)@.subrange(
                old(stack)@.len() as int,
                final(stack)@.len() as int,
            ).contains(fs@[i].id),
{
    let ghost s0 = stack@;
    let mut i: usize = 0;
    while i < fs.len()
        invariant
            i <= fs@.len(),
            stack@.len() >= s0.len(),
            stack@.take(s0.len() as int) == s0,
            forall|q: int|
                s0.len() <= q < stack@.len() ==> has_dependent(fs@, #[trigger] stack@[q], id),
            forall|j: int|
                0 <= j < i && #[trigger] depends_on(fs@[j], id) ==> stack@.subrange(
                    s0.len() as int,
                    stack@.len() as int,
                ).contains(fs@[j].id),
        decreases fs.len() - i,
    {
        if feature_depends_on(&fs[i], id) {
            let ghost st = stack@;
            stack.push(fs[i].id);
            proof {
                assert(stack@.take(s0.len() as int) =~= st.take(s0.len() as int));
                assert(has_dependent(fs@, stack@[st.len() as int], id)) by {
                    assert(fs@[i as int].id == stack@[st.len() as int]);
                }
                assert forall|q: int|
                    s0.len() <= q < stack@.len() implies has_dependent(fs@, #[trigger] stack@[q], id) by {
                    if q < st.len() {
                        assert(st[q] == stack@[q]);
                    }
                }
                assert forall|j: int|
                    0 <= j < i + 1 && #[trigger] depends_on(fs@[j], id) implies stack@.subrange(
                        s0.len() as int,
                        stack@.len() as int,
                    ).contains(fs@[j].id) by {
                    let nw = stack@.subrange(s0.len() as int, stack@.len() as int);
                    if j < i {
                        let old_nw = st.subrange(s0.len() as int, st.len() as int);
                        assert(old_nw.contains(fs@[j].id));
                        let w = choose|w: int| 0 <= w < old_nw.len() && old_nw[w] == fs@[j].id;
                        assert(nw[w] == old_nw[w]);
                    } else {
                        assert(nw[nw.len() - 1] == fs@[j].id);
                    }
                }
            }
        }
        i = i + 1;
    }
}

/// `x` is pending for a reason: it is `changed`, or the id of a feature
/// that depends on a member of `d`.
pub open spec fn pending_justified(
    fs: Seq<Feature>,
    changed: FeatureId,
    d: Seq<FeatureId>,
    x: FeatureId,
) -> bool {
    x == changed || exists|k: int| 0 <= k < d.len() && #[trigger] has_dependent(fs, x, d[k])
}

pub open spec fn stack_justified(
    fs: Seq<Feature>,
    changed: FeatureId,
    d: Seq<FeatureId>,
    st: Seq<FeatureId>,
) -> bool {
    forall|q: int| 0 <= q < st.len() ==> #[trigger] pending_justified(fs, changed, d, st[q])
}

pub open spec fn dirty_grounded(fs: Seq<Feature>, d: Seq<FeatureId>) -> bool {
    forall|j: int| 0 < j < d.len() ==> #[trigger] grounded_at(fs, d, j)
}

/// Every feature depending on a member of `d` is in `d` or pending in `st`.
pub open spec fn dirty_pending_closed(fs: Seq<Feature>, d: Seq<FeatureId>, st: Seq<FeatureId>) -> bool {
    forall|i: int, k: int|
        0 <= i < fs.len() && 0 <= k < d.len() && #[trigger] depends_on(fs[i], d[k]) ==> d.contains(
            fs[i].id,
        ) || st.contains(fs[i].id)
}

proof fn lemma_justified_grow(
    fs: Seq<Feature>,
    changed: FeatureId,
    d: Seq<FeatureId>,
    d1: Seq<FeatureId>,
    x: FeatureId,
)
    requires
        pending_justified(fs, changed, d, x),
        d1.len() >= d.len(),
        forall|k: int| 0 <= k < d.len() ==> d1[k] == d[k],
    ensures
        pending_justified(fs, changed, d1, x),
{
    if x != changed {
        let k = choose|k: int| 0 <= k < d.len() && #[trigger] has_dependent(fs, x, d[k]);
        assert(d1[k] == d[k]);
        assert(has_dependent(fs, x, d1[k]));
    }
}

proof fn lemma_dirty_pop_known(
    fs: Seq<Feature>,
    changed: FeatureId,
    d: Seq<FeatureId>,
    st: Seq<FeatureId>,
    id: FeatureId,
)
    requires
        stack_justified(fs, changed, d, st.push(id)),
        dirty_pending_closed(fs, d, st.push(id)),
        d.contains(id),
    ensures
        stack_justified(fs, changed, d, st),
        dirty_pending_closed(fs, d, st),
{
    let s0 = st.push(id);
    assert forall|q: int| 0 <= q < st.len() implies #[trigger] pending_justified(fs, changed, d, st[q]) by {
        assert(s0[q] == st[q]);
        assert(pending_justified(fs, changed, d, s0[q]));
    }
    assert forall|i: int, k: int|
        0 <= i < fs.len() && 0 <= k < d.len() && #[trigger] depends_on(fs[i], d[k]) implies d.contains(
        fs[i].id,
    ) || st.contains(fs[i].id) by {
        if s0.contains(fs[i].id) && fs[i].id != id {
            let w = choose|w: int| 0 <= w < s0.len() && s0[w] == fs[i].id;
            assert(st[w] == fs[i].id);
        }
    }
}

proof fn lemma_dirty_pop_new(
    fs: Seq<Feature>,
    changed: FeatureId,
    d: Seq<FeatureId>,
    st: Seq<FeatureId>,
    id: FeatureId,
    st1: Seq<FeatureId>,
)
    requires
        stack_justified(fs, changed, d, st.push(id)),
        dirty_pending_closed(fs, d, st.push(id)),
        dirty_grounded(fs, d),
        d.no_duplicates(),
        d.len() > 0 ==> d[0] == changed,
        d.len() == 0 ==> id == changed,
        !d.contains(id),
        st1.len() >= st.len(),
        st1.take(st.len() as int) == st,
        forall|q: int| st.len() <= q < st1.len() ==> has_dependent(fs, #[trigger] st1[q], id),
        forall|i: int|
            0 <= i < fs.len() && #[trigger] depends_on(fs[i], id) ==> st1.subrange(
                st.len() as int,
                st1.len() as int,
            ).contains(fs[i].id),
    ensures
        stack_justified(fs, changed, d.push(id), st1),
        dirty_pending_closed(fs, d.push(id), st1),
        dirty_grounded(fs, d.push(id)),
        d.push(id).no_duplicates(),
        d.push(id)[0] == changed,
        dirty_candidates(fs, changed).contains(id),
{
    let s0 = st.push(id);
    let d1 = d.push(id);
    assert(s0[st.len() as int] == id);
    assert(pending_justified(fs, changed, d, s0[st.len() as int]));
    if id != changed {
        let k = choose|k: int| 0 <= k < d.len() && #[trigger] has_dependent(fs, id, d[k]);
        let i = choose|i: int| 0 <= i < fs.len() && fs[i].id == id && #[trigger] depends_on(fs[i], d[k]);
        assert(fs.map_values(|f: Feature| f.id)[i] == id);
        assert(fs.map_values(|f: Feature| f.id).to_set().contains(id));
        assert(d1[k] == d[k]);
        assert(d1[d.len() as int] == id);
        assert(has_dependent(fs, d1[d.len() as int], d1[k]));
        assert(grounded_at(fs, d1, d.len() as int));
    }
    if d.len() > 0 {
        assert(id != changed) by {
            assert(d[0] == changed);
        }
    }
    assert forall|a: int, b: int| 0 <= a < d1.len() && 0 <= b < d1.len() && a != b implies d1[a]
        != d1[b] by {
        if a < d.len() && b < d.len() {
            assert(d[a] != d[b]);
        } else if a < d.len() {
            assert(d.contains(d[a]));
        } else if b < d.len() {
            assert(d.contains(d[b]));
        }
    }
    assert forall|j: int| 0 < j < d1.len() implies #[trigger] grounded_at(fs, d1, j) by {
        if j < d.len() {
            assert(grounded_at(fs, d, j));
            let k = choose|k: int| 0 <= k < j && #[trigger] has_dependent(fs, d[j], d[k]);
            assert(d1[k] == d[k] && d1[j] == d[j]);
            assert(has_dependent(fs, d1[j], d1[k]));
        }
    }
    assert forall|q: int| 0 <= q < st1.len() implies #[trigger] pending_justified(
        fs,
        changed,
        d1,
        st1[q],
    ) by {
        if q < st.len() {
            assert(st1.take(st.len() as int)[q] == st1[q]);
            assert(s0[q] == st1[q]);
            assert(pending_justified(fs, changed, d, s0[q]));
            lemma_justified_grow(fs, changed, d, d1, st1[q]);
        } else {
            assert(has_dependent(fs, st1[q], id));
            assert(d1[d.len() as int] == id);
            assert(has_dependent(fs, st1[q], d1[d.len() as int]));
        }
    }
    assert forall|a: int, k: int|
        0 <= a < fs.len() && 0 <= k < d1.len() && #[trigger] depends_on(fs[a], d1[k]) implies d1.contains(
        fs[a].id,
    ) || st1.contains(fs[a].id) by {
        if k == d.len() {
            assert(depends_on(fs[a], id));
            let nw = st1.subrange(st.len() as int, st1.len() as int);
            assert(nw.contains(fs[a].id));
            let w = choose|w: int| 0 <= w < nw.len() && nw[w] == fs[a].id;
            assert(st1[st.len() + w] == fs[a].id);
        } else {
            assert(d1[k] == d[k]);
            if d.contains(fs[a].id) {
                let w = choose|w: int| 0 <= w < d.len() && d[w] == fs[a].id;
                assert(d1[w] == fs[a].id);
            } else if fs[a].id == id {
                assert(d1[d.len() as int] == id);
            } else {
                assert(s0.contains(fs[a].id));
                let w = choose|w: int| 0 <= w < s0.len() && s0[w] == fs[a].id;
                assert(w < st.len());
                assert(st1.take(st.len() as int)[w] == st1[w]);
                assert(st1[w] == fs[a].id);
            }
        }
    }
}

/// The set of features that must be re-evaluated after `changed` changes:
/// `changed` itself plus every feature that depends on it directly or
/// transitively. Each id occurs once; the order carries no meaning.
pub fn compute_dirty(doc: &Document, changed: FeatureId) -> (dirty: Vec<FeatureId>)
    ensures
        is_dirty_closure(doc.features@, changed, dirty@),
{
    let ghost fs = doc.features@;
    let ghost cand = dirty_candidates(fs, changed);
    let mut dirty: Vec<FeatureId> = Vec::new();
    let mut stack: Vec<FeatureId> = Vec::new();
    stack.push(changed);
    proof {
        lemma_dirty_len(fs, changed, dirty@);
        assert(pending_justified(fs, changed, dirty@, stack@[0]));
    }
    while stack.len() > 0
        invariant
            fs == doc.features@,
            cand == dirty_candidates(fs, changed),
            cand.finite(),
            dirty@.len() <= cand.len(),
            dirty@.len() == 0 ==> stack@ == seq![changed],
            dirty@.len() > 0 ==> dirty@[0] == changed,
            dirty@.no_duplicates(),
            forall|j: int| 0 <= j < dirty@.len() ==> cand.contains(#[trigger] dirty@[j]),
            dirty_grounded(fs, dirty@),
            stack_justified(fs, changed, dirty@, stack@),
            dirty_pending_closed(fs, dirty@, stack@),
        decreases cand.len() - dirty@.len(), stack@.len(),
    {
        let ghost stack0 = stack@;
        let id = stack.pop().unwrap();
        proof {
            assert(stack0 =~= stack@.push(id));
        }
        if !id_listed(&dirty, id) {
            let ghost d0 = dirty@;
            let ghost st1 = stack@;
            push_dependents(&doc.features, id, &mut stack);
            proof {
                lemma_dirty_pop_new(fs, changed, d0, st1, id, stack@);
            }
            dirty.push(id);
            proof {
                lemma_dirty_len(fs, changed, dirty@);
            }
        } else {
            proof {
                lemma_dirty_pop_known(fs, changed, dirty@, stack@, id);
            }
        }
    }
    proof {
        if dirty@.len() == 0 {
            assert(stack@.len() == 1);
        }
        assert forall|i: int, k: int|
            0 <= i < fs.len() && 0 <= k < dirty@.len() && #[trigger] depends_on(fs[i], dirty@[k])
                implies dirty@.contains(fs[i].id) by {
            assert(!stack@.contains(fs[i].id));
        }
    }
    dirty
}

} // verus!


verus! {

/// No two features of `fs` share an id.
pub open spec fn unique_ids(fs: Seq<Feature>) -> bool {
    forall|i: int, j: int| 0 <= i < j < fs.len() ==> #[trigger] fs[i].id != #[trigger] fs[j].id
}

/// No feature of `fs` has the id `id`.
pub open spec fn lacks_id(fs: Seq<Feature>, id: FeatureId) -> bool {
    forall|j: int| 0 <= j < fs.len() ==> (#[trigger] fs[j]).id != id
}

pub(crate) proof fn lemma_first_exists(fs: Seq<Feature>, id: FeatureId, k: int)
    requires
        0 <= k < fs.len(),
        fs[k].id == id,
    ensures
        feature_pos(fs, id) is Some,
    decreases k,
{
    if forall|j: int| 0 <= j < k ==> (#[trigger] fs[j]).id != id {
        assert(is_first_feature(fs, id, k));
    } else {
        let j = choose|j: int| 0 <= j < k && (#[trigger] fs[j]).id == id;
        lemma_first_exists(fs, id, j);
    }
}

pub(crate) proof fn lemma_remove_keeps_unique(fs: Seq<Feature>, i: int)
    requires
        unique_ids(fs),
        0 <= i < fs.len(),
    ensures
        unique_ids(fs.remove(i)),
        lacks_id(fs.remove(i), fs[i].id),
{
    let r = fs.remove(i);
    assert forall|a: int, b: int| 0 <= a < b < r.len() implies #[trigger] r[a].id != #[trigger] r[b].id by {
        let a0 = if a < i { a } else { a + 1 };
        let b0 = if b < i { b } else { b + 1 };
        assert(r[a] == fs[a0]);
        assert(r[b] == fs[b0]);
        assert(fs[a0].id != fs[b0].id);
    }
    assert forall|j: int| 0 <= j < r.len() implies (#[trigger] r[j]).id != fs[i].id by {
        let j0 = if j < i { j } else { j + 1 };
        assert(r[j] == fs[j0]);
        if j0 < i {
            assert(fs[j0].id != fs[i].id);
        } else {
            assert(fs[i].id != fs[j0].id);
        }
    }
}

proof fn lemma_cascade_unique(fs: Seq<Feature>, id: FeatureId, n: nat)
    requires
        unique_ids(fs),
    ensures
        unique_ids(cascade(fs, id, n).0),
        n > 0 ==> lacks_id(cascade(fs, id, n).0, id),
    decreases n, 0nat,
{
    if n > 0 {
        let (fs1, r1) = cascade_all(fs, children_ids(fs, id), (n - 1) as nat);
        lemma_cascade_all_unique(fs, children_ids(fs, id), (n - 1) as nat);
        match feature_pos(fs1, id) {
            Some(i) => {
                assert(is_first_feature(fs1, id, i));
                lemma_remove_keeps_unique(fs1, i);
            },
            None => {
                assert forall|j: int| 0 <= j < fs1.len() implies (#[trigger] fs1[j]).id != id by {
                    if fs1[j].id == id {
                        lemma_first_exists(fs1, id, j);
                    }
                }
            },
        }
    }
}

proof fn lemma_cascade_all_unique(fs: Seq<Feature>, ids: Seq<FeatureId>, n: nat)
    requires
        unique_ids(fs),
    ensures
        unique_ids(cascade_all(fs, ids, n).0),
        n > 0 ==> forall|k: int| 0 <= k < ids.len() ==> lacks_id(cascade_all(fs, ids, n).0, #[trigger] ids[k]),
    decreases n, ids.len(),
{
    if ids.len() > 0 {
        let (fs1, r1) = cascade_all(fs, ids.drop_last(), n);
        lemma_cascade_all_unique(fs, ids.drop_last(), n);
        lemma_cascade_unique(fs1, ids.last(), n);
        lemma_cascade_within(fs1, ids.last(), n);
        let fs2 = cascade(fs1, ids.last(), n).0;
        if n > 0 {
            assert forall|k: int| 0 <= k < ids.len() implies lacks_id(fs2, #[trigger] ids[k]) by {
                if k < ids.len() - 1 {
                    assert(ids.drop_last()[k] == ids[k]);
                    assert(lacks_id(fs1, ids.drop_last()[k]));
                    assert forall|j: int| 0 <= j < fs2.len() implies (#[trigger] fs2[j]).id != ids[k] by {
                        assert(fs1.contains(fs2[j]));
                    }
                }
            }
        }
    }
}

/// Removing a feature with everything nested under it leaves, in a feature
/// list whose ids are unique, no feature with that id and no feature nested
/// under it; every feature that stays was there before, and ids stay unique.
pub proof fn lemma_cascade_complete(fs: Seq<Feature>, id: FeatureId, n: nat)
    requires
        unique_ids(fs),
        cascade_ok(fs, id, n),
    ensures
        lacks_id(cascade(fs, id, n).0, id),
        forall|j: int|
            0 <= j < cascade(fs, id, n).0.len() ==> !is_child_of(#[trigger] cascade(fs, id, n).0[j], id),
        features_within(cascade(fs, id, n).0, fs),
        unique_ids(cascade(fs, id, n).0),
{
    broadcast use vstd::seq_lib::group_filter_ensures;

    let kids = children_ids(fs, id);
    let (fs1, r1) = cascade_all(fs, kids, (n - 1) as nat);
    lemma_cascade_unique(fs, id, n);
    lemma_cascade_within(fs, id, n);
    lemma_cascade_all_within(fs, kids, (n - 1) as nat);
    lemma_cascade_all_unique(fs, kids, (n - 1) as nat);
    let r = cascade(fs, id, n).0;
    assert(features_within(r, fs1)) by {
        match feature_pos(fs1, id) {
            Some(i) => {
                assert forall|j: int| 0 <= j < r.len() implies fs1.contains(#[trigger] r[j]) by {
                    if j < i {
                        assert(r[j] == fs1[j]);
                    } else {
                        assert(r[j] == fs1[j + 1]);
                    }
                }
            },
            None => {},
        }
    }
    assert forall|j: int| 0 <= j < r.len() implies !is_child_of(#[trigger] r[j], id) by {
        if is_child_of(r[j], id) {
            let g = r[j];
            assert(fs1.contains(g));
            assert(fs.contains(g));
            let a = choose|a: int| 0 <= a < fs.len() && fs[a] == g;
            let p = |f: Feature| is_child_of(f, id);
            assert(fs.filter(p).contains(fs[a]));
            let b = choose|b: int| 0 <= b < fs.filter(p).len() && fs.filter(p)[b] == g;
            assert(kids[b] == g.id);
            // A child needs a positive depth to be removed, which cascade_ok provides.
            assert(cascade_ok(fs, fs[a].id, (n - 1) as nat));
            assert(lacks_id(fs1, kids[b]));
            let c = choose|c: int| 0 <= c < fs1.len() && fs1[c] == g;
            assert(fs1[c].id != kids[b]);
        }
    }
}

/// What `remove_feature_cascade` leaves behind: on a document whose feature
/// ids are unique, neither the removed feature nor anything nested under it
/// is left, and nothing else appears.
pub proof fn lemma_remove_cascade_complete(fs: Seq<Feature>, id: FeatureId)
    requires
        unique_ids(fs),
        exists|n: nat| cascade_ok(fs, id, n),
    ensures
        ({
            let r = cascade(fs, id, choose|n: nat| cascade_ok(fs, id, n)).0;
            &&& lacks_id(r, id)
            &&& forall|j: int| 0 <= j < r.len() ==> !is_child_of(#[trigger] r[j], id)
            &&& features_within(r, fs)
        }),
{
    lemma_cascade_complete(fs, id, choose|n: nat| cascade_ok(fs, id, n));
}

} // verus!
