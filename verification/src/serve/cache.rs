//! What the watch caches list, as a decision reads it.
//!
//! A cache that has not finished its first list is empty, and an empty cache cannot be told from a
//! cluster that has nothing in it. So a cold cache never decides.
use vstd::prelude::*;

use crate::order;
use crate::order::sort;
use crate::serve::objects::{ObjectMeta, ObjectMetaModel};
use crate::text;
use crate::text::{join, owned, same, split_once};

verus! {

/// Which caches have finished their first list.
#[derive(Debug, Clone, Copy, PartialEq, Eq, Structural)]
pub struct Readiness {
    pub manifests: bool,
    pub policies: bool,
    pub roles: bool,
    pub cluster_roles: bool,
    pub role_bindings: bool,
    pub cluster_role_bindings: bool,
}

impl DeepView for Readiness {
    type V = Readiness;

    open spec fn deep_view(&self) -> Readiness {
        *self
    }
}

/// What the manifest cache has for a namespace. No manifest is not an empty manifest, and two are not
/// the first of them: a wall that chose would let whoever can create one choose the ceiling.
#[derive(Debug, Clone, PartialEq, Eq)]
pub enum ManifestLookup {
    /// The only one, by its place in the listing.
    One(usize),
    Nothing,
    /// The names of several.
    Ambiguous(Vec<String>),
}

/// What a [`ManifestLookup`] says.
#[verifier::ext_equal]
pub enum ManifestLookupModel {
    One(usize),
    Nothing,
    Ambiguous(Seq<Seq<char>>),
}

impl DeepView for ManifestLookup {
    type V = ManifestLookupModel;

    open spec fn deep_view(&self) -> ManifestLookupModel {
        match self {
            ManifestLookup::One(x) => ManifestLookupModel::One(x.deep_view()),
            ManifestLookup::Nothing => ManifestLookupModel::Nothing,
            ManifestLookup::Ambiguous(x) => ManifestLookupModel::Ambiguous(x.deep_view()),
        }
    }
}

/// The name of a cache, where it is cold.
pub open spec fn cold_name(name: Seq<char>, ready: bool) -> Seq<Seq<char>> {
    if ready {
        Seq::empty()
    } else {
        seq![name]
    }
}

impl Readiness {
    /// The caches that are still cold, by name.
    pub open spec fn cold_ones(self) -> Seq<Seq<char>> {
        cold_name("lexmanifests"@, self.manifests) + cold_name("networkpolicies"@, self.policies)
            + cold_name("roles"@, self.roles) + cold_name("clusterroles"@, self.cluster_roles)
            + cold_name("rolebindings"@, self.role_bindings) + cold_name(
            "clusterrolebindings"@,
            self.cluster_role_bindings,
        )
    }

    /// The caches that are still cold. All six must be warm: to decide while one is cold would be
    /// to read an absence as permission.
    pub fn cold(&self) -> (r: Vec<String>)
        ensures
            r.deep_view() == self.cold_ones(),
    {
        let mut out: Vec<String> = Vec::new();
        if !self.manifests {
            out.push(owned("lexmanifests"));
        }
        if !self.policies {
            out.push(owned("networkpolicies"));
        }
        if !self.roles {
            out.push(owned("roles"));
        }
        if !self.cluster_roles {
            out.push(owned("clusterroles"));
        }
        if !self.role_bindings {
            out.push(owned("rolebindings"));
        }
        if !self.cluster_role_bindings {
            out.push(owned("clusterrolebindings"));
        }
        assert(out.deep_view() =~= self.cold_ones());
        out
    }

    /// What the readiness probe is answered: a status, and a text that names what is cold.
    pub fn report(&self) -> (r: (u16, String))
        ensures
            r.0 == (if self.cold_ones().len() == 0 {
                200int
            } else {
                503
            }),
            r.1@ == (if self.cold_ones().len() == 0 {
                "ready\n"@
            } else {
                "caches still cold: "@ + text::joined(self.cold_ones(), ", "@) + "\n"@
            }),
    {
        let cold = self.cold();
        assert(cold.deep_view().len() == cold.len());
        if cold.len() == 0 {
            (200, owned("ready\n"))
        } else {
            (503, owned("caches still cold: ").concat(join(&cold, ", ").as_str()).concat("\n"))
        }
    }
}

// ---------------------------------------------------------------------------------------------
// Manifests
// ---------------------------------------------------------------------------------------------
/// The places of the objects of a namespace, in order.
pub open spec fn places_in(metas: Seq<ObjectMetaModel>, namespace: Seq<char>) -> Seq<int>
    decreases metas.len(),
{
    if metas.len() == 0 {
        Seq::empty()
    } else {
        let before = places_in(metas.drop_last(), namespace);
        if metas.last().namespace == Some(namespace) {
            before.push(metas.len() - 1)
        } else {
            before
        }
    }
}

/// The names of the objects of a namespace, in the order of the listing.
pub open spec fn names_in(metas: Seq<ObjectMetaModel>, namespace: Seq<char>) -> Seq<Seq<char>>
    decreases metas.len(),
{
    if metas.len() == 0 {
        Seq::empty()
    } else {
        let before = names_in(metas.drop_last(), namespace);
        if metas.last().namespace == Some(namespace) {
            before.push(
                match metas.last().name {
                    Some(n) => n,
                    None => Seq::empty(),
                },
            )
        } else {
            before
        }
    }
}

/// The manifest that governs a namespace: exactly one, or else none at all or several names.
pub open spec fn governing_manifest(
    metas: Seq<ObjectMetaModel>,
    namespace: Seq<char>,
) -> ManifestLookupModel {
    let places = places_in(metas, namespace);
    if places.len() == 0 {
        ManifestLookupModel::Nothing
    } else if places.len() == 1 {
        ManifestLookupModel::One(places[0] as usize)
    } else {
        ManifestLookupModel::Ambiguous(order::in_order::<String>(names_in(metas, namespace)))
    }
}

/// The manifest that governs a namespace, among those that the cache lists.
pub fn manifest_for(metas: &Vec<ObjectMeta>, namespace: &str) -> (r: ManifestLookup)
    ensures
        r.deep_view() == governing_manifest(metas.deep_view(), namespace@),
{
    let ghost all = metas.deep_view();
    let mut names: Vec<String> = Vec::new();
    let mut last: usize = 0;
    let mut i: usize = 0;
    assert(names.deep_view() =~= names_in(all.subrange(0, 0), namespace@));
    while i < metas.len()
        invariant
            i <= metas.len(),
            all == metas.deep_view(),
            names.deep_view() == names_in(all.subrange(0, i as int), namespace@),
            names@.len() == places_in(all.subrange(0, i as int), namespace@).len(),
            names@.len() > 0 ==> last == places_in(all.subrange(0, i as int), namespace@).last(),
        decreases metas.len() - i,
    {
        let ghost next = all.subrange(0, i + 1);
        assert(next.drop_last() =~= all.subrange(0, i as int));
        let m = &metas[i];
        assert(next.last() == m.deep_view());
        let here: bool = match &m.namespace {
            Some(n) => same(n.as_str(), namespace),
            None => false,
        };
        if here {
            let ghost before = names.deep_view();
            let name: String = match &m.name {
                Some(n) => n.clone(),
                None => String::new(),
            };
            assert(m.deep_view().name is None ==> name@ =~= Seq::<char>::empty());
            names.push(name);
            assert(names.deep_view() =~= before.push(name@));
            last = i;
        }
        i += 1;
    }
    assert(all.subrange(0, i as int) =~= all);
    if names.len() == 0 {
        ManifestLookup::Nothing
    } else if names.len() == 1 {
        ManifestLookup::One(last)
    } else {
        ManifestLookup::Ambiguous(sort(&names))
    }
}

/// An object is the one that a reference names: by its name, and by its namespace, or the root
/// namespace for `cluster/<name>`. An object without a namespace is the cluster's own.
pub open spec fn is_referred_to(
    m: ObjectMetaModel,
    reference: Seq<char>,
    root_namespace: Seq<char>,
) -> bool {
    let at = text::first_at(reference, '/');
    let ns = reference.subrange(0, at);
    let name = reference.subrange(at + 1, reference.len() as int);
    let own = match m.namespace {
        Some(n) => n,
        None => Seq::empty(),
    };
    &&& m.name == Some(name)
    &&& if own.len() == 0 {
        ns == "cluster"@
    } else {
        own == (if ns == "cluster"@ {
            root_namespace
        } else {
            ns
        })
    }
}

/// The first object that a reference names. A text without a `/` names none.
pub open spec fn referred_to(
    metas: Seq<ObjectMetaModel>,
    reference: Seq<char>,
    root_namespace: Seq<char>,
) -> Option<int>
    decreases metas.len(),
{
    if metas.len() == 0 || !reference.contains('/') {
        None
    } else {
        match referred_to(metas.drop_last(), reference, root_namespace) {
            Some(i) => Some(i),
            None => if is_referred_to(metas.last(), reference, root_namespace) {
                Some(metas.len() - 1)
            } else {
                None
            },
        }
    }
}

proof fn referred_to_stays(
    metas: Seq<ObjectMetaModel>,
    reference: Seq<char>,
    root_namespace: Seq<char>,
    n: int,
)
    requires
        0 <= n <= metas.len(),
        referred_to(metas.subrange(0, n), reference, root_namespace) is Some,
    ensures
        referred_to(metas, reference, root_namespace) == referred_to(
            metas.subrange(0, n),
            reference,
            root_namespace,
        ),
    decreases metas.len() - n,
{
    if n == metas.len() {
        assert(metas.subrange(0, n) =~= metas);
    } else {
        assert(metas.subrange(0, n + 1).drop_last() =~= metas.subrange(0, n));
        referred_to_stays(metas, reference, root_namespace, n + 1);
    }
}

/// The place of a manifest that is named as `<namespace>/<name>`, or as `cluster/<name>` for the
/// ceiling of the platform, which lives in the root namespace: that is where the authority to set
/// it already lives.
pub fn manifest_by_reference(
    metas: &Vec<ObjectMeta>,
    reference: &str,
    root_namespace: &str,
) -> (r: Option<usize>)
    ensures
        match r {
            Some(i) => referred_to(metas.deep_view(), reference@, root_namespace@) == Some(i as int),
            None => referred_to(metas.deep_view(), reference@, root_namespace@) is None,
        },
{
    let ghost all = metas.deep_view();
    let (ns, name): (&str, &str) = match split_once(reference, '/') {
        Some((a, b)) => (a, b),
        None => return None,
    };
    assert(reference@[text::first_at(reference@, '/')] == '/');
    let of_cluster: bool = same(ns, "cluster");
    let wanted: &str = if of_cluster {
        root_namespace
    } else {
        ns
    };
    let mut i: usize = 0;
    while i < metas.len()
        invariant
            i <= metas.len(),
            all == metas.deep_view(),
            reference@.contains('/'),
            ns@ == reference@.subrange(0, text::first_at(reference@, '/')),
            name@ == reference@.subrange(
                text::first_at(reference@, '/') + 1,
                reference@.len() as int,
            ),
            of_cluster == (ns@ == "cluster"@),
            wanted@ == (if of_cluster {
                root_namespace@
            } else {
                ns@
            }),
            referred_to(all.subrange(0, i as int), reference@, root_namespace@) is None,
        decreases metas.len() - i,
    {
        let ghost next = all.subrange(0, i + 1);
        assert(next.drop_last() =~= all.subrange(0, i as int));
        let m = &metas[i];
        assert(next.last() == m.deep_view());
        let named: bool = match &m.name {
            Some(n) => same(n.as_str(), name),
            None => false,
        };
        let placed: bool = match &m.namespace {
            Some(n) => if n.as_str().unicode_len() == 0 {
                of_cluster
            } else {
                same(n.as_str(), wanted)
            },
            None => of_cluster,
        };
        if named && placed {
            proof {
                assert(referred_to(next, reference@, root_namespace@) == Some(i as int));
                referred_to_stays(all, reference@, root_namespace@, i + 1);
            }
            return Some(i);
        }
        i += 1;
    }
    assert(all.subrange(0, i as int) =~= all);
    None
}

// ---------------------------------------------------------------------------------------------
// Laws
// ---------------------------------------------------------------------------------------------
/// Nothing is cold exactly where every cache has listed.
pub proof fn ready_means_every_cache(r: Readiness)
    ensures
        r.cold_ones().len() == 0 <==> r.manifests && r.policies && r.roles && r.cluster_roles
            && r.role_bindings && r.cluster_role_bindings,
{
}

/// A namespace is governed by one manifest only where exactly one is listed in it.
pub proof fn a_ceiling_is_never_chosen(
    metas: Seq<ObjectMetaModel>,
    namespace: Seq<char>,
    i: int,
    j: int,
)
    requires
        0 <= i < j < metas.len(),
        metas[i].namespace == Some(namespace),
        metas[j].namespace == Some(namespace),
    ensures
        governing_manifest(metas, namespace) is Ambiguous,
{
    two_places(metas, namespace, i, j);
}

proof fn one_place(metas: Seq<ObjectMetaModel>, namespace: Seq<char>, i: int)
    requires
        0 <= i < metas.len(),
        metas[i].namespace == Some(namespace),
    ensures
        places_in(metas, namespace).len() >= 1,
    decreases metas.len(),
{
    if i < metas.len() - 1 {
        one_place(metas.drop_last(), namespace, i);
    }
}

proof fn two_places(metas: Seq<ObjectMetaModel>, namespace: Seq<char>, i: int, j: int)
    requires
        0 <= i < j < metas.len(),
        metas[i].namespace == Some(namespace),
        metas[j].namespace == Some(namespace),
    ensures
        places_in(metas, namespace).len() >= 2,
    decreases metas.len(),
{
    if j < metas.len() - 1 {
        two_places(metas.drop_last(), namespace, i, j);
    } else {
        one_place(metas.drop_last(), namespace, i);
    }
}

/// A namespace is governed by the one manifest in it: by none where it has none, and by none that is
/// chosen where it has several.
pub proof fn the_one_manifest_in_a_namespace_governs(
    metas: Seq<ObjectMetaModel>,
    namespace: Seq<char>,
    i: int,
)
    requires
        metas.len() <= usize::MAX,
    ensures
        (forall|j: int| 0 <= j < metas.len() ==> (#[trigger] metas[j]).namespace != Some(namespace))
            ==> governing_manifest(metas, namespace) is Nothing,
        0 <= i < metas.len() && metas[i].namespace == Some(namespace) && (forall|j: int|
            0 <= j < metas.len() && j != i ==> (#[trigger] metas[j]).namespace != Some(namespace))
            ==> governing_manifest(metas, namespace) == ManifestLookupModel::One(i as usize),
{
    places_are_those(metas, namespace);
    let places = places_in(metas, namespace);
    if 0 <= i < metas.len() && metas[i].namespace == Some(namespace) && (forall|j: int|
        0 <= j < metas.len() && j != i ==> (#[trigger] metas[j]).namespace != Some(namespace)) {
        one_place(metas, namespace, i);
        assert(places[0] == i);
        if places.len() > 1 {
            assert(places[1] == i);
        }
    }
    if forall|j: int| 0 <= j < metas.len() ==> (#[trigger] metas[j]).namespace != Some(namespace) {
        if places.len() > 0 {
            assert(metas[places[0]].namespace == Some(namespace));
        }
    }
}

proof fn places_are_those(metas: Seq<ObjectMetaModel>, namespace: Seq<char>)
    ensures
        forall|k: int|
            0 <= k < places_in(metas, namespace).len() ==> 0 <= #[trigger] places_in(
                metas,
                namespace,
            )[k] < metas.len() && metas[places_in(metas, namespace)[k]].namespace == Some(namespace),
        forall|k: int, l: int|
            0 <= k < l < places_in(metas, namespace).len() ==> #[trigger] places_in(
                metas,
                namespace,
            )[k] < #[trigger] places_in(metas, namespace)[l],
    decreases metas.len(),
{
    if metas.len() > 0 {
        let before = metas.drop_last();
        places_are_those(before, namespace);
        let p = places_in(before, namespace);
        assert forall|k: int| 0 <= k < p.len() implies metas[#[trigger] p[k]].namespace == Some(
            namespace,
        ) by {
            assert(before[p[k]] == metas[p[k]]);
        }
    }
}

/// A reference is a namespace and a name: it finds the manifest that has both, where `cluster` stands
/// for the root namespace or for none; and a reference without a slash finds nothing.
pub proof fn a_reference_is_a_namespace_and_a_name(
    metas: Seq<ObjectMetaModel>,
    namespace: Seq<char>,
    name: Seq<char>,
    root: Seq<char>,
)
    requires
        !namespace.contains('/'),
    ensures
        ({
            let r = namespace + seq!['/'] + name;
            let is_it = |m: ObjectMetaModel|
                m.name == Some(name) && if namespace == "cluster"@ {
                    m.namespace is None || m.namespace->0.len() == 0 || m.namespace->0 == root
                } else {
                    m.namespace matches Some(n) && n.len() > 0 && n == namespace
                };
            &&& referred_to(metas, r, root) is Some <==> exists|i: int|
                0 <= i < metas.len() && is_it(#[trigger] metas[i])
            &&& referred_to(metas, r, root) matches Some(i) ==> 0 <= i < metas.len() && is_it(
                metas[i],
            ) && forall|j: int| 0 <= j < i ==> !is_it(#[trigger] metas[j])
        }),
        !namespace.contains('/') ==> referred_to(metas, namespace, root) is None,
    decreases metas.len(),
{
    let r = namespace + seq!['/'] + name;
    text::the_first_place_is_first(r, '/');
    let at = text::first_at(r, '/');
    assert(r[namespace.len() as int] == '/');
    if at < namespace.len() {
        assert(namespace[at] == '/');
        assert(namespace.contains('/'));
    }
    assert(r.contains('/'));
    assert(r.subrange(0, at) =~= namespace);
    assert(r.subrange(at + 1, r.len() as int) =~= name);
    let is_it = |m: ObjectMetaModel|
        m.name == Some(name) && if namespace == "cluster"@ {
            m.namespace is None || m.namespace->0.len() == 0 || m.namespace->0 == root
        } else {
            m.namespace matches Some(n) && n.len() > 0 && n == namespace
        };
    assert forall|m: ObjectMetaModel| is_referred_to(m, r, root) == #[trigger] is_it(m) by {}
    if metas.len() > 0 {
        let before = metas.drop_last();
        a_reference_is_a_namespace_and_a_name(before, namespace, name, root);
        assert(metas[metas.len() - 1] == metas.last());
        assert forall|i: int| 0 <= i < before.len() implies #[trigger] before[i] == metas[i] by {}
        match referred_to(before, r, root) {
            Some(i) => {
                assert(before[i] == metas[i]);
                assert forall|j: int| 0 <= j < i implies !is_it(#[trigger] metas[j]) by {
                    assert(!is_it(before[j]));
                }
                assert(is_it(metas[i]));
            },
            None => {
                assert forall|j: int| 0 <= j < before.len() implies !is_it(#[trigger] metas[j]) by {
                    assert(!is_it(before[j]));
                }
                assert(is_referred_to(metas.last(), r, root) == is_it(metas[metas.len() - 1]));
            },
        }
    }
}

/// A cache that is cold is named, and no other.
pub proof fn a_cold_cache_is_named(r: Readiness, name: Seq<char>)
    ensures
        r.cold_ones().contains(name) <==> {
            ||| name == "lexmanifests"@ && !r.manifests
            ||| name == "networkpolicies"@ && !r.policies
            ||| name == "roles"@ && !r.roles
            ||| name == "clusterroles"@ && !r.cluster_roles
            ||| name == "rolebindings"@ && !r.role_bindings
            ||| name == "clusterrolebindings"@ && !r.cluster_role_bindings
        },
{
    let a = cold_name("lexmanifests"@, r.manifests);
    let b = cold_name("networkpolicies"@, r.policies);
    let c = cold_name("roles"@, r.roles);
    let d = cold_name("clusterroles"@, r.cluster_roles);
    let e = cold_name("rolebindings"@, r.role_bindings);
    let f = cold_name("clusterrolebindings"@, r.cluster_role_bindings);
    named_in(a, b, name);
    named_in(a + b, c, name);
    named_in(a + b + c, d, name);
    named_in(a + b + c + d, e, name);
    named_in(a + b + c + d + e, f, name);
    one_name("lexmanifests"@, r.manifests, name);
    one_name("networkpolicies"@, r.policies, name);
    one_name("roles"@, r.roles, name);
    one_name("clusterroles"@, r.cluster_roles, name);
    one_name("rolebindings"@, r.role_bindings, name);
    one_name("clusterrolebindings"@, r.cluster_role_bindings, name);
}

proof fn one_name(cache: Seq<char>, ready: bool, name: Seq<char>)
    ensures
        cold_name(cache, ready).contains(name) <==> name == cache && !ready,
{
    if !ready {
        assert(cold_name(cache, ready)[0] == cache);
    }
}

proof fn named_in(a: Seq<Seq<char>>, b: Seq<Seq<char>>, x: Seq<char>)
    ensures
        (a + b).contains(x) <==> a.contains(x) || b.contains(x),
{
    if a.contains(x) {
        let i = choose|i: int| 0 <= i < a.len() && a[i] == x;
        assert((a + b)[i] == x);
    }
    if b.contains(x) {
        let i = choose|i: int| 0 <= i < b.len() && b[i] == x;
        assert((a + b)[a.len() + i] == x);
    }
    if (a + b).contains(x) {
        let i = choose|i: int| 0 <= i < (a + b).len() && (a + b)[i] == x;
        if i < a.len() {
            assert(a[i] == x);
        } else {
            assert(b[i - a.len()] == x);
        }
    }
}

/// Where several manifests stand in a namespace, their names are given, each of them and no other.
pub proof fn every_rival_is_named(metas: Seq<ObjectMetaModel>, namespace: Seq<char>, n: Seq<char>)
    ensures
        names_in(metas, namespace).contains(n) <==> exists|i: int|
            0 <= i < metas.len() && (#[trigger] metas[i]).namespace == Some(namespace) && (
            metas[i].name == Some(n) || (metas[i].name is None && n.len() == 0)),
        names_in(metas, namespace).len() == places_in(metas, namespace).len(),
    decreases metas.len(),
{
    if metas.len() > 0 {
        let before = metas.drop_last();
        let all = names_in(metas, namespace);
        let short = names_in(before, namespace);
        every_rival_is_named(before, namespace, n);
        assert(metas[metas.len() - 1] == metas.last());
        if short.contains(n) {
            let k = choose|k: int| 0 <= k < short.len() && short[k] == n;
            assert(all[k] == n);
            let i = choose|i: int|
                0 <= i < before.len() && (#[trigger] before[i]).namespace == Some(namespace) && (
                before[i].name == Some(n) || (before[i].name is None && n.len() == 0));
            assert(metas[i] == before[i]);
        }
        if metas.last().namespace == Some(namespace) {
            let x = match metas.last().name {
                Some(m) => m,
                None => Seq::empty(),
            };
            assert(all[all.len() - 1] == x);
            if n.len() == 0 {
                assert(n =~= Seq::<char>::empty());
            }
        }
        if all.contains(n) {
            let k = choose|k: int| 0 <= k < all.len() && all[k] == n;
            if k < short.len() {
                assert(short[k] == n);
            }
        }
        if exists|i: int|
            0 <= i < metas.len() && (#[trigger] metas[i]).namespace == Some(namespace) && (
            metas[i].name == Some(n) || (metas[i].name is None && n.len() == 0)) {
            let i = choose|i: int|
                0 <= i < metas.len() && (#[trigger] metas[i]).namespace == Some(namespace) && (
                metas[i].name == Some(n) || (metas[i].name is None && n.len() == 0));
            if i < before.len() {
                assert(before[i] == metas[i]);
            }
        }
    }
}

} // verus!
