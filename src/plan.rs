use vstd::prelude::*;

use crate::error::UpdateError;
use crate::manifest::{names_view, DatastoreEntry, EdgeModel, Manifest};
use crate::version::{dversion_le, dversion_rank, lemma_dversion_rank_injective, DVersion, Version};

verus! {

/// An edge that the planner may take from `v` on its way to `target`: it leaves `v` and
/// does not pass `target`.
pub open spec fn eligible(e: EdgeModel, v: DVersion, target: DVersion) -> bool {
    e.from == v && dversion_rank(e.to) <= dversion_rank(target)
}

/// Among the first `n` edges, the first eligible one whose `to` is greatest.
pub open spec fn best_edge(es: Seq<EdgeModel>, v: DVersion, target: DVersion, n: nat) -> Option<int>
    decreases n,
{
    if n == 0 {
        None
    } else {
        let prev = best_edge(es, v, target, (n - 1) as nat);
        let i = n - 1;
        if eligible(es[i], v, target) && (prev is None || dversion_rank(es[prev->0].to)
            < dversion_rank(es[i].to)) {
            Some(i)
        } else {
            prev
        }
    }
}

/// The artifacts met on the greedy walk from `v` to `target`, taking at each step the
/// edge that reaches furthest without passing `target`, for at most `steps` steps. The
/// walk fails with `MissingMigration` where no edge leaves the version it stands at, and
/// with `MigrationCycle` where the steps run out first.
pub open spec fn walk(es: Seq<EdgeModel>, v: DVersion, target: DVersion, steps: nat) -> Result<
    Seq<Seq<char>>,
    UpdateError,
>
    decreases steps,
{
    if v == target {
        Ok(Seq::empty())
    } else {
        match best_edge(es, v, target, es.len()) {
            Some(i) => if steps == 0 {
                Err(UpdateError::MigrationCycle { current: v, target })
            } else {
                match walk(es, es[i].to, target, (steps - 1) as nat) {
                    Ok(rest) => Ok(es[i].migrations + rest),
                    Err(x) => Err(x),
                }
            },
            None => Err(UpdateError::MissingMigration { current: v, target }),
        }
    }
}

pub open spec fn lower(a: DVersion, b: DVersion) -> DVersion {
    if dversion_le(a, b) {
        a
    } else {
        b
    }
}

pub open spec fn upper(a: DVersion, b: DVersion) -> DVersion {
    if dversion_le(a, b) {
        b
    } else {
        a
    }
}

/// The migration plan between two data-store versions: the walk from the lower to the
/// higher, whichever way the host moves, in at most as many steps as there are edges.
/// Each step takes an edge from a version the walk has not yet left (the choice at a
/// version is fixed), so a walk that needs more steps never ends.
pub open spec fn plan(es: Seq<EdgeModel>, from: DVersion, to: DVersion) -> Result<
    Seq<Seq<char>>,
    UpdateError,
> {
    walk(es, lower(from, to), upper(from, to), es.len())
}

/// Planning from `a` to `b` and from `b` to `a` gives the same artifacts, or the same
/// error.
pub proof fn lemma_plan_symmetric(es: Seq<EdgeModel>, a: DVersion, b: DVersion)
    ensures
        plan(es, a, b) == plan(es, b, a),
{
    lemma_dversion_rank_injective(a, b);
}

proof fn lemma_best_edge(es: Seq<EdgeModel>, v: DVersion, target: DVersion, n: nat)
    requires
        n <= es.len(),
    ensures
        match best_edge(es, v, target, n) {
            Some(i) => 0 <= i < n && eligible(es[i], v, target) && forall|j: int|
                0 <= j < n && eligible(es[j], v, target) ==> dversion_rank(es[j].to)
                    <= dversion_rank(es[i].to),
            None => forall|j: int| 0 <= j < n ==> !eligible(es[j], v, target),
        },
    decreases n,
{
    if n > 0 {
        lemma_best_edge(es, v, target, (n - 1) as nat);
    }
}

fn append_names(out: &mut Vec<String>, names: &Vec<String>)
    ensures
        names_view(final(out)@) == names_view(old(out)@) + names_view(names@),
{
    let mut k: usize = 0;
    while k < names.len()
        invariant
            k <= names@.len(),
            names_view(out@) == names_view(old(out)@) + names_view(names@).subrange(0, k as int),
        decreases names@.len() - k,
    {
        let ghost before = out@;
        out.push(names[k].clone());
        assert(names_view(out@) =~= names_view(before).push(names@[k as int]@));
        assert(names_view(names@).subrange(0, k + 1) =~= names_view(names@).subrange(0, k as int).push(
            names@[k as int]@,
        ));
        k = k + 1;
    }
    assert(names_view(names@).subrange(0, k as int) =~= names_view(names@));
}

/// The migration artifacts to stage when the data store moves between `from` and `to`,
/// in the order they run: the greedy walk from the lower version to the higher, which may
/// pass through lower versions on the way.
pub fn migration_targets(from: &DVersion, to: &DVersion, manifest: &Manifest) -> (r: Result<
    Vec<String>,
    UpdateError,
>)
    ensures
        match plan(manifest@.migrations, *from, *to) {
            Ok(names) => r matches Ok(v) && names_view(v@) == names,
            Err(e) => r == Err::<Vec<String>, UpdateError>(e),
        },
{
    let ghost es = manifest@.migrations;
    let edges = &manifest.migrations;
    let (start, target) = if from.le(to) {
        (*from, *to)
    } else {
        (*to, *from)
    };
    let mut v = start;
    let mut out: Vec<String> = Vec::new();
    let mut steps: usize = edges.len();
    while !v.same(&target)
        invariant
            es == manifest@.migrations,
            edges == &manifest.migrations,
            es.len() == edges@.len(),
            forall|j: int| 0 <= j < edges@.len() ==> es[j] == #[trigger] edges@[j]@,
            steps <= es.len(),
            target == upper(*from, *to),
            plan(es, *from, *to) == match walk(es, v, target, steps as nat) {
                Ok(rest) => Ok(names_view(out@) + rest),
                Err(x) => Err(x),
            },
        decreases steps,
    {
        let mut best: Option<usize> = None;
        let mut k: usize = 0;
        while k < edges.len()
            invariant
                k <= edges@.len(),
                es.len() == edges@.len(),
                forall|j: int| 0 <= j < edges@.len() ==> es[j] == #[trigger] edges@[j]@,
                match best {
                    Some(b) => b < k && best_edge(es, v, target, k as nat) == Some(b as int),
                    None => best_edge(es, v, target, k as nat) is None,
                },
            decreases edges@.len() - k,
        {
            let e = &edges[k];
            assert(es[k as int] == e@);
            let ghost prev = best_edge(es, v, target, k as nat);
            assert(best_edge(es, v, target, (k + 1) as nat) == if eligible(es[k as int], v, target) && (
            prev is None || dversion_rank(es[prev->0].to) < dversion_rank(es[k as int].to)) {
                Some(k as int)
            } else {
                prev
            });
            if e.from.same(&v) && e.to.le(&target) {
                match best {
                    Some(b) => {
                        assert(es[b as int] == edges@[b as int]@);
                        if !e.to.le(&edges[b].to) {
                            best = Some(k);
                        }
                    },
                    None => {
                        best = Some(k);
                    },
                }
            }
            k = k + 1;
        }
        proof {
            lemma_best_edge(es, v, target, es.len());
        }
        match best {
            Some(b) => {
                if steps == 0 {
                    return Err(UpdateError::MigrationCycle { current: v, target });
                }
                let ghost prev_out = out@;
                append_names(&mut out, &edges[b].migrations);
                proof {
                    assert(es[b as int] == edges@[b as int]@);
                    assert(walk(es, v, target, steps as nat) == match walk(
                        es,
                        es[b as int].to,
                        target,
                        (steps - 1) as nat,
                    ) {
                        Ok(rest) => Ok(es[b as int].migrations + rest),
                        Err(x) => Err::<Seq<Seq<char>>, UpdateError>(x),
                    });
                    match walk(es, es[b as int].to, target, (steps - 1) as nat) {
                        Ok(rest) => {
                            assert(names_view(out@) + rest =~= names_view(prev_out) + (
                            es[b as int].migrations + rest));
                        },
                        Err(x) => {},
                    }
                }
                v = edges[b].to;
                steps = steps - 1;
            },
            None => {
                return Err(UpdateError::MissingMigration { current: v, target });
            },
        }
    }
    assert(names_view(out@) + Seq::empty() =~= names_view(out@));
    Ok(out)
}


/// The data-store version that the map gives for release `v`: that of its first entry.
pub open spec fn datastore_of(d: Seq<DatastoreEntry>, v: Version) -> Option<DVersion>
    decreases d.len(),
{
    if d.len() == 0 {
        None
    } else if d[0].version == v {
        Some(d[0].dversion)
    } else {
        datastore_of(d.drop_first(), v)
    }
}

/// Looks up the data-store version that release `version` runs.
pub fn datastore_version(manifest: &Manifest, version: &Version) -> (r: Option<DVersion>)
    ensures
        r == datastore_of(manifest@.datastore_versions, *version),
{
    let d = &manifest.datastore_versions;
    let mut k: usize = 0;
    assert(d@.subrange(0, d@.len() as int) =~= d@);
    while k < d.len()
        invariant
            k <= d@.len(),
            datastore_of(d@, *version) == datastore_of(d@.subrange(k as int, d@.len() as int), *version),
            d@ == manifest@.datastore_versions,
        decreases d@.len() - k,
    {
        let ghost rest = d@.subrange(k as int, d@.len() as int);
        assert(rest.drop_first() =~= d@.subrange(k + 1, d@.len() as int));
        assert(rest[0] == d@[k as int]);
        if d[k].version.same(version) {
            return Some(d[k].dversion);
        }
        k = k + 1;
    }
    None
}

/// The migration plan for a host that moves from release `current` to release `target`.
pub open spec fn migrations_spec(m: ManifestModelRef, current: Version, target: Version) -> Result<
    Seq<Seq<char>>,
    UpdateError,
> {
    match (datastore_of(m.1, current), datastore_of(m.1, target)) {
        (None, _) => Err(UpdateError::MissingVersion { version: current }),
        (Some(_), None) => Err(UpdateError::MissingVersion { version: target }),
        (Some(a), Some(b)) => if a == b {
            Ok(Seq::empty())
        } else {
            plan(m.0, a, b)
        },
    }
}

/// The migration graph and the release-to-schema map of a manifest.
pub type ManifestModelRef = (Seq<EdgeModel>, Seq<DatastoreEntry>);

/// The migration artifacts to stage for a host that moves from release `current` to
/// release `target`: none where both run the same data-store version.
pub fn required_migrations(manifest: &Manifest, current: &Version, target: &Version) -> (r: Result<
    Vec<String>,
    UpdateError,
>)
    ensures
        match migrations_spec(
            (manifest@.migrations, manifest@.datastore_versions),
            *current,
            *target,
        ) {
            Ok(names) => r matches Ok(v) && names_view(v@) == names,
            Err(e) => r == Err::<Vec<String>, UpdateError>(e),
        },
{
    let from = match datastore_version(manifest, current) {
        Some(d) => d,
        None => {
            return Err(UpdateError::MissingVersion { version: *current });
        },
    };
    let to = match datastore_version(manifest, target) {
        Some(d) => d,
        None => {
            return Err(UpdateError::MissingVersion { version: *target });
        },
    };
    if from.same(&to) {
        let v: Vec<String> = Vec::new();
        assert(names_view(v@) =~= Seq::<Seq<char>>::empty());
        return Ok(v);
    }
    migration_targets(&from, &to, manifest)
}

} // verus!
