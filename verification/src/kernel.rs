//! The gravitational field of point masses.
//!
//! A source of mass `m` at separation `r` from a query point accelerates it
//! by `g * m * r / |r|^3`. A query point that coincides with a source is a
//! singularity: it is reported as [`TraceError::DegenerateGeometry`], never
//! skipped and never given a made-up value. Where the query points are the
//! sources themselves, each is left out of its own sum by index.

use crate::error::TraceError;
use crate::fixed::Fixed;
use crate::vector::Vec2;
use vstd::prelude::*;

verus! {

/// The results of `f` at `0..n` in order, or the first error among them.
pub open spec fn collect<T>(f: spec_fn(int) -> Result<T, TraceError>, n: nat) -> Result<
    Seq<T>,
    TraceError,
>
    decreases n,
{
    if n == 0 {
        Ok(Seq::empty())
    } else {
        match collect(f, (n - 1) as nat) {
            Err(e) => Err(e),
            Ok(s) => match f(n - 1) {
                Err(e) => Err(e),
                Ok(v) => Ok(s.push(v)),
            },
        }
    }
}

/// What [`collect`] gathers has one entry per index, each the result of `f` there.
pub proof fn lemma_collect_ok<T>(f: spec_fn(int) -> Result<T, TraceError>, n: nat)
    requires
        collect(f, n) is Ok,
    ensures
        collect(f, n)->Ok_0.len() == n,
        forall|i: int| 0 <= i < n ==> #[trigger] f(i) == Ok::<T, TraceError>(collect(f, n)->Ok_0[i]),
        forall|k: nat| k <= n ==> #[trigger] collect(f, k) is Ok,
    decreases n,
{
    if n > 0 {
        lemma_collect_ok(f, (n - 1) as nat);
    }
}

/// Where `f` gives the entries of `s` one by one, [`collect`] gives `s`.
pub proof fn lemma_collect_all<T>(f: spec_fn(int) -> Result<T, TraceError>, s: Seq<T>)
    requires
        forall|i: int| 0 <= i < s.len() ==> #[trigger] f(i) == Ok::<T, TraceError>(s[i]),
    ensures
        collect(f, s.len()) == Ok::<Seq<T>, TraceError>(s),
    decreases s.len(),
{
    if s.len() > 0 {
        let head = s.drop_last();
        lemma_collect_all(f, head);
        assert(f(s.len() - 1) == Ok::<T, TraceError>(s.last()));
        assert(head.push(s.last()) =~= s);
    } else {
        assert(s =~= Seq::<T>::empty());
    }
}

/// Acceleration of a query point by one source of mass `m` at separation
/// `r` (from the query point to the source): `g * m / |r|^2` along `r / |r|`.
pub open spec fn pull_spec(g: Fixed, m: Fixed, r: Vec2) -> Result<Vec2, TraceError> {
    if r.x.raw == 0 && r.y.raw == 0 {
        Err(TraceError::DegenerateGeometry)
    } else {
        match (g.mul_spec(m), r.norm_spec()) {
            (Some(gm), Some(d)) => match gm.div_spec(d) {
                Some(k1) => match (k1.div_spec(d), r.shrink_spec(d)) {
                    (Some(k2), Some(u)) => match u.scale_spec(k2) {
                        Some(a) => Ok(a),
                        None => Err(TraceError::Overflow),
                    },
                    _ => Err(TraceError::Overflow),
                },
                None => Err(TraceError::Overflow),
            },
            _ => Err(TraceError::Overflow),
        }
    }
}

/// Sum of the pulls on `q` by the first `n` sources, but the one at index `skip`.
pub open spec fn field_spec(
    g: Fixed,
    masses: Seq<Fixed>,
    sources: Seq<Vec2>,
    q: Vec2,
    skip: int,
    n: nat,
) -> Result<Vec2, TraceError>
    decreases n,
{
    if n == 0 {
        Ok(Vec2 { x: Fixed { raw: 0 }, y: Fixed { raw: 0 } })
    } else {
        match field_spec(g, masses, sources, q, skip, (n - 1) as nat) {
            Err(e) => Err(e),
            Ok(acc) => if skip == n - 1 {
                Ok(acc)
            } else {
                match sources[n - 1].sub_spec(q) {
                    None => Err(TraceError::Overflow),
                    Some(r) => match pull_spec(g, masses[n - 1], r) {
                        Err(e) => Err(e),
                        Ok(a) => match acc.add_spec(a) {
                            Some(s) => Ok(s),
                            None => Err(TraceError::Overflow),
                        },
                    },
                }
            },
        }
    }
}

/// The field at query point `i`, as a function of `i`.
pub open spec fn field_of(
    g: Fixed,
    positions: Seq<Vec2>,
    masses: Seq<Fixed>,
    mass_positions: Seq<Vec2>,
) -> spec_fn(int) -> Result<Vec2, TraceError> {
    |i: int| field_spec(g, masses, mass_positions, positions[i], -1, masses.len())
}

/// The field at body `i` due to the other bodies, as a function of `i`.
pub open spec fn self_field_of(g: Fixed, masses: Seq<Fixed>, positions: Seq<Vec2>) -> spec_fn(
    int,
) -> Result<Vec2, TraceError> {
    |i: int| field_spec(g, masses, positions, positions[i], i, masses.len())
}

/// Accelerations of the query points `positions` in the field of the given masses.
pub open spec fn accelerations_spec(
    g: Fixed,
    positions: Seq<Vec2>,
    masses: Seq<Fixed>,
    mass_positions: Seq<Vec2>,
) -> Result<Seq<Vec2>, TraceError> {
    if masses.len() != mass_positions.len() {
        Err(TraceError::InvalidConfiguration)
    } else {
        collect(field_of(g, positions, masses, mass_positions), positions.len())
    }
}

/// Accelerations of mutually attracting bodies, each in the field of the others.
pub open spec fn self_accelerations_spec(
    g: Fixed,
    masses: Seq<Fixed>,
    positions: Seq<Vec2>,
) -> Result<Seq<Vec2>, TraceError> {
    if masses.len() != positions.len() {
        Err(TraceError::InvalidConfiguration)
    } else {
        collect(self_field_of(g, masses, positions), positions.len())
    }
}

/// Acceleration by one source at separation `r`.
pub fn pull(g: Fixed, m: Fixed, r: Vec2) -> (a: Result<Vec2, TraceError>)
    ensures
        a == pull_spec(g, m, r),
{
    if r.x.raw == 0 && r.y.raw == 0 {
        return Err(TraceError::DegenerateGeometry);
    }
    let gm = match g.checked_mul(m) {
        Some(v) => v,
        None => { return Err(TraceError::Overflow); },
    };
    let d = match r.checked_norm() {
        Some(v) => v,
        None => { return Err(TraceError::Overflow); },
    };
    let k1 = match gm.checked_div(d) {
        Some(v) => v,
        None => { return Err(TraceError::Overflow); },
    };
    let k2 = match k1.checked_div(d) {
        Some(v) => v,
        None => { return Err(TraceError::Overflow); },
    };
    let u = match r.checked_shrink(d) {
        Some(v) => v,
        None => { return Err(TraceError::Overflow); },
    };
    match u.checked_scale(k2) {
        Some(a) => Ok(a),
        None => Err(TraceError::Overflow),
    }
}

/// The field at `q` of all the sources but the one at index `skip`, if any.
pub(crate) fn field_at(
    g: Fixed,
    masses: &Vec<Fixed>,
    sources: &Vec<Vec2>,
    q: Vec2,
    skip: Option<usize>,
) -> (a: Result<Vec2, TraceError>)
    requires
        masses.len() == sources.len(),
    ensures
        a == field_spec(
            g,
            masses@,
            sources@,
            q,
            match skip {
                Some(s) => s as int,
                None => -1,
            },
            masses@.len(),
        ),
{
    let ghost skip_index: int = match skip {
        Some(s) => s as int,
        None => -1,
    };
    let mut acc = Vec2::zero();
    let mut j: usize = 0;
    while j < masses.len()
        invariant
            j <= masses.len(),
            masses.len() == sources.len(),
            skip_index == (match skip {
                Some(s) => s as int,
                None => -1,
            }),
            field_spec(g, masses@, sources@, q, skip_index, j as nat) == Ok::<Vec2, TraceError>(
                acc,
            ),
        decreases masses.len() - j,
    {
        let skipped = match skip {
            Some(s) => s == j,
            None => false,
        };
        if !skipped {
            let r = match sources[j].checked_sub(q) {
                Some(v) => v,
                None => {
                    proof {
                        lemma_field_err(
                            g,
                            masses@,
                            sources@,
                            q,
                            skip_index,
                            (j + 1) as nat,
                            masses@.len(),
                        );
                    }
                    return Err(TraceError::Overflow);
                },
            };
            let a = match pull(g, masses[j], r) {
                Ok(v) => v,
                Err(e) => {
                    proof {
                        lemma_field_err(
                            g,
                            masses@,
                            sources@,
                            q,
                            skip_index,
                            (j + 1) as nat,
                            masses@.len(),
                        );
                    }
                    return Err(e);
                },
            };
            acc = match acc.checked_add(a) {
                Some(v) => v,
                None => {
                    proof {
                        lemma_field_err(
                            g,
                            masses@,
                            sources@,
                            q,
                            skip_index,
                            (j + 1) as nat,
                            masses@.len(),
                        );
                    }
                    return Err(TraceError::Overflow);
                },
            };
        }
        j += 1;
    }
    Ok(acc)
}

/// An error of a partial sum is the error of every longer one.
pub proof fn lemma_field_err(
    g: Fixed,
    masses: Seq<Fixed>,
    sources: Seq<Vec2>,
    q: Vec2,
    skip: int,
    k: nat,
    n: nat,
)
    requires
        k <= n,
        field_spec(g, masses, sources, q, skip, k) is Err,
    ensures
        field_spec(g, masses, sources, q, skip, n) == field_spec(g, masses, sources, q, skip, k),
    decreases n,
{
    if k < n {
        lemma_field_err(g, masses, sources, q, skip, k, (n - 1) as nat);
    }
}

/// An error of a prefix is the error of every longer collection.
pub proof fn lemma_collect_stops<T>(f: spec_fn(int) -> Result<T, TraceError>, k: nat, n: nat)
    requires
        k <= n,
        collect(f, k) is Err,
    ensures
        collect(f, n) == collect(f, k),
    decreases n,
{
    if k < n {
        lemma_collect_stops(f, k, (n - 1) as nat);
    }
}

/// Accelerations of the query points `positions` in the field of point
/// masses `masses` at `mass_positions`. The query points are not sources.
pub fn accelerations(
    g: Fixed,
    positions: &Vec<Vec2>,
    masses: &Vec<Fixed>,
    mass_positions: &Vec<Vec2>,
) -> (a: Result<Vec<Vec2>, TraceError>)
    ensures
        match a {
            Ok(v) => accelerations_spec(g, positions@, masses@, mass_positions@) == Ok::<
                Seq<Vec2>,
                TraceError,
            >(v@),
            Err(e) => accelerations_spec(g, positions@, masses@, mass_positions@) == Err::<
                Seq<Vec2>,
                TraceError,
            >(e),
        },
{
    if masses.len() != mass_positions.len() {
        return Err(TraceError::InvalidConfiguration);
    }
    let ghost f = field_of(g, positions@, masses@, mass_positions@);
    let mut out: Vec<Vec2> = Vec::new();
    let mut i: usize = 0;
    while i < positions.len()
        invariant
            i <= positions.len(),
            masses.len() == mass_positions.len(),
            f == field_of(g, positions@, masses@, mass_positions@),
            collect(f, i as nat) == Ok::<Seq<Vec2>, TraceError>(out@),
        decreases positions.len() - i,
    {
        match field_at(g, masses, mass_positions, positions[i], None) {
            Ok(a) => {
                out.push(a);
            },
            Err(e) => {
                proof {
                    lemma_collect_stops(f, (i + 1) as nat, positions@.len());
                }
                return Err(e);
            },
        }
        i += 1;
    }
    Ok(out)
}

/// Accelerations of mutually attracting bodies: each body is a query point
/// in the field of all the others.
pub fn self_accelerations(g: Fixed, masses: &Vec<Fixed>, positions: &Vec<Vec2>) -> (a: Result<
    Vec<Vec2>,
    TraceError,
>)
    ensures
        match a {
            Ok(v) => self_accelerations_spec(g, masses@, positions@) == Ok::<
                Seq<Vec2>,
                TraceError,
            >(v@),
            Err(e) => self_accelerations_spec(g, masses@, positions@) == Err::<
                Seq<Vec2>,
                TraceError,
            >(e),
        },
{
    if masses.len() != positions.len() {
        return Err(TraceError::InvalidConfiguration);
    }
    let ghost f = self_field_of(g, masses@, positions@);
    let mut out: Vec<Vec2> = Vec::new();
    let mut i: usize = 0;
    while i < positions.len()
        invariant
            i <= positions.len(),
            masses.len() == positions.len(),
            f == self_field_of(g, masses@, positions@),
            collect(f, i as nat) == Ok::<Seq<Vec2>, TraceError>(out@),
        decreases positions.len() - i,
    {
        match field_at(g, masses, positions, positions[i], Some(i)) {
            Ok(a) => {
                out.push(a);
            },
            Err(e) => {
                proof {
                    lemma_collect_stops(f, (i + 1) as nat, positions@.len());
                }
                return Err(e);
            },
        }
        i += 1;
    }
    Ok(out)
}

} // verus!
