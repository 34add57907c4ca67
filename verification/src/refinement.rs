//! Subdivision of a triangle list: every triangle is cut into four through
//! the midpoints of its edges, and triangles that share an edge share the
//! vertex in its middle.

use std::collections::HashMap;
use vstd::prelude::*;

verus! {

broadcast use vstd::std_specs::hash::group_hash_axioms;

/// Whether `e` and `f` join the same two vertices.
pub open spec fn same_edge(e: (u32, u32), f: (u32, u32)) -> bool {
    e == f || (e.0 == f.1 && e.1 == f.0)
}

/// The edges of a triangle list, three for each triangle: edge `j` leaves the
/// corner at position `j` for the next corner of the same triangle.
pub open spec fn edges(indices: Seq<u32>) -> Seq<(u32, u32)> {
    Seq::new(
        indices.len(),
        |j: int|
            (
                indices[j],
                indices[if j % 3 == 2 {
                    j - 2
                } else {
                    j + 1
                }],
            ),
    )
}

/// Whether `found` holds `e`, in either direction.
pub open spec fn has_edge(found: Seq<(u32, u32)>, e: (u32, u32)) -> bool {
    exists|k: int| 0 <= k < found.len() && same_edge(#[trigger] found[k], e)
}

/// The edges of `all` in the order in which each first appears, an edge
/// counting as the same in both directions.
pub open spec fn distinct_edges(all: Seq<(u32, u32)>) -> Seq<(u32, u32)>
    decreases all.len(),
{
    if all.len() == 0 {
        Seq::empty()
    } else {
        let before = distinct_edges(all.drop_last());
        if has_edge(before, all.last()) {
            before
        } else {
            before.push(all.last())
        }
    }
}

/// Whether vertex `m` is the one made for the middle of edge `e`, where the
/// vertex for `found[k]` is the `k`-th after the first `vertex_count`.
pub open spec fn is_midpoint(found: Seq<(u32, u32)>, vertex_count: nat, m: u32, e: (u32, u32)) -> bool {
    &&& vertex_count <= m < vertex_count + found.len()
    &&& same_edge(found[m - vertex_count], e)
}

/// Whether the twelve entries of `refined` that stand for triangle `t` of
/// `indices` are its four parts: the three corner triangles, each a corner
/// between the midpoints of its two edges, and the triangle of the midpoints.
pub open spec fn triangle_refined(
    found: Seq<(u32, u32)>,
    vertex_count: nat,
    indices: Seq<u32>,
    refined: Seq<u32>,
    t: int,
) -> bool {
    let a = indices[3 * t];
    let b = indices[3 * t + 1];
    let c = indices[3 * t + 2];
    let mca = refined[12 * t];
    let mab = refined[12 * t + 2];
    let mbc = refined[12 * t + 5];
    &&& is_midpoint(found, vertex_count, mab, (a, b))
    &&& is_midpoint(found, vertex_count, mbc, (b, c))
    &&& is_midpoint(found, vertex_count, mca, (c, a))
    &&& refined.subrange(12 * t, 12 * t + 12) == seq![
        mca,
        a,
        mab,
        mab,
        b,
        mbc,
        mbc,
        c,
        mca,
        mab,
        mbc,
        mca,
    ]
}

/// Whether `vertices` are the vertices `base` followed by one vertex for each
/// edge of `found`, which `midpoint` made of the edge's two ends.
pub open spec fn vertices_refined<V, F: Fn(&V, &V) -> V>(
    vertices: Seq<V>,
    base: Seq<V>,
    found: Seq<(u32, u32)>,
    midpoint: F,
) -> bool {
    &&& vertices.len() == base.len() + found.len()
    &&& forall|i: int| 0 <= i < base.len() ==> #[trigger] vertices[i] == base[i]
    &&& forall|k: int|
        0 <= k < found.len() ==> call_ensures(
            midpoint,
            (&base[(#[trigger] found[k]).0 as int], &base[found[k].1 as int]),
            vertices[base.len() + k],
        )
}

/// The key under which an edge is looked up: its two ends side by side.
pub open spec fn edge_key(a: u32, b: u32) -> u64 {
    (a as int * 0x1_0000_0000 + b as int) as u64
}

/// The lookup table knows exactly the edges of `found`, in both directions,
/// each with the vertex in its middle.
pub open spec fn cache_agrees(
    known: Map<u64, u32>,
    found: Seq<(u32, u32)>,
    vertex_count: nat,
) -> bool {
    forall|x: u32, y: u32|
        {
            &&& known.contains_key(#[trigger] edge_key(x, y)) <==> has_edge(found, (x, y))
            &&& known.contains_key(edge_key(x, y)) ==> is_midpoint(
                found,
                vertex_count,
                known[edge_key(x, y)],
                (x, y),
            )
        }
}

/// Two edges have the same key only if they are the same, ends in order.
pub proof fn lemma_edge_key_injective(a: u32, b: u32, x: u32, y: u32)
    ensures
        edge_key(a, b) == edge_key(x, y) <==> a == x && b == y,
{
}

/// An edge is among `found` and one more exactly if it is among `found` or
/// is that one.
pub proof fn lemma_has_edge_push(found: Seq<(u32, u32)>, e: (u32, u32), q: (u32, u32))
    ensures
        has_edge(found.push(e), q) <==> has_edge(found, q) || same_edge(e, q),
{
    let longer = found.push(e);
    if has_edge(found, q) {
        let k = choose|k: int| 0 <= k < found.len() && same_edge(#[trigger] found[k], q);
        assert(same_edge(longer[k], q));
    }
    if same_edge(e, q) {
        assert(same_edge(longer[found.len() as int], q));
    }
}

/// No edge stands twice among the distinct edges, in whatever direction, and
/// each of them is one of the edges given. So the vertex in the middle of an
/// edge is determined: `is_midpoint` holds of one vertex only.
pub proof fn lemma_distinct_edges(all: Seq<(u32, u32)>)
    ensures
        distinct_edges(all).len() <= all.len(),
        forall|k: int, l: int|
            0 <= k < l < distinct_edges(all).len() ==> !same_edge(
                #[trigger] distinct_edges(all)[k],
                #[trigger] distinct_edges(all)[l],
            ),
        forall|k: int|
            0 <= k < distinct_edges(all).len() ==> all.contains(#[trigger] distinct_edges(all)[k]),
        forall|j: int| 0 <= j < all.len() ==> has_edge(distinct_edges(all), #[trigger] all[j]),
    decreases all.len(),
{
    if all.len() > 0 {
        let shorter = all.drop_last();
        let before = distinct_edges(shorter);
        let after = distinct_edges(all);
        lemma_distinct_edges(shorter);
        assert forall|k: int| 0 <= k < after.len() implies all.contains(#[trigger] after[k]) by {
            if k < before.len() {
                assert(shorter.contains(before[k]));
            }
        }
        assert forall|j: int| 0 <= j < all.len() implies has_edge(after, #[trigger] all[j]) by {
            lemma_has_edge_push(before, all.last(), all[j]);
            if j < shorter.len() {
                assert(has_edge(before, shorter[j]));
            }
        }
    }
}

/// The vertex in the middle of the edge from `a` to `b`: the one that the
/// table knows, or else a new last vertex, which `midpoint` makes of the two
/// ends and which the table knows from then on, in both directions.
fn midpoint_of<V, F: Fn(&V, &V) -> V>(
    vertices: &mut Vec<V>,
    known: &mut HashMap<u64, u32>,
    a: u32,
    b: u32,
    midpoint: &F,
    Ghost(base): Ghost<Seq<V>>,
    Ghost(found): Ghost<Seq<(u32, u32)>>,
) -> (m: u32)
    requires
        a < base.len(),
        b < base.len(),
        base.len() + found.len() < u32::MAX,
        vertices_refined(old(vertices)@, base, found, *midpoint),
        cache_agrees(old(known)@, found, base.len()),
        forall|x: &V, y: &V| call_requires(*midpoint, (x, y)),
    ensures
        ({
            let next = if has_edge(found, (a, b)) {
                found
            } else {
                found.push((a, b))
            };
            &&& is_midpoint(next, base.len(), m, (a, b))
            &&& vertices_refined(final(vertices)@, base, next, *midpoint)
            &&& cache_agrees(final(known)@, next, base.len())
        }),
{
    let key: u64 = (a as u64) * 0x1_0000_0000 + (b as u64);
    assert(key == edge_key(a, b));
    match known.get(&key) {
        Some(m) => *m,
        None => {
            let m: u32 = vertices.len() as u32;
            let v = midpoint(&vertices[a as usize], &vertices[b as usize]);
            vertices.push(v);
            let back: u64 = (b as u64) * 0x1_0000_0000 + (a as u64);
            known.insert(key, m);
            known.insert(back, m);
            proof {
                let next = found.push((a, b));
                assert forall|x: u32, y: u32|
                    {
                        &&& final(known)@.contains_key(#[trigger] edge_key(x, y)) <==> has_edge(
                            next,
                            (x, y),
                        )
                        &&& final(known)@.contains_key(edge_key(x, y)) ==> is_midpoint(
                            next,
                            base.len(),
                            final(known)@[edge_key(x, y)],
                            (x, y),
                        )
                    } by {
                    lemma_edge_key_injective(a, b, x, y);
                    lemma_edge_key_injective(b, a, x, y);
                    lemma_has_edge_push(found, (a, b), (x, y));
                }
            }
            m
        },
    }
}

/// Cuts every triangle of `indices` into four. The vertex in the middle of
/// each edge is made once, by `midpoint` from the edge's two ends, and joins
/// `vertices` at the end, the edges taken in the order in which they first
/// appear. What comes back is the new triangle list: for a triangle `a b c`
/// with midpoints `ab`, `bc`, `ca` the triangles `ca a ab`, `ab b bc`,
/// `bc c ca` and `ab bc ca`.
pub fn refine_geometry<V, F: Fn(&V, &V) -> V>(
    vertices: &mut Vec<V>,
    indices: &Vec<u32>,
    midpoint: F,
) -> (refined: Vec<u32>)
    requires
        indices@.len() % 3 == 0,
        forall|i: int| 0 <= i < indices@.len() ==> (#[trigger] indices@[i]) < old(vertices)@.len(),
        old(vertices)@.len() + indices@.len() < u32::MAX,
        forall|x: &V, y: &V| call_requires(midpoint, (x, y)),
    ensures
        vertices_refined(
            final(vertices)@,
            old(vertices)@,
            distinct_edges(edges(indices@)),
            midpoint,
        ),
        refined@.len() == 4 * indices@.len(),
        forall|t: int|
            0 <= t < indices@.len() / 3 ==> #[trigger] triangle_refined(
                distinct_edges(edges(indices@)),
                old(vertices)@.len(),
                indices@,
                refined@,
                t,
            ),
        forall|i: int| 0 <= i < refined@.len() ==> (#[trigger] refined@[i]) < final(vertices)@.len(),
{
    let ghost base = vertices@;
    let ghost all = edges(indices@);
    let ghost mut found: Seq<(u32, u32)> = Seq::empty();
    let mut refined: Vec<u32> = Vec::new();
    let mut known: HashMap<u64, u32> = HashMap::new();
    let triangles = indices.len() / 3;
    let mut t: usize = 0;
    while t < triangles
        invariant
            t <= triangles,
            triangles == indices@.len() / 3,
            indices@.len() % 3 == 0,
            all == edges(indices@),
            forall|i: int| 0 <= i < indices@.len() ==> (#[trigger] indices@[i]) < base.len(),
            base.len() + indices@.len() < u32::MAX,
            forall|x: &V, y: &V| call_requires(midpoint, (x, y)),
            found == distinct_edges(all.subrange(0, 3 * t)),
            found.len() <= 3 * t,
            vertices_refined(vertices@, base, found, midpoint),
            cache_agrees(known@, found, base.len()),
            refined@.len() == 12 * t,
            forall|i: int| 0 <= i < refined@.len() ==> (#[trigger] refined@[i]) < vertices@.len(),
            forall|s: int|
                0 <= s < t ==> #[trigger] triangle_refined(found, base.len(), indices@, refined@, s),
        decreases triangles - t,
    {
        let a = indices[3 * t];
        let b = indices[3 * t + 1];
        let c = indices[3 * t + 2];
        let ghost found0 = found;
        let ghost refined0 = refined@;
        proof {
            assert(all.subrange(0, 3 * t + 1).drop_last() =~= all.subrange(0, 3 * t as int));
            assert(all.subrange(0, 3 * t + 2).drop_last() =~= all.subrange(0, 3 * t + 1));
            assert(all.subrange(0, 3 * t + 3).drop_last() =~= all.subrange(0, 3 * t + 2));
        }
        let mab = midpoint_of(vertices, &mut known, a, b, &midpoint, Ghost(base), Ghost(found));
        proof {
            found = distinct_edges(all.subrange(0, 3 * t + 1));
        }
        let mbc = midpoint_of(vertices, &mut known, b, c, &midpoint, Ghost(base), Ghost(found));
        proof {
            found = distinct_edges(all.subrange(0, 3 * t + 2));
        }
        let mca = midpoint_of(vertices, &mut known, c, a, &midpoint, Ghost(base), Ghost(found));
        proof {
            found = distinct_edges(all.subrange(0, 3 * t + 3));
        }
        refined.push(mca);
        refined.push(a);
        refined.push(mab);
        refined.push(mab);
        refined.push(b);
        refined.push(mbc);
        refined.push(mbc);
        refined.push(c);
        refined.push(mca);
        refined.push(mab);
        refined.push(mbc);
        refined.push(mca);
        proof {
            assert(refined@.subrange(12 * t as int, 12 * t + 12) =~= seq![
                mca,
                a,
                mab,
                mab,
                b,
                mbc,
                mbc,
                c,
                mca,
                mab,
                mbc,
                mca,
            ]);
            assert forall|s: int| 0 <= s < t implies #[trigger] triangle_refined(
                found,
                base.len(),
                indices@,
                refined@,
                s,
            ) by {
                assert(triangle_refined(found0, base.len(), indices@, refined0, s));
                assert(refined@.subrange(12 * s, 12 * s + 12) =~= refined0.subrange(
                    12 * s,
                    12 * s + 12,
                ));
            }
        }
        t += 1;
    }
    assert(all.subrange(0, 3 * t as int) =~= all);
    refined
}

} // verus!
