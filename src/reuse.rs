//! Why compiling never reloads a texture that it could carry over: the file
//! textures of a compiled scene are distinct by file and scale, and each one
//! that the previous scene also held is that very entry of the previous scene.
use vstd::prelude::*;
use crate::compile::{
    Build, build_from, build_step, find_texture, initial_build, material_record, push_material,
    texture_matches, texture_step,
};
use crate::graph::{Slot, node_at};
use crate::node::{InputMaterial, MaterialNode, Node};
use crate::scene::TextureData;
use crate::subscription::NodeId;

verus! {

/// Two file textures of the same file at the same scale.
pub open spec fn same_file(a: TextureData, b: TextureData) -> bool {
    a.key is Some && b.key is Some && a.key->Some_0@ == b.key->Some_0@ && a.scale == b.scale
}

/// No two file textures of `s` share file and scale.
pub open spec fn unique_files(s: Seq<TextureData>) -> bool {
    forall|i: int, j: int| 0 <= i < s.len() && 0 <= j < s.len() && i != j ==> !same_file(#[trigger] s[i], #[trigger] s[j])
}

/// Every file texture of `t` that shares file and scale with an entry of
/// `o` is that entry.
pub open spec fn carried_from(o: Seq<TextureData>, t: Seq<TextureData>) -> bool {
    forall|i: int, m: int| 0 <= i < t.len() && 0 <= m < o.len() && same_file(#[trigger] t[i], #[trigger] o[m]) ==> t[i] == o[m]
}

spec fn in_seq(s: Seq<TextureData>, x: TextureData) -> bool {
    exists|k: int| 0 <= k < s.len() && s[k] == x
}

spec fn inv(o: Seq<TextureData>, b: Build) -> bool {
    &&& unique_files(b.textures)
    &&& unique_files(b.spare)
    &&& forall|i: int, j: int|
        0 <= i < b.textures.len() && 0 <= j < b.spare.len() ==> !same_file(#[trigger] b.textures[i], #[trigger] b.spare[j])
    &&& forall|j: int| 0 <= j < b.spare.len() ==> in_seq(o, #[trigger] b.spare[j])
    &&& carried_from(o, b.textures)
    &&& forall|m: int|
        0 <= m < o.len() && (#[trigger] o[m]).key is Some ==> in_seq(b.spare, o[m]) || in_seq(b.textures, o[m])
}

proof fn lemma_find_none(s: Seq<TextureData>, p: Seq<char>, sc: u32, i: int)
    requires
        0 <= i,
        find_texture(s, p, sc, i) is None,
    ensures
        forall|k: int| i <= k < s.len() ==> !texture_matches(#[trigger] s[k], p, sc),
    decreases s.len() - i,
{
    if i < s.len() {
        lemma_find_none(s, p, sc, i + 1);
    }
}

proof fn lemma_find_some(s: Seq<TextureData>, p: Seq<char>, sc: u32, i: int)
    requires
        0 <= i,
        find_texture(s, p, sc, i) is Some,
    ensures
        i <= find_texture(s, p, sc, i)->Some_0 < s.len(),
        texture_matches(s[find_texture(s, p, sc, i)->Some_0], p, sc),
    decreases s.len() - i,
{
    if i < s.len() && !texture_matches(s[i], p, sc) {
        lemma_find_some(s, p, sc, i + 1);
    }
}

/// Compiling a material only appends single-colour textures.
proof fn lemma_material_record_colors(m: MaterialNode, tex: Option<usize>, ts: Seq<TextureData>)
    ensures
        ({
            let ts2 = material_record(m, tex, ts).1;
            &&& ts.len() <= ts2.len()
            &&& ts2.subrange(0, ts.len() as int) == ts
            &&& forall|k: int| ts.len() <= k < ts2.len() ==> (#[trigger] ts2[k]).key is None
        }),
{
    let ts2 = material_record(m, tex, ts).1;
    assert(ts2.subrange(0, ts.len() as int) =~= ts);
}

/// Appending textures without a file keeps the invariant.
proof fn lemma_append_colors(o: Seq<TextureData>, b: Build, ts2: Seq<TextureData>)
    requires
        inv(o, b),
        b.textures.len() <= ts2.len(),
        ts2.subrange(0, b.textures.len() as int) == b.textures,
        forall|k: int| b.textures.len() <= k < ts2.len() ==> (#[trigger] ts2[k]).key is None,
    ensures
        inv(o, Build { textures: ts2, ..b }),
{
    let n = b.textures.len() as int;
    assert forall|k: int| 0 <= k < n implies ts2[k] == #[trigger] b.textures[k] by {
        assert(ts2[k] == ts2.subrange(0, n)[k]);
    }
    assert forall|m: int|
        0 <= m < o.len() && (#[trigger] o[m]).key is Some implies in_seq(b.spare, o[m]) || in_seq(ts2, o[m]) by {
        if in_seq(b.textures, o[m]) {
            let k = choose|k: int| 0 <= k < b.textures.len() && b.textures[k] == o[m];
            assert(ts2[k] == o[m]);
        }
    }
    assert forall|i: int, j: int| 0 <= i < ts2.len() && 0 <= j < ts2.len() && i != j implies !same_file(
        #[trigger] ts2[i],
        #[trigger] ts2[j],
    ) by {
        if i < n && j < n {
            assert(ts2[i] == b.textures[i]);
            assert(ts2[j] == b.textures[j]);
        }
    }
    assert forall|i: int, j: int| 0 <= i < ts2.len() && 0 <= j < b.spare.len() implies !same_file(
        #[trigger] ts2[i],
        #[trigger] b.spare[j],
    ) by {
        if i < n {
            assert(ts2[i] == b.textures[i]);
        }
    }
    assert forall|i: int, m: int| 0 <= i < ts2.len() && 0 <= m < o.len() && same_file(
        #[trigger] ts2[i],
        #[trigger] o[m],
    ) implies ts2[i] == o[m] by {
        if i < n {
            assert(ts2[i] == b.textures[i]);
        }
    }
}

proof fn lemma_push_material_inv(o: Seq<TextureData>, b: Build, m: MaterialNode)
    requires
        inv(o, b),
    ensures
        inv(o, push_material(b, m).0),
        b.textures.len() <= push_material(b, m).0.textures.len(),
        push_material(b, m).0.textures.subrange(0, b.textures.len() as int) == b.textures,
        push_material(b, m).0.spare == b.spare,
{
    let (rec, ts2) = material_record(m, crate::compile::resolved_texture(b, m), b.textures);
    lemma_material_record_colors(m, crate::compile::resolved_texture(b, m), b.textures);
    lemma_append_colors(o, b, ts2);
    assert(push_material(b, m).0 == Build { textures: ts2, materials: b.materials.push(rec), ..b });
}

proof fn lemma_texture_step_inv(o: Seq<TextureData>, b: Build, n: NodeId, t: crate::node::TextureNode)
    requires
        unique_files(o),
        inv(o, b),
    ensures
        inv(o, texture_step(b, n, t)),
        b.textures.len() <= texture_step(b, n, t).textures.len(),
        texture_step(b, n, t).textures.subrange(0, b.textures.len() as int) == b.textures,
        exists|k: int|
            0 <= k < texture_step(b, n, t).textures.len() && texture_matches(
                #[trigger] texture_step(b, n, t).textures[k],
                t.path@,
                t.scale.current(),
            ),
{
    let sc = t.scale.current();
    let p = t.path@;
    let b2 = texture_step(b, n, t);
    let nt = b.textures.len() as int;
    match find_texture(b.textures, p, sc, 0) {
        Some(i) => {
            lemma_find_some(b.textures, p, sc, 0);
            assert(b2.textures.subrange(0, nt) =~= b.textures);
            assert(texture_matches(b2.textures[i], p, sc));
        },
        None => {
            lemma_find_none(b.textures, p, sc, 0);
            match find_texture(b.spare, p, sc, 0) {
                Some(j) => {
                    lemma_find_some(b.spare, p, sc, 0);
                    let x = b.spare[j];
                    assert(b2.textures == b.textures.push(x));
                    assert(b2.spare == b.spare.remove(j));
                    assert(b2.textures.subrange(0, nt) =~= b.textures);
                    assert(texture_matches(b2.textures[nt], p, sc));
                    assert(in_seq(o, x));
                    let mx = choose|k: int| 0 <= k < o.len() && o[k] == x;
                    // the spare entries that stay are other entries
                    assert forall|a: int| 0 <= a < b2.spare.len() implies #[trigger] b2.spare[a] == b.spare[
                        if a < j { a } else { a + 1 }] by {}
                    assert forall|i: int, k: int|
                        0 <= i < b2.textures.len() && 0 <= k < b2.textures.len() && i != k implies !same_file(
                        #[trigger] b2.textures[i],
                        #[trigger] b2.textures[k],
                    ) by {
                        if i == nt {
                            assert(b2.textures[k] == b.textures[k]);
                        } else if k == nt {
                            assert(b2.textures[i] == b.textures[i]);
                        } else {
                            assert(b2.textures[i] == b.textures[i]);
                            assert(b2.textures[k] == b.textures[k]);
                        }
                    }
                    assert forall|i: int, a: int|
                        0 <= i < b2.textures.len() && 0 <= a < b2.spare.len() implies !same_file(
                        #[trigger] b2.textures[i],
                        #[trigger] b2.spare[a],
                    ) by {
                        let oa = if a < j { a } else { a + 1 };
                        assert(b2.spare[a] == b.spare[oa]);
                        if i == nt {
                            assert(oa != j);
                        } else {
                            assert(b2.textures[i] == b.textures[i]);
                        }
                    }
                    assert forall|a: int| 0 <= a < b2.spare.len() implies in_seq(o, #[trigger] b2.spare[a]) by {
                        let oa = if a < j { a } else { a + 1 };
                        assert(b2.spare[a] == b.spare[oa]);
                    }
                    assert forall|i: int, m: int|
                        0 <= i < b2.textures.len() && 0 <= m < o.len() && same_file(
                            #[trigger] b2.textures[i],
                            #[trigger] o[m],
                        ) implies b2.textures[i] == o[m] by {
                        if i == nt {
                            assert(same_file(o[mx], o[m]));
                            assert(mx == m);
                        } else {
                            assert(b2.textures[i] == b.textures[i]);
                        }
                    }
                    assert forall|m: int|
                        0 <= m < o.len() && (#[trigger] o[m]).key is Some implies in_seq(b2.spare, o[m]) || in_seq(
                        b2.textures,
                        o[m],
                    ) by {
                        if in_seq(b.textures, o[m]) {
                            let k = choose|k: int| 0 <= k < b.textures.len() && b.textures[k] == o[m];
                            assert(b2.textures[k] == o[m]);
                        } else {
                            let k = choose|k: int| 0 <= k < b.spare.len() && b.spare[k] == o[m];
                            if k == j {
                                assert(b2.textures[nt] == o[m]);
                            } else {
                                let nk = if k < j { k } else { k - 1 };
                                assert(b2.spare[nk] == o[m]);
                            }
                        }
                    }
                    assert forall|a: int, c: int|
                        0 <= a < b2.spare.len() && 0 <= c < b2.spare.len() && a != c implies !same_file(
                        #[trigger] b2.spare[a],
                        #[trigger] b2.spare[c],
                    ) by {
                        let oa = if a < j { a } else { a + 1 };
                        let oc = if c < j { c } else { c + 1 };
                        assert(b2.spare[a] == b.spare[oa]);
                        assert(b2.spare[c] == b.spare[oc]);
                    }
                },
                None => {
                    lemma_find_none(b.spare, p, sc, 0);
                    let x = b2.textures[nt];
                    assert(b2.textures == b.textures.push(x));
                    assert(b2.spare == b.spare);
                    assert(b2.textures.subrange(0, nt) =~= b.textures);
                    assert(texture_matches(x, p, sc));
                    assert forall|i: int, k: int|
                        0 <= i < b2.textures.len() && 0 <= k < b2.textures.len() && i != k implies !same_file(
                        #[trigger] b2.textures[i],
                        #[trigger] b2.textures[k],
                    ) by {
                        if i == nt {
                            assert(b2.textures[k] == b.textures[k]);
                            assert(!texture_matches(b.textures[k], p, sc));
                        } else if k == nt {
                            assert(b2.textures[i] == b.textures[i]);
                            assert(!texture_matches(b.textures[i], p, sc));
                        } else {
                            assert(b2.textures[i] == b.textures[i]);
                            assert(b2.textures[k] == b.textures[k]);
                        }
                    }
                    assert forall|i: int, a: int|
                        0 <= i < b2.textures.len() && 0 <= a < b2.spare.len() implies !same_file(
                        #[trigger] b2.textures[i],
                        #[trigger] b2.spare[a],
                    ) by {
                        if i == nt {
                            assert(!texture_matches(b.spare[a], p, sc));
                        } else {
                            assert(b2.textures[i] == b.textures[i]);
                        }
                    }
                    assert forall|i: int, m: int|
                        0 <= i < b2.textures.len() && 0 <= m < o.len() && same_file(
                            #[trigger] b2.textures[i],
                            #[trigger] o[m],
                        ) implies b2.textures[i] == o[m] by {
                        if i == nt {
                            if in_seq(b.textures, o[m]) {
                                let k = choose|k: int| 0 <= k < b.textures.len() && b.textures[k] == o[m];
                                assert(!texture_matches(b.textures[k], p, sc));
                            } else {
                                let k = choose|k: int| 0 <= k < b.spare.len() && b.spare[k] == o[m];
                                assert(!texture_matches(b.spare[k], p, sc));
                            }
                        } else {
                            assert(b2.textures[i] == b.textures[i]);
                        }
                    }
                    assert forall|m: int|
                        0 <= m < o.len() && (#[trigger] o[m]).key is Some implies in_seq(b2.spare, o[m]) || in_seq(
                        b2.textures,
                        o[m],
                    ) by {
                        if in_seq(b.textures, o[m]) {
                            let k = choose|k: int| 0 <= k < b.textures.len() && b.textures[k] == o[m];
                            assert(b2.textures[k] == o[m]);
                        }
                    }
                },
            }
        },
    }
}

proof fn lemma_step_inv(g: Seq<Option<Slot>>, o: Seq<TextureData>, b: Build, n: NodeId)
    requires
        unique_files(o),
        inv(o, b),
    ensures
        inv(o, build_step(g, b, n)),
        b.textures.len() <= build_step(g, b, n).textures.len(),
        build_step(g, b, n).textures.subrange(0, b.textures.len() as int) == b.textures,
        match node_at(g, n) {
            Some(Node::Texture(t)) => exists|k: int|
                0 <= k < build_step(g, b, n).textures.len() && texture_matches(
                    #[trigger] build_step(g, b, n).textures[k],
                    t.path@,
                    t.scale.current(),
                ),
            _ => true,
        },
{
    match node_at(g, n) {
        Some(Node::Texture(t)) => {
            lemma_texture_step_inv(o, b, n, t);
        },
        Some(Node::Material(m)) => {
            lemma_push_material_inv(o, b, m);
        },
        Some(Node::Sphere(s)) => {
            match s.material {
                InputMaterial::Internal(m) => {
                    lemma_push_material_inv(o, b, m);
                },
                InputMaterial::External(_) => {
                    assert(b.textures.subrange(0, b.textures.len() as int) =~= b.textures);
                },
            }
        },
        _ => {
            assert(b.textures.subrange(0, b.textures.len() as int) =~= b.textures);
        },
    }
}

proof fn lemma_fold_inv(g: Seq<Option<Slot>>, o: Seq<TextureData>, nodes: Seq<NodeId>, i: int, b: Build)
    requires
        unique_files(o),
        inv(o, b),
        0 <= i,
    ensures
        inv(o, build_from(g, nodes, i, b)),
        b.textures.len() <= build_from(g, nodes, i, b).textures.len(),
        build_from(g, nodes, i, b).textures.subrange(0, b.textures.len() as int) == b.textures,
        forall|q: int|
            i <= q < nodes.len() && node_at(g, #[trigger] nodes[q]) is Some && node_at(g, nodes[q])->Some_0
                is Texture ==> {
                let t = node_at(g, nodes[q])->Some_0->Texture_0;
                exists|k: int|
                    0 <= k < build_from(g, nodes, i, b).textures.len() && texture_matches(
                        #[trigger] build_from(g, nodes, i, b).textures[k],
                        t.path@,
                        t.scale.current(),
                    )
            },
    decreases nodes.len() - i,
{
    if i < nodes.len() {
        let b1 = build_step(g, b, nodes[i]);
        lemma_step_inv(g, o, b, nodes[i]);
        lemma_fold_inv(g, o, nodes, i + 1, b1);
        let bf = build_from(g, nodes, i, b);
        assert(bf == build_from(g, nodes, i + 1, b1));
        let n1 = b1.textures.len() as int;
        assert forall|k: int| 0 <= k < n1 implies bf.textures[k] == #[trigger] b1.textures[k] by {
            assert(bf.textures[k] == bf.textures.subrange(0, n1)[k]);
        }
        assert(bf.textures.subrange(0, b.textures.len() as int) =~= b.textures) by {
            assert forall|k: int| 0 <= k < b.textures.len() implies bf.textures[k] == b.textures[k] by {
                assert(b1.textures[k] == b1.textures.subrange(0, b.textures.len() as int)[k]);
            }
        }
        assert forall|q: int|
            i <= q < nodes.len() && node_at(g, #[trigger] nodes[q]) is Some && node_at(g, nodes[q])->Some_0
                is Texture implies {
            let t = node_at(g, nodes[q])->Some_0->Texture_0;
            exists|k: int|
                0 <= k < bf.textures.len() && texture_matches(#[trigger] bf.textures[k], t.path@, t.scale.current())
        } by {
            if q == i {
                let t = node_at(g, nodes[q])->Some_0->Texture_0;
                let k = choose|k: int|
                    0 <= k < b1.textures.len() && texture_matches(#[trigger] b1.textures[k], t.path@, t.scale.current());
                assert(bf.textures[k] == b1.textures[k]);
            }
        }
    } else {
        assert(b.textures.subrange(0, b.textures.len() as int) =~= b.textures);
    }
}

/// Compiling reuses textures: in the scene built from the previous scene's
/// textures `old` (distinct by file and scale, as every compiled scene's
/// are), file textures are again distinct by file and scale; every one that
/// `old` also held is that very entry, identity included, not a reload; and
/// every texture node that fed the scene has its file and scale in it. So an
/// entry of `old` whose file and scale some texture node still asks for
/// comes through unchanged.
pub proof fn law_textures_carried_over(
    g: Seq<Option<Slot>>,
    nodes: Seq<NodeId>,
    old: Seq<TextureData>,
    serial: u64,
)
    requires
        unique_files(old),
    ensures
        ({
            let b = build_from(g, nodes, 0, initial_build(g.len(), old, serial));
            &&& unique_files(b.textures)
            &&& carried_from(old, b.textures)
            &&& forall|q: int|
                0 <= q < nodes.len() && node_at(g, #[trigger] nodes[q]) is Some && node_at(g, nodes[q])->Some_0
                    is Texture ==> {
                    let t = node_at(g, nodes[q])->Some_0->Texture_0;
                    exists|k: int|
                        0 <= k < b.textures.len() && texture_matches(#[trigger] b.textures[k], t.path@, t.scale.current())
                }
            &&& forall|m: int, q: int|
                0 <= m < old.len() && 0 <= q < nodes.len() && node_at(g, #[trigger] nodes[q]) is Some && node_at(
                    g,
                    nodes[q],
                )->Some_0 is Texture && texture_matches(
                    #[trigger] old[m],
                    node_at(g, nodes[q])->Some_0->Texture_0.path@,
                    node_at(g, nodes[q])->Some_0->Texture_0.scale.current(),
                ) ==> exists|k: int| 0 <= k < b.textures.len() && #[trigger] b.textures[k] == old[m]
        }),
{
    let b0 = initial_build(g.len(), old, serial);
    assert forall|j: int| 0 <= j < b0.spare.len() implies in_seq(old, #[trigger] b0.spare[j]) by {
        assert(old[j] == b0.spare[j]);
    }
    assert forall|m: int| 0 <= m < old.len() && (#[trigger] old[m]).key is Some implies in_seq(b0.spare, old[m])
        || in_seq(b0.textures, old[m]) by {
        assert(b0.spare[m] == old[m]);
    }
    lemma_fold_inv(g, old, nodes, 0, b0);
    let b = build_from(g, nodes, 0, b0);
    assert forall|m: int, q: int|
        0 <= m < old.len() && 0 <= q < nodes.len() && node_at(g, #[trigger] nodes[q]) is Some && node_at(
            g,
            nodes[q],
        )->Some_0 is Texture && texture_matches(
            #[trigger] old[m],
            node_at(g, nodes[q])->Some_0->Texture_0.path@,
            node_at(g, nodes[q])->Some_0->Texture_0.scale.current(),
        ) implies exists|k: int| 0 <= k < b.textures.len() && #[trigger] b.textures[k] == old[m] by {
        let t = node_at(g, nodes[q])->Some_0->Texture_0;
        let k = choose|k: int|
            0 <= k < b.textures.len() && texture_matches(#[trigger] b.textures[k], t.path@, t.scale.current());
        assert(same_file(b.textures[k], old[m]));
    }
}

} // verus!
