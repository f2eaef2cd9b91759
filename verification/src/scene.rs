use vstd::prelude::*;

use vstd::pervasive::VecAdditionalExecFns;

use crate::camera::CameraInfo;
use crate::decode::decode_spec;
use crate::gltf::GltfData;
use crate::gltf::GltfMeshPrimitive;
use crate::gltf::GltfMeshPrimitiveAttr;
use crate::gltf::GltfMeshPrimitiveMode;
use crate::gltf::GltfAccessorType;
use crate::gltf::doc_indices_ok;
use crate::renderable::RenderError;
use crate::renderable::SceneRenderData;
use crate::renderable::index_region_of;
use crate::renderable::vertex_region_of;

verus! {

/// Why the node walk over a document stopped.
#[derive(Debug, Clone, Copy, PartialEq, Eq, Structural)]
pub enum WalkError {
    /// A node was reached twice: the graph has a cycle or shared child.
    CycleDetected,
    /// The document names no default scene.
    NoScene,
    /// A primitive could not be turned into renderable buffers.
    Render(RenderError),
}

/// The scene-management context: owns the camera.
pub struct SceneManager {
    pub camera: CameraInfo,
}

impl SceneManager {
    /// A scene with the starting camera.
    pub fn new() -> (r: SceneManager)
        ensures
            r.camera.wf(),
    {
        SceneManager { camera: CameraInfo::default() }
    }
}

/// How many nodes have not been visited yet.
pub open spec fn count_unvisited(v: Seq<bool>) -> nat
    decreases v.len(),
{
    if v.len() == 0 {
        0
    } else {
        (if v.last() {
            0nat
        } else {
            1nat
        }) + count_unvisited(v.drop_last())
    }
}

/// Marking an unvisited node visited strictly shrinks the unvisited count.
proof fn lemma_count_update(v: Seq<bool>, k: int)
    requires
        0 <= k < v.len(),
        !v[k],
    ensures
        count_unvisited(v.update(k, true)) < count_unvisited(v),
    decreases v.len(),
{
    let u = v.update(k, true);
    if k == v.len() - 1 {
        assert(u.drop_last() =~= v.drop_last());
    } else {
        assert(u.drop_last() =~= v.drop_last().update(k, true));
        lemma_count_update(v.drop_last(), k);
        assert(u.last() == v.last());
    }
}

/// What one attribute run leaves in the vertex slot: the index of the
/// accessor behind the last position attribute decoded so far, starting from
/// `cur`. The normal attribute and the attribute kinds not handled yet are
/// passed over; a position attribute whose accessor does not decode stops
/// the walk.
pub open spec fn attrs_outcome(
    attrs: Seq<(GltfMeshPrimitiveAttr, usize)>,
    i: int,
    cur: Option<int>,
    doc: GltfData,
    bin: Seq<u8>,
) -> Result<Option<int>, RenderError>
    decreases attrs.len() - i,
{
    if i < 0 || i >= attrs.len() {
        Ok(cur)
    } else {
        match attrs[i].0 {
            GltfMeshPrimitiveAttr::Position => {
                match decode_spec(doc.accessors@[attrs[i].1 as int], doc.buffer_views@, bin) {
                    Ok(_) => attrs_outcome(attrs, i + 1, Some(attrs[i].1 as int), doc, bin),
                    Err(e) => Err(RenderError::Decode(e)),
                }
            },
            _ => attrs_outcome(attrs, i + 1, cur, doc, bin),
        }
    }
}

/// What the walk makes of one primitive: a renderable descriptor — the
/// position accessor, if any, and the index accessor — or nothing for a
/// primitive that is passed over (a topology other than triangle lists, or
/// no index accessor), or the failure that stops the whole walk (an
/// accessor out of bounds, or indices that are not scalars).
pub open spec fn prim_outcome(p: GltfMeshPrimitive, doc: GltfData, bin: Seq<u8>) -> Result<
    Option<(Option<int>, int)>,
    WalkError,
> {
    if !(p.mode is None || p.mode == Some(GltfMeshPrimitiveMode::Triangles)) {
        Ok(None)
    } else {
        match p.indices {
            None => Ok(None),
            Some(ii) => match attrs_outcome(p.attributes@, 0, None, doc, bin) {
                Err(e) => Err(WalkError::Render(e)),
                Ok(pos) => {
                    if doc.accessors@[ii as int].accessor_type != GltfAccessorType::Scalar {
                        Err(WalkError::Render(RenderError::NotScalarIndices))
                    } else {
                        match decode_spec(doc.accessors@[ii as int], doc.buffer_views@, bin) {
                            Err(d) => Err(WalkError::Render(RenderError::Decode(d))),
                            Ok(_) => Ok(Some((pos, ii as int))),
                        }
                    }
                },
            },
        }
    }
}

/// The descriptors a run of primitives yields, from position `j` on, in
/// order, with the passed-over primitives left out.
pub open spec fn prims_outcome(
    prims: Seq<GltfMeshPrimitive>,
    j: int,
    doc: GltfData,
    bin: Seq<u8>,
) -> Result<Seq<(Option<int>, int)>, WalkError>
    decreases prims.len() - j,
{
    if j < 0 || j >= prims.len() {
        Ok(Seq::empty())
    } else {
        match prim_outcome(prims[j], doc, bin) {
            Err(e) => Err(e),
            Ok(None) => prims_outcome(prims, j + 1, doc, bin),
            Ok(Some(d)) => match prims_outcome(prims, j + 1, doc, bin) {
                Ok(rest) => Ok(seq![d] + rest),
                Err(e) => Err(e),
            },
        }
    }
}

/// The walk of one node: visit the children first, then the node's own mesh.
/// The result is the visited set after the walk and the descriptors of every
/// renderable primitive, in walk order — or the first failure. A node
/// reached twice is a cycle.
pub open spec fn walk_node_spec(doc: GltfData, bin: Seq<u8>, index: int, visited: Seq<bool>)
    -> Result<(Seq<bool>, Seq<(Option<int>, int)>), WalkError>
    decreases count_unvisited(visited), 0int, 0int,
{
    if !(0 <= index < visited.len()) || visited[index] {
        Err(WalkError::CycleDetected)
    } else {
        let v2 = visited.update(index, true);
        if count_unvisited(v2) < count_unvisited(visited) {
            let node = doc.nodes@[index];
            match walk_children_spec(doc, bin, node.children@, 0, v2) {
                Err(e) => Err(e),
                Ok(t) => match node.mesh {
                    None => Ok(t),
                    Some(m) => match prims_outcome(
                        doc.meshes@[m as int].primitives@,
                        0,
                        doc,
                        bin,
                    ) {
                        Err(e) => Err(e),
                        Ok(descs) => Ok((t.0, t.1 + descs)),
                    },
                },
            }
        } else {
            // never reached: marking an unvisited node shrinks the count
            Err(WalkError::CycleDetected)
        }
    }
}

/// The walk of a run of child nodes from position `i` on, each walk handing
/// its visited set to the next.
pub open spec fn walk_children_spec(
    doc: GltfData,
    bin: Seq<u8>,
    children: Seq<usize>,
    i: int,
    visited: Seq<bool>,
) -> Result<(Seq<bool>, Seq<(Option<int>, int)>), WalkError>
    decreases count_unvisited(visited), 1int, children.len() - i,
{
    if i < 0 || i >= children.len() {
        Ok((visited, Seq::empty()))
    } else {
        match walk_node_spec(doc, bin, children[i] as int, visited) {
            Err(e) => Err(e),
            Ok(t) => {
                if t.0.len() == visited.len() && count_unvisited(t.0) <= count_unvisited(
                    visited,
                ) {
                    match walk_children_spec(doc, bin, children, i + 1, t.0) {
                        Ok(t2) => Ok((t2.0, t.1 + t2.1)),
                        Err(e) => Err(e),
                    }
                } else {
                    // never reached: the walk only marks nodes
                    Err(WalkError::CycleDetected)
                }
            },
        }
    }
}

/// The descriptors of the whole default scene: every root of the default
/// scene walked in turn, starting with nothing visited. A document without a
/// default scene, or without scenes at all, has nothing to walk.
pub open spec fn scene_walk_spec(doc: GltfData, bin: Seq<u8>) -> Result<
    Seq<(Option<int>, int)>,
    WalkError,
> {
    match doc.default_scene {
        None => Err(WalkError::NoScene),
        Some(s) => {
            if doc.scenes@.len() == 0 {
                Err(WalkError::NoScene)
            } else {
                match walk_children_spec(
                    doc,
                    bin,
                    doc.scenes@[s as int].nodes@,
                    0,
                    Seq::new(doc.nodes@.len(), |k: int| false),
                ) {
                    Ok(t) => Ok(t.1),
                    Err(e) => Err(e),
                }
            }
        },
    }
}

/// The renderable element a primitive descriptor stands for: the vertex
/// region holds the bytes of the position accessor (when the primitive has
/// one), the index region the bytes of the index accessor.
pub open spec fn element_of(
    rd: SceneRenderData,
    d: (Option<int>, int),
    doc: GltfData,
    bin: Seq<u8>,
) -> bool {
    &&& (match d.0 {
        Some(pi) => 0 <= pi < doc.accessors@.len() && (rd.vertexbuffer matches Some(vr)
            && vertex_region_of(vr, doc.accessors@[pi], doc.buffer_views@, bin)),
        None => rd.vertexbuffer is None,
    })
    &&& 0 <= d.1 < doc.accessors@.len()
    &&& (rd.indexbuffer matches Some(ir) && index_region_of(
        ir,
        doc.accessors@[d.1],
        doc.buffer_views@,
        bin,
    ))
}

/// A renderable element drawn from the document: each filled buffer holds
/// exactly the bytes some accessor of the document addresses, and the index
/// buffer is always filled.
pub open spec fn elem_ok(rd: SceneRenderData, doc: GltfData, bin: Seq<u8>) -> bool {
    &&& (rd.vertexbuffer matches Some(vr) ==> exists|a: int|
        0 <= a < doc.accessors@.len() && vertex_region_of(
            vr,
            #[trigger] doc.accessors@[a],
            doc.buffer_views@,
            bin,
        ))
    &&& (rd.indexbuffer matches Some(ir) ==> exists|a: int|
        0 <= a < doc.accessors@.len() && index_region_of(
            ir,
            #[trigger] doc.accessors@[a],
            doc.buffer_views@,
            bin,
        ))
    &&& rd.indexbuffer is Some
}


/// Turn one primitive into its renderable element, mirroring `prim_outcome`:
/// the element for a renderable primitive, nothing for one that is passed
/// over, or the failure that stops the walk.
fn build_element(
    mesh_element: &GltfMeshPrimitive,
    gltf_data: &GltfData,
    bin_data: &Vec<u8>,
) -> (r: Result<Option<SceneRenderData>, WalkError>)
    requires
        crate::gltf::prim_indices_ok(*mesh_element, *gltf_data),
    ensures
        prim_outcome(*mesh_element, *gltf_data, bin_data@) matches Ok(Some(d)) ==> r matches Ok(
            o,
        ) && o matches Some(rd) && element_of(rd, d, *gltf_data, bin_data@) && elem_ok(
            rd,
            *gltf_data,
            bin_data@,
        ),
        prim_outcome(*mesh_element, *gltf_data, bin_data@) matches Ok(o2) && o2 is None ==> r
            == Ok::<Option<SceneRenderData>, WalkError>(None),
        prim_outcome(*mesh_element, *gltf_data, bin_data@) matches Err(e) ==> r == Err::<
            Option<SceneRenderData>,
            WalkError,
        >(e),
{
    let mode_ok = match mesh_element.mode {
        None => true,
        Some(GltfMeshPrimitiveMode::Triangles) => true,
        Some(_) => false,
    };
    if !mode_ok {
        return Ok(None);
    }
    let indices_index = match mesh_element.indices {
        Some(ii) => ii,
        None => {
            return Ok(None);
        },
    };
    let mut render_data = SceneRenderData::default();
    let ghost full_attrs = attrs_outcome(
        mesh_element.attributes@,
        0,
        None,
        *gltf_data,
        bin_data@,
    );
    let ghost mut cur: Option<int> = None;
    let mut a: usize = 0;
    while a < mesh_element.attributes.len()
        invariant
            crate::gltf::prim_indices_ok(*mesh_element, *gltf_data),
            mesh_element.mode is None || mesh_element.mode == Some(
                GltfMeshPrimitiveMode::Triangles,
            ),
            mesh_element.indices == Some(indices_index),
            a <= mesh_element.attributes@.len(),
            render_data.indexbuffer is None,
            (match cur {
                Some(pi) => 0 <= pi < gltf_data.accessors@.len() && (
                render_data.vertexbuffer matches Some(vr) && vertex_region_of(
                    vr,
                    gltf_data.accessors@[pi],
                    gltf_data.buffer_views@,
                    bin_data@,
                )),
                None => render_data.vertexbuffer is None,
            }),
            full_attrs == attrs_outcome(
                mesh_element.attributes@,
                0,
                None,
                *gltf_data,
                bin_data@,
            ),
            full_attrs == attrs_outcome(
                mesh_element.attributes@,
                a as int,
                cur,
                *gltf_data,
                bin_data@,
            ),
        decreases mesh_element.attributes@.len() - a,
    {
        let attr = mesh_element.attributes[a].0;
        let accessor_index = mesh_element.attributes[a].1;
        proof {
            assert((mesh_element.attributes@[a as int]).1 < gltf_data.accessors@.len());
        }
        let accessor = &gltf_data.accessors[accessor_index];
        let step = render_data.process_primitive(
            &attr,
            &gltf_data.buffer_views,
            bin_data,
            accessor,
        );
        match step {
            Ok(()) => {
                proof {
                    if attr == GltfMeshPrimitiveAttr::Position {
                        cur = Some(accessor_index as int);
                    }
                }
            },
            Err(RenderError::UnsupportedAttribute) => {},
            Err(e) => {
                proof {
                    assert(full_attrs == Err::<Option<int>, RenderError>(e));
                }
                return Err(WalkError::Render(e));
            },
        }
        a += 1;
    }
    proof {
        assert(full_attrs == Ok::<Option<int>, RenderError>(cur));
    }
    let indices_data = &gltf_data.accessors[indices_index];
    let step = render_data.process_indices(&gltf_data.buffer_views, bin_data, indices_data);
    match step {
        Ok(()) => {},
        Err(e) => {
            return Err(WalkError::Render(e));
        },
    }
    proof {
        let d = (cur, indices_index as int);
        assert(prim_outcome(*mesh_element, *gltf_data, bin_data@) == Ok::<
            Option<(Option<int>, int)>,
            WalkError,
        >(Some(d)));
        assert(element_of(render_data, d, *gltf_data, bin_data@));
        match d.0 {
            Some(pi) => {
                assert(elem_ok(render_data, *gltf_data, bin_data@)) by {
                    assert(render_data.vertexbuffer matches Some(vr) && vertex_region_of(
                        vr,
                        gltf_data.accessors@[pi],
                        gltf_data.buffer_views@,
                        bin_data@,
                    ));
                    assert(render_data.indexbuffer matches Some(ir) && index_region_of(
                        ir,
                        gltf_data.accessors@[d.1],
                        gltf_data.buffer_views@,
                        bin_data@,
                    ));
                }
            },
            None => {
                assert(elem_ok(render_data, *gltf_data, bin_data@)) by {
                    assert(render_data.indexbuffer matches Some(ir) && index_region_of(
                        ir,
                        gltf_data.accessors@[d.1],
                        gltf_data.buffer_views@,
                        bin_data@,
                    ));
                }
            },
        }
    }
    Ok(Some(render_data))
}

/// Walk one node: recurse into every child first, then decode the node's own
/// mesh, one renderable element per triangle-list primitive with indices.
/// The call mirrors `walk_node_spec` exactly: it succeeds precisely when the
/// spec does, appends one element per descriptor, and reports a node reached
/// twice — a cycle or a shared child — so the walk always ends. Primitives
/// with an unhandled topology or no index accessor, and attribute kinds not
/// handled yet, are passed over; an out-of-bounds accessor or non-scalar
/// indices stop the walk.
pub fn traverse_node(
    index: usize,
    gltf_data: &GltfData,
    bin_data: &Vec<u8>,
    visited: &mut Vec<bool>,
    render_queue: &mut Vec<SceneRenderData>,
) -> (r: Result<(), WalkError>)
    requires
        doc_indices_ok(*gltf_data),
        index < gltf_data.nodes@.len(),
        old(visited)@.len() == gltf_data.nodes@.len(),
    ensures
        final(visited)@.len() == old(visited)@.len(),
        forall|k: int|
            0 <= k < old(visited)@.len() && old(visited)@[k] ==> final(visited)@[k],
        count_unvisited(final(visited)@) <= count_unvisited(old(visited)@),
        final(render_queue)@.len() >= old(render_queue)@.len(),
        forall|k: int|
            0 <= k < old(render_queue)@.len() ==> final(render_queue)@[k] == old(
                render_queue,
            )@[k],
        forall|k: int|
            old(render_queue)@.len() <= k < final(render_queue)@.len() ==> elem_ok(
                #[trigger] final(render_queue)@[k],
                *gltf_data,
                bin_data@,
            ),
        walk_node_spec(*gltf_data, bin_data@, index as int, old(visited)@) matches Ok(t) ==> r
            is Ok && final(visited)@ == t.0 && final(render_queue)@.len() == old(
            render_queue,
        )@.len() + t.1.len() && (forall|k: int|
            0 <= k < t.1.len() ==> element_of(
                #[trigger] final(render_queue)@[old(render_queue)@.len() + k],
                t.1[k],
                *gltf_data,
                bin_data@,
            )),
        walk_node_spec(*gltf_data, bin_data@, index as int, old(visited)@) matches Err(e) ==> r
            == Err::<(), WalkError>(e),
        r is Ok ==> final(visited)@[index as int],
    decreases count_unvisited(old(visited)@),
{
    let ghost v0 = visited@;
    if visited[index] {
        return Err(WalkError::CycleDetected);
    }
    proof {
        lemma_count_update(visited@, index as int);
    }
    visited.set(index, true);
    let ghost v2 = visited@;
    let node = &gltf_data.nodes[index];
    let ghost entry_count = count_unvisited(v0);
    let ghost rq0 = render_queue@;
    let ghost full_children = walk_children_spec(
        *gltf_data,
        bin_data@,
        node.children@,
        0,
        v2,
    );
    let ghost mut dacc: Seq<(Option<int>, int)> = Seq::empty();
    let mut child: usize = 0;
    proof {
        match walk_children_spec(*gltf_data, bin_data@, node.children@, 0, visited@) {
            Ok(t) => {
                assert(dacc + t.1 =~= t.1);
            },
            Err(_) => {},
        }
    }
    while child < node.children.len()
        invariant
            doc_indices_ok(*gltf_data),
            index < gltf_data.nodes@.len(),
            node == &gltf_data.nodes@[index as int],
            child <= node.children@.len(),
            visited@.len() == gltf_data.nodes@.len(),
            v0 == old(visited)@,
            v0.len() == gltf_data.nodes@.len(),
            !v0[index as int],
            v2 == v0.update(index as int, true),
            count_unvisited(v2) < count_unvisited(v0),
            visited@[index as int],
            count_unvisited(visited@) < entry_count,
            forall|k: int| 0 <= k < v0.len() && v0[k] ==> visited@[k],
            entry_count == count_unvisited(v0),
            rq0 == old(render_queue)@,
            render_queue@.len() == rq0.len() + dacc.len(),
            forall|k: int| 0 <= k < rq0.len() ==> render_queue@[k] == rq0[k],
            forall|k: int|
                0 <= k < dacc.len() ==> element_of(
                    #[trigger] render_queue@[rq0.len() + k],
                    dacc[k],
                    *gltf_data,
                    bin_data@,
                ),
            forall|k: int|
                rq0.len() <= k < render_queue@.len() ==> elem_ok(
                    #[trigger] render_queue@[k],
                    *gltf_data,
                    bin_data@,
                ),
            full_children == walk_children_spec(
                *gltf_data,
                bin_data@,
                node.children@,
                0,
                v2,
            ),
            (match walk_children_spec(
                *gltf_data,
                bin_data@,
                node.children@,
                child as int,
                visited@,
            ) {
                Ok(t) => full_children == Ok::<_, WalkError>((t.0, dacc + t.1)),
                Err(e) => full_children == Err::<(Seq<bool>, Seq<(Option<int>, int)>), _>(e),
            }),
        decreases node.children@.len() - child,
    {
        let child_index = node.children[child];
        proof {
            assert(gltf_data.nodes@[index as int].children@[child as int]
                < gltf_data.nodes@.len());
        }
        let ghost v_before = visited@;
        let ghost d_before = dacc;
        let ghost rq_before = render_queue@;
        let r = traverse_node(child_index, gltf_data, bin_data, visited, render_queue);
        proof {
            let head = walk_node_spec(*gltf_data, bin_data@, child_index as int, v_before);
            match head {
                Ok(th) => {
                    dacc = d_before + th.1;
                    assert(visited@ == th.0 && render_queue@.len() == rq_before.len()
                        + th.1.len());
                    assert forall|k: int|
                        0 <= k < dacc.len() implies element_of(
                        #[trigger] render_queue@[rq0.len() + k],
                        dacc[k],
                        *gltf_data,
                        bin_data@,
                    ) by {
                        if k < d_before.len() {
                            assert(render_queue@[rq0.len() + k] == rq_before[rq0.len() + k]);
                            assert(dacc[k] == d_before[k]);
                        } else {
                            assert(dacc[k] == th.1[k - d_before.len()]);
                            assert(rq0.len() + k == rq_before.len() + (k - d_before.len()));
                        }
                    }
                    match walk_children_spec(
                        *gltf_data,
                        bin_data@,
                        node.children@,
                        child as int + 1,
                        visited@,
                    ) {
                        Ok(t2) => {
                            assert(d_before + (th.1 + t2.1) =~= dacc + t2.1);
                        },
                        Err(_) => {},
                    }
                },
                Err(_) => {},
            }
        }
        match r {
            Ok(()) => {},
            Err(e) => {
                proof {
                    assert(walk_node_spec(*gltf_data, bin_data@, index as int, v0) == Err::<
                        (Seq<bool>, Seq<(Option<int>, int)>),
                        WalkError,
                    >(e));
                }
                return Err(e);
            },
        }
        child += 1;
    }
    proof {
        match full_children {
            Ok(t) => {
                assert(dacc + Seq::<(Option<int>, int)>::empty() =~= dacc);
                assert(full_children == Ok::<_, WalkError>((visited@, dacc)));
            },
            Err(_) => {
                assert(false);
            },
        }
    }
    let mesh_index = match node.mesh {
        Some(m) => m,
        None => {
            proof {
                assert(walk_node_spec(*gltf_data, bin_data@, index as int, v0) == Ok::<
                    (Seq<bool>, Seq<(Option<int>, int)>),
                    WalkError,
                >((visited@, dacc)));
            }
            return Ok(());
        },
    };
    proof {
        assert(gltf_data.nodes@[index as int].mesh matches Some(m) && m
            < gltf_data.meshes@.len());
    }
    let mesh = &gltf_data.meshes[mesh_index];
    let ghost full_prims = prims_outcome(mesh.primitives@, 0, *gltf_data, bin_data@);
    let ghost mut pacc: Seq<(Option<int>, int)> = Seq::empty();
    let ghost v3 = visited@;
    let ghost rq1 = render_queue@;
    proof {
        match prims_outcome(mesh.primitives@, 0, *gltf_data, bin_data@) {
            Ok(rest) => {
                assert(pacc + rest =~= rest);
            },
            Err(_) => {},
        }
    }
    let mut p: usize = 0;
    while p < mesh.primitives.len()
        invariant
            doc_indices_ok(*gltf_data),
            mesh_index < gltf_data.meshes@.len(),
            mesh == &gltf_data.meshes@[mesh_index as int],
            p <= mesh.primitives@.len(),
            visited@ == v3,
            v3.len() == gltf_data.nodes@.len(),
            v0 == old(visited)@,
            v0.len() == gltf_data.nodes@.len(),
            !v0[index as int],
            v2 == v0.update(index as int, true),
            count_unvisited(v2) < count_unvisited(v0),
            node == &gltf_data.nodes@[index as int],
            node.mesh == Some(mesh_index),
            full_children == walk_children_spec(*gltf_data, bin_data@, node.children@, 0, v2),
            full_children == Ok::<(Seq<bool>, Seq<(Option<int>, int)>), WalkError>((v3, dacc)),
            visited@[index as int],
            index < gltf_data.nodes@.len(),
            count_unvisited(visited@) <= count_unvisited(v0),
            forall|k: int| 0 <= k < v0.len() && v0[k] ==> visited@[k],
            rq0 == old(render_queue)@,
            rq1.len() == rq0.len() + dacc.len(),
            render_queue@.len() == rq1.len() + pacc.len(),
            forall|k: int| 0 <= k < rq1.len() ==> render_queue@[k] == rq1[k],
            forall|k: int| 0 <= k < rq0.len() ==> rq1[k] == rq0[k],
            forall|k: int|
                0 <= k < dacc.len() ==> element_of(
                    #[trigger] rq1[rq0.len() + k],
                    dacc[k],
                    *gltf_data,
                    bin_data@,
                ),
            forall|k: int|
                rq0.len() <= k < rq1.len() ==> elem_ok(#[trigger] rq1[k], *gltf_data, bin_data@),
            forall|k: int|
                0 <= k < pacc.len() ==> element_of(
                    #[trigger] render_queue@[rq1.len() + k],
                    pacc[k],
                    *gltf_data,
                    bin_data@,
                ),
            forall|k: int|
                rq1.len() <= k < render_queue@.len() ==> elem_ok(
                    #[trigger] render_queue@[k],
                    *gltf_data,
                    bin_data@,
                ),
            full_prims == prims_outcome(mesh.primitives@, 0, *gltf_data, bin_data@),
            (match prims_outcome(mesh.primitives@, p as int, *gltf_data, bin_data@) {
                Ok(rest) => full_prims == Ok::<_, WalkError>(pacc + rest),
                Err(e) => full_prims == Err::<Seq<(Option<int>, int)>, _>(e),
            }),
        decreases mesh.primitives@.len() - p,
    {
        let mesh_element = &mesh.primitives[p];
        proof {
            assert(crate::gltf::prim_indices_ok(
                gltf_data.meshes@[mesh_index as int].primitives@[p as int],
                *gltf_data,
            ));
        }
        match build_element(mesh_element, gltf_data, bin_data) {
            Ok(None) => {},
            Ok(Some(render_data)) => {
                proof {
                    let d = (match prim_outcome(
                        gltf_data.meshes@[mesh_index as int].primitives@[p as int],
                        *gltf_data,
                        bin_data@,
                    ) {
                        Ok(Some(d)) => d,
                        _ => arbitrary(),
                    });
                    match prims_outcome(mesh.primitives@, p as int + 1, *gltf_data, bin_data@) {
                        Ok(rest) => {
                            assert(pacc + (seq![d] + rest) =~= pacc.push(d) + rest);
                        },
                        Err(_) => {},
                    }
                    pacc = pacc.push(d);
                }
                render_queue.push(render_data);
            },
            Err(e) => {
                proof {
                    assert(full_prims == Err::<Seq<(Option<int>, int)>, WalkError>(e));
                    assert(walk_node_spec(*gltf_data, bin_data@, index as int, v0) == Err::<
                        (Seq<bool>, Seq<(Option<int>, int)>),
                        WalkError,
                    >(e));
                    assert forall|k: int|
                        rq0.len() <= k < render_queue@.len() implies elem_ok(
                        #[trigger] render_queue@[k],
                        *gltf_data,
                        bin_data@,
                    ) by {
                        if k < rq1.len() {
                            assert(render_queue@[k] == rq1[k]);
                        }
                    }
                }
                return Err(e);
            },
        }
        p += 1;
    }
    proof {
        assert(prims_outcome(
            mesh.primitives@,
            mesh.primitives@.len() as int,
            *gltf_data,
            bin_data@,
        ) == Ok::<Seq<(Option<int>, int)>, WalkError>(Seq::empty()));
        match full_prims {
            Ok(rest) => {
                assert(pacc + Seq::<(Option<int>, int)>::empty() =~= pacc);
                assert(full_prims == Ok::<_, WalkError>(pacc));
            },
            Err(_) => {
                assert(false);
            },
        }
        let descs = dacc + pacc;
        assert(walk_node_spec(*gltf_data, bin_data@, index as int, v0) == Ok::<
            (Seq<bool>, Seq<(Option<int>, int)>),
            WalkError,
        >((v3, descs)));
        assert(render_queue@.len() == rq0.len() + descs.len());
        assert forall|k: int|
            0 <= k < descs.len() implies element_of(
            #[trigger] render_queue@[rq0.len() + k],
            descs[k],
            *gltf_data,
            bin_data@,
        ) by {
            if k < dacc.len() {
                assert(descs[k] == dacc[k]);
                assert(render_queue@[rq0.len() + k] == rq1[rq0.len() + k]);
            } else {
                assert(descs[k] == pacc[k - dacc.len()]);
                assert(rq0.len() + k == rq1.len() + (k - dacc.len()));
            }
        }
        assert forall|k: int|
            rq0.len() <= k < render_queue@.len() implies elem_ok(
            #[trigger] render_queue@[k],
            *gltf_data,
            bin_data@,
        ) by {
            if k < rq1.len() {
                assert(render_queue@[k] == rq1[k]);
            }
        }
    }
    Ok(())
}

/// Decode every renderable primitive of the default scene: walk each root of
/// the scene in turn, mirroring `scene_walk_spec` exactly. Every element
/// handed back was decoded, in bounds, from an accessor of the document, one
/// per renderable primitive in walk order.
pub fn build_scene(gltf_data: &GltfData, bin_data: &Vec<u8>) -> (r: Result<
    Vec<SceneRenderData>,
    WalkError,
>)
    requires
        doc_indices_ok(*gltf_data),
    ensures
        scene_walk_spec(*gltf_data, bin_data@) matches Ok(descs) ==> r matches Ok(q) && q@.len()
            == descs.len() && (forall|k: int|
            0 <= k < descs.len() ==> element_of(#[trigger] q@[k], descs[k], *gltf_data, bin_data@)),
        scene_walk_spec(*gltf_data, bin_data@) matches Err(e) ==> r == Err::<
            Vec<SceneRenderData>,
            WalkError,
        >(e),
        r matches Ok(q) ==> forall|k: int|
            0 <= k < q@.len() ==> elem_ok(#[trigger] q@[k], *gltf_data, bin_data@),
{
    let default_scene = match gltf_data.default_scene {
        Some(s) => s,
        None => {
            return Err(WalkError::NoScene);
        },
    };
    if gltf_data.scenes.len() == 0 {
        return Err(WalkError::NoScene);
    }
    proof {
        assert(default_scene < gltf_data.scenes@.len());
    }
    let mut visited: Vec<bool> = Vec::new();
    let mut i: usize = 0;
    while i < gltf_data.nodes.len()
        invariant
            visited@.len() == i as int,
            i <= gltf_data.nodes@.len(),
            forall|k: int| 0 <= k < i ==> !visited@[k],
        decreases gltf_data.nodes@.len() - i,
    {
        visited.push(false);
        i += 1;
    }
    proof {
        assert(visited@ =~= Seq::new(gltf_data.nodes@.len(), |k: int| false));
    }
    let mut render_queue: Vec<SceneRenderData> = Vec::new();
    let scene = &gltf_data.scenes[default_scene];
    let ghost full = walk_children_spec(
        *gltf_data,
        bin_data@,
        scene.nodes@,
        0,
        visited@,
    );
    let ghost mut dacc: Seq<(Option<int>, int)> = Seq::empty();
    proof {
        match full {
            Ok(t) => {
                assert(dacc + t.1 =~= t.1);
            },
            Err(_) => {},
        }
    }
    let mut j: usize = 0;
    while j < scene.nodes.len()
        invariant
            doc_indices_ok(*gltf_data),
            default_scene < gltf_data.scenes@.len(),
            gltf_data.default_scene == Some(default_scene),
            gltf_data.scenes@.len() > 0,
            scene == &gltf_data.scenes@[default_scene as int],
            full == walk_children_spec(
                *gltf_data,
                bin_data@,
                scene.nodes@,
                0,
                Seq::new(gltf_data.nodes@.len(), |k: int| false),
            ),
            j <= scene.nodes@.len(),
            visited@.len() == gltf_data.nodes@.len(),
            render_queue@.len() == dacc.len(),
            forall|k: int|
                0 <= k < dacc.len() ==> element_of(
                    #[trigger] render_queue@[k],
                    dacc[k],
                    *gltf_data,
                    bin_data@,
                ),
            forall|k: int|
                0 <= k < render_queue@.len() ==> elem_ok(
                    #[trigger] render_queue@[k],
                    *gltf_data,
                    bin_data@,
                ),
            (match walk_children_spec(
                *gltf_data,
                bin_data@,
                scene.nodes@,
                j as int,
                visited@,
            ) {
                Ok(t) => full == Ok::<_, WalkError>((t.0, dacc + t.1)),
                Err(e) => full == Err::<(Seq<bool>, Seq<(Option<int>, int)>), _>(e),
            }),
        decreases scene.nodes@.len() - j,
    {
        let root = scene.nodes[j];
        proof {
            assert(gltf_data.scenes@[default_scene as int].nodes@[j as int]
                < gltf_data.nodes@.len());
        }
        let ghost v_before = visited@;
        let ghost d_before = dacc;
        let ghost rq_before = render_queue@;
        let r = traverse_node(root, gltf_data, bin_data, &mut visited, &mut render_queue);
        proof {
            let head = walk_node_spec(*gltf_data, bin_data@, root as int, v_before);
            match head {
                Ok(th) => {
                    dacc = d_before + th.1;
                    assert(visited@ == th.0 && render_queue@.len() == rq_before.len()
                        + th.1.len());
                    assert forall|k: int|
                        0 <= k < dacc.len() implies element_of(
                        #[trigger] render_queue@[k],
                        dacc[k],
                        *gltf_data,
                        bin_data@,
                    ) by {
                        if k < d_before.len() {
                            assert(render_queue@[k] == rq_before[k]);
                            assert(dacc[k] == d_before[k]);
                        } else {
                            assert(dacc[k] == th.1[k - d_before.len()]);
                            assert(k == rq_before.len() + (k - d_before.len()));
                        }
                    }
                    match walk_children_spec(
                        *gltf_data,
                        bin_data@,
                        scene.nodes@,
                        j as int + 1,
                        visited@,
                    ) {
                        Ok(t2) => {
                            assert(d_before + (th.1 + t2.1) =~= dacc + t2.1);
                        },
                        Err(_) => {},
                    }
                },
                Err(_) => {},
            }
        }
        match r {
            Ok(()) => {},
            Err(e) => {
                proof {
                    assert(full == Err::<(Seq<bool>, Seq<(Option<int>, int)>), WalkError>(e));
                    assert(scene_walk_spec(*gltf_data, bin_data@) == Err::<
                        Seq<(Option<int>, int)>,
                        WalkError,
                    >(e));
                }
                return Err(e);
            },
        }
        j += 1;
    }
    proof {
        match full {
            Ok(t) => {
                assert(dacc + Seq::<(Option<int>, int)>::empty() =~= dacc);
                assert(full == Ok::<(Seq<bool>, Seq<(Option<int>, int)>), WalkError>((
                    visited@,
                    dacc,
                )));
                assert(scene_walk_spec(*gltf_data, bin_data@) == Ok::<
                    Seq<(Option<int>, int)>,
                    WalkError,
                >(dacc));
            },
            Err(_) => {
                assert(false);
            },
        }
    }
    Ok(render_queue)
}

} // verus!
