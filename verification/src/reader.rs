//! Building the scene graph of a model.
use vstd::prelude::*;
use crate::data::{
    material_names, Face, FaceView, MaterialView, Mesh, MeshView, Model, ModelView, Object,
    ObjectView, Scalar, ScalarView, Transform,
};
use crate::error::ParseError;
use crate::parser::{geometry_text, Parser};
use crate::data::empty_model;
use crate::scene::{
    empty_graph, empty_node, Index, SceneFace, SceneGraph, SceneGraphView, SceneMesh,
    SceneMeshView, SceneNode, SceneNodeView,
};
use crate::seqs::{lemma_views_push, position_from, views};

verus! {

/// For each of `indices` the three numbers of that entry of `pool`.
pub open spec fn triples(pool: Seq<ScalarView>, indices: Seq<usize>) -> Seq<ScalarView> {
    Seq::new(3 * indices.len(), |k: int| pool[3 * indices[k / 3] + k % 3])
}

/// For each of `indices` the two numbers of that entry of `pool`.
pub open spec fn pairs(pool: Seq<ScalarView>, indices: Seq<usize>) -> Seq<ScalarView> {
    Seq::new(2 * indices.len(), |k: int| pool[2 * indices[k / 2] + k % 2])
}

/// The `n` indices that follow one another from `start`.
pub open spec fn run(start: int, n: int) -> Seq<usize> {
    Seq::new(n as nat, |i: int| (start + i) as usize)
}

/// Whether every corner of the face has a position, a texture coordinate and
/// a normal, and each of them lies in its pool.
pub open spec fn face_fits(m: ModelView, f: FaceView) -> bool {
    &&& f.textures.len() >= f.vertices.len()
    &&& f.normals.len() >= f.vertices.len()
    &&& forall|i: int|
        0 <= i < f.vertices.len() ==> {
            &&& 3 * #[trigger] f.vertices[i] + 2 < m.gv.len()
            &&& 2 * f.textures[i] + 1 < m.vt.len()
            &&& 3 * f.normals[i] + 2 < m.vn.len()
        }
}

/// Whether the material of the mesh exists and each of its faces fits.
pub open spec fn mesh_fits(m: ModelView, mesh: MeshView) -> bool {
    &&& mesh.material < m.matlib.materials.len()
    &&& forall|k: int| 0 <= k < mesh.faces.len() ==> face_fits(m, #[trigger] mesh.faces[k])
}

/// Whether each mesh and each sub object of the object exists, and each of
/// its meshes fits.
pub open spec fn object_fits(m: ModelView, object: ObjectView) -> bool {
    &&& forall|k: int|
        0 <= k < object.meshes.len() ==> (#[trigger] object.meshes[k]) < m.meshes.len()
            && mesh_fits(m, m.meshes[object.meshes[k] as int])
    &&& forall|j: int|
        0 <= j < object.sub_objects.len() ==> (#[trigger] object.sub_objects[j])
            < m.objects.len()
}

/// Whether a scene can be built from the model: each of its objects fits.
pub open spec fn model_fits(m: ModelView) -> bool {
    forall|i: int| 0 <= i < m.objects.len() ==> object_fits(m, #[trigger] m.objects[i])
}

/// The number of corners of `faces` in all.
pub open spec fn corner_count(faces: Seq<FaceView>) -> nat
    decreases faces.len(),
{
    if faces.len() == 0 {
        0
    } else {
        corner_count(faces.drop_last()) + faces.last().vertices.len()
    }
}

/// The positions of the corners of `faces`, corner by corner.
pub open spec fn mesh_positions(m: ModelView, faces: Seq<FaceView>) -> Seq<ScalarView>
    decreases faces.len(),
{
    if faces.len() == 0 {
        Seq::empty()
    } else {
        mesh_positions(m, faces.drop_last()) + triples(m.gv, faces.last().vertices)
    }
}

/// The texture coordinates of the corners of `faces`, corner by corner.
pub open spec fn mesh_texcoords(m: ModelView, faces: Seq<FaceView>) -> Seq<ScalarView>
    decreases faces.len(),
{
    if faces.len() == 0 {
        Seq::empty()
    } else {
        let f = faces.last();
        mesh_texcoords(m, faces.drop_last()) + pairs(
            m.vt,
            f.textures.take(f.vertices.len() as int),
        )
    }
}

/// The normals of the corners of `faces`, corner by corner.
pub open spec fn mesh_normals(m: ModelView, faces: Seq<FaceView>) -> Seq<ScalarView>
    decreases faces.len(),
{
    if faces.len() == 0 {
        Seq::empty()
    } else {
        let f = faces.last();
        mesh_normals(m, faces.drop_last()) + triples(m.vn, f.normals.take(f.vertices.len() as int))
    }
}

/// The faces of a scene mesh: each holds the numbers of its corners, which
/// are counted through the mesh from zero.
pub open spec fn scene_faces(faces: Seq<FaceView>) -> Seq<Seq<usize>> {
    Seq::new(
        faces.len(),
        |k: int| run(corner_count(faces.take(k)) as int, faces[k].vertices.len() as int),
    )
}

/// The place in `materials` of the first material called `name`.
pub open spec fn material_link(materials: Seq<MaterialView>, name: Seq<char>) -> Option<Index> {
    match position_from(material_names(materials), name, 0) {
        Some(i) => Some(Index { index: i as usize }),
        None => None,
    }
}

/// The scene mesh of a mesh of the model: its corner data written out corner
/// by corner, and its material looked up by name among `materials`.
pub open spec fn filled(m: ModelView, materials: Seq<MaterialView>, mesh: MeshView) -> SceneMeshView {
    SceneMeshView {
        name: mesh.name,
        gv: mesh_positions(m, mesh.faces),
        vn: mesh_normals(m, mesh.faces),
        vt: mesh_texcoords(m, mesh.faces),
        colors: Seq::empty(),
        material: material_link(materials, m.matlib.materials[mesh.material as int].name),
        faces: scene_faces(mesh.faces),
        face_indices: run(0, corner_count(mesh.faces) as int),
    }
}

/// The materials that were defined by name: all but the unnamed first.
pub open spec fn registered(materials: Seq<MaterialView>) -> Seq<MaterialView> {
    if materials.len() == 0 {
        Seq::empty()
    } else {
        materials.skip(1)
    }
}

/// The scene meshes of the meshes of `object`, in order.
pub open spec fn object_meshes(m: ModelView, materials: Seq<MaterialView>, object: ObjectView) -> Seq<
    SceneMeshView,
> {
    Seq::new(
        object.meshes.len(),
        |k: int| filled(m, materials, m.meshes[object.meshes[k] as int]),
    )
}

/// The scene meshes of the meshes of `objects`, object by object.
pub open spec fn objects_meshes(
    m: ModelView,
    materials: Seq<MaterialView>,
    objects: Seq<ObjectView>,
) -> Seq<SceneMeshView>
    decreases objects.len(),
{
    if objects.len() == 0 {
        Seq::empty()
    } else {
        objects_meshes(m, materials, objects.drop_last()) + object_meshes(
            m,
            materials,
            objects.last(),
        )
    }
}

/// The number of meshes of `objects` in all.
pub open spec fn mesh_total(objects: Seq<ObjectView>) -> nat
    decreases objects.len(),
{
    if objects.len() == 0 {
        0
    } else {
        mesh_total(objects.drop_last()) + objects.last().meshes.len()
    }
}

/// The last of `objects` that names the object at place `c` as its sub
/// object.
pub open spec fn owner(objects: Seq<ObjectView>, c: usize) -> Option<int>
    decreases objects.len(),
{
    if objects.len() == 0 {
        None
    } else if objects.last().sub_objects.contains(c) {
        Some(objects.len() - 1)
    } else {
        owner(objects.drop_last(), c)
    }
}

/// The node that is parent to the node of the object at place `c`: the node
/// of its owner among `objects`, or else the root. The root is at place
/// `root`, and the nodes of the objects follow it in order.
pub open spec fn parent_index(objects: Seq<ObjectView>, c: int, root: int) -> usize {
    match owner(objects, c as usize) {
        Some(i) => (root + 1 + i) as usize,
        None => root as usize,
    }
}

/// The node of the object at place `i` of the model in a scene that held `s`
/// before the model was added, with the node at place `parent` as its parent.
pub open spec fn object_node(s: SceneGraphView, m: ModelView, i: int, parent: usize) -> SceneNodeView {
    SceneNodeView {
        parent: Some(Index { index: parent }),
        children: Seq::empty(),
        name: m.objects[i].name,
        transformation: Transform::Identity,
        meshes: run(
            (s.meshes.len() + mesh_total(m.objects.take(i))) as int,
            m.objects[i].meshes.len() as int,
        ),
    }
}

/// The scene `s` with the model `m` added to it: a root node and behind it a
/// node for each object, whose parent is the node of the object's owner or
/// else the root; the materials that the model defines by name; and the
/// scene mesh of each mesh of each object.
pub open spec fn scene_with(s: SceneGraphView, m: ModelView) -> SceneGraphView {
    let materials = s.materials + registered(m.matlib.materials);
    let root = s.nodes.len() as int;
    SceneGraphView {
        nodes: s.nodes.push(empty_node()) + Seq::new(
            m.objects.len(),
            |i: int| object_node(s, m, i, parent_index(m.objects, i, root)),
        ),
        meshes: s.meshes + objects_meshes(m, materials, m.objects),
        materials,
    }
}

/// There is a scene mesh for each mesh of the objects.
pub proof fn lemma_objects_meshes_len(
    m: ModelView,
    materials: Seq<MaterialView>,
    objects: Seq<ObjectView>,
)
    ensures
        objects_meshes(m, materials, objects).len() == mesh_total(objects),
    decreases objects.len(),
{
    if objects.len() > 0 {
        lemma_objects_meshes_len(m, materials, objects.drop_last());
    }
}

/// One more index adds its three numbers.
pub proof fn lemma_triples_push(pool: Seq<ScalarView>, indices: Seq<usize>, x: usize)
    ensures
        triples(pool, indices.push(x)) == triples(pool, indices).push(pool[3 * x]).push(
            pool[3 * x + 1],
        ).push(pool[3 * x + 2]),
{
    let n = indices.len() as int;
    let a = triples(pool, indices.push(x));
    let b = triples(pool, indices).push(pool[3 * x]).push(pool[3 * x + 1]).push(pool[3 * x + 2]);
    assert(a.len() == b.len());
    assert forall|k: int| 0 <= k < a.len() implies a[k] == b[k] by {
        if k < 3 * n {
            assert(k / 3 < n);
            assert(indices.push(x)[k / 3] == indices[k / 3]);
        } else {
            assert(k / 3 == n);
            assert(indices.push(x)[k / 3] == x);
            assert(k % 3 == k - 3 * n);
        }
    }
    assert(a =~= b);
}

/// One more index adds its two numbers.
pub proof fn lemma_pairs_push(pool: Seq<ScalarView>, indices: Seq<usize>, x: usize)
    ensures
        pairs(pool, indices.push(x)) == pairs(pool, indices).push(pool[2 * x]).push(
            pool[2 * x + 1],
        ),
{
    let n = indices.len() as int;
    let a = pairs(pool, indices.push(x));
    let b = pairs(pool, indices).push(pool[2 * x]).push(pool[2 * x + 1]);
    assert(a.len() == b.len());
    assert forall|k: int| 0 <= k < a.len() implies a[k] == b[k] by {
        if k < 2 * n {
            assert(k / 2 < n);
            assert(indices.push(x)[k / 2] == indices[k / 2]);
        } else {
            assert(k / 2 == n);
            assert(indices.push(x)[k / 2] == x);
            assert(k % 2 == k - 2 * n);
        }
    }
    assert(a =~= b);
}

/// Appends a copy of the number at place `at` of `pool` to `out`.
fn push_copy(out: &mut Vec<Scalar>, pool: &Vec<Scalar>, at: usize)
    requires
        at < pool.len(),
    ensures
        views(final(out)@) == views(old(out)@).push(views(pool@)[at as int]),
{
    let x = pool[at].clone();
    proof {
        lemma_views_push(out@, x);
    }
    out.push(x);
}

/// The place in `materials` of the first material called `name`.
pub fn find_link(materials: &Vec<crate::data::Material>, name: &String) -> (out: Option<Index>)
    ensures
        out == material_link(views(materials@), name@),
{
    let ghost names = material_names(views(materials@));
    let mut i: usize = 0;
    while i < materials.len()
        invariant
            names == material_names(views(materials@)),
            position_from(names, name@, i as int) == position_from(names, name@, 0),
        decreases materials.len() - i,
    {
        assert(names[i as int] == materials@[i as int].name@);
        if materials[i].name == *name {
            return Some(Index { index: i });
        }
        i += 1;
    }
    None
}

/// Writes the corners of `face` out behind what `mesh` holds already.
fn fill_face(mesh: &mut SceneMesh, model: &Model, face: &Face)
    requires
        face_fits(model@, face@),
    ensures
        final(mesh)@ == (SceneMeshView {
            gv: old(mesh)@.gv + triples(model@.gv, face@.vertices),
            vt: old(mesh)@.vt + pairs(model@.vt, face@.textures.take(face@.vertices.len() as int)),
            vn: old(mesh)@.vn + triples(
                model@.vn,
                face@.normals.take(face@.vertices.len() as int),
            ),
            faces: old(mesh)@.faces.push(
                run(old(mesh)@.face_indices.len() as int, face@.vertices.len() as int),
            ),
            face_indices: old(mesh)@.face_indices + run(
                old(mesh)@.face_indices.len() as int,
                face@.vertices.len() as int,
            ),
            ..old(mesh)@
        }),
{
    let ghost before = mesh@;
    let ghost m = model@;
    let ghost f = face@;
    let ghost start = before.face_indices.len() as int;
    let n = face.vertices.len();
    let mut new_face = SceneFace::new();
    let mut i: usize = 0;
    assert(m.gv.len() == model.gv.len() && m.vt.len() == model.vt.len() && m.vn.len()
        == model.vn.len());
    assert(before.gv + triples(m.gv, f.vertices.take(0)) =~= before.gv);
    assert(before.vt + pairs(m.vt, f.textures.take(0)) =~= before.vt);
    assert(before.vn + triples(m.vn, f.normals.take(0)) =~= before.vn);
    assert(before.face_indices + run(start, 0) =~= before.face_indices);
    assert(new_face@ =~= run(start, 0));
    while i < n
        invariant
            i <= n,
            n == face.vertices.len(),
            m == model@,
            f == face@,
            face_fits(m, f),
            start == before.face_indices.len(),
            m.gv.len() <= usize::MAX,
            m.vt.len() <= usize::MAX,
            m.vn.len() <= usize::MAX,
            mesh@ == (SceneMeshView {
                gv: before.gv + triples(m.gv, f.vertices.take(i as int)),
                vt: before.vt + pairs(m.vt, f.textures.take(i as int)),
                vn: before.vn + triples(m.vn, f.normals.take(i as int)),
                face_indices: before.face_indices + run(start, i as int),
                ..before
            }),
            new_face@ == run(start, i as int),
        decreases n - i,
    {
        let v = face.vertices[i];
        let t = face.textures[i];
        let c = face.normals[i];
        assert(3 * f.vertices[i as int] + 2 < m.gv.len());
        assert(m.gv.len() == model.gv@.len());
        assert(m.vt.len() == model.vt@.len());
        assert(m.vn.len() == model.vn@.len());
        let new_index: usize = mesh.face_indices.len();
        assert(new_index == start + i);
        push_copy(&mut mesh.gv, &model.gv, 3 * v);
        push_copy(&mut mesh.gv, &model.gv, 3 * v + 1);
        push_copy(&mut mesh.gv, &model.gv, 3 * v + 2);
        push_copy(&mut mesh.vt, &model.vt, 2 * t);
        push_copy(&mut mesh.vt, &model.vt, 2 * t + 1);
        push_copy(&mut mesh.vn, &model.vn, 3 * c);
        push_copy(&mut mesh.vn, &model.vn, 3 * c + 1);
        push_copy(&mut mesh.vn, &model.vn, 3 * c + 2);
        mesh.face_indices.push(new_index);
        new_face.indices.push(new_index);
        proof {
            assert(f.vertices.take(i + 1) =~= f.vertices.take(i as int).push(v));
            assert(f.textures.take(i + 1) =~= f.textures.take(i as int).push(t));
            assert(f.normals.take(i + 1) =~= f.normals.take(i as int).push(c));
            lemma_triples_push(m.gv, f.vertices.take(i as int), v);
            lemma_pairs_push(m.vt, f.textures.take(i as int), t);
            lemma_triples_push(m.vn, f.normals.take(i as int), c);
            assert(mesh@.gv =~= before.gv + triples(m.gv, f.vertices.take(i + 1)));
            assert(mesh@.vt =~= before.vt + pairs(m.vt, f.textures.take(i + 1)));
            assert(mesh@.vn =~= before.vn + triples(m.vn, f.normals.take(i + 1)));
            assert(run(start, i + 1) =~= run(start, i as int).push(new_index));
            assert(mesh@.face_indices =~= before.face_indices + run(start, i + 1));
            assert(mesh@.faces == before.faces);
            assert(mesh@.colors == before.colors);
        }
        i += 1;
    }
    assert(f.vertices.take(n as int) =~= f.vertices);
    proof {
        lemma_views_push(mesh.faces@, new_face);
    }
    mesh.faces.push(new_face);
}

/// Loads the scene from the given model
pub struct ObjReader {
    pub scene: SceneGraph,
}

impl ObjReader {
    /// Initializes new graph.
    pub fn new() -> (res: Result<ObjReader, ParseError>)
        ensures
            res is Ok,
            res->Ok_0.scene@ == empty_graph(),
    {
        Ok(ObjReader { scene: SceneGraph::new() })
    }

    /// Fill each mesh with the mesh information: the scene mesh of `mesh`,
    /// with its material looked up among the materials of the scene.
    pub fn filled_mesh(&self, model: &Model, mesh: &Mesh) -> (out: SceneMesh)
        requires
            mesh_fits(model@, mesh@),
        ensures
            out@ == filled(model@, self.scene@.materials, mesh@),
    {
        let ghost m = model@;
        let ghost faces = mesh@.faces;
        let mut scene_mesh = SceneMesh::new();
        scene_mesh.name = mesh.name.clone();
        let mut k: usize = 0;
        assert(views(scene_mesh.faces@) =~= scene_faces(faces).take(0));
        assert(scene_mesh.face_indices@ =~= run(0, 0));
        while k < mesh.faces.len()
            invariant
                k <= mesh.faces.len(),
                m == model@,
                faces == mesh@.faces,
                mesh_fits(m, mesh@),
                scene_mesh@ == (SceneMeshView {
                    name: mesh@.name,
                    gv: mesh_positions(m, faces.take(k as int)),
                    vn: mesh_normals(m, faces.take(k as int)),
                    vt: mesh_texcoords(m, faces.take(k as int)),
                    colors: Seq::empty(),
                    material: None,
                    faces: scene_faces(faces).take(k as int),
                    face_indices: run(0, corner_count(faces.take(k as int)) as int),
                }),
            decreases mesh.faces.len() - k,
        {
            let face = &mesh.faces[k];
            let ghost f = face@;
            let ghost count = corner_count(faces.take(k as int)) as int;
            assert(faces[k as int] == f);
            assert(faces.take(k + 1).drop_last() =~= faces.take(k as int));
            assert(faces.take(k + 1).last() == f);
            fill_face(&mut scene_mesh, model, face);
            assert(run(0, count) + run(count, f.vertices.len() as int) =~= run(
                0,
                count + f.vertices.len(),
            ));
            assert(scene_faces(faces).take(k as int).push(run(count, f.vertices.len() as int))
                =~= scene_faces(faces).take(k + 1));
            k += 1;
        }
        assert(faces.take(k as int) =~= faces);
        assert(scene_faces(faces).take(k as int) =~= scene_faces(faces));
        let name = &model.matlib.materials[mesh.material].name;
        assert(name@ == m.matlib.materials[mesh.material as int].name);
        scene_mesh.material = find_link(&self.scene.materials, name);
        scene_mesh
    }

    /// Load materials into the graph: a copy of each material that the
    /// model defines by name, in the order of definition.
    pub fn load_materials(&mut self, model: &Model)
        ensures
            final(self).scene@ == (SceneGraphView {
                materials: old(self).scene@.materials + registered(model@.matlib.materials),
                ..old(self).scene@
            }),
    {
        let ghost before = self.scene@;
        let ghost all = model@.matlib.materials;
        let n = model.matlib.materials.len();
        if n == 0 {
            assert(before.materials + registered(all) =~= before.materials);
            return ;
        }
        let mut i: usize = 1;
        assert(before.materials + all.subrange(1, 1) =~= before.materials);
        while i < n
            invariant
                1 <= i <= n,
                n == model.matlib.materials.len(),
                all == model@.matlib.materials,
                self.scene@ == (SceneGraphView {
                    materials: before.materials + all.subrange(1, i as int),
                    ..before
                }),
            decreases n - i,
        {
            let x = model.matlib.materials[i].clone();
            proof {
                lemma_views_push(self.scene.materials@, x);
                assert((before.materials + all.subrange(1, i as int)).push(x@) =~= before.materials
                    + all.subrange(1, i + 1));
            }
            self.scene.materials.push(x);
            i += 1;
        }
        assert(all.subrange(1, n as int) =~= all.skip(1));
    }

    /// Load meshes into the graph: the scene mesh of each mesh of `obj` is
    /// added to the scene, and its place to the meshes of `node`.
    pub fn load_meshes(&mut self, model: &Model, obj: &Object, node: &mut SceneNode, root: &usize)
        requires
            object_fits(model@, obj@),
        ensures
            final(self).scene@ == (SceneGraphView {
                meshes: old(self).scene@.meshes + object_meshes(
                    model@,
                    old(self).scene@.materials,
                    obj@,
                ),
                ..old(self).scene@
            }),
            final(node)@ == (SceneNodeView {
                meshes: old(node)@.meshes + run(
                    old(self).scene@.meshes.len() as int,
                    obj@.meshes.len() as int,
                ),
                ..old(node)@
            }),
    {
        let ghost before = self.scene@;
        let ghost node_before = node@;
        let ghost made = object_meshes(model@, before.materials, obj@);
        let ghost start = before.meshes.len() as int;
        let mut k: usize = 0;
        assert(before.meshes + made.take(0) =~= before.meshes);
        assert(node_before.meshes + run(start, 0) =~= node_before.meshes);
        while k < obj.meshes.len()
            invariant
                k <= obj.meshes.len(),
                object_fits(model@, obj@),
                made == object_meshes(model@, before.materials, obj@),
                start == before.meshes.len(),
                self.scene@ == (SceneGraphView {
                    meshes: before.meshes + made.take(k as int),
                    ..before
                }),
                node@ == (SceneNodeView {
                    meshes: node_before.meshes + run(start, k as int),
                    ..node_before
                }),
            decreases obj.meshes.len() - k,
        {
            let at = obj.meshes[k];
            assert(obj@.meshes[k as int] == at);
            let model_mesh = &model.meshes[at];
            assert(model_mesh@ == model@.meshes[at as int]);
            let filled_mesh = self.filled_mesh(model, model_mesh);
            let mesh_index = self.scene.meshes.len();
            assert(made.len() == obj@.meshes.len());
            assert(made.take(k as int).len() == k);
            assert(self.scene@.meshes.len() == self.scene.meshes@.len());
            assert(mesh_index == start + k);
            node.meshes.push(mesh_index);
            proof {
                lemma_views_push(self.scene.meshes@, filled_mesh);
                assert((before.meshes + made.take(k as int)).push(filled_mesh@) =~= before.meshes
                    + made.take(k + 1));
                assert((node_before.meshes + run(start, k as int)).push(mesh_index)
                    =~= node_before.meshes + run(start, k + 1));
            }
            self.scene.meshes.push(filled_mesh);
            k += 1;
        }
        assert(made.take(k as int) =~= made);
    }

    /// Loads the data and parses it into the model, and adds the model to
    /// the scene. Where either step fails the scene stays as it was.
    pub fn read(&mut self, scene_data: &str, mat_data: &str) -> (res: Result<(), ParseError>)
        ensures
            match geometry_text(empty_model(), scene_data@, mat_data@) {
                (_, Some(e)) => res == Err::<(), ParseError>(e) && final(self).scene@ == old(self).scene@,
                (m, None) => if model_fits(m) {
                    res == Ok::<(), ParseError>(()) && final(self).scene@ == scene_with(
                        old(self).scene@,
                        m,
                    )
                } else {
                    res == Err::<(), ParseError>(ParseError::IndexOutOfRange)
                        && final(self).scene@ == old(self).scene@
                },
            },
    {
        match Parser::parse(scene_data, mat_data) {
            Ok(parser) => self.fill_nodes(&parser.model),
            Err(e) => Err(e),
        }
    }

    /// Adds the information to each scene node in the graph: the scene gets
    /// what the model holds, or stays as it was where the model does not fit.
    pub fn fill_nodes(&mut self, model: &Model) -> (res: Result<(), ParseError>)
        ensures
            model_fits(model@) ==> res == Ok::<(), ParseError>(()) && final(self).scene@
                == scene_with(old(self).scene@, model@),
            !model_fits(model@) ==> res == Err::<(), ParseError>(ParseError::IndexOutOfRange)
                && final(self).scene@ == old(self).scene@,
    {
        if !Self::model_fits(model) {
            return Err(ParseError::IndexOutOfRange);
        }
        let ghost before = self.scene@;
        let ghost m = model@;
        let ghost materials = before.materials + registered(m.matlib.materials);
        let n = model.objects.len();
        let root = SceneNode::new();
        proof {
            lemma_views_push(self.scene.nodes@, root);
        }
        self.scene.nodes.push(root);
        let root_index: usize = self.scene.nodes.len() - 1;
        let ghost first = before.nodes.push(empty_node());
        self.load_materials(model);
        let mut i: usize = 0;
        assert(first + Seq::new(0, |j: int| object_node(before, m, j, root_index)) =~= first);
        assert(m.objects.take(0) =~= Seq::<ObjectView>::empty());
        assert(before.meshes + objects_meshes(m, materials, m.objects.take(0)) =~= before.meshes);
        while i < n
            invariant
                i <= n,
                n == model.objects.len(),
                m == model@,
                model_fits(m),
                root_index == before.nodes.len(),
                first == before.nodes.push(empty_node()),
                materials == before.materials + registered(m.matlib.materials),
                self.scene@ == (SceneGraphView {
                    nodes: first + Seq::new(
                        i as nat,
                        |j: int| object_node(before, m, j, root_index),
                    ),
                    meshes: before.meshes + objects_meshes(m, materials, m.objects.take(i as int)),
                    materials,
                }),
            decreases n - i,
        {
            let obj = &model.objects[i];
            assert(obj@ == m.objects[i as int]);
            let mut node = SceneNode::new();
            node.name = obj.name.clone();
            node.parent = Some(Index { index: root_index });
            self.load_meshes(model, obj, &mut node, &root_index);
            proof {
                lemma_objects_meshes_len(m, materials, m.objects.take(i as int));
                assert(m.objects.take(i + 1).drop_last() =~= m.objects.take(i as int));
                assert(m.objects.take(i + 1).last() == obj@);
                assert(node@.meshes =~= run(
                    (before.meshes.len() + mesh_total(m.objects.take(i as int))) as int,
                    obj@.meshes.len() as int,
                ));
                assert(node@ == object_node(before, m, i as int, root_index));
                lemma_views_push(self.scene.nodes@, node);
                assert((first + Seq::new(
                    i as nat,
                    |j: int| object_node(before, m, j, root_index),
                )).push(node@) =~= first + Seq::new(
                    (i + 1) as nat,
                    |j: int| object_node(before, m, j, root_index),
                ));
                assert(self.scene@.meshes =~= before.meshes + objects_meshes(
                    m,
                    materials,
                    m.objects.take(i + 1),
                ));
            }
            self.scene.nodes.push(node);
            i += 1;
        }
        assert(m.objects.take(n as int) =~= m.objects);
        let ghost meshes = before.meshes + objects_meshes(m, materials, m.objects);
        let mut i: usize = 0;
        assert(Seq::new(n as nat, |c: int| object_node(before, m, c, root_index)) =~= Seq::new(
            n as nat,
            |c: int|
                object_node(before, m, c, parent_index(m.objects.take(0), c, root_index as int)),
        ));
        while i < n
            invariant
                i <= n,
                n == model.objects.len(),
                m == model@,
                model_fits(m),
                root_index == before.nodes.len(),
                first == before.nodes.push(empty_node()),
                self.scene@ == (SceneGraphView {
                    nodes: first + Seq::new(
                        n as nat,
                        |c: int|
                            object_node(
                                before,
                                m,
                                c,
                                parent_index(m.objects.take(i as int), c, root_index as int),
                            ),
                    ),
                    meshes,
                    materials,
                }),
            decreases n - i,
        {
            let obj = &model.objects[i];
            let ghost sub = obj@.sub_objects;
            let ghost earlier = m.objects.take(i as int);
            assert(obj@ == m.objects[i as int]);
            assert(self.scene@.nodes.len() == self.scene.nodes@.len());
            assert(self.scene@.nodes.len() == first.len() + n);
            let total = self.scene.nodes.len();
            let parent: usize = root_index + 1 + i;
            let mut j: usize = 0;
            assert(sub.take(0) =~= Seq::<usize>::empty());
            assert(Seq::new(
                n as nat,
                |c: int| object_node(before, m, c, parent_index(earlier, c, root_index as int)),
            ) =~= Seq::new(
                n as nat,
                |c: int|
                    object_node(
                        before,
                        m,
                        c,
                        if sub.take(0).contains(c as usize) {
                            parent
                        } else {
                            parent_index(earlier, c, root_index as int)
                        },
                    ),
            ));
            while j < obj.sub_objects.len()
                invariant
                    j <= obj.sub_objects.len(),
                    i < n,
                    n == model.objects.len(),
                    m == model@,
                    model_fits(m),
                    obj@ == m.objects[i as int],
                    sub == obj@.sub_objects,
                    earlier == m.objects.take(i as int),
                    root_index == before.nodes.len(),
                    parent == root_index + 1 + i,
                    root_index + 1 + n <= usize::MAX,
                    first == before.nodes.push(empty_node()),
                    self.scene@ == (SceneGraphView {
                        nodes: first + Seq::new(
                            n as nat,
                            |c: int|
                                object_node(
                                    before,
                                    m,
                                    c,
                                    if sub.take(j as int).contains(c as usize) {
                                        parent
                                    } else {
                                        parent_index(earlier, c, root_index as int)
                                    },
                                ),
                        ),
                        meshes,
                        materials,
                    }),
                decreases obj.sub_objects.len() - j,
            {
                let child = obj.sub_objects[j];
                assert(sub[j as int] == child);
                assert(child < n);
                let at: usize = root_index + 1 + child;
                let ghost nodes = self.scene@.nodes;
                assert(nodes.len() == self.scene.nodes@.len());
                assert(nodes.len() == first.len() + n);
                self.scene.nodes[at].parent = Some(Index { index: parent });
                proof {
                    assert(self.scene@.nodes =~= nodes.update(
                        at as int,
                        SceneNodeView { parent: Some(Index { index: parent }), ..nodes[at as int] },
                    ));
                    assert(nodes[at as int] == object_node(
                        before,
                        m,
                        child as int,
                        if sub.take(j as int).contains(child) {
                            parent
                        } else {
                            parent_index(earlier, child as int, root_index as int)
                        },
                    ));
                    assert(sub.take(j + 1) =~= sub.take(j as int).push(child));
                    assert forall|c: usize|
                        sub.take(j + 1).contains(c) == (sub.take(j as int).contains(c) || c
                            == child) by {
                        if sub.take(j as int).contains(c) {
                            let w = choose|w: int|
                                0 <= w < sub.take(j as int).len() && sub.take(j as int)[w] == c;
                            assert(sub.take(j + 1)[w] == c);
                        }
                        if c == child {
                            assert(sub.take(j + 1)[j as int] == c);
                        }
                    }
                    assert(self.scene@.nodes =~= first + Seq::new(
                        n as nat,
                        |c: int|
                            object_node(
                                before,
                                m,
                                c,
                                if sub.take(j + 1).contains(c as usize) {
                                    parent
                                } else {
                                    parent_index(earlier, c, root_index as int)
                                },
                            ),
                    ));
                }
                j += 1;
            }
            proof {
                assert(sub.take(j as int) =~= sub);
                assert(m.objects.take(i + 1).drop_last() =~= earlier);
                assert(m.objects.take(i + 1).last() == obj@);
                assert(self.scene@.nodes =~= first + Seq::new(
                    n as nat,
                    |c: int|
                        object_node(
                            before,
                            m,
                            c,
                            parent_index(m.objects.take(i + 1), c, root_index as int),
                        ),
                ));
            }
            i += 1;
        }
        assert(m.objects.take(n as int) =~= m.objects);
        Ok(())
    }

    /// Whether each mesh and sub object of `obj` exists in `model` and each
    /// of its meshes fits.
    pub fn object_fits(model: &Model, obj: &Object) -> (b: bool)
        ensures
            b == object_fits(model@, obj@),
    {
        let mut k: usize = 0;
        while k < obj.meshes.len()
            invariant
                k <= obj.meshes.len(),
                forall|a: int|
                    0 <= a < k ==> (#[trigger] obj@.meshes[a]) < model@.meshes.len() && mesh_fits(
                        model@,
                        model@.meshes[obj@.meshes[a] as int],
                    ),
            decreases obj.meshes.len() - k,
        {
            let at = obj.meshes[k];
            assert(obj@.meshes[k as int] == at);
            if at >= model.meshes.len() {
                return false;
            }
            assert(model@.meshes[at as int] == model.meshes@[at as int]@);
            if !Self::mesh_fits(model, &model.meshes[at]) {
                return false;
            }
            k += 1;
        }
        let mut j: usize = 0;
        while j < obj.sub_objects.len()
            invariant
                j <= obj.sub_objects.len(),
                forall|a: int|
                    0 <= a < j ==> (#[trigger] obj@.sub_objects[a]) < model@.objects.len(),
            decreases obj.sub_objects.len() - j,
        {
            if obj.sub_objects[j] >= model.objects.len() {
                assert(!(obj@.sub_objects[j as int] < model@.objects.len()));
                return false;
            }
            j += 1;
        }
        assert(object_fits(model@, obj@));
        true
    }

    /// Whether a scene can be built from `model`.
    pub fn model_fits(model: &Model) -> (b: bool)
        ensures
            b == model_fits(model@),
    {
        let mut i: usize = 0;
        while i < model.objects.len()
            invariant
                i <= model.objects.len(),
                forall|a: int| 0 <= a < i ==> object_fits(model@, #[trigger] model@.objects[a]),
            decreases model.objects.len() - i,
        {
            assert(model@.objects[i as int] == model.objects@[i as int]@);
            if !Self::object_fits(model, &model.objects[i]) {
                return false;
            }
            i += 1;
        }
        true
    }

    /// Whether every corner of `face` has its data in the pools of `model`.
    pub fn face_fits(model: &Model, face: &Face) -> (b: bool)
        ensures
            b == face_fits(model@, face@),
    {
        let n = face.vertices.len();
        if face.textures.len() < n || face.normals.len() < n {
            return false;
        }
        let positions = model.gv.len() / 3;
        let texcoords = model.vt.len() / 2;
        let normals = model.vn.len() / 3;
        let mut i: usize = 0;
        while i < n
            invariant
                i <= n,
                n == face.vertices.len(),
                face.textures.len() >= n,
                face.normals.len() >= n,
                positions == model.gv.len() / 3,
                texcoords == model.vt.len() / 2,
                normals == model.vn.len() / 3,
                forall|k: int|
                    0 <= k < i ==> {
                        &&& 3 * #[trigger] face@.vertices[k] + 2 < model@.gv.len()
                        &&& 2 * face@.textures[k] + 1 < model@.vt.len()
                        &&& 3 * face@.normals[k] + 2 < model@.vn.len()
                    },
            decreases n - i,
        {
            if face.vertices[i] >= positions || face.textures[i] >= texcoords || face.normals[i]
                >= normals {
                assert(!(3 * face@.vertices[i as int] + 2 < model@.gv.len() && 2
                    * face@.textures[i as int] + 1 < model@.vt.len() && 3 * face@.normals[i as int]
                    + 2 < model@.vn.len()));
                return false;
            }
            i += 1;
        }
        assert(face_fits(model@, face@));
        true
    }

    /// Whether a scene mesh can be made of `mesh`.
    pub fn mesh_fits(model: &Model, mesh: &Mesh) -> (b: bool)
        ensures
            b == mesh_fits(model@, mesh@),
    {
        if mesh.material >= model.matlib.materials.len() {
            return false;
        }
        let mut k: usize = 0;
        while k < mesh.faces.len()
            invariant
                k <= mesh.faces.len(),
                mesh.material < model@.matlib.materials.len(),
                forall|j: int| 0 <= j < k ==> face_fits(model@, #[trigger] mesh@.faces[j]),
            decreases mesh.faces.len() - k,
        {
            assert(mesh@.faces[k as int] == mesh.faces@[k as int]@);
            if !Self::face_fits(model, &mesh.faces[k]) {
                return false;
            }
            k += 1;
        }
        true
    }
}

/// The scene graph of `model`, where the model fits.
pub fn build_scene_graph(model: &Model) -> (res: Result<SceneGraph, ParseError>)
    ensures
        model_fits(model@) ==> res is Ok && res->Ok_0@ == scene_with(empty_graph(), model@),
        !model_fits(model@) ==> res is Err && res->Err_0 == ParseError::IndexOutOfRange,
{
    let mut reader = ObjReader { scene: SceneGraph::new() };
    match reader.fill_nodes(model) {
        Ok(()) => Ok(reader.scene),
        Err(e) => Err(e),
    }
}

/// Keeps the two texts of a model until they are loaded into a scene.
pub struct DataLoader {
    pub reader: ObjReader,
    pub mat_data: String,
    pub scene_data: String,
}

impl DataLoader {
    /// A loader without texts, whose scene is empty.
    pub fn new() -> (res: Result<DataLoader, ParseError>)
        ensures
            res is Ok,
            res->Ok_0.reader.scene@ == empty_graph(),
            res->Ok_0.mat_data@ == Seq::<char>::empty(),
            res->Ok_0.scene_data@ == Seq::<char>::empty(),
    {
        match ObjReader::new() {
            Ok(reader) => Ok(
                DataLoader { reader, mat_data: String::new(), scene_data: String::new() },
            ),
            Err(e) => Err(e),
        }
    }

    /// Takes `data` as the geometry text.
    pub fn load_scene(&mut self, data: String)
        ensures
            final(self).scene_data == data,
            final(self).mat_data == old(self).mat_data,
            final(self).reader == old(self).reader,
    {
        self.scene_data = data;
    }

    /// Takes `data` as the material text.
    pub fn load_material(&mut self, data: String)
        ensures
            final(self).mat_data == data,
            final(self).scene_data == old(self).scene_data,
            final(self).reader == old(self).reader,
    {
        self.mat_data = data;
    }

    /// Reads the two texts and adds the model that they describe to the
    /// scene. Where that fails the scene stays as it was.
    pub fn load(&mut self) -> (res: Result<(), ParseError>)
        ensures
            final(self).scene_data == old(self).scene_data,
            final(self).mat_data == old(self).mat_data,
            match geometry_text(empty_model(), old(self).scene_data@, old(self).mat_data@) {
                (_, Some(e)) => res == Err::<(), ParseError>(e) && final(self).reader.scene@
                    == old(self).reader.scene@,
                (m, None) => if model_fits(m) {
                    res == Ok::<(), ParseError>(()) && final(self).reader.scene@ == scene_with(
                        old(self).reader.scene@,
                        m,
                    )
                } else {
                    res == Err::<(), ParseError>(ParseError::IndexOutOfRange)
                        && final(self).reader.scene@ == old(self).reader.scene@
                },
            },
    {
        self.reader.read(self.scene_data.as_str(), self.mat_data.as_str())
    }
}

} // verus!
