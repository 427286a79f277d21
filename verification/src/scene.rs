//! The scene graph: nodes, meshes with their own corner data, and materials,
//! which refer to one another by index only.
use vstd::prelude::*;
use crate::data::{Material, MaterialView, Scalar, ScalarView, Transform};
use crate::seqs::{lemma_views_push, views};

verus! {

/// Hold index.
#[derive(Debug, Clone, Copy, PartialEq, Eq, Structural)]
pub struct Index {
    pub index: usize,
}

/// Defines the face and becomes an interface to access the face information.
/// It holds the indices to access the faces present within the mesh.
#[derive(Debug, PartialEq, Eq)]
pub struct SceneFace {
    /// List of indices pointing to the vertices, normals and textures.
    pub indices: Vec<usize>,
}

impl View for SceneFace {
    type V = Seq<usize>;

    open spec fn view(&self) -> Seq<usize> {
        self.indices@
    }
}

impl SceneFace {
    /// The face without corners.
    pub fn new() -> (out: Self)
        ensures
            out@ == Seq::<usize>::empty(),
    {
        SceneFace { indices: Vec::new() }
    }
}

/// A copy of the indices `v`.
pub fn clone_indices(v: &Vec<usize>) -> (out: Vec<usize>)
    ensures
        out@ == v@,
{
    let mut out: Vec<usize> = Vec::new();
    let mut i: usize = 0;
    while i < v.len()
        invariant
            i <= v.len(),
            out@ == v@.take(i as int),
        decreases v.len() - i,
    {
        out.push(v[i]);
        assert(v@.take(i + 1) =~= v@.take(i as int).push(v@[i as int]));
        i += 1;
    }
    assert(v@.take(i as int) =~= v@);
    out
}

/// A copy of the numbers `v`.
pub fn clone_scalars(v: &Vec<Scalar>) -> (out: Vec<Scalar>)
    ensures
        views(out@) == views(v@),
{
    let mut out: Vec<Scalar> = Vec::new();
    let mut i: usize = 0;
    assert(views(out@) =~= views(v@).take(0));
    while i < v.len()
        invariant
            i <= v.len(),
            views(out@) == views(v@).take(i as int),
        decreases v.len() - i,
    {
        let x = v[i].clone();
        proof {
            lemma_views_push(out@, x);
        }
        out.push(x);
        assert(views(v@).take(i + 1) =~= views(v@).take(i as int).push(v@[i as int]@));
        i += 1;
    }
    assert(views(v@).take(i as int) =~= views(v@));
    out
}

impl Clone for SceneFace {
    fn clone(&self) -> (out: Self)
        ensures
            out@ == self@,
    {
        SceneFace { indices: clone_indices(&self.indices) }
    }
}

/// Store vertices, normals, textures, colors, and list of faces.
#[derive(Debug, PartialEq, Eq)]
pub struct SceneMesh {
    /// Name of the mesh
    pub name: String,
    /// List of vertices
    pub gv: Vec<Scalar>,
    /// List of normals
    pub vn: Vec<Scalar>,
    /// List of textures
    pub vt: Vec<Scalar>,
    /// List of colors
    pub colors: Vec<Scalar>,
    /// Material assigned to this mesh.
    pub material: Option<Index>,
    /// list of faces.
    pub faces: Vec<SceneFace>,
    /// All face indices.
    pub face_indices: Vec<usize>,
}

/// What a `SceneMesh` stands for.
pub struct SceneMeshView {
    pub name: Seq<char>,
    pub gv: Seq<ScalarView>,
    pub vn: Seq<ScalarView>,
    pub vt: Seq<ScalarView>,
    pub colors: Seq<ScalarView>,
    pub material: Option<Index>,
    pub faces: Seq<Seq<usize>>,
    pub face_indices: Seq<usize>,
}

impl View for SceneMesh {
    type V = SceneMeshView;

    open spec fn view(&self) -> SceneMeshView {
        SceneMeshView {
            name: self.name@,
            gv: views(self.gv@),
            vn: views(self.vn@),
            vt: views(self.vt@),
            colors: views(self.colors@),
            material: self.material,
            faces: views(self.faces@),
            face_indices: self.face_indices@,
        }
    }
}

/// The mesh without a name, data, material or faces.
pub open spec fn empty_scene_mesh() -> SceneMeshView {
    SceneMeshView {
        name: Seq::empty(),
        gv: Seq::empty(),
        vn: Seq::empty(),
        vt: Seq::empty(),
        colors: Seq::empty(),
        material: None,
        faces: Seq::empty(),
        face_indices: Seq::empty(),
    }
}

impl SceneMesh {
    /// The mesh without a name, data, material or faces.
    pub fn new() -> (out: Self)
        ensures
            out@ == empty_scene_mesh(),
    {
        let out = SceneMesh {
            name: String::new(),
            gv: Vec::new(),
            vn: Vec::new(),
            vt: Vec::new(),
            colors: Vec::new(),
            material: None,
            faces: Vec::new(),
            face_indices: Vec::new(),
        };
        assert(out@.gv =~= Seq::<ScalarView>::empty());
        assert(out@.vn =~= Seq::<ScalarView>::empty());
        assert(out@.vt =~= Seq::<ScalarView>::empty());
        assert(out@.colors =~= Seq::<ScalarView>::empty());
        assert(out@.faces =~= Seq::<Seq<usize>>::empty());
        out
    }
}

impl Clone for SceneMesh {
    fn clone(&self) -> (out: Self)
        ensures
            out@ == self@,
    {
        let mut faces: Vec<SceneFace> = Vec::new();
        let mut i: usize = 0;
        assert(views(faces@) =~= views(self.faces@).take(0));
        while i < self.faces.len()
            invariant
                i <= self.faces.len(),
                views(faces@) == views(self.faces@).take(i as int),
            decreases self.faces.len() - i,
        {
            let f = self.faces[i].clone();
            proof {
                lemma_views_push(faces@, f);
            }
            faces.push(f);
            assert(views(self.faces@).take(i + 1) =~= views(self.faces@).take(i as int).push(
                self.faces@[i as int]@,
            ));
            i += 1;
        }
        assert(views(self.faces@).take(i as int) =~= views(self.faces@));
        SceneMesh {
            name: self.name.clone(),
            gv: clone_scalars(&self.gv),
            vn: clone_scalars(&self.vn),
            vt: clone_scalars(&self.vt),
            colors: clone_scalars(&self.colors),
            material: self.material,
            faces,
            face_indices: clone_indices(&self.face_indices),
        }
    }
}

/// Stores the information about the node.
#[derive(Debug, PartialEq, Eq)]
pub struct SceneNode {
    /// A reference to the parent node.
    pub parent: Option<Index>,
    /// A list containing child nodes.
    pub children: Vec<usize>,
    /// Name to define the give node.
    pub name: String,
    /// Stores transformation of the given node.
    pub transformation: Transform,
    /// List of indices to the SceneMesh stored in the SceneGraph
    pub meshes: Vec<usize>,
}

/// What a `SceneNode` stands for.
pub struct SceneNodeView {
    pub parent: Option<Index>,
    pub children: Seq<usize>,
    pub name: Seq<char>,
    pub transformation: Transform,
    pub meshes: Seq<usize>,
}

impl View for SceneNode {
    type V = SceneNodeView;

    open spec fn view(&self) -> SceneNodeView {
        SceneNodeView {
            parent: self.parent,
            children: self.children@,
            name: self.name@,
            transformation: self.transformation,
            meshes: self.meshes@,
        }
    }
}

/// The node without a name, parent, children or meshes, placed where its
/// parent is.
pub open spec fn empty_node() -> SceneNodeView {
    SceneNodeView {
        parent: None,
        children: Seq::empty(),
        name: Seq::empty(),
        transformation: Transform::Identity,
        meshes: Seq::empty(),
    }
}

impl SceneNode {
    /// The node without a name, parent, children or meshes.
    pub fn new() -> (out: Self)
        ensures
            out@ == empty_node(),
    {
        SceneNode {
            name: String::new(),
            transformation: Transform::Identity,
            parent: None,
            children: Vec::new(),
            meshes: Vec::new(),
        }
    }
}

impl Clone for SceneNode {
    fn clone(&self) -> (out: Self)
        ensures
            out@ == self@,
    {
        SceneNode {
            parent: self.parent,
            children: clone_indices(&self.children),
            name: self.name.clone(),
            transformation: self.transformation,
            meshes: clone_indices(&self.meshes),
        }
    }
}

/// The entire graph of the scene along with some data for other points to access.
#[derive(Debug, PartialEq, Eq)]
pub struct SceneGraph {
    /// The nodes; the root comes first.
    pub nodes: Vec<SceneNode>,
    /// List of meshes.
    pub meshes: Vec<SceneMesh>,
    /// List of material
    pub materials: Vec<Material>,
}

/// What a `SceneGraph` stands for.
pub struct SceneGraphView {
    pub nodes: Seq<SceneNodeView>,
    pub meshes: Seq<SceneMeshView>,
    pub materials: Seq<MaterialView>,
}

impl View for SceneGraph {
    type V = SceneGraphView;

    open spec fn view(&self) -> SceneGraphView {
        SceneGraphView {
            nodes: views(self.nodes@),
            meshes: views(self.meshes@),
            materials: views(self.materials@),
        }
    }
}

/// The graph without nodes, meshes or materials.
pub open spec fn empty_graph() -> SceneGraphView {
    SceneGraphView { nodes: Seq::empty(), meshes: Seq::empty(), materials: Seq::empty() }
}

impl SceneGraph {
    /// The graph without nodes, meshes or materials.
    pub fn new() -> (out: Self)
        ensures
            out@ == empty_graph(),
    {
        let out = SceneGraph { nodes: Vec::new(), meshes: Vec::new(), materials: Vec::new() };
        assert(out@.nodes =~= Seq::<SceneNodeView>::empty());
        assert(out@.meshes =~= Seq::<SceneMeshView>::empty());
        assert(out@.materials =~= Seq::<MaterialView>::empty());
        out
    }

    /// A copy of the nodes.
    pub fn owned_nodes(&self) -> (out: Vec<SceneNode>)
        ensures
            views(out@) == self@.nodes,
    {
        let mut out: Vec<SceneNode> = Vec::new();
        let mut i: usize = 0;
        assert(views(out@) =~= self@.nodes.take(0));
        while i < self.nodes.len()
            invariant
                i <= self.nodes.len(),
                views(out@) == self@.nodes.take(i as int),
            decreases self.nodes.len() - i,
        {
            let x = self.nodes[i].clone();
            proof {
                lemma_views_push(out@, x);
            }
            out.push(x);
            assert(self@.nodes.take(i + 1) =~= self@.nodes.take(i as int).push(
                self.nodes@[i as int]@,
            ));
            i += 1;
        }
        assert(self@.nodes.take(i as int) =~= self@.nodes);
        out
    }

    /// A copy of the meshes.
    pub fn owned_meshes(&self) -> (out: Vec<SceneMesh>)
        ensures
            views(out@) == self@.meshes,
    {
        let mut out: Vec<SceneMesh> = Vec::new();
        let mut i: usize = 0;
        assert(views(out@) =~= self@.meshes.take(0));
        while i < self.meshes.len()
            invariant
                i <= self.meshes.len(),
                views(out@) == self@.meshes.take(i as int),
            decreases self.meshes.len() - i,
        {
            let x = self.meshes[i].clone();
            proof {
                lemma_views_push(out@, x);
            }
            out.push(x);
            assert(self@.meshes.take(i + 1) =~= self@.meshes.take(i as int).push(
                self.meshes@[i as int]@,
            ));
            i += 1;
        }
        assert(self@.meshes.take(i as int) =~= self@.meshes);
        out
    }

    /// A copy of the materials.
    pub fn owned_materials(&self) -> (out: Vec<Material>)
        ensures
            views(out@) == self@.materials,
    {
        let mut out: Vec<Material> = Vec::new();
        let mut i: usize = 0;
        assert(views(out@) =~= self@.materials.take(0));
        while i < self.materials.len()
            invariant
                i <= self.materials.len(),
                views(out@) == self@.materials.take(i as int),
            decreases self.materials.len() - i,
        {
            let x = self.materials[i].clone();
            proof {
                lemma_views_push(out@, x);
            }
            out.push(x);
            assert(self@.materials.take(i + 1) =~= self@.materials.take(i as int).push(
                self.materials@[i as int]@,
            ));
            i += 1;
        }
        assert(self@.materials.take(i as int) =~= self@.materials);
        out
    }
}

} // verus!
