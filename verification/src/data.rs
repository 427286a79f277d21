//! The flat model that the geometry text is read into.
use vstd::prelude::*;
use vstd::string::StringExecFns;
use crate::seqs::{position_from, views};

verus! {

/// What kind of primitive a face is.
#[derive(Clone, Copy, Debug, PartialEq, Eq, Structural)]
pub enum FaceType {
    Point,
    Line,
    Triangle,
    Polygon,
}

/// The placement of an object or node relative to its parent.
#[derive(Clone, Copy, Debug, PartialEq, Eq, Structural)]
pub enum Transform {
    /// Placed exactly where the parent is.
    Identity,
}

/// A real number, kept as it was written. What it evaluates to in a machine
/// number format is for the consumer to compute.
#[derive(Debug, PartialEq, Eq)]
pub enum Scalar {
    /// A number given by its decimal text.
    Literal(String),
    /// The first number divided by the second.
    Quotient(String, String),
}

/// What a `Scalar` stands for.
pub enum ScalarView {
    Literal(Seq<char>),
    Quotient(Seq<char>, Seq<char>),
}

impl View for Scalar {
    type V = ScalarView;

    open spec fn view(&self) -> ScalarView {
        match self {
            Scalar::Literal(a) => ScalarView::Literal(a@),
            Scalar::Quotient(a, b) => ScalarView::Quotient(a@, b@),
        }
    }
}

/// The number zero.
pub open spec fn zero() -> ScalarView {
    ScalarView::Literal(seq!['0', '.', '0'])
}

/// The number one.
pub open spec fn one() -> ScalarView {
    ScalarView::Literal(seq!['1', '.', '0'])
}

impl Clone for Scalar {
    fn clone(&self) -> (out: Self)
        ensures
            out@ == self@,
    {
        match self {
            Scalar::Literal(a) => Scalar::Literal(a.clone()),
            Scalar::Quotient(a, b) => Scalar::Quotient(a.clone(), b.clone()),
        }
    }
}

impl Scalar {
    /// The number that `text` writes.
    pub fn literal(text: &str) -> (out: Self)
        ensures
            out@ == ScalarView::Literal(text@),
    {
        Scalar::Literal(String::from_str(text))
    }

    /// The number zero.
    pub fn zero() -> (out: Self)
        ensures
            out@ == zero(),
    {
        proof {
            reveal_strlit("0.0");
        }
        assert("0.0"@ =~= seq!['0', '.', '0']);
        Scalar::literal("0.0")
    }

    /// The number one.
    pub fn one() -> (out: Self)
        ensures
            out@ == one(),
    {
        proof {
            reveal_strlit("1.0");
        }
        assert("1.0"@ =~= seq!['1', '.', '0']);
        Scalar::literal("1.0")
    }
}

/// How a surface looks.
#[derive(Debug, PartialEq, Eq)]
pub struct Material {
    /// material name
    pub name: String,
    /// name of the texture
    pub texture: String,
    /// name of the ambient texture
    pub texture_ambient: String,
    /// name of the diffuse texture
    pub texture_diffuse: String,
    /// name of the emissive texture
    pub texture_emissive: String,
    /// name of the normal texture
    pub texture_normal: String,
    /// name of the specular texture
    pub texture_specular: String,
    /// ambient color
    pub ambient: [Scalar; 3],
    /// diffuse color
    pub diffuse: [Scalar; 3],
    /// transmission filter
    pub transmission: [Scalar; 3],
    /// specular color
    pub specular: [Scalar; 3],
    /// shininess factor
    pub shininess: Scalar,
    /// illumination model
    pub illumination: Option<u8>,
    /// refractive index
    pub ri: Scalar,
}

/// What a `Material` stands for.
pub struct MaterialView {
    pub name: Seq<char>,
    pub texture: Seq<char>,
    pub texture_ambient: Seq<char>,
    pub texture_diffuse: Seq<char>,
    pub texture_emissive: Seq<char>,
    pub texture_normal: Seq<char>,
    pub texture_specular: Seq<char>,
    pub ambient: Seq<ScalarView>,
    pub diffuse: Seq<ScalarView>,
    pub transmission: Seq<ScalarView>,
    pub specular: Seq<ScalarView>,
    pub shininess: ScalarView,
    pub illumination: Option<u8>,
    pub ri: ScalarView,
}

impl View for Material {
    type V = MaterialView;

    open spec fn view(&self) -> MaterialView {
        MaterialView {
            name: self.name@,
            texture: self.texture@,
            texture_ambient: self.texture_ambient@,
            texture_diffuse: self.texture_diffuse@,
            texture_emissive: self.texture_emissive@,
            texture_normal: self.texture_normal@,
            texture_specular: self.texture_specular@,
            ambient: views(self.ambient@),
            diffuse: views(self.diffuse@),
            transmission: views(self.transmission@),
            specular: views(self.specular@),
            shininess: self.shininess@,
            illumination: self.illumination,
            ri: self.ri@,
        }
    }
}

/// The color black.
pub open spec fn black() -> Seq<ScalarView> {
    seq![zero(), zero(), zero()]
}

/// The material that nothing has been said about yet: no names, black
/// colors, no shininess, no illumination model, refractive index one.
pub open spec fn blank_material() -> MaterialView {
    MaterialView {
        name: Seq::empty(),
        texture: Seq::empty(),
        texture_ambient: Seq::empty(),
        texture_diffuse: Seq::empty(),
        texture_emissive: Seq::empty(),
        texture_normal: Seq::empty(),
        texture_specular: Seq::empty(),
        ambient: black(),
        diffuse: black(),
        transmission: black(),
        specular: black(),
        shininess: zero(),
        illumination: None,
        ri: one(),
    }
}

/// A copy of the color `c`.
pub fn clone_color(c: &[Scalar; 3]) -> (out: [Scalar; 3])
    ensures
        views(out@) == views(c@),
{
    let out = [c[0].clone(), c[1].clone(), c[2].clone()];
    assert(views(out@) =~= views(c@));
    out
}

fn black_color() -> (out: [Scalar; 3])
    ensures
        views(out@) == black(),
{
    let out = [Scalar::zero(), Scalar::zero(), Scalar::zero()];
    assert(views(out@) =~= black());
    out
}

impl Material {
    /// Create a new material for parsing.
    pub fn new() -> (out: Self)
        ensures
            out@ == blank_material(),
    {
        Material {
            name: String::new(),
            texture: String::new(),
            texture_ambient: String::new(),
            texture_diffuse: String::new(),
            texture_emissive: String::new(),
            texture_normal: String::new(),
            texture_specular: String::new(),
            ambient: black_color(),
            diffuse: black_color(),
            transmission: black_color(),
            specular: black_color(),
            shininess: Scalar::zero(),
            illumination: None,
            ri: Scalar::one(),
        }
    }
}

impl Clone for Material {
    fn clone(&self) -> (out: Self)
        ensures
            out@ == self@,
    {
        Material {
            name: self.name.clone(),
            texture: self.texture.clone(),
            texture_ambient: self.texture_ambient.clone(),
            texture_diffuse: self.texture_diffuse.clone(),
            texture_emissive: self.texture_emissive.clone(),
            texture_normal: self.texture_normal.clone(),
            texture_specular: self.texture_specular.clone(),
            ambient: clone_color(&self.ambient),
            diffuse: clone_color(&self.diffuse),
            transmission: clone_color(&self.transmission),
            specular: clone_color(&self.specular),
            shininess: self.shininess.clone(),
            illumination: self.illumination,
            ri: self.ri.clone(),
        }
    }
}

/// One face: per corner an index into each of the model's pools that the
/// face refers to.
#[derive(Debug, PartialEq, Eq)]
pub struct Face {
    /// FaceType
    pub face_type: FaceType,
    /// Vertex indices
    pub vertices: Vec<usize>,
    /// Normal indices
    pub normals: Vec<usize>,
    /// Texture coordinates indices
    pub textures: Vec<usize>,
    /// Assigned material: its place in the model's material library
    pub material: usize,
}

/// What a `Face` stands for.
pub struct FaceView {
    pub face_type: FaceType,
    pub vertices: Seq<usize>,
    pub normals: Seq<usize>,
    pub textures: Seq<usize>,
    pub material: usize,
}

impl View for Face {
    type V = FaceView;

    open spec fn view(&self) -> FaceView {
        FaceView {
            face_type: self.face_type,
            vertices: self.vertices@,
            normals: self.normals@,
            textures: self.textures@,
            material: self.material,
        }
    }
}

/// The face without corners: a triangle of the unnamed material.
pub open spec fn empty_face() -> FaceView {
    FaceView {
        face_type: FaceType::Triangle,
        vertices: Seq::empty(),
        normals: Seq::empty(),
        textures: Seq::empty(),
        material: 0,
    }
}

impl Face {
    /// Create a new face for parsing.
    pub fn new() -> (out: Self)
        ensures
            out@ == empty_face(),
    {
        Face {
            face_type: FaceType::Triangle,
            vertices: Vec::new(),
            normals: Vec::new(),
            textures: Vec::new(),
            material: 0,
        }
    }
}

/// A named list of faces.
#[derive(Debug, PartialEq, Eq)]
pub struct Mesh {
    /// The name for the mesh
    pub name: String,
    /// Array with all stored faces
    pub faces: Vec<Face>,
    /// Assigned material: its place in the model's material library
    pub material: usize,
    /// Number of stored indices.
    pub num_indices: u32,
    /// True, if normals are stored.
    pub has_normals: bool,
    /// True, if vertex colors are stored.
    pub has_vertex_colors: bool,
}

/// What a `Mesh` stands for.
pub struct MeshView {
    pub name: Seq<char>,
    pub faces: Seq<FaceView>,
    pub material: usize,
    pub num_indices: u32,
    pub has_normals: bool,
    pub has_vertex_colors: bool,
}

impl View for Mesh {
    type V = MeshView;

    open spec fn view(&self) -> MeshView {
        MeshView {
            name: self.name@,
            faces: views(self.faces@),
            material: self.material,
            num_indices: self.num_indices,
            has_normals: self.has_normals,
            has_vertex_colors: self.has_vertex_colors,
        }
    }
}

/// The mesh called `name` that holds no face yet and has material `material`.
pub open spec fn empty_mesh(name: Seq<char>, material: usize) -> MeshView {
    MeshView {
        name,
        faces: Seq::empty(),
        material,
        num_indices: 0,
        has_normals: false,
        has_vertex_colors: false,
    }
}

impl Mesh {
    /// Create a new mesh for parsing.
    pub fn new() -> (out: Self)
        ensures
            out@ == empty_mesh(Seq::empty(), 0),
    {
        let out = Mesh {
            name: String::new(),
            faces: Vec::new(),
            material: 0,
            num_indices: 0,
            has_normals: false,
            has_vertex_colors: false,
        };
        assert(views(out.faces@) =~= Seq::<FaceView>::empty());
        out
    }
}

/// A named part of the model, made of meshes.
#[derive(Debug, PartialEq, Eq)]
pub struct Object {
    /// Name of the object
    pub name: String,
    /// Transformations
    pub transform: Transform,
    /// Points to sub objects within this object.
    pub sub_objects: Vec<usize>,
    /// Assigned meshes
    pub meshes: Vec<usize>,
}

/// What an `Object` stands for.
pub struct ObjectView {
    pub name: Seq<char>,
    pub transform: Transform,
    pub sub_objects: Seq<usize>,
    pub meshes: Seq<usize>,
}

impl View for Object {
    type V = ObjectView;

    open spec fn view(&self) -> ObjectView {
        ObjectView {
            name: self.name@,
            transform: self.transform,
            sub_objects: self.sub_objects@,
            meshes: self.meshes@,
        }
    }
}

/// The object called `name` with the meshes `meshes`, placed where its
/// parent is, without sub objects.
pub open spec fn plain_object(name: Seq<char>, meshes: Seq<usize>) -> ObjectView {
    ObjectView { name, transform: Transform::Identity, sub_objects: Seq::empty(), meshes }
}

impl Object {
    /// Create a object for parsing.
    pub fn new() -> (out: Self)
        ensures
            out@ == plain_object(Seq::empty(), Seq::empty()),
    {
        Object {
            name: String::new(),
            transform: Transform::Identity,
            sub_objects: Vec::new(),
            meshes: Vec::new(),
        }
    }
}

/// A named list of face indices.
#[derive(Debug, PartialEq, Eq)]
pub struct Group {
    pub name: String,
    pub faces: Vec<usize>,
}

/// What a `Group` stands for.
pub struct GroupView {
    pub name: Seq<char>,
    pub faces: Seq<usize>,
}

impl View for Group {
    type V = GroupView;

    open spec fn view(&self) -> GroupView {
        GroupView { name: self.name@, faces: self.faces@ }
    }
}

/// The groups that the text has named, and the one that is active.
#[derive(Debug, PartialEq, Eq)]
pub struct GroupLibrary {
    /// The name of the active group
    pub active: String,
    /// Every group, in the order of first mention
    pub groups: Vec<Group>,
}

/// What a `GroupLibrary` stands for.
pub struct GroupLibraryView {
    pub active: Seq<char>,
    pub groups: Seq<GroupView>,
}

impl View for GroupLibrary {
    type V = GroupLibraryView;

    open spec fn view(&self) -> GroupLibraryView {
        GroupLibraryView { active: self.active@, groups: views(self.groups@) }
    }
}

/// The materials of a model, and the one that is active. The first place
/// holds the unnamed material that is active before any other is chosen; the
/// places after it hold the materials that were defined by name, in the order
/// of definition.
#[derive(Debug, PartialEq, Eq)]
pub struct MaterialLibrary {
    /// The place of the active material
    pub active: usize,
    /// Every material
    pub materials: Vec<Material>,
}

/// What a `MaterialLibrary` stands for.
pub struct MaterialLibraryView {
    pub active: usize,
    pub materials: Seq<MaterialView>,
}

impl View for MaterialLibrary {
    type V = MaterialLibraryView;

    open spec fn view(&self) -> MaterialLibraryView {
        MaterialLibraryView { active: self.active, materials: views(self.materials@) }
    }
}

/// The names of `materials`, place by place.
pub open spec fn material_names(materials: Seq<MaterialView>) -> Seq<Seq<char>> {
    Seq::new(materials.len(), |i: int| materials[i].name)
}

/// The place of the material that was defined as `name`, if one was.
pub open spec fn find_material(materials: Seq<MaterialView>, name: Seq<char>) -> Option<int> {
    position_from(material_names(materials), name, 1)
}

/// A library is well formed when its active place exists and no two
/// materials were defined under one name.
pub open spec fn library_wf(lib: MaterialLibraryView) -> bool {
    &&& lib.active < lib.materials.len()
    &&& forall|i: int, j: int|
        1 <= i < j < lib.materials.len() ==> lib.materials[i].name != lib.materials[j].name
}

/// The library in which nothing is defined yet.
pub open spec fn empty_library() -> MaterialLibraryView {
    MaterialLibraryView { active: 0, materials: seq![blank_material()] }
}

impl MaterialLibrary {
    /// Whether the active place exists and no name was defined twice.
    pub open spec fn wf(&self) -> bool {
        library_wf(self@)
    }

    /// The place of the material that was defined as `name`, if one was.
    pub fn find(&self, name: &String) -> (out: Option<usize>)
        ensures
            out == match find_material(self@.materials, name@) {
                Some(i) => Some(i as usize),
                None => None,
            },
    {
        let ghost names = material_names(self@.materials);
        let mut i: usize = 1;
        while i < self.materials.len()
            invariant
                1 <= i,
                names == material_names(self@.materials),
                position_from(names, name@, i as int) == position_from(names, name@, 1),
            decreases self.materials.len() - i,
        {
            assert(names[i as int] == self.materials@[i as int].name@);
            if self.materials[i].name == *name {
                return Some(i);
            }
            i += 1;
        }
        None
    }

    /// The library in which nothing is defined yet.
    pub fn new() -> (out: Self)
        ensures
            out@ == empty_library(),
            out.wf(),
    {
        let mut materials: Vec<Material> = Vec::new();
        materials.push(Material::new());
        let out = MaterialLibrary { active: 0, materials };
        assert(views(out.materials@) =~= seq![blank_material()]);
        out
    }
}

/// Data Structure to hold model
#[derive(Debug, PartialEq, Eq)]
pub struct Model {
    /// Model name
    pub model_name: String,
    /// List of assigned objects
    pub objects: Vec<Object>,
    /// Place of the current object
    pub cur_obj: usize,
    /// The materials, and the current one
    pub matlib: MaterialLibrary,
    /// Default material
    pub default_material: Option<Material>,
    /// The groups, and the active one
    pub grplib: GroupLibrary,
    /// Vector with all generated vertices
    pub gv: Vec<Scalar>,
    /// vector with all generated normals
    pub vn: Vec<Scalar>,
    /// vector with all textures
    pub vt: Vec<Scalar>,
    /// vector with all vertex colors
    pub colors: Vec<Scalar>,
    /// Place of the current mesh
    pub cur_mesh: usize,
    /// Vector with stored meshes
    pub meshes: Vec<Mesh>,
}

/// What a `Model` stands for.
pub struct ModelView {
    pub model_name: Seq<char>,
    pub objects: Seq<ObjectView>,
    pub cur_obj: usize,
    pub matlib: MaterialLibraryView,
    pub default_material: Option<MaterialView>,
    pub grplib: GroupLibraryView,
    pub gv: Seq<ScalarView>,
    pub vn: Seq<ScalarView>,
    pub vt: Seq<ScalarView>,
    pub colors: Seq<ScalarView>,
    pub cur_mesh: usize,
    pub meshes: Seq<MeshView>,
}

impl View for Model {
    type V = ModelView;

    open spec fn view(&self) -> ModelView {
        ModelView {
            model_name: self.model_name@,
            objects: views(self.objects@),
            cur_obj: self.cur_obj,
            matlib: self.matlib@,
            default_material: match self.default_material {
                Some(m) => Some(m@),
                None => None,
            },
            grplib: self.grplib@,
            gv: views(self.gv@),
            vn: views(self.vn@),
            vt: views(self.vt@),
            colors: views(self.colors@),
            cur_mesh: self.cur_mesh,
            meshes: views(self.meshes@),
        }
    }
}

/// The names of `objects`, place by place.
pub open spec fn object_names(objects: Seq<ObjectView>) -> Seq<Seq<char>> {
    Seq::new(objects.len(), |i: int| objects[i].name)
}

/// The place of the object called `name`, if there is one.
pub open spec fn find_object(objects: Seq<ObjectView>, name: Seq<char>) -> Option<int> {
    position_from(object_names(objects), name, 0)
}

/// The names of `groups`, place by place.
pub open spec fn group_names(groups: Seq<GroupView>) -> Seq<Seq<char>> {
    Seq::new(groups.len(), |i: int| groups[i].name)
}

/// The place of the group called `name`, if there is one.
pub open spec fn find_group(groups: Seq<GroupView>, name: Seq<char>) -> Option<int> {
    position_from(group_names(groups), name, 0)
}

/// Whether a list of indices is made of triangles, or is too short for one.
pub open spec fn triangulated(s: Seq<usize>) -> bool {
    s.len() < 3 || s.len() % 3 == 0
}

/// A face is well formed when its material is one of the `materials` first
/// places and each of its index lists is made of triangles.
pub open spec fn face_wf(f: FaceView, materials: nat) -> bool {
    &&& f.material < materials
    &&& triangulated(f.vertices)
    &&& triangulated(f.normals)
    &&& triangulated(f.textures)
}

/// A model is well formed when its library is, its current object and mesh
/// exist as soon as there are objects, no two objects and no two groups
/// share a name, every mesh of an object and every material of a mesh
/// exists, and every face is well formed.
pub open spec fn model_wf(m: ModelView) -> bool {
    &&& library_wf(m.matlib)
    &&& m.meshes.len() > 0 ==> m.cur_mesh < m.meshes.len()
    &&& m.objects.len() > 0 ==> m.cur_obj < m.objects.len() && m.meshes.len() > 0
    &&& forall|i: int, j: int|
        0 <= i < j < m.objects.len() ==> m.objects[i].name != m.objects[j].name
    &&& forall|i: int, j: int|
        0 <= i < j < m.grplib.groups.len() ==> m.grplib.groups[i].name != m.grplib.groups[j].name
    &&& forall|i: int, k: int|
        0 <= i < m.objects.len() && 0 <= k < m.objects[i].meshes.len()
            ==> #[trigger] m.objects[i].meshes[k] < m.meshes.len()
    &&& forall|i: int|
        0 <= i < m.meshes.len() ==> (#[trigger] m.meshes[i]).material < m.matlib.materials.len()
    &&& forall|i: int, k: int|
        0 <= i < m.meshes.len() && 0 <= k < m.meshes[i].faces.len() ==> face_wf(
            #[trigger] m.meshes[i].faces[k],
            m.matlib.materials.len(),
        )
}

/// The model that nothing has been read into yet.
pub open spec fn empty_model() -> ModelView {
    ModelView {
        model_name: Seq::empty(),
        objects: Seq::empty(),
        cur_obj: 0,
        matlib: empty_library(),
        default_material: None,
        grplib: GroupLibraryView { active: Seq::empty(), groups: Seq::empty() },
        gv: Seq::empty(),
        vn: Seq::empty(),
        vt: Seq::empty(),
        colors: Seq::empty(),
        cur_mesh: 0,
        meshes: Seq::empty(),
    }
}

impl Model {
    /// Whether the model is well formed.
    pub open spec fn wf(&self) -> bool {
        model_wf(self@)
    }

    /// The place of the object called `name`, if there is one.
    pub fn find_object(&self, name: &String) -> (out: Option<usize>)
        ensures
            out == match find_object(self@.objects, name@) {
                Some(i) => Some(i as usize),
                None => None,
            },
    {
        let ghost names = object_names(self@.objects);
        let mut i: usize = 0;
        while i < self.objects.len()
            invariant
                names == object_names(self@.objects),
                position_from(names, name@, i as int) == position_from(names, name@, 0),
            decreases self.objects.len() - i,
        {
            assert(names[i as int] == self.objects@[i as int].name@);
            if self.objects[i].name == *name {
                return Some(i);
            }
            i += 1;
        }
        None
    }

    /// The place of the group called `name`, if there is one.
    pub fn find_group(&self, name: &String) -> (out: Option<usize>)
        ensures
            out == match find_group(self@.grplib.groups, name@) {
                Some(i) => Some(i as usize),
                None => None,
            },
    {
        let ghost names = group_names(self@.grplib.groups);
        let mut i: usize = 0;
        while i < self.grplib.groups.len()
            invariant
                names == group_names(self@.grplib.groups),
                position_from(names, name@, i as int) == position_from(names, name@, 0),
            decreases self.grplib.groups.len() - i,
        {
            assert(names[i as int] == self.grplib.groups@[i as int].name@);
            if self.grplib.groups[i].name == *name {
                return Some(i);
            }
            i += 1;
        }
        None
    }

    /// Create a model for parsing.
    pub fn new() -> (out: Self)
        ensures
            out@ == empty_model(),
            out.wf(),
    {
        let out = Model {
            model_name: String::new(),
            objects: Vec::new(),
            cur_obj: 0,
            matlib: MaterialLibrary::new(),
            default_material: None,
            grplib: GroupLibrary { active: String::new(), groups: Vec::new() },
            gv: Vec::new(),
            vn: Vec::new(),
            vt: Vec::new(),
            colors: Vec::new(),
            cur_mesh: 0,
            meshes: Vec::new(),
        };
        assert(out@.objects =~= Seq::<ObjectView>::empty());
        assert(out@.grplib.groups =~= Seq::<GroupView>::empty());
        assert(out@.gv =~= Seq::<ScalarView>::empty());
        assert(out@.vn =~= Seq::<ScalarView>::empty());
        assert(out@.vt =~= Seq::<ScalarView>::empty());
        assert(out@.colors =~= Seq::<ScalarView>::empty());
        assert(out@.meshes =~= Seq::<MeshView>::empty());
        out
    }
}

} // verus!
