//! Reading the geometry text into a model.
use vstd::prelude::*;
use vstd::string::StringExecFns;
use vstd::slice::slice_subrange;
use crate::data::{
    empty_mesh, empty_model, face_wf, find_group, find_material, find_object, group_names,
    material_names, model_wf, object_names, plain_object, Face, FaceType, FaceView, Group,
    GroupLibraryView, GroupView, MaterialLibraryView, Mesh, MeshView, Model, ModelView, Object,
    ObjectView, Scalar, ScalarView,
};
use crate::error::ParseError;
use crate::face::{corners_of, fan, read_corners, triangulate, PoolSizes};
use crate::mtlreader::{all_real, are_real, literal, material_text, result_of, scalar, MtlReader};
use crate::seqs::{lemma_position_from, lemma_views_push, views};
use crate::text::{
    concat, join, lines, split_lines, split_whitespace, split_words, to_chars, to_string, word_is,
};

verus! {

/// The first number divided by the second.
pub open spec fn quotient(a: Seq<char>, b: Seq<char>) -> ScalarView {
    ScalarView::Quotient(a, b)
}

/// The numbers that `words` write, one for each.
pub open spec fn literals(words: Seq<Seq<char>>) -> Seq<ScalarView> {
    Seq::new(words.len(), |i: int| literal(words[i]))
}

/// The pool after the numbers `words` were read into it, or `None` where
/// one of them is no number. Two or three numbers are appended as they are.
/// Of four, each of the first three is appended divided by the fourth. Any
/// other count leaves the pool as it is, whatever the words are.
pub open spec fn floats_read(pool: Seq<ScalarView>, words: Seq<Seq<char>>) -> Option<
    Seq<ScalarView>,
> {
    if words.len() == 2 || words.len() == 3 {
        if all_real(words) {
            Some(pool + literals(words))
        } else {
            None
        }
    } else if words.len() == 4 {
        if all_real(words) {
            Some(
                pool.push(quotient(words[0], words[3])).push(quotient(words[1], words[3])).push(
                    quotient(words[2], words[3]),
                ),
            )
        } else {
            None
        }
    } else {
        Some(pool)
    }
}

/// How many entries each pool of the model holds: three numbers make a
/// position or a normal, two make a texture coordinate.
pub open spec fn pool_sizes(m: ModelView) -> PoolSizes {
    PoolSizes {
        vertices: (m.gv.len() / 3) as usize,
        textures: (m.vt.len() / 2) as usize,
        normals: (m.vn.len() / 3) as usize,
    }
}

/// The model with the face `face` added to its current mesh.
pub open spec fn with_face(m: ModelView, face: FaceView) -> ModelView {
    let mesh = m.meshes[m.cur_mesh as int];
    ModelView {
        meshes: m.meshes.update(
            m.cur_mesh as int,
            MeshView { faces: mesh.faces.push(face), ..mesh },
        ),
        ..m
    }
}

/// What a face directive with the references `words` does to the model. The
/// references are read first; then the face, cut into triangles and given the
/// active material, is added to the current mesh, which has to exist.
pub open spec fn face_read(m: ModelView, words: Seq<Seq<char>>) -> (ModelView, Option<ParseError>) {
    match corners_of(words, pool_sizes(m)) {
        Err(e) => (m, Some(e)),
        Ok(c) => if m.cur_mesh >= m.meshes.len() {
            (m, Some(ParseError::IndexOutOfRange))
        } else {
            (
                with_face(
                    m,
                    FaceView {
                        face_type: FaceType::Triangle,
                        vertices: fan(c.vertices),
                        normals: fan(c.normals),
                        textures: fan(c.textures),
                        material: m.matlib.active,
                    },
                ),
                None,
            )
        },
    }
}

/// The model with the active material as the material of its current mesh,
/// if it has a current mesh.
pub open spec fn stamped(m: ModelView) -> ModelView {
    if m.cur_mesh < m.meshes.len() {
        ModelView {
            meshes: m.meshes.update(
                m.cur_mesh as int,
                MeshView { material: m.matlib.active, ..m.meshes[m.cur_mesh as int] },
            ),
            ..m
        }
    } else {
        m
    }
}

/// The model with a new mesh called `name`, which is current and belongs to
/// the current object.
pub open spec fn with_mesh(m: ModelView, name: Seq<char>) -> ModelView {
    let index = m.meshes.len() as usize;
    let object = m.objects[m.cur_obj as int];
    ModelView {
        meshes: m.meshes.push(empty_mesh(name, 0)),
        cur_mesh: index,
        objects: m.objects.update(
            m.cur_obj as int,
            ObjectView { meshes: object.meshes.push(index), ..object },
        ),
        ..m
    }
}

/// The model after the object called `name` was made current. A new name
/// makes a new object with a new mesh of that name behind it. Either way the
/// current mesh gets the active material.
pub open spec fn with_object(m: ModelView, name: Seq<char>) -> ModelView {
    match find_object(m.objects, name) {
        Some(i) => stamped(ModelView { cur_obj: i as usize, ..m }),
        None => stamped(
            with_mesh(
                ModelView {
                    objects: m.objects.push(plain_object(name, Seq::empty())),
                    cur_obj: m.objects.len() as usize,
                    ..m
                },
                name,
            ),
        ),
    }
}

/// What an object directive with the arguments `words` does to the model:
/// the object whose name is the arguments written together becomes current,
/// and is made first if there is none of that name.
pub open spec fn object_read(m: ModelView, words: Seq<Seq<char>>) -> ModelView {
    let name = concat(words);
    match find_object(m.objects, name) {
        Some(i) => ModelView { cur_obj: i as usize, ..m },
        None => with_object(m, name),
    }
}

/// The model after the group `name` was named: nothing changes if it is the
/// active group; otherwise the group is entered in the list if it is new,
/// the object of that name is made current, and the group becomes active.
pub open spec fn with_group(m: ModelView, name: Seq<char>) -> ModelView {
    if m.grplib.active == name {
        m
    } else {
        let groups = match find_group(m.grplib.groups, name) {
            Some(_i) => m.grplib.groups,
            None => m.grplib.groups.push(GroupView { name, faces: Seq::empty() }),
        };
        let next = with_object(m, name);
        ModelView { grplib: GroupLibraryView { active: name, groups }, ..next }
    }
}

/// The model after the groups `names` were named one after another.
pub open spec fn with_groups(m: ModelView, names: Seq<Seq<char>>) -> ModelView
    decreases names.len(),
{
    if names.len() == 0 {
        m
    } else {
        with_groups(with_group(m, names[0]), names.drop_first())
    }
}

/// What a group directive with the arguments `words` does to the model: it
/// needs at least one name.
pub open spec fn group_read(m: ModelView, words: Seq<Seq<char>>) -> (ModelView, Option<ParseError>) {
    if words.len() == 0 {
        (m, Some(ParseError::MissingName))
    } else {
        (with_groups(m, words), None)
    }
}

/// The place of the material that a directive for the material `name`
/// selects: the one defined under that name, else the one defined as
/// `initialShadingGroup`.
pub open spec fn material_choice(materials: Seq<crate::data::MaterialView>, name: Seq<char>) -> Option<
    int,
> {
    match find_material(materials, name) {
        Some(i) => Some(i),
        None => find_material(materials, "initialShadingGroup"@),
    }
}

/// What a material directive with the arguments `words` does to the model:
/// the material whose name is the arguments written together becomes active,
/// or the fallback; with neither defined the directive is refused.
pub open spec fn material_use(m: ModelView, words: Seq<Seq<char>>) -> (ModelView, Option<ParseError>) {
    match material_choice(m.matlib.materials, concat(words)) {
        Some(i) => (
            ModelView {
                matlib: MaterialLibraryView { active: i as usize, materials: m.matlib.materials },
                ..m
            },
            None,
        ),
        None => (m, Some(ParseError::MaterialNotFound)),
    }
}

/// The outcome of reading numbers into a pool of the model.
pub open spec fn pool_outcome(m: ModelView, read: Option<Seq<ScalarView>>, which: int) -> (
    ModelView,
    Option<ParseError>,
) {
    match read {
        None => (m, Some(ParseError::Fetch)),
        Some(pool) => if which == 0 {
            (ModelView { gv: pool, ..m }, None)
        } else if which == 1 {
            (ModelView { vt: pool, ..m }, None)
        } else {
            (ModelView { vn: pool, ..m }, None)
        },
    }
}

/// What one line of geometry text does to the model, and the error if the
/// line is refused. The first word selects the directive; a line without
/// words or with an unknown first word does nothing. The material text
/// `materials` is what a library directive reads.
pub open spec fn geometry_line(m: ModelView, line: Seq<char>, materials: Seq<char>) -> (
    ModelView,
    Option<ParseError>,
) {
    let words = split_words(line);
    if words.len() == 0 {
        (m, None)
    } else {
        let head = words[0];
        let rest = words.skip(1);
        if head == "mtllib"@ {
            let (library, error) = material_text(m.matlib, materials);
            (ModelView { matlib: library, ..m }, error)
        } else if head == "v"@ {
            if rest.len() == 3 || rest.len() == 4 {
                pool_outcome(m, floats_read(m.gv, rest), 0)
            } else {
                (m, None)
            }
        } else if head == "vt"@ {
            if rest.len() == 2 || rest.len() == 3 {
                pool_outcome(m, floats_read(m.vt, rest), 1)
            } else {
                (m, None)
            }
        } else if head == "vn"@ {
            if rest.len() == 2 || rest.len() == 3 {
                pool_outcome(m, floats_read(m.vn, rest), 2)
            } else {
                (m, None)
            }
        } else if head == "f"@ {
            face_read(m, rest)
        } else if head == "g"@ {
            group_read(m, rest)
        } else if head == "o"@ {
            (object_read(m, rest), None)
        } else if head == "usemtl"@ {
            material_use(m, rest)
        } else {
            (m, None)
        }
    }
}

/// What the lines do to the model one after another, up to the first that is
/// refused, and the error of that line.
pub open spec fn geometry_lines(m: ModelView, lines: Seq<Seq<char>>, materials: Seq<char>) -> (
    ModelView,
    Option<ParseError>,
)
    decreases lines.len(),
{
    if lines.len() == 0 {
        (m, None)
    } else {
        let (next, error) = geometry_line(m, lines[0], materials);
        if error is Some {
            (next, error)
        } else {
            geometry_lines(next, lines.drop_first(), materials)
        }
    }
}

/// What a geometry text does to the model.
pub open spec fn geometry_text(m: ModelView, text: Seq<char>, materials: Seq<char>) -> (
    ModelView,
    Option<ParseError>,
) {
    geometry_lines(m, split_lines(text), materials)
}

/// Holds the model that is being read from the geometry text.
pub struct Parser {
    pub model: Model,
}

impl Parser {
    /// Reads the numbers `words` into the pool `vals`. A refused line leaves
    /// the pool as it was.
    pub fn parse_floats(words: &[Vec<char>], vals: &mut Vec<Scalar>) -> (res: Result<
        (),
        ParseError,
    >)
        ensures
            match floats_read(views(old(vals)@), views(words@)) {
                Some(pool) => res == Ok::<(), ParseError>(()) && views(final(vals)@) == pool,
                None => res == Err::<(), ParseError>(ParseError::Fetch) && views(final(vals)@)
                    == views(old(vals)@),
            },
    {
        let count = words.len();
        let ghost before = views(vals@);
        let ghost all = views(words@);
        assert(all.take(count as int) =~= all);
        if count == 2 || count == 3 {
            if !are_real(words, count) {
                return Err(ParseError::Fetch);
            }
            let mut i: usize = 0;
            assert(before + literals(all).take(0) =~= before);
            while i < count
                invariant
                    i <= count,
                    count == words.len(),
                    all == views(words@),
                    views(vals@) == before + literals(all).take(i as int),
                decreases count - i,
            {
                let x = scalar(&words[i]);
                proof {
                    lemma_views_push(vals@, x);
                    assert(before + literals(all).take(i + 1) =~= (before + literals(all).take(
                        i as int,
                    )).push(x@));
                }
                vals.push(x);
                i += 1;
            }
            assert(literals(all).take(count as int) =~= literals(all));
        } else if count == 4 {
            if !are_real(words, count) {
                return Err(ParseError::Fetch);
            }
            let x = Scalar::Quotient(to_string(&words[0]), to_string(&words[3]));
            let y = Scalar::Quotient(to_string(&words[1]), to_string(&words[3]));
            let z = Scalar::Quotient(to_string(&words[2]), to_string(&words[3]));
            proof {
                lemma_views_push(vals@, x);
                lemma_views_push(vals@.push(x), y);
                lemma_views_push(vals@.push(x).push(y), z);
            }
            vals.push(x);
            vals.push(y);
            vals.push(z);
        }
        Ok(())
    }

    /// Reads positions that come with colors. Such lines are not taken up:
    /// both pools stay as they are.
    pub fn parse_with_colors(
        words: &[Vec<char>],
        data: &mut Vec<Scalar>,
        color: &mut Vec<Scalar>,
    ) -> (res: Result<(), ParseError>)
        ensures
            res == Ok::<(), ParseError>(()),
            *final(data) == *old(data),
            *final(color) == *old(color),
    {
        Ok(())
    }

    /// How many entries each pool of `model` holds.
    pub fn pool_sizes(model: &Model) -> (sizes: PoolSizes)
        ensures
            sizes == pool_sizes(model@),
    {
        PoolSizes {
            vertices: model.gv.len() / 3,
            textures: model.vt.len() / 2,
            normals: model.vn.len() / 3,
        }
    }

    /// Reads a face from its references `words` and adds it to the current
    /// mesh of `model`. A refused line leaves the model as it was.
    pub fn parse_face(words: &[Vec<char>], model: &mut Model) -> (res: Result<(), ParseError>)
        requires
            old(model).wf(),
        ensures
            final(model)@ == face_read(old(model)@, views(words@)).0,
            res == result_of(face_read(old(model)@, views(words@)).1),
            final(model).wf(),
    {
        let sizes = Self::pool_sizes(model);
        match read_corners(words, sizes) {
            Err(e) => Err(e),
            Ok(lists) => {
                let cur = model.cur_mesh;
                if cur >= model.meshes.len() {
                    return Err(ParseError::IndexOutOfRange);
                }
                let mut face = Face::new();
                face.face_type = FaceType::Triangle;
                face.vertices = triangulate(&lists.vertices);
                face.normals = triangulate(&lists.normals);
                face.textures = triangulate(&lists.textures);
                face.material = model.matlib.active;
                let ghost m = model@;
                let ghost mesh = m.meshes[cur as int];
                proof {
                    lemma_views_push(model.meshes@[cur as int].faces@, face);
                }
                model.meshes[cur].faces.push(face);
                assert(model@.meshes =~= m.meshes.update(
                    cur as int,
                    MeshView { faces: mesh.faces.push(face@), ..mesh },
                ));
                assert(model@.objects == m.objects);
                assert(model@ == with_face(m, face@));
                assert(model_wf(model@)) by {
                    assert forall|i: int, k: int|
                        0 <= i < model@.meshes.len() && 0 <= k < model@.meshes[i].faces.len()
                        implies face_wf(
                        #[trigger] model@.meshes[i].faces[k],
                        model@.matlib.materials.len(),
                    ) by {
                        if i == cur && k == mesh.faces.len() {
                            assert(model@.meshes[i].faces[k] == face@);
                        } else {
                            assert(model@.meshes[i].faces[k] == m.meshes[i].faces[k]);
                        }
                    }
                    assert forall|i: int|
                        0 <= i < model@.meshes.len() implies (#[trigger] model@.meshes[i]).material
                        < model@.matlib.materials.len() by {
                        assert(model@.meshes[i].material == m.meshes[i].material);
                    }
                }
                Ok(())
            },
        }
    }

    /// Adds a new mesh called `name` to `model`, makes it current and enters
    /// it in the current object.
    pub fn create_mesh(name: &str, model: &mut Model) -> (res: Result<(), ParseError>)
        requires
            old(model).cur_obj < old(model).objects.len(),
        ensures
            final(model)@ == with_mesh(old(model)@, name@),
            res == Ok::<(), ParseError>(()),
    {
        let ghost m = model@;
        let mut mesh = Mesh::new();
        mesh.name = String::from_str(name);
        proof {
            lemma_views_push(model.meshes@, mesh);
        }
        model.meshes.push(mesh);
        let index: usize = model.meshes.len() - 1;
        model.cur_mesh = index;
        let cur = model.cur_obj;
        model.objects[cur].meshes.push(index);
        assert(model@.objects =~= m.objects.update(
            cur as int,
            ObjectView { meshes: m.objects[cur as int].meshes.push(index), ..m.objects[cur as int] },
        ));
        Ok(())
    }

    /// Gives the current mesh of `model`, if there is one, the active
    /// material.
    pub fn stamp(model: &mut Model)
        ensures
            final(model)@ == stamped(old(model)@),
    {
        let ghost m = model@;
        let cur = model.cur_mesh;
        if cur < model.meshes.len() {
            model.meshes[cur].material = model.matlib.active;
            assert(model@.meshes =~= m.meshes.update(
                cur as int,
                MeshView { material: m.matlib.active, ..m.meshes[cur as int] },
            ));
        }
    }

    /// Makes the object called `name` the current one, and creates it with
    /// its mesh if there is none of that name.
    pub fn create_object(name: &str, model: &mut Model) -> (res: Result<(), ParseError>)
        requires
            old(model).wf(),
        ensures
            final(model)@ == with_object(old(model)@, name@),
            res == Ok::<(), ParseError>(()),
            final(model).wf(),
    {
        let ghost m = model@;
        let owned = String::from_str(name);
        proof {
            lemma_position_from(object_names(m.objects), name@, 0);
        }
        match model.find_object(&owned) {
            Some(x) => {
                model.cur_obj = x;
            },
            None => {
                let mut obj = Object::new();
                obj.name = owned;
                model.cur_obj = model.objects.len();
                proof {
                    lemma_views_push(model.objects@, obj);
                }
                model.objects.push(obj);
                let _ = Self::create_mesh(name, model);
                assert(model@.objects.len() == m.objects.len() + 1);
                assert(model.objects@.len() == model@.objects.len());
                assert(model@.meshes.len() == m.meshes.len() + 1);
                assert(model.meshes@.len() == model@.meshes.len());
                assert(model.objects.len() <= usize::MAX && model.meshes.len() <= usize::MAX);
                assert(m.objects.len() < usize::MAX && m.meshes.len() < usize::MAX);
                assert forall|i: int| 0 <= i < m.objects.len() implies m.objects[i].name
                    != name@ by {
                    assert(object_names(m.objects)[i] == m.objects[i].name);
                }
            },
        }
        Self::stamp(model);
        assert(model_wf(model@)) by {
            lemma_with_object_wf(m, name@);
        }
        Ok(())
    }

    /// Reads an object directive with the arguments `words`: the object
    /// whose name is the arguments written together becomes the current one.
    pub fn parse_obj(words: &[Vec<char>], model: &mut Model) -> (res: Result<(), ParseError>)
        requires
            old(model).wf(),
        ensures
            final(model)@ == object_read(old(model)@, views(words@)),
            res == Ok::<(), ParseError>(()),
            final(model).wf(),
    {
        let name = join(words);
        proof {
            lemma_position_from(object_names(model@.objects), name@, 0);
        }
        match model.find_object(&name) {
            Some(o) => {
                model.cur_obj = o;
                Ok(())
            },
            None => Self::create_object(name.as_str(), model),
        }
    }

    /// Reads a group directive with the names `words`.
    pub fn parse_group(words: &[Vec<char>], model: &mut Model) -> (res: Result<(), ParseError>)
        requires
            old(model).wf(),
        ensures
            final(model)@ == group_read(old(model)@, views(words@)).0,
            res == result_of(group_read(old(model)@, views(words@)).1),
            final(model).wf(),
    {
        if words.len() == 0 {
            return Err(ParseError::MissingName);
        }
        let ghost all = views(words@);
        let mut i: usize = 0;
        assert(all.skip(0) =~= all);
        while i < words.len()
            invariant
                i <= words.len(),
                all == views(words@),
                model.wf(),
                with_groups(model@, all.skip(i as int)) == with_groups(old(model)@, all),
            decreases words.len() - i,
        {
            assert(all.skip(i as int)[0] == words@[i as int]@);
            assert(all.skip(i as int).drop_first() =~= all.skip(i + 1));
            let name = to_string(&words[i]);
            let ghost m = model@;
            if model.grplib.active != name {
                proof {
                    lemma_position_from(group_names(m.grplib.groups), name@, 0);
                }
                if model.find_group(&name).is_none() {
                    let group = Group { name: name.clone(), faces: Vec::new() };
                    proof {
                        lemma_views_push(model.grplib.groups@, group);
                    }
                    model.grplib.groups.push(group);
                    assert forall|a: int| 0 <= a < m.grplib.groups.len() implies m.grplib.groups[a].name
                        != name@ by {
                        assert(group_names(m.grplib.groups)[a] == m.grplib.groups[a].name);
                    }
                }
                let ghost entered = model@;
                assert(model_wf(entered));
                assert(entered == ModelView { grplib: entered.grplib, ..m });
                let _ = Self::create_object(name.as_str(), model);
                model.grplib.active = name;
                assert(with_object(entered, name@) == ModelView {
                    grplib: entered.grplib,
                    ..with_object(m, name@)
                });
                assert(model@ == with_group(m, name@));
            }
            i += 1;
        }
        Ok(())
    }

    /// Reads a material directive with the arguments `word`: the material
    /// whose name is the arguments written together becomes the active one,
    /// or the fallback where that name is not defined.
    pub fn use_material(word: &[Vec<char>], model: &mut Model) -> (res: Result<(), ParseError>)
        requires
            old(model).wf(),
        ensures
            final(model)@ == material_use(old(model)@, views(word@)).0,
            res == result_of(material_use(old(model)@, views(word@)).1),
            final(model).wf(),
    {
        let name = join(word);
        let ghost names = material_names(model@.matlib.materials);
        proof {
            lemma_position_from(names, name@, 1);
            lemma_position_from(names, "initialShadingGroup"@, 1);
        }
        let found = match model.matlib.find(&name) {
            Some(i) => Some(i),
            None => model.matlib.find(&String::from_str("initialShadingGroup")),
        };
        match found {
            Some(i) => {
                model.matlib.active = i;
                Ok(())
            },
            None => Err(ParseError::MaterialNotFound),
        }
    }

    /// Reads one line of geometry text into `model`; `mat_data` is the
    /// material text that a library directive reads.
    pub fn read_line(line: &Vec<char>, mat_data: &str, model: &mut Model) -> (res: Result<
        (),
        ParseError,
    >)
        requires
            old(model).wf(),
        ensures
            final(model)@ == geometry_line(old(model)@, line@, mat_data@).0,
            res == result_of(geometry_line(old(model)@, line@, mat_data@).1),
            final(model).wf(),
    {
        let words = split_whitespace(line);
        if words.len() == 0 {
            return Ok(());
        }
        let head = &words[0];
        assert(views(words@)[0] == head@);
        let rest = slice_subrange(words.as_slice(), 1, words.len());
        assert(views(rest@) =~= views(words@).skip(1));
        let count = rest.len();
        if word_is(head, "mtllib") {
            MtlReader::load(&mut model.matlib, mat_data)
        } else if word_is(head, "v") {
            if count == 3 || count == 4 {
                Self::parse_floats(rest, &mut model.gv)
            } else {
                Ok(())
            }
        } else if word_is(head, "vt") {
            if count == 2 || count == 3 {
                Self::parse_floats(rest, &mut model.vt)
            } else {
                Ok(())
            }
        } else if word_is(head, "vn") {
            if count == 2 || count == 3 {
                Self::parse_floats(rest, &mut model.vn)
            } else {
                Ok(())
            }
        } else if word_is(head, "f") {
            Self::parse_face(rest, model)
        } else if word_is(head, "g") {
            Self::parse_group(rest, model)
        } else if word_is(head, "o") {
            Self::parse_obj(rest, model)
        } else if word_is(head, "usemtl") {
            Self::use_material(rest, model)
        } else {
            Ok(())
        }
    }

    /// Read the data in into the model, line by line, up to the first line
    /// that is refused.
    pub fn read_data(&mut self, scene_data: &str, mat_data: &str) -> (res: Result<(), ParseError>)
        requires
            old(self).model.wf(),
        ensures
            final(self).model@ == geometry_text(old(self).model@, scene_data@, mat_data@).0,
            res == result_of(geometry_text(old(self).model@, scene_data@, mat_data@).1),
            final(self).model.wf(),
    {
        let chars = to_chars(scene_data);
        let all = lines(&chars);
        let mut i: usize = 0;
        assert(views(all@).skip(0) =~= views(all@));
        while i < all.len()
            invariant
                i <= all.len(),
                self.model.wf(),
                views(all@) == split_lines(scene_data@),
                geometry_lines(self.model@, views(all@).skip(i as int), mat_data@) == geometry_text(
                    old(self).model@,
                    scene_data@,
                    mat_data@,
                ),
            decreases all.len() - i,
        {
            assert(views(all@).skip(i as int).drop_first() =~= views(all@).skip(i + 1));
            assert(views(all@).skip(i as int)[0] == all@[i as int]@);
            let res = Self::read_line(&all[i], mat_data, &mut self.model);
            if res.is_err() {
                return res;
            }
            i += 1;
        }
        Ok(())
    }

    /// Reads the geometry text `scene_data` and, where it asks for the
    /// material library, the material text `mat_data`, into a new model.
    pub fn parse(scene_data: &str, mat_data: &str) -> (res: Result<Parser, ParseError>)
        ensures
            match geometry_text(empty_model(), scene_data@, mat_data@).1 {
                None => res is Ok && res->Ok_0.model@ == geometry_text(
                    empty_model(),
                    scene_data@,
                    mat_data@,
                ).0 && res->Ok_0.model.wf(),
                Some(e) => res is Err && res->Err_0 == e,
            },
    {
        let mut parser = Parser { model: Model::new() };
        match parser.read_data(scene_data, mat_data) {
            Ok(()) => Ok(parser),
            Err(e) => Err(e),
        }
    }
}

/// Reads the geometry text `geometry` into a new model; `materials` is the
/// material text that a library directive reads. Any line that is refused
/// fails the whole.
pub fn parse_model(geometry: &str, materials: &str) -> (res: Result<Model, ParseError>)
    ensures
        match geometry_text(empty_model(), geometry@, materials@).1 {
            None => res is Ok && res->Ok_0@ == geometry_text(
                empty_model(),
                geometry@,
                materials@,
            ).0 && res->Ok_0.wf(),
            Some(e) => res is Err && res->Err_0 == e,
        },
{
    match Parser::parse(geometry, materials) {
        Ok(parser) => Ok(parser.model),
        Err(e) => Err(e),
    }
}

/// Making an object current keeps the model well formed.
pub proof fn lemma_with_object_wf(m: ModelView, name: Seq<char>)
    requires
        model_wf(m),
        find_object(m.objects, name) is None ==> m.objects.len() < usize::MAX && m.meshes.len()
            < usize::MAX,
    ensures
        model_wf(with_object(m, name)),
{
    let r = with_object(m, name);
    lemma_position_from(object_names(m.objects), name, 0);
    match find_object(m.objects, name) {
        Some(i) => {
            let s = ModelView { cur_obj: i as usize, ..m };
            assert(r == stamped(s));
            assert forall|a: int, k: int|
                0 <= a < r.meshes.len() && 0 <= k < r.meshes[a].faces.len() implies face_wf(
                #[trigger] r.meshes[a].faces[k],
                r.matlib.materials.len(),
            ) by {
                assert(r.meshes[a].faces[k] == m.meshes[a].faces[k]);
            }
            assert forall|a: int| 0 <= a < r.meshes.len() implies (#[trigger] r.meshes[a]).material
                < r.matlib.materials.len() by {
                if a != s.cur_mesh {
                    assert(r.meshes[a] == m.meshes[a]);
                }
            }
        },
        None => {
            let pushed = ModelView {
                objects: m.objects.push(plain_object(name, Seq::empty())),
                cur_obj: m.objects.len() as usize,
                ..m
            };
            let w = with_mesh(pushed, name);
            assert(r == stamped(w));
            assert(r.objects == w.objects);
            assert forall|a: int, b: int| 0 <= a < b < r.objects.len() implies r.objects[a].name
                != r.objects[b].name by {
                if b == m.objects.len() {
                    assert(object_names(m.objects)[a] == m.objects[a].name);
                } else {
                    assert(r.objects[a].name == m.objects[a].name);
                    assert(r.objects[b].name == m.objects[b].name);
                }
            }
            assert forall|a: int, k: int|
                0 <= a < r.objects.len() && 0 <= k < r.objects[a].meshes.len() implies
                #[trigger] r.objects[a].meshes[k] < r.meshes.len() by {
                if a < m.objects.len() {
                    assert(r.objects[a].meshes[k] == m.objects[a].meshes[k]);
                }
            }
            assert forall|a: int, k: int|
                0 <= a < r.meshes.len() && 0 <= k < r.meshes[a].faces.len() implies face_wf(
                #[trigger] r.meshes[a].faces[k],
                r.matlib.materials.len(),
            ) by {
                if a < m.meshes.len() {
                    assert(r.meshes[a].faces[k] == m.meshes[a].faces[k]);
                }
            }
            assert forall|a: int| 0 <= a < r.meshes.len() implies (#[trigger] r.meshes[a]).material
                < r.matlib.materials.len() by {
                if a < m.meshes.len() {
                    assert(r.meshes[a] == m.meshes[a]);
                }
            }
        },
    }
}

} // verus!
