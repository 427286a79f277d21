//! What holds of reading a model, whatever the text.
use vstd::prelude::*;
use crate::data::{
    find_material, find_object, library_wf, material_names, object_names, FaceView, MaterialView,
    MeshView, ModelView,
    ObjectView,
};
use crate::error::ParseError;
use crate::face::fan;
use crate::mtlreader::literal;
use crate::number::is_real;
use crate::parser::{geometry_line, material_use, object_read, quotient};
use crate::reader::{
    corner_count, face_fits, filled, lemma_objects_meshes_len, mesh_fits, mesh_normals,
    mesh_positions, mesh_texcoords, mesh_total, model_fits, objects_meshes, owner, registered,
    scene_with,
};
use crate::scene::{empty_graph, empty_node};
use crate::seqs::{lemma_position_from, lemma_position_push};
use crate::text::split_words;

verus! {

/// A position line with exactly three numbers adds exactly these three to
/// the position pool, in order, and changes nothing else.
pub proof fn law_position_of_three(m: ModelView, line: Seq<char>, materials: Seq<char>)
    requires
        split_words(line).len() == 4,
        split_words(line)[0] == "v"@,
        is_real(split_words(line)[1]),
        is_real(split_words(line)[2]),
        is_real(split_words(line)[3]),
    ensures
        geometry_line(m, line, materials) == (
            ModelView {
                gv: m.gv.push(literal(split_words(line)[1])).push(
                    literal(split_words(line)[2]),
                ).push(literal(split_words(line)[3])),
                ..m
            },
            None::<ParseError>,
        ),
{
    reveal_strlit("v");
    reveal_strlit("mtllib");
    let words = split_words(line);
    let rest = words.skip(1);
    assert(rest.len() == 3);
    assert(rest[0] == words[1] && rest[1] == words[2] && rest[2] == words[3]);
    assert("v"@.len() == 1 && "mtllib"@.len() == 6);
    assert(crate::mtlreader::all_real(rest));
    assert(m.gv + crate::parser::literals(rest) =~= m.gv.push(literal(words[1])).push(
        literal(words[2]),
    ).push(literal(words[3])));
}

/// A position line with four numbers adds three to the position pool: each
/// of the first three divided by the fourth. Nothing else changes.
pub proof fn law_position_of_four(m: ModelView, line: Seq<char>, materials: Seq<char>)
    requires
        split_words(line).len() == 5,
        split_words(line)[0] == "v"@,
        is_real(split_words(line)[1]),
        is_real(split_words(line)[2]),
        is_real(split_words(line)[3]),
        is_real(split_words(line)[4]),
    ensures
        geometry_line(m, line, materials) == (
            ModelView {
                gv: m.gv.push(quotient(split_words(line)[1], split_words(line)[4])).push(
                    quotient(split_words(line)[2], split_words(line)[4]),
                ).push(quotient(split_words(line)[3], split_words(line)[4])),
                ..m
            },
            None::<ParseError>,
        ),
{
    reveal_strlit("v");
    reveal_strlit("mtllib");
    let words = split_words(line);
    let rest = words.skip(1);
    assert(rest.len() == 4);
    assert(rest[0] == words[1] && rest[1] == words[2] && rest[2] == words[3] && rest[3]
        == words[4]);
    assert("v"@.len() == 1 && "mtllib"@.len() == 6);
    assert(crate::mtlreader::all_real(rest));
}

/// Naming the same object twice in a row is the same as naming it once: the
/// second directive finds the object of the first, adds none, and leaves the
/// meshes and their materials as they are.
pub proof fn law_object_named_twice(m: ModelView, words: Seq<Seq<char>>)
    ensures
        object_read(object_read(m, words), words) == object_read(m, words),
        object_read(object_read(m, words), words).objects.len() == object_read(
            m,
            words,
        ).objects.len(),
{
    let name = crate::text::concat(words);
    let names = object_names(m.objects);
    let once = object_read(m, words);
    lemma_position_from(names, name, 0);
    match find_object(m.objects, name) {
        Some(i) => {
            assert(once.objects == m.objects);
        },
        None => {
            lemma_position_push(names, name, name, 0);
            assert(object_names(once.objects) =~= names.push(name));
            assert(find_object(once.objects, name) == Some(m.objects.len() as int));
        },
    }
}

/// Asking for a material that is not defined selects the one defined as
/// `initialShadingGroup`, without an error, and changes nothing else; where
/// that is not defined either, the directive is refused with
/// `MaterialNotFound` and the model stays as it is.
pub proof fn law_material_fallback(m: ModelView, words: Seq<Seq<char>>)
    requires
        find_material(m.matlib.materials, crate::text::concat(words)) is None,
    ensures
        match find_material(m.matlib.materials, "initialShadingGroup"@) {
            Some(i) => {
                &&& material_use(m, words).1 is None
                &&& material_use(m, words).0.matlib.active == i as usize
                &&& material_use(m, words).0.matlib.materials == m.matlib.materials
                &&& material_use(m, words).0.meshes == m.meshes
                &&& material_use(m, words).0.objects == m.objects
                &&& 1 <= i < m.matlib.materials.len()
                &&& m.matlib.materials[i].name == "initialShadingGroup"@
            },
            None => material_use(m, words) == (m, Some(ParseError::MaterialNotFound)),
        },
{
    lemma_position_from(material_names(m.matlib.materials), "initialShadingGroup"@, 1);
    match find_material(m.matlib.materials, "initialShadingGroup"@) {
        Some(i) => {
            assert(material_names(m.matlib.materials)[i] == m.matlib.materials[i].name);
        },
        None => {},
    }
}

/// A polygon with three or more corners is cut into one triangle for each
/// corner after the second: triangle `t` is made of the first corner and the
/// corners `t + 1` and `t + 2`.
pub proof fn law_fan_triangles(s: Seq<usize>)
    requires
        s.len() >= 3,
    ensures
        fan(s).len() == 3 * (s.len() - 2),
        forall|t: int|
            0 <= t < s.len() - 2 ==> fan(s)[3 * t] == s[0] && fan(s)[3 * t + 1] == s[t + 1]
                && #[trigger] fan(s)[3 * t + 2] == s[t + 2],
{
    if s.len() == 3 {
    } else {
        assert forall|t: int| 0 <= t < s.len() - 2 implies fan(s)[3 * t] == s[0] && fan(s)[3 * t
            + 1] == s[t + 1] && #[trigger] fan(s)[3 * t + 2] == s[t + 2] by {
            assert((3 * t) % 3 == 0 && (3 * t) / 3 == t);
            assert((3 * t + 1) % 3 == 1 && (3 * t + 1) / 3 == t);
            assert((3 * t + 2) % 3 == 2 && (3 * t + 2) / 3 == t);
        }
    }
}

/// Cutting a polygon into triangles invents no corner: every index of the
/// triangles is an index of the polygon.
pub proof fn law_fan_members(s: Seq<usize>, k: int)
    requires
        0 <= k < fan(s).len(),
    ensures
        s.contains(fan(s)[k]),
{
    if s.len() <= 3 {
    } else {
        if k % 3 == 0 {
            assert(s[0] == fan(s)[k]);
        } else if k % 3 == 1 {
            assert(s[k / 3 + 1] == fan(s)[k]);
        } else {
            assert(s[k / 3 + 2] == fan(s)[k]);
        }
    }
}

/// The corner data of faces that fit: three numbers of position and of
/// normal and two of texture for each corner.
pub proof fn law_corner_data_sizes(m: ModelView, faces: Seq<FaceView>)
    requires
        forall|k: int| 0 <= k < faces.len() ==> face_fits(m, #[trigger] faces[k]),
    ensures
        mesh_positions(m, faces).len() == 3 * corner_count(faces),
        mesh_normals(m, faces).len() == 3 * corner_count(faces),
        mesh_texcoords(m, faces).len() == 2 * corner_count(faces),
    decreases faces.len(),
{
    if faces.len() > 0 {
        assert(face_fits(m, faces[faces.len() - 1]));
        assert forall|k: int| 0 <= k < faces.drop_last().len() implies face_fits(
            m,
            #[trigger] faces.drop_last()[k],
        ) by {
            assert(faces.drop_last()[k] == faces[k]);
        }
        law_corner_data_sizes(m, faces.drop_last());
    }
}

/// The scene mesh of a mesh that fits keeps the name, has a face for each
/// face of the mesh, numbers its corners from zero without a gap, holds the
/// data of exactly these corners, and refers to a material that exists.
pub proof fn law_scene_mesh_shape(m: ModelView, materials: Seq<MaterialView>, mesh: MeshView)
    requires
        mesh_fits(m, mesh),
        corner_count(mesh.faces) <= usize::MAX,
        materials.len() <= usize::MAX,
    ensures
        filled(m, materials, mesh).name == mesh.name,
        filled(m, materials, mesh).faces.len() == mesh.faces.len(),
        filled(m, materials, mesh).face_indices.len() == corner_count(mesh.faces),
        forall|i: int|
            0 <= i < corner_count(mesh.faces) ==> #[trigger] filled(
                m,
                materials,
                mesh,
            ).face_indices[i] == i,
        filled(m, materials, mesh).gv.len() == 3 * corner_count(mesh.faces),
        filled(m, materials, mesh).vn.len() == 3 * corner_count(mesh.faces),
        filled(m, materials, mesh).vt.len() == 2 * corner_count(mesh.faces),
        match filled(m, materials, mesh).material {
            Some(link) => link.index < materials.len() && materials[link.index as int].name
                == m.matlib.materials[mesh.material as int].name,
            None => forall|i: int|
                0 <= i < materials.len() ==> (#[trigger] materials[i]).name
                    != m.matlib.materials[mesh.material as int].name,
        },
{
    law_corner_data_sizes(m, mesh.faces);
    let names = material_names(materials);
    let name = m.matlib.materials[mesh.material as int].name;
    lemma_position_from(names, name, 0);
    assert forall|i: int| 0 <= i < materials.len() implies names[i] == (
    #[trigger] materials[i]).name by {}
}

/// The object that owns another is one of the objects before the end of the
/// list, and names the other as its sub object.
pub proof fn law_owner_is_an_object(objects: Seq<ObjectView>, c: usize)
    ensures
        match owner(objects, c) {
            Some(i) => 0 <= i < objects.len() && objects[i].sub_objects.contains(c),
            None => forall|i: int|
                0 <= i < objects.len() ==> !(#[trigger] objects[i]).sub_objects.contains(c),
        },
    decreases objects.len(),
{
    if objects.len() > 0 {
        law_owner_is_an_object(objects.drop_last(), c);
        if !objects.last().sub_objects.contains(c) {
            assert forall|i: int| 0 <= i < objects.len() && owner(objects, c) is None implies !(
            #[trigger] objects[i]).sub_objects.contains(c) by {
                if i < objects.len() - 1 {
                    assert(objects.drop_last()[i] == objects[i]);
                }
            }
        }
    }
}

/// The meshes of the first objects are among the meshes of them all.
pub proof fn law_mesh_total_grows(objects: Seq<ObjectView>, i: int)
    requires
        0 <= i < objects.len(),
    ensures
        mesh_total(objects.take(i)) + objects[i].meshes.len() <= mesh_total(objects),
    decreases objects.len() - i,
{
    assert(objects.take(i + 1).drop_last() =~= objects.take(i));
    assert(objects.take(i + 1).last() == objects[i]);
    if i + 1 == objects.len() {
        assert(objects.take(i + 1) =~= objects);
    } else {
        law_mesh_total_grows(objects, i + 1);
    }
}

/// The scene of a model that fits, built from nothing: the root comes first
/// and has no parent; behind it stands one node for each object, in order and
/// under the object's name, whose parent is a node of the scene; the meshes
/// of each node are meshes of the scene; and there is one scene mesh for each
/// mesh of each object, and one material for each that the model defines by
/// name.
pub proof fn law_scene_shape(m: ModelView)
    requires
        model_fits(m),
        m.objects.len() < usize::MAX,
        mesh_total(m.objects) <= usize::MAX,
    ensures
        scene_with(empty_graph(), m).nodes.len() == m.objects.len() + 1,
        scene_with(empty_graph(), m).nodes[0] == empty_node(),
        scene_with(empty_graph(), m).meshes.len() == mesh_total(m.objects),
        scene_with(empty_graph(), m).materials == registered(m.matlib.materials),
        forall|i: int|
            0 <= i < m.objects.len() ==> {
                let node = #[trigger] scene_with(empty_graph(), m).nodes[i + 1];
                &&& node.name == m.objects[i].name
                &&& node.parent is Some
                &&& node.parent->Some_0.index < scene_with(empty_graph(), m).nodes.len()
                &&& node.meshes.len() == m.objects[i].meshes.len()
                &&& forall|k: int|
                    0 <= k < node.meshes.len() ==> (#[trigger] node.meshes[k]) < scene_with(
                        empty_graph(),
                        m,
                    ).meshes.len()
            },
{
    let s = scene_with(empty_graph(), m);
    let materials = empty_graph().materials + registered(m.matlib.materials);
    assert(materials =~= registered(m.matlib.materials));
    lemma_objects_meshes_len(m, materials, m.objects);
    assert(s.meshes =~= objects_meshes(m, materials, m.objects));
    assert forall|i: int| 0 <= i < m.objects.len() implies {
        let node = #[trigger] s.nodes[i + 1];
        &&& node.name == m.objects[i].name
        &&& node.parent is Some
        &&& node.parent->Some_0.index < s.nodes.len()
        &&& node.meshes.len() == m.objects[i].meshes.len()
        &&& forall|k: int| 0 <= k < node.meshes.len() ==> (#[trigger] node.meshes[k]) < s.meshes.len()
    } by {
        law_owner_is_an_object(m.objects, i as usize);
        law_mesh_total_grows(m.objects, i);
    }
}

/// The materials of a scene built from nothing have a name each of their
/// own, where the library of the model is well formed.
pub proof fn law_scene_materials_distinct(m: ModelView)
    requires
        library_wf(m.matlib),
    ensures
        forall|i: int, j: int|
            0 <= i < j < scene_with(empty_graph(), m).materials.len() ==> scene_with(
                empty_graph(),
                m,
            ).materials[i].name != scene_with(empty_graph(), m).materials[j].name,
{
    let materials = scene_with(empty_graph(), m).materials;
    assert(materials =~= registered(m.matlib.materials));
    assert forall|i: int, j: int| 0 <= i < j < materials.len() implies materials[i].name
        != materials[j].name by {
        assert(materials[i] == m.matlib.materials[i + 1]);
        assert(materials[j] == m.matlib.materials[j + 1]);
    }
}

} // verus!
