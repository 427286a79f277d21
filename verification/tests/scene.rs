use obj_scene::data::{Material, Model, Object, Scalar, Transform};
use obj_scene::error::ParseError;
use obj_scene::parser::Parser;
use obj_scene::reader::{find_link, DataLoader, ObjReader};
use obj_scene::scene::{Index, SceneFace, SceneGraph, SceneMesh, SceneNode};

fn value(s: &Scalar) -> f32 {
    match s {
        Scalar::Literal(a) => a.parse::<f32>().unwrap(),
        Scalar::Quotient(a, b) => a.parse::<f32>().unwrap() / b.parse::<f32>().unwrap(),
    }
}

fn values(pool: &[Scalar]) -> Vec<f32> {
    pool.iter().map(value).collect()
}

fn parsed(text: &str, materials: &str) -> Model {
    match Parser::parse(text, materials) {
        Ok(parser) => parser.model,
        Err(e) => panic!("refused: {:?}", e),
    }
}

fn built(text: &str, materials: &str) -> SceneGraph {
    let mut reader = ObjReader::new().unwrap();
    assert_eq!(reader.read(text, materials), Ok(()));
    reader.scene
}

const TRIANGLE: &str = "v 0 0 0\nv 1 0 0\nv 0 1 0\nvt 0 0\nvt 1 0\nvt 0 1\nvn 0 0 1\nvn 0 1 0\nvn 1 0 0\no Tri\nf 1/1/1 2/2/2 3/3/3\n";

#[test]
fn new_scene_parts_are_empty() {
    assert!(SceneFace::new().indices.is_empty());
    let mesh = SceneMesh::new();
    assert_eq!(mesh.name, "");
    assert!(mesh.gv.is_empty() && mesh.vn.is_empty() && mesh.vt.is_empty() && mesh.colors.is_empty());
    assert_eq!(mesh.material, None);
    assert!(mesh.faces.is_empty() && mesh.face_indices.is_empty());
    let node = SceneNode::new();
    assert_eq!(node.name, "");
    assert_eq!(node.parent, None);
    assert_eq!(node.transformation, Transform::Identity);
    assert!(node.children.is_empty() && node.meshes.is_empty());
    let graph = SceneGraph::new();
    assert!(graph.nodes.is_empty() && graph.meshes.is_empty() && graph.materials.is_empty());
    assert!(ObjReader::new().unwrap().scene.nodes.is_empty());
}

#[test]
fn one_triangle_makes_one_node_and_one_mesh() {
    let scene = built(TRIANGLE, "");
    assert_eq!(scene.nodes.len(), 2);
    assert_eq!(scene.nodes[0], SceneNode::new());
    assert_eq!(scene.nodes[1].name, "Tri");
    assert_eq!(scene.nodes[1].parent, Some(Index { index: 0 }));
    assert_eq!(scene.nodes[1].meshes, vec![0]);
    assert!(scene.nodes[1].children.is_empty());
    assert_eq!(scene.nodes[1].transformation, Transform::Identity);
    assert_eq!(scene.meshes.len(), 1);
    let mesh = &scene.meshes[0];
    assert_eq!(mesh.name, "Tri");
    assert_eq!(values(&mesh.gv), vec![0.0, 0.0, 0.0, 1.0, 0.0, 0.0, 0.0, 1.0, 0.0]);
    assert_eq!(values(&mesh.vt), vec![0.0, 0.0, 1.0, 0.0, 0.0, 1.0]);
    assert_eq!(values(&mesh.vn), vec![0.0, 0.0, 1.0, 0.0, 1.0, 0.0, 1.0, 0.0, 0.0]);
    assert!(mesh.colors.is_empty());
    assert_eq!(mesh.faces.len(), 1);
    assert_eq!(mesh.faces[0].indices, vec![0, 1, 2]);
    assert_eq!(mesh.face_indices, vec![0, 1, 2]);
    assert_eq!(mesh.material, None);
    assert!(scene.materials.is_empty());
}

#[test]
fn corners_are_written_out_per_face() {
    let text = "v 0 0 0\nv 1 0 0\nv 1 1 0\nv 0 1 0\nvt 0.5 0.5\nvt 1 1\nvn 0 0 1\no Quad\nf 1/1/1 2/1/1 3/2/1 4/1/1\nf 4/2/1 3/2/1 1/2/1\n";
    let scene = built(text, "");
    let mesh = &scene.meshes[0];
    assert_eq!(mesh.faces.len(), 2);
    assert_eq!(mesh.faces[0].indices, vec![0, 1, 2, 3, 4, 5]);
    assert_eq!(mesh.faces[1].indices, vec![6, 7, 8]);
    assert_eq!(mesh.face_indices, vec![0, 1, 2, 3, 4, 5, 6, 7, 8]);
    assert_eq!(
        values(&mesh.gv),
        vec![
            0.0, 0.0, 0.0, 1.0, 0.0, 0.0, 1.0, 1.0, 0.0, 0.0, 0.0, 0.0, 1.0, 1.0, 0.0, 0.0, 1.0, 0.0,
            0.0, 1.0, 0.0, 1.0, 1.0, 0.0, 0.0, 0.0, 0.0,
        ]
    );
    assert_eq!(
        values(&mesh.vt),
        vec![0.5, 0.5, 0.5, 0.5, 1.0, 1.0, 0.5, 0.5, 1.0, 1.0, 0.5, 0.5, 1.0, 1.0, 1.0, 1.0, 1.0, 1.0]
    );
    assert_eq!(mesh.vn.len(), 27);
    assert_eq!(values(&mesh.vn[0..3]), vec![0.0, 0.0, 1.0]);
}

#[test]
fn divided_positions_reach_the_scene() {
    let scene = built("v 2 4 6 2\nvt 0 0\nvn 0 0 1\no P\nf 1/1/1\n", "");
    assert_eq!(values(&scene.meshes[0].gv), vec![1.0, 2.0, 3.0]);
    assert_eq!(scene.meshes[0].gv[2], Scalar::Quotient("6".to_string(), "2".to_string()));
}

#[test]
fn every_object_gets_a_node_under_the_root() {
    let text = format!("{}o Second\nf 3/3/3 2/2/2 1/1/1\nf 1/1/1 2/2/2 3/3/3\no Empty\n", TRIANGLE);
    let scene = built(&text, "");
    assert_eq!(scene.nodes.len(), 4);
    assert_eq!(scene.nodes[2].name, "Second");
    assert_eq!(scene.nodes[3].name, "Empty");
    for node in &scene.nodes[1..] {
        assert_eq!(node.parent, Some(Index { index: 0 }));
    }
    assert_eq!(scene.nodes[1].meshes, vec![0]);
    assert_eq!(scene.nodes[2].meshes, vec![1]);
    assert_eq!(scene.nodes[3].meshes, vec![2]);
    assert_eq!(scene.meshes.len(), 3);
    assert_eq!(scene.meshes[1].faces.len(), 2);
    assert_eq!(scene.meshes[1].faces[1].indices, vec![3, 4, 5]);
    assert_eq!(values(&scene.meshes[1].gv[0..3]), vec![0.0, 1.0, 0.0]);
    assert!(scene.meshes[2].faces.is_empty());
}

#[test]
fn materials_are_copied_and_linked_by_name() {
    let text = format!("mtllib m\nusemtl blue\n{}", TRIANGLE);
    let scene = built(&text, "newmtl red\nKd 1 0 0\nnewmtl blue\nKd 0 0 1\n");
    assert_eq!(scene.materials.len(), 2);
    assert_eq!(scene.materials[0].name, "red");
    assert_eq!(scene.materials[1].name, "blue");
    assert_eq!(values(&scene.materials[1].diffuse), vec![0.0, 0.0, 1.0]);
    assert_eq!(scene.meshes[0].material, Some(Index { index: 1 }));
}

#[test]
fn mesh_of_the_unnamed_material_has_no_link() {
    let text = format!("{}mtllib m\n", TRIANGLE);
    let scene = built(&text, "newmtl red\n");
    assert_eq!(scene.materials.len(), 1);
    assert_eq!(scene.meshes[0].material, None);
}

#[test]
fn find_link_takes_the_first_material_of_that_name() {
    let mut a = Material::new();
    a.name = "a".to_string();
    let mut b = Material::new();
    b.name = "b".to_string();
    let materials = vec![a.clone(), b.clone(), a.clone()];
    assert_eq!(find_link(&materials, &"a".to_string()), Some(Index { index: 0 }));
    assert_eq!(find_link(&materials, &"b".to_string()), Some(Index { index: 1 }));
    assert_eq!(find_link(&materials, &"c".to_string()), None);
    assert_eq!(find_link(&Vec::new(), &"a".to_string()), None);
}

#[test]
fn face_without_texture_coordinates_or_normals_does_not_fit() {
    let mut reader = ObjReader::new().unwrap();
    let text = "v 0 0 0\nv 1 0 0\nv 0 1 0\no Tri\nf 1 2 3\n";
    assert_eq!(reader.read(text, ""), Err(ParseError::IndexOutOfRange));
    assert_eq!(reader.scene, SceneGraph::new());
    let text = "v 0 0 0\nv 1 0 0\nv 0 1 0\nvn 0 0 1\no Tri\nf 1//1 2//1 3//1\n";
    assert_eq!(reader.read(text, ""), Err(ParseError::IndexOutOfRange));
    assert_eq!(reader.scene, SceneGraph::new());
}

#[test]
fn reference_beyond_the_pool_does_not_fit() {
    for face in ["f 4/1/1 1/1/1 2/2/2", "f 1/4/1 1/1/1 2/2/2", "f 1/1/4 1/1/1 2/2/2"] {
        let text = format!("v 0 0 0\nv 1 0 0\nv 0 1 0\nvt 0 0\nvt 1 0\nvt 0 1\nvn 0 0 1\nvn 0 1 0\nvn 1 0 0\no Tri\n{}\n", face);
        let model = parsed(&text, "");
        assert!(!ObjReader::model_fits(&model), "{}", face);
        assert!(!ObjReader::object_fits(&model, &model.objects[0]));
        assert!(!ObjReader::mesh_fits(&model, &model.meshes[0]));
        assert!(!ObjReader::face_fits(&model, &model.meshes[0].faces[0]));
        let mut reader = ObjReader::new().unwrap();
        assert_eq!(reader.fill_nodes(&model), Err(ParseError::IndexOutOfRange));
        assert_eq!(reader.scene, SceneGraph::new());
    }
}

#[test]
fn incomplete_pool_entry_does_not_fit() {
    let text = "v 0 0 0\nvt 0 0\nvn 0 0 1\nvn 1 0\no P\nf 1/1/2\n";
    let model = parsed(text, "");
    assert!(!ObjReader::model_fits(&model));
    let text = "v 0 0 0\nvt 0 0\nvn 0 0 1\nvn 1 0\no P\nf 1/1/1\n";
    assert!(ObjReader::model_fits(&parsed(text, "")));
}

#[test]
fn parse_errors_leave_the_scene_alone() {
    let mut reader = ObjReader::new().unwrap();
    assert_eq!(reader.read("o A\nv 1 2 x\n", ""), Err(ParseError::Fetch));
    assert_eq!(reader.read("g\n", ""), Err(ParseError::MissingName));
    assert_eq!(reader.read("usemtl gone\n", ""), Err(ParseError::MaterialNotFound));
    assert_eq!(reader.read("o A\nf 1/2/3/4\n", ""), Err(ParseError::FaceShape));
    assert_eq!(reader.scene, SceneGraph::new());
}

#[test]
fn a_second_model_is_added_behind_the_first() {
    let mut reader = ObjReader::new().unwrap();
    assert_eq!(reader.read(&format!("mtllib m\nusemtl red\n{}", TRIANGLE), "newmtl red\n"), Ok(()));
    assert_eq!(reader.read(&format!("mtllib m\nusemtl blue\n{}", TRIANGLE), "newmtl blue\n"), Ok(()));
    let scene = &reader.scene;
    assert_eq!(scene.nodes.len(), 4);
    assert_eq!(scene.nodes[2], SceneNode::new());
    assert_eq!(scene.nodes[3].parent, Some(Index { index: 2 }));
    assert_eq!(scene.nodes[3].meshes, vec![1]);
    assert_eq!(scene.meshes.len(), 2);
    assert_eq!(scene.materials.len(), 2);
    assert_eq!(scene.meshes[0].material, Some(Index { index: 0 }));
    assert_eq!(scene.meshes[1].material, Some(Index { index: 1 }));
}

#[test]
fn sub_objects_hang_under_their_owner() {
    let mut model = parsed("o A\no B\no C\n", "");
    model.objects[0].sub_objects.push(1);
    model.objects[0].sub_objects.push(2);
    model.objects[1].sub_objects.push(2);
    let mut reader = ObjReader::new().unwrap();
    assert_eq!(reader.fill_nodes(&model), Ok(()));
    let parents: Vec<Option<Index>> = reader.scene.nodes.iter().map(|n| n.parent).collect();
    assert_eq!(
        parents,
        vec![None, Some(Index { index: 0 }), Some(Index { index: 1 }), Some(Index { index: 2 })]
    );
    for node in &reader.scene.nodes {
        assert!(node.children.is_empty());
    }
}

#[test]
fn sub_object_that_does_not_exist_does_not_fit() {
    let mut model = parsed("o A\n", "");
    model.objects[0].sub_objects.push(1);
    assert!(!ObjReader::model_fits(&model));
    let mut reader = ObjReader::new().unwrap();
    assert_eq!(reader.fill_nodes(&model), Err(ParseError::IndexOutOfRange));
}

#[test]
fn object_with_a_mesh_that_does_not_exist_does_not_fit() {
    let mut model = Model::new();
    let mut object = Object::new();
    object.meshes.push(0);
    model.objects.push(object);
    assert!(!ObjReader::model_fits(&model));
    let mut model = parsed("o A\n", "");
    model.meshes[0].material = 1;
    assert!(!ObjReader::model_fits(&model));
}

#[test]
fn filled_mesh_and_load_meshes_fill_one_object() {
    let model = parsed(&format!("mtllib m\nusemtl red\n{}", TRIANGLE), "newmtl red\n");
    let mut reader = ObjReader::new().unwrap();
    reader.load_materials(&model);
    assert_eq!(reader.scene.materials.len(), 1);
    assert_eq!(reader.scene.materials[0], model.matlib.materials[1]);
    let mesh = reader.filled_mesh(&model, &model.meshes[0]);
    assert_eq!(mesh.face_indices, vec![0, 1, 2]);
    assert_eq!(mesh.material, Some(Index { index: 0 }));
    let mut node = SceneNode::new();
    reader.load_meshes(&model, &model.objects[0], &mut node, &0);
    assert_eq!(node.meshes, vec![0]);
    assert_eq!(reader.scene.meshes, vec![mesh]);
    assert!(reader.scene.nodes.is_empty());
}

#[test]
fn owned_copies_equal_the_pools() {
    let scene = built(&format!("mtllib m\n{}", TRIANGLE), "newmtl red\n");
    assert_eq!(scene.owned_nodes(), scene.nodes);
    assert_eq!(scene.owned_meshes(), scene.meshes);
    assert_eq!(scene.owned_materials(), scene.materials);
    assert_eq!(scene.meshes[0].clone(), scene.meshes[0]);
    assert_eq!(scene.nodes[1].clone(), scene.nodes[1]);
    assert_eq!(scene.meshes[0].faces[0].clone(), scene.meshes[0].faces[0]);
}

#[test]
fn data_loader_loads_both_texts() {
    let mut loader = DataLoader::new().unwrap();
    assert_eq!(loader.scene_data, "");
    assert_eq!(loader.mat_data, "");
    assert_eq!(loader.load(), Ok(()));
    assert_eq!(loader.reader.scene.nodes, vec![SceneNode::new()]);
    let mut loader = DataLoader::new().unwrap();
    loader.load_scene(format!("mtllib m\nusemtl red\n{}", TRIANGLE));
    loader.load_material("newmtl red\nKd 1 0 0\n".to_string());
    assert_eq!(loader.load(), Ok(()));
    assert_eq!(loader.reader.scene, built(&format!("mtllib m\nusemtl red\n{}", TRIANGLE), "newmtl red\nKd 1 0 0\n"));
    loader.load_scene("v x\nv 1 2 q\n".to_string());
    assert_eq!(loader.load(), Err(ParseError::Fetch));
}

#[test]
fn build_scene_graph_starts_from_an_empty_scene() {
    let model = parsed(&format!("mtllib m\nusemtl red\n{}", TRIANGLE), "newmtl red\n");
    let scene = obj_scene::reader::build_scene_graph(&model).unwrap();
    assert_eq!(scene, built(&format!("mtllib m\nusemtl red\n{}", TRIANGLE), "newmtl red\n"));
    assert_eq!(scene.nodes.len(), 2);
    assert_eq!(scene.meshes[0].faces[0].indices, vec![0, 1, 2]);
    let model = parsed("v 0 0 0\no A\nf 1 1 1\n", "");
    assert_eq!(obj_scene::reader::build_scene_graph(&model), Err(ParseError::IndexOutOfRange));
    assert_eq!(obj_scene::reader::build_scene_graph(&Model::new()).unwrap().nodes, vec![SceneNode::new()]);
}
