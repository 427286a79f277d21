use obj_scene::data::{Material, MaterialLibrary, Scalar};
use obj_scene::error::ParseError;
use obj_scene::mtlreader::{are_real, scalar, MtlReader};
use obj_scene::text::{split_whitespace, to_chars};

fn words(s: &str) -> Vec<Vec<char>> {
    split_whitespace(&to_chars(s))
}

fn value(s: &Scalar) -> f32 {
    match s {
        Scalar::Literal(a) => a.parse::<f32>().unwrap(),
        Scalar::Quotient(a, b) => a.parse::<f32>().unwrap() / b.parse::<f32>().unwrap(),
    }
}

fn color(c: &[Scalar; 3]) -> [f32; 3] {
    [value(&c[0]), value(&c[1]), value(&c[2])]
}

fn loaded(text: &str) -> MaterialLibrary {
    let mut library = MaterialLibrary::new();
    assert_eq!(MtlReader::load(&mut library, text), Ok(()));
    library
}

#[test]
fn new_material_has_the_defaults() {
    let m = Material::new();
    assert_eq!(m.name, "");
    assert_eq!(m.texture, "");
    assert_eq!(m.texture_ambient, "");
    assert_eq!(m.texture_diffuse, "");
    assert_eq!(m.texture_emissive, "");
    assert_eq!(m.texture_normal, "");
    assert_eq!(m.texture_specular, "");
    assert_eq!(color(&m.ambient), [0.0, 0.0, 0.0]);
    assert_eq!(color(&m.diffuse), [0.0, 0.0, 0.0]);
    assert_eq!(color(&m.transmission), [0.0, 0.0, 0.0]);
    assert_eq!(color(&m.specular), [0.0, 0.0, 0.0]);
    assert_eq!(value(&m.shininess), 0.0);
    assert_eq!(m.illumination, None);
    assert_eq!(value(&m.ri), 1.0);
    assert_eq!(m.clone(), m);
}

#[test]
fn new_library_holds_the_unnamed_material_only() {
    let library = MaterialLibrary::new();
    assert_eq!(library.active, 0);
    assert_eq!(library.materials, vec![Material::new()]);
    assert_eq!(library.find(&String::new()), None);
}

#[test]
fn single_value_color_sets_the_first_channel_and_clears_the_rest() {
    let library = loaded("newmtl m\nKd 1 1 1\nKd 0.5\n");
    assert_eq!(library.active, 1);
    assert_eq!(color(&library.materials[1].diffuse), [0.5, 0.0, 0.0]);
    assert_eq!(library.materials[1].diffuse[0], Scalar::Literal("0.5".to_string()));
    assert_eq!(library.materials[1].diffuse[1], Scalar::Literal("0.0".to_string()));
}

#[test]
fn three_value_color_sets_every_channel() {
    let library = loaded("newmtl m\nKa 0.1 0.2 0.3\nKs 1 0 .5\nTf 0.9 0.8 0.7\n");
    let m = &library.materials[1];
    assert_eq!(color(&m.ambient), [0.1, 0.2, 0.3]);
    assert_eq!(color(&m.specular), [1.0, 0.0, 0.5]);
    assert_eq!(color(&m.transmission), [0.9, 0.8, 0.7]);
    assert_eq!(color(&m.diffuse), [0.0, 0.0, 0.0]);
}

#[test]
fn two_value_color_leaves_the_third_channel() {
    let library = loaded("newmtl m\nKd 0.1 0.2 0.3\nKd 0.7 0.8\n");
    assert_eq!(color(&library.materials[1].diffuse), [0.7, 0.8, 0.3]);
}

#[test]
fn color_without_values_changes_nothing() {
    let library = loaded("newmtl m\nKd 0.1 0.2 0.3\nKd\n");
    assert_eq!(color(&library.materials[1].diffuse), [0.1, 0.2, 0.3]);
}

#[test]
fn color_with_more_than_three_values_reads_three() {
    let library = loaded("newmtl m\nKd 0.1 0.2 0.3 junk\n");
    assert_eq!(color(&library.materials[1].diffuse), [0.1, 0.2, 0.3]);
}

#[test]
fn color_with_a_word_that_is_no_number_is_refused() {
    let mut library = MaterialLibrary::new();
    assert_eq!(MtlReader::load(&mut library, "newmtl m\nKd 0.1 x 0.3\n"), Err(ParseError::Fetch));
    assert_eq!(library.materials.len(), 2);
    assert_eq!(color(&library.materials[1].diffuse), [0.0, 0.0, 0.0]);
    let mut library = MaterialLibrary::new();
    assert_eq!(MtlReader::load(&mut library, "Ka x\n"), Err(ParseError::Fetch));
}

#[test]
fn material_parse_floats_reads_into_the_color() {
    let mut c = [Scalar::one(), Scalar::one(), Scalar::one()];
    assert_eq!(MtlReader::parse_floats(&words("0.25"), &mut c), Ok(()));
    assert_eq!(color(&c), [0.25, 0.0, 0.0]);
    assert_eq!(MtlReader::parse_floats(&words("1 2 3"), &mut c), Ok(()));
    assert_eq!(color(&c), [1.0, 2.0, 3.0]);
    assert_eq!(MtlReader::parse_floats(&words("4 x 6"), &mut c), Err(ParseError::Fetch));
    assert_eq!(color(&c), [1.0, 2.0, 3.0]);
}

#[test]
fn parse_single_takes_the_last_number() {
    let mut x = Scalar::one();
    assert_eq!(MtlReader::parse_single(&words("1.45"), &mut x), Ok(()));
    assert_eq!(value(&x), 1.45);
    assert_eq!(MtlReader::parse_single(&words("2 3"), &mut x), Ok(()));
    assert_eq!(value(&x), 3.0);
    assert_eq!(MtlReader::parse_single(&words(""), &mut x), Ok(()));
    assert_eq!(value(&x), 3.0);
    assert_eq!(MtlReader::parse_single(&words("x 4"), &mut x), Err(ParseError::Fetch));
    assert_eq!(value(&x), 3.0);
}

#[test]
fn refraction_and_shininess_are_single_numbers() {
    let library = loaded("newmtl glass\nNi 1.45\nNs 96.078431\n");
    assert_eq!(value(&library.materials[1].ri), 1.45);
    assert_eq!(value(&library.materials[1].shininess), 96.078431);
    let mut library = MaterialLibrary::new();
    assert_eq!(MtlReader::load(&mut library, "Ns shiny\n"), Err(ParseError::Fetch));
    assert_eq!(MtlReader::load(&mut library, "Ni\n"), Ok(()));
}

#[test]
fn illumination_is_a_byte() {
    let library = loaded("newmtl m\nillum 2\n");
    assert_eq!(library.materials[1].illumination, Some(2));
    let library = loaded("newmtl m\nillum 255 ignored\n");
    assert_eq!(library.materials[1].illumination, Some(255));
    for text in ["illum\n", "illum 256\n", "illum -1\n", "illum 2.0\n", "illum two\n"] {
        let mut library = MaterialLibrary::new();
        assert_eq!(MtlReader::load(&mut library, text), Err(ParseError::Fetch), "{:?}", text);
        assert_eq!(library.materials[0].illumination, None);
    }
}

#[test]
fn newmtl_defines_a_material_once() {
    let library = loaded("newmtl a\nKd 1 0 0\nnewmtl b\nKd 0 1 0\nnewmtl a\nKs 1 1 1\n");
    assert_eq!(library.materials.len(), 3);
    assert_eq!(library.active, 1);
    assert_eq!(library.materials[0], Material::new());
    assert_eq!(library.materials[1].name, "a");
    assert_eq!(library.materials[2].name, "b");
    assert_eq!(color(&library.materials[1].diffuse), [1.0, 0.0, 0.0]);
    assert_eq!(color(&library.materials[1].specular), [1.0, 1.0, 1.0]);
    assert_eq!(color(&library.materials[2].diffuse), [0.0, 1.0, 0.0]);
    assert_eq!(library.find(&"a".to_string()), Some(1));
    assert_eq!(library.find(&"b".to_string()), Some(2));
    assert_eq!(library.find(&"c".to_string()), None);
}

#[test]
fn newmtl_writes_the_words_of_the_name_together() {
    let library = loaded("newmtl  shiny   red \n");
    assert_eq!(library.materials[1].name, "shinyred");
    let library = loaded("newmtl\n");
    assert_eq!(library.materials.len(), 2);
    assert_eq!(library.materials[1].name, "");
    assert_eq!(library.active, 1);
}

#[test]
fn directives_before_newmtl_change_the_unnamed_material() {
    let library = loaded("Kd 0.5 0.5 0.5\n");
    assert_eq!(library.materials.len(), 1);
    assert_eq!(color(&library.materials[0].diffuse), [0.5, 0.5, 0.5]);
}

#[test]
fn unknown_material_directives_and_comments_are_skipped() {
    let library = loaded("# a comment\n\n   \nmap_Kd wood.png\nd 1.0\n#Kd x\n# Kd x\nnewmtl m\n");
    assert_eq!(library.materials.len(), 2);
    assert_eq!(library.materials[1].name, "m");
}

#[test]
fn a_refused_line_keeps_what_was_read_before() {
    let mut library = MaterialLibrary::new();
    let text = "newmtl a\nKd 1 2 3\nNs bad\nnewmtl b\n";
    assert_eq!(MtlReader::load(&mut library, text), Err(ParseError::Fetch));
    assert_eq!(library.materials.len(), 2);
    assert_eq!(color(&library.materials[1].diffuse), [1.0, 2.0, 3.0]);
}

#[test]
fn add_material_makes_the_named_material_active() {
    let mut reader = MtlReader { library: MaterialLibrary::new() };
    assert_eq!(reader.add_material("a".to_string()), Ok(()));
    assert_eq!(reader.add_material("b".to_string()), Ok(()));
    assert_eq!(reader.library.active, 2);
    assert_eq!(reader.add_material("a".to_string()), Ok(()));
    assert_eq!(reader.library.active, 1);
    assert_eq!(reader.library.materials.len(), 3);
}

#[test]
fn parse_line_and_parse_mtl_agree_with_load() {
    let mut reader = MtlReader { library: MaterialLibrary::new() };
    assert_eq!(reader.parse_line(&to_chars("newmtl a")), Ok(()));
    assert_eq!(reader.parse_line(&to_chars("Kd 0.5")), Ok(()));
    let mut other = MtlReader { library: MaterialLibrary::new() };
    assert_eq!(other.parse_mtl("newmtl a\nKd 0.5"), Ok(()));
    assert_eq!(reader.library, other.library);
    assert_eq!(reader.library, loaded("newmtl a\nKd 0.5"));
}

#[test]
fn scalar_keeps_the_word() {
    assert_eq!(scalar(&to_chars("-1.5e3")), Scalar::Literal("-1.5e3".to_string()));
    assert_eq!(Scalar::literal("2"), Scalar::Literal("2".to_string()));
    assert_eq!(value(&Scalar::zero()), 0.0);
    assert_eq!(value(&Scalar::one()), 1.0);
    assert_eq!(Scalar::one().clone(), Scalar::one());
}

#[test]
fn are_real_looks_at_the_first_words_only() {
    let w = words("1 2 x");
    assert!(are_real(&w, 0));
    assert!(are_real(&w, 2));
    assert!(!are_real(&w, 3));
}

#[test]
fn error_messages() {
    assert_eq!(ParseError::Fetch.message(), "Fetch error");
    assert_eq!(ParseError::FaceShape.message(), "Error while parsing face");
    assert_eq!(ParseError::MaterialNotFound.message(), "The material doesn't exist");
    assert_eq!(ParseError::IndexOutOfRange.message(), "Index out of range");
    assert_eq!(ParseError::MissingName.message(), "Can't parse groups.");
}

#[test]
fn parse_materials_fills_the_library() {
    let mut library = MaterialLibrary::new();
    assert_eq!(obj_scene::mtlreader::parse_materials(&mut library, "newmtl a\nKd 0.5\n"), Ok(()));
    assert_eq!(library, loaded("newmtl a\nKd 0.5\n"));
    assert_eq!(color(&library.materials[1].diffuse), [0.5, 0.0, 0.0]);
    assert_eq!(obj_scene::mtlreader::parse_materials(&mut library, "Ns x\n"), Err(ParseError::Fetch));
}
