//! Reading the material text.
use vstd::prelude::*;
use vstd::slice::slice_subrange;
use crate::data::{
    blank_material, find_material, material_names, zero, Material, MaterialLibrary,
    MaterialLibraryView, MaterialView, Scalar, ScalarView,
};
use crate::error::ParseError;
use crate::number::{is_real, is_real_word, parse_u8, u8_value};
use crate::seqs::{lemma_position_from, lemma_views_push, views};
use crate::text::{
    concat, join, lines, split_lines, split_whitespace, split_words, to_chars, to_string, word_is,
};

verus! {

/// The library after `name` was defined or taken up again: the material of
/// that name is active, and it is a blank one if the name is new.
pub open spec fn with_material(lib: MaterialLibraryView, name: Seq<char>) -> MaterialLibraryView {
    match find_material(lib.materials, name) {
        Some(i) => MaterialLibraryView { active: i as usize, materials: lib.materials },
        None => MaterialLibraryView {
            active: lib.materials.len() as usize,
            materials: lib.materials.push(MaterialView { name, ..blank_material() }),
        },
    }
}

/// The library with `material` in the active place.
pub open spec fn with_active(lib: MaterialLibraryView, material: MaterialView) -> MaterialLibraryView {
    MaterialLibraryView {
        active: lib.active,
        materials: lib.materials.update(lib.active as int, material),
    }
}

/// The number that `word` writes.
pub open spec fn literal(word: Seq<char>) -> ScalarView {
    ScalarView::Literal(word)
}

/// Whether each of `words` is a real number.
pub open spec fn all_real(words: Seq<Seq<char>>) -> bool {
    forall|i: int| 0 <= i < words.len() ==> is_real(#[trigger] words[i])
}

/// The color that a color directive with the arguments `words` makes of
/// `old`, or `None` where an argument that counts is no number. A single
/// argument sets the first channel and clears the other two; otherwise the
/// first three arguments set their channels and the rest of `old` stays.
pub open spec fn color_read(old: Seq<ScalarView>, words: Seq<Seq<char>>) -> Option<Seq<ScalarView>> {
    if words.len() == 1 {
        if is_real(words[0]) {
            Some(seq![literal(words[0]), zero(), zero()])
        } else {
            None
        }
    } else {
        let n = if words.len() < 3 { words.len() } else { 3 };
        if all_real(words.take(n as int)) {
            Some(Seq::new(3, |i: int| if i < n { literal(words[i]) } else { old[i] }))
        } else {
            None
        }
    }
}

/// The number that a directive for one number with the arguments `words`
/// makes of `old`, or `None` where an argument is no number: the last
/// argument counts, and without arguments `old` stays.
pub open spec fn single_read(old: ScalarView, words: Seq<Seq<char>>) -> Option<ScalarView> {
    if !all_real(words) {
        None
    } else if words.len() == 0 {
        Some(old)
    } else {
        Some(literal(words.last()))
    }
}

/// The illumination model that the arguments `words` give: the first of
/// them, where it is a byte.
pub open spec fn illumination_read(words: Seq<Seq<char>>) -> Option<u8> {
    if words.len() == 0 {
        None
    } else {
        u8_value(words[0])
    }
}

/// What one line of material text does to the library, and the error if the
/// line is refused; a refused line leaves the library as it was.
pub open spec fn material_line(lib: MaterialLibraryView, line: Seq<char>) -> (
    MaterialLibraryView,
    Option<ParseError>,
) {
    let words = split_words(line);
    if words.len() == 0 {
        (lib, None)
    } else {
        let head = words[0];
        let rest = words.skip(1);
        let cur = lib.materials[lib.active as int];
        if head == "newmtl"@ {
            (with_material(lib, concat(rest)), None)
        } else if head == "Ka"@ {
            match color_read(cur.ambient, rest) {
                Some(c) => (with_active(lib, MaterialView { ambient: c, ..cur }), None),
                None => (lib, Some(ParseError::Fetch)),
            }
        } else if head == "Kd"@ {
            match color_read(cur.diffuse, rest) {
                Some(c) => (with_active(lib, MaterialView { diffuse: c, ..cur }), None),
                None => (lib, Some(ParseError::Fetch)),
            }
        } else if head == "Ks"@ {
            match color_read(cur.specular, rest) {
                Some(c) => (with_active(lib, MaterialView { specular: c, ..cur }), None),
                None => (lib, Some(ParseError::Fetch)),
            }
        } else if head == "Tf"@ {
            match color_read(cur.transmission, rest) {
                Some(c) => (with_active(lib, MaterialView { transmission: c, ..cur }), None),
                None => (lib, Some(ParseError::Fetch)),
            }
        } else if head == "Ni"@ {
            match single_read(cur.ri, rest) {
                Some(x) => (with_active(lib, MaterialView { ri: x, ..cur }), None),
                None => (lib, Some(ParseError::Fetch)),
            }
        } else if head == "Ns"@ {
            match single_read(cur.shininess, rest) {
                Some(x) => (with_active(lib, MaterialView { shininess: x, ..cur }), None),
                None => (lib, Some(ParseError::Fetch)),
            }
        } else if head == "illum"@ {
            match illumination_read(rest) {
                Some(x) => (with_active(lib, MaterialView { illumination: Some(x), ..cur }), None),
                None => (lib, Some(ParseError::Fetch)),
            }
        } else {
            (lib, None)
        }
    }
}

/// What the lines do to the library one after another, up to the first that
/// is refused, and the error of that line.
pub open spec fn material_lines(lib: MaterialLibraryView, lines: Seq<Seq<char>>) -> (
    MaterialLibraryView,
    Option<ParseError>,
)
    decreases lines.len(),
{
    if lines.len() == 0 {
        (lib, None)
    } else {
        let (next, error) = material_line(lib, lines[0]);
        if error is Some {
            (next, error)
        } else {
            material_lines(next, lines.drop_first())
        }
    }
}

/// What a material text does to the library.
pub open spec fn material_text(lib: MaterialLibraryView, text: Seq<char>) -> (
    MaterialLibraryView,
    Option<ParseError>,
) {
    material_lines(lib, split_lines(text))
}

/// The result that goes with an outcome: the error, if there is one.
pub open spec fn result_of(error: Option<ParseError>) -> Result<(), ParseError> {
    match error {
        Some(e) => Err(e),
        None => Ok(()),
    }
}

/// The number that `word` writes.
pub fn scalar(word: &Vec<char>) -> (out: Scalar)
    ensures
        out@ == literal(word@),
{
    Scalar::Literal(to_string(word))
}

/// Whether each of the first `n` of `words` is a real number.
pub fn are_real(words: &[Vec<char>], n: usize) -> (b: bool)
    requires
        n <= words.len(),
    ensures
        b == all_real(views(words@).take(n as int)),
{
    let mut i: usize = 0;
    while i < n
        invariant
            i <= n <= words.len(),
            all_real(views(words@).take(i as int)),
        decreases n - i,
    {
        if !is_real_word(&words[i]) {
            assert(views(words@).take(n as int)[i as int] == words@[i as int]@);
            return false;
        }
        assert forall|k: int| 0 <= k < i + 1 implies is_real(
            #[trigger] views(words@).take(i + 1)[k],
        ) by {
            if k < i {
                assert(views(words@).take(i + 1)[k] == views(words@).take(i as int)[k]);
            }
        }
        i += 1;
    }
    true
}

/// This will read the material properties from the material text.
pub struct MtlReader {
    /// The library that the text is read into.
    pub library: MaterialLibrary,
}

impl MtlReader {
    /// Reads the material text `data` into the library `material`, line by
    /// line, up to the first line that is refused.
    pub fn load(material: &mut MaterialLibrary, data: &str) -> (res: Result<(), ParseError>)
        requires
            old(material).wf(),
        ensures
            final(material)@ == material_text(old(material)@, data@).0,
            res == result_of(material_text(old(material)@, data@).1),
            final(material).wf(),
            final(material)@.materials.len() >= old(material)@.materials.len(),
    {
        let mut reader = MtlReader { library: MaterialLibrary::new() };
        core::mem::swap(&mut reader.library, material);
        let res = reader.parse_mtl(data);
        core::mem::swap(&mut reader.library, material);
        res
    }

    /// Reads the material text `data` into the reader's library.
    pub fn parse_mtl(&mut self, data: &str) -> (res: Result<(), ParseError>)
        requires
            old(self).library.wf(),
        ensures
            final(self).library@ == material_text(old(self).library@, data@).0,
            res == result_of(material_text(old(self).library@, data@).1),
            final(self).library.wf(),
            final(self).library@.materials.len() >= old(self).library@.materials.len(),
    {
        let chars = to_chars(data);
        let all = lines(&chars);
        let mut i: usize = 0;
        assert(views(all@).skip(0) =~= views(all@));
        while i < all.len()
            invariant
                i <= all.len(),
                self.library.wf(),
                self.library@.materials.len() >= old(self).library@.materials.len(),
                views(all@) == split_lines(data@),
                material_lines(self.library@, views(all@).skip(i as int)) == material_text(
                    old(self).library@,
                    data@,
                ),
            decreases all.len() - i,
        {
            assert(views(all@).skip(i as int).drop_first() =~= views(all@).skip(i + 1));
            assert(views(all@).skip(i as int)[0] == all@[i as int]@);
            let res = self.parse_line(&all[i]);
            if res.is_err() {
                return res;
            }
            i += 1;
        }
        Ok(())
    }

    /// Reads one line of material text into the reader's library.
    pub fn parse_line(&mut self, line: &Vec<char>) -> (res: Result<(), ParseError>)
        requires
            old(self).library.wf(),
        ensures
            final(self).library@ == material_line(old(self).library@, line@).0,
            res == result_of(material_line(old(self).library@, line@).1),
            final(self).library.wf(),
            final(self).library@.materials.len() >= old(self).library@.materials.len(),
    {
        let words = split_whitespace(line);
        if words.len() == 0 {
            return Ok(());
        }
        let head = &words[0];
        assert(views(words@)[0] == head@);
        let rest = slice_subrange(words.as_slice(), 1, words.len());
        assert(views(rest@) =~= views(words@).skip(1));
        let active = self.library.active;
        let ghost lib = self.library@;
        let ghost cur = lib.materials[active as int];
        assert(lib.materials.update(active as int, cur) =~= lib.materials);
        if word_is(head, "newmtl") {
            self.add_material(join(rest))
        } else if word_is(head, "Ka") {
            let res = Self::parse_floats(rest, &mut self.library.materials[active].ambient);
            proof {
                let c = views(self.library.materials@[active as int].ambient@);
                assert(self.library@.materials =~= lib.materials.update(
                    active as int,
                    MaterialView { ambient: c, ..cur },
                ));
            }
            res
        } else if word_is(head, "Kd") {
            let res = Self::parse_floats(rest, &mut self.library.materials[active].diffuse);
            proof {
                let c = views(self.library.materials@[active as int].diffuse@);
                assert(self.library@.materials =~= lib.materials.update(
                    active as int,
                    MaterialView { diffuse: c, ..cur },
                ));
            }
            res
        } else if word_is(head, "Ks") {
            let res = Self::parse_floats(rest, &mut self.library.materials[active].specular);
            proof {
                let c = views(self.library.materials@[active as int].specular@);
                assert(self.library@.materials =~= lib.materials.update(
                    active as int,
                    MaterialView { specular: c, ..cur },
                ));
            }
            res
        } else if word_is(head, "Tf") {
            let res = Self::parse_floats(rest, &mut self.library.materials[active].transmission);
            proof {
                let c = views(self.library.materials@[active as int].transmission@);
                assert(self.library@.materials =~= lib.materials.update(
                    active as int,
                    MaterialView { transmission: c, ..cur },
                ));
            }
            res
        } else if word_is(head, "Ni") {
            let res = Self::parse_single(rest, &mut self.library.materials[active].ri);
            proof {
                let x = self.library.materials@[active as int].ri@;
                assert(self.library@.materials =~= lib.materials.update(
                    active as int,
                    MaterialView { ri: x, ..cur },
                ));
            }
            res
        } else if word_is(head, "Ns") {
            let res = Self::parse_single(rest, &mut self.library.materials[active].shininess);
            proof {
                let x = self.library.materials@[active as int].shininess@;
                assert(self.library@.materials =~= lib.materials.update(
                    active as int,
                    MaterialView { shininess: x, ..cur },
                ));
            }
            res
        } else if word_is(head, "illum") {
            if rest.len() == 0 {
                return Err(ParseError::Fetch);
            }
            assert(views(rest@)[0] == rest@[0]@);
            match parse_u8(&rest[0]) {
                Some(x) => {
                    self.library.materials[active].illumination = Some(x);
                    assert(self.library@.materials =~= lib.materials.update(
                        active as int,
                        MaterialView { illumination: Some(x), ..cur },
                    ));
                    Ok(())
                },
                None => Err(ParseError::Fetch),
            }
        } else {
            Ok(())
        }
    }

    /// Makes the material called `name` the active one, and defines it first
    /// if the name is new.
    pub fn add_material(&mut self, name: String) -> (res: Result<(), ParseError>)
        requires
            old(self).library.wf(),
        ensures
            final(self).library@ == with_material(old(self).library@, name@),
            res == Ok::<(), ParseError>(()),
            final(self).library.wf(),
            final(self).library@.materials.len() >= old(self).library@.materials.len(),
    {
        let ghost lib = self.library@;
        proof {
            lemma_position_from(material_names(lib.materials), name@, 1);
        }
        match self.library.find(&name) {
            Some(i) => {
                self.library.active = i;
            },
            None => {
                let mut material = Material::new();
                material.name = name;
                self.library.active = self.library.materials.len();
                proof {
                    lemma_views_push(self.library.materials@, material);
                }
                self.library.materials.push(material);
                assert forall|i: int, j: int| 1 <= i < j < self.library@.materials.len() implies
                    self.library@.materials[i].name != self.library@.materials[j].name by {
                    if j == lib.materials.len() {
                        assert(material_names(lib.materials)[i] == lib.materials[i].name);
                    }
                }
            },
        }
        Ok(())
    }

    /// Reads the arguments `words` of a color directive into the color `vals`.
    pub fn parse_floats(words: &[Vec<char>], vals: &mut [Scalar; 3]) -> (res: Result<
        (),
        ParseError,
    >)
        ensures
            match color_read(views(old(vals)@), views(words@)) {
                Some(c) => res == Ok::<(), ParseError>(()) && views(final(vals)@) == c,
                None => res == Err::<(), ParseError>(ParseError::Fetch) && views(final(vals)@)
                    == views(old(vals)@),
            },
    {
        let count = words.len();
        if count == 1 {
            assert(views(words@).take(1) =~= views(words@));
            if !are_real(words, 1) {
                return Err(ParseError::Fetch);
            }
            *vals = [scalar(&words[0]), Scalar::zero(), Scalar::zero()];
            assert(views(vals@) =~= seq![literal(words@[0]@), zero(), zero()]);
        } else {
            let n: usize = if count < 3 { count } else { 3 };
            if !are_real(words, n) {
                return Err(ParseError::Fetch);
            }
            let a = if 0 < n { scalar(&words[0]) } else { vals[0].clone() };
            let b = if 1 < n { scalar(&words[1]) } else { vals[1].clone() };
            let c = if 2 < n { scalar(&words[2]) } else { vals[2].clone() };
            let ghost before = views(vals@);
            *vals = [a, b, c];
            assert(views(vals@) =~= Seq::new(
                3,
                |i: int| if i < n { literal(views(words@)[i]) } else { before[i] },
            ));
        }
        Ok(())
    }

    /// Reads the arguments `words` of a directive for one number into `vals`.
    pub fn parse_single(words: &[Vec<char>], vals: &mut Scalar) -> (res: Result<(), ParseError>)
        ensures
            match single_read(old(vals)@, views(words@)) {
                Some(x) => res == Ok::<(), ParseError>(()) && final(vals)@ == x,
                None => res == Err::<(), ParseError>(ParseError::Fetch) && final(vals)@ == old(vals)@,
            },
    {
        assert(views(words@).take(words.len() as int) =~= views(words@));
        if !are_real(words, words.len()) {
            return Err(ParseError::Fetch);
        }
        if words.len() > 0 {
            *vals = scalar(&words[words.len() - 1]);
        }
        Ok(())
    }
}

/// Reads the material text `text` into `library`, line by line, up to the
/// first line that is refused.
pub fn parse_materials(library: &mut MaterialLibrary, text: &str) -> (res: Result<(), ParseError>)
    requires
        old(library).wf(),
    ensures
        final(library)@ == material_text(old(library)@, text@).0,
        res == result_of(material_text(old(library)@, text@).1),
        final(library).wf(),
        final(library)@.materials.len() >= old(library)@.materials.len(),
{
    MtlReader::load(library, text)
}

} // verus!
