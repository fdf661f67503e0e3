//! Translates C struct and enum declarations from a vendor API header into
//! wrapper declarations in a target language, together with reconstruction
//! routines that rebuild the raw C value from the wrapper.
//!
//! The pipeline is: parse the header into a plain syntax-tree model, extract
//! struct/enum declarations, classify each declared type by fixed naming and
//! shape conventions, rewrite identifiers, and emit the wrapper text.

use vstd::prelude::*;

pub mod c_parser;
pub mod generator;
pub mod str_utils;

use crate::c_parser::CParser;
use crate::c_parser::ParseError;
use crate::generator::Generator;

verus! {

/// What one whole run produces for a source text: the emitted wrapper text,
/// or nothing when the translation unit cannot be parsed at all.  Every
/// stage is a function of the source text and the fixed tables alone.
pub open spec fn spec_translate(source: Seq<char>) -> Option<Seq<char>> {
    match crate::c_parser::parsed_tree(source) {
        Some(root) => Some(
            crate::generator::spec_generator_output(
                crate::generator::ContextView {
                    enums: crate::generator::spec_build_enums(
                        crate::generator::spec_filter_enums(
                            crate::c_parser::spec_extract_enums(root),
                        ),
                    ),
                    structs: crate::generator::spec_build_structs(
                        crate::generator::spec_filter_structs(
                            crate::c_parser::spec_extract_structs(root),
                        ),
                    ),
                },
            ),
        ),
        None => None,
    }
}

/// Parses one translation unit and emits the wrapper text for every
/// declaration that survives filtering.
pub fn translate_header(parser: &mut CParser, source: &str) -> (r: Result<String, ParseError>)
    ensures
        match r {
            Ok(s) => spec_translate(source@) == Some(s@),
            Err(e) => spec_translate(source@) is None && e == ParseError::Syntax,
        },
{
    match parser.parse_c_code(source) {
        Ok(parsed) => {
            let (structs, enums) = parsed;
            let generator = Generator::new(enums, structs);
            Ok(generator.generate())
        },
        Err(e) => Err(e),
    }
}

/// Determinism: the emitted output is a mathematical function of the input
/// text, so two runs on identical input produce identical output,
/// byte for byte.
pub proof fn lemma_translate_deterministic(s1: Seq<char>, s2: Seq<char>)
    requires
        s1 == s2,
    ensures
        spec_translate(s1) == spec_translate(s2),
{
}

} // verus!
