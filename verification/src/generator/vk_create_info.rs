//! Emission of wrapper structs for the `CreateInfo` family alone, driven
//! by the pure type-name classifier rather than the registry: every field
//! type is classified on the spot, and declarations outside the family are
//! skipped.

use vstd::prelude::*;
use crate::c_parser::lemma_fields_view_index;
use crate::c_parser::lemma_struct_decls_view_index;
use crate::c_parser::spec_struct_decls_view;
use crate::c_parser::CStruct;
use crate::c_parser::FieldView;
use crate::c_parser::StructView;
use crate::generator::cast_s_type;
use crate::generator::convert_field_name;
use crate::generator::parse_type_name;
use crate::generator::spec_cast_s_type;
use crate::generator::spec_convert_field_name;
use crate::generator::spec_parse_type_name;
use crate::generator::spec_vk_type_cast;
use crate::generator::spec_vk_type_convert;
use crate::generator::Context;
use crate::generator::ElementsGenerator;
use crate::generator::VkType;
use crate::str_utils::push_char;
use crate::str_utils::spec_ends_with;
use crate::str_utils::spec_line_text;
use crate::str_utils::spec_scope_close;
use crate::str_utils::spec_scope_header;
use crate::str_utils::spec_starts_with;
use crate::str_utils::str_ends_with;
use crate::str_utils::str_starts_with;
use crate::str_utils::StringBuilder;

verus! {

/// Whether a struct declaration belongs to the `CreateInfo` family this
/// generator emits.
pub open spec fn spec_is_create_info(name: Seq<char>) -> bool {
    spec_starts_with(name, "Vk"@) && spec_ends_with(name, "CreateInfo"@) && spec_parse_type_name(
        name,
    ) == VkType::VkCreateInfo
}

/// The fields after the type-tag and next-pointer pair, which this
/// generator always skips.
pub open spec fn spec_ci_rest_fields(s: StructView) -> Seq<FieldView> {
    s.fields.skip(
        if s.fields.len() >= 2 {
            2
        } else {
            s.fields.len() as int
        },
    )
}

/// One wrapper field declaration, with the type resolved by the pure
/// classifier.
pub open spec fn spec_ci_field_decl_line(f: FieldView) -> Seq<char> {
    spec_vk_type_convert(spec_parse_type_name(f.ty), f.ty) + " "@ + spec_convert_field_name(f.name)
        + ";"@
}

pub open spec fn spec_ci_field_lines(fs: Seq<FieldView>, i: int, acc: Seq<char>) -> Seq<char>
    decreases fs.len() - i,
{
    if i < 0 || i >= fs.len() {
        acc
    } else {
        spec_ci_field_lines(fs, i + 1, acc + spec_line_text(1, spec_ci_field_decl_line(fs[i])))
    }
}

/// One assignment of the reconstruction routine, with the cast picked by
/// the pure classifier.
pub open spec fn spec_ci_assign_entry(fs: Seq<FieldView>, i: int) -> Seq<char> {
    "."@ + fs[i].name + " = "@ + spec_vk_type_cast(
        spec_parse_type_name(fs[i].ty),
        fs[i].ty,
        spec_convert_field_name(fs[i].name),
    ) + (if i != fs.len() - 1 {
        ","@
    } else {
        Seq::empty()
    })
}

pub open spec fn spec_ci_assign_lines(fs: Seq<FieldView>, i: int, acc: Seq<char>) -> Seq<char>
    decreases fs.len() - i,
{
    if i < 0 || i >= fs.len() {
        acc
    } else {
        spec_ci_assign_lines(fs, i + 1, acc + spec_line_text(3, spec_ci_assign_entry(fs, i)))
    }
}

/// The whole emitted text of one `CreateInfo` struct; `None` for any
/// declaration outside the family.
pub open spec fn spec_emit_create_info(s: StructView) -> Option<Seq<char>> {
    if !spec_is_create_info(s.name) {
        None
    } else {
        let rest = spec_ci_rest_fields(s);
        let new_name = spec_vk_type_convert(VkType::VkCreateInfo, s.name);
        Some(
            spec_line_text(0, spec_scope_header("struct "@ + new_name)) + spec_ci_field_lines(
                rest,
                0,
                Seq::empty(),
            ) + spec_line_text(1, Seq::empty()) + spec_line_text(
                1,
                spec_scope_header(s.name + " raw()"@),
            ) + spec_line_text(2, spec_scope_header("return "@ + s.name)) + spec_line_text(
                3,
                ".sType = "@ + spec_cast_s_type(s.name) + ","@,
            ) + spec_line_text(
                3,
                ".pNext = nullptr"@ + (if rest.len() > 0 {
                    ","@
                } else {
                    Seq::empty()
                }),
            ) + spec_ci_assign_lines(rest, 0, Seq::empty())
                + spec_line_text(2, spec_scope_close(true)) + spec_line_text(
                1,
                spec_scope_close(false),
            ) + spec_line_text(0, spec_scope_close(true)),
        )
    }
}

/// What `generate` emits over a list of declarations: each emitted text
/// followed by a separator newline, declarations outside the family
/// skipped.
pub open spec fn spec_emit_create_infos_from(elems: Seq<StructView>, i: int) -> Seq<char>
    decreases elems.len() - i,
{
    if i < 0 || i >= elems.len() {
        Seq::empty()
    } else {
        match spec_emit_create_info(elems[i]) {
            Some(s) => (s + seq!['\n']) + spec_emit_create_infos_from(elems, i + 1),
            None => spec_emit_create_infos_from(elems, i + 1),
        }
    }
}

pub struct VkCreateInfoGenerator;

impl ElementsGenerator<CStruct> for VkCreateInfoGenerator {
    fn element(&self, element: &CStruct, _context: &Context) -> (r: Option<String>)
        ensures
            (match r {
                Some(s) => Some(s@),
                None => None::<Seq<char>>,
            }) == spec_emit_create_info(element@),
    {
        let ghost sv = element@;
        let name = element.name.as_str();
        if !str_starts_with(name, "Vk") || !str_ends_with(name, "CreateInfo") {
            return None;
        }
        let ty = parse_type_name(name);
        if !matches!(ty, VkType::VkCreateInfo) {
            return None;
        }
        let new_name = ty.convert(name);

        let fields = &element.fields;
        let flen = fields.len();
        proof {
            assert(sv.fields == crate::c_parser::spec_fields_view(fields@));
        }
        let skip_n: usize = if flen >= 2 {
            2
        } else {
            flen
        };
        let ghost rest = spec_ci_rest_fields(sv);
        proof {
            assert(rest =~= sv.fields.skip(skip_n as int));
        }

        let mut ret = StringBuilder::new();
        let ghost title0 = "struct "@ + spec_vk_type_convert(VkType::VkCreateInfo, sv.name);
        {
            let mut h = String::from_str("struct ");
            h.append(new_name.as_str());
            h.append(" {");
            proof {
                reveal_strlit("struct ");
                reveal_strlit(" {");
                assert(title0.len() > 0);
                assert(" {"@ =~= seq![' ', '{']);
                assert(h@ =~= spec_scope_header(title0));
            }
            ret.line(h.as_str());
        }
        ret.tab();
        let ghost l0 = spec_line_text(0, spec_scope_header(title0));

        let ghost mut emitted: Seq<char> = Seq::empty();
        let mut i: usize = skip_n;
        while i < flen
            invariant
                flen == fields@.len(),
                skip_n <= i <= flen,
                skip_n <= flen,
                sv == element@,
                sv.fields == crate::c_parser::spec_fields_view(fields@),
                rest == spec_ci_rest_fields(sv),
                rest == sv.fields.skip(skip_n as int),
                ret.spec_tabs() == 1,
                ret.spec_content() == l0 + emitted,
                l0 == spec_line_text(
                    0,
                    spec_scope_header(
                        "struct "@ + spec_vk_type_convert(VkType::VkCreateInfo, sv.name),
                    ),
                ),
                spec_ci_field_lines(rest, i - skip_n, emitted) == spec_ci_field_lines(
                    rest,
                    0,
                    Seq::empty(),
                ),
            decreases flen - i,
        {
            let f = &fields[i];
            proof {
                lemma_fields_view_index(fields@, i as int);
                assert(rest[i - skip_n] == sv.fields[i as int]);
                assert(f@ == rest[i - skip_n]);
            }
            let fty = parse_type_name(f.field_type.as_str());
            let conv_type = fty.convert(f.field_type.as_str());
            let conv_name = convert_field_name(f.name.as_str());
            let mut line = conv_type;
            line.append(" ");
            line.append(conv_name.as_str());
            line.append(";");
            proof {
                assert(line@ =~= spec_ci_field_decl_line(rest[i - skip_n]));
            }
            let ghost e0 = emitted;
            ret.line(line.as_str());
            proof {
                emitted = e0 + spec_line_text(1, spec_ci_field_decl_line(rest[i - skip_n]));
                assert(ret.spec_content() =~= l0 + emitted);
            }
            i = i + 1;
        }
        proof {
            assert(rest.len() == flen - skip_n);
            assert(emitted == spec_ci_field_lines(rest, 0, Seq::empty()));
        }
        let ghost part1 = l0 + spec_ci_field_lines(rest, 0, Seq::empty());

        ret.line("");
        proof {
            reveal_strlit("");
            assert(""@ =~= Seq::<char>::empty());
        }

        let ghost title1 = sv.name + " raw()"@;
        {
            let mut h = String::from_str(name);
            h.append(" raw()");
            h.append(" {");
            proof {
                reveal_strlit(" raw()");
                reveal_strlit(" {");
                assert(title1.len() > 0);
                assert(" {"@ =~= seq![' ', '{']);
                assert(h@ =~= spec_scope_header(title1));
            }
            ret.line(h.as_str());
        }
        ret.tab();

        let ghost title2 = "return "@ + sv.name;
        {
            let mut h = String::from_str("return ");
            h.append(name);
            h.append(" {");
            proof {
                reveal_strlit("return ");
                reveal_strlit(" {");
                assert(title2.len() > 0);
                assert(" {"@ =~= seq![' ', '{']);
                assert(h@ =~= spec_scope_header(title2));
            }
            ret.line(h.as_str());
        }
        ret.tab();

        let tag = cast_s_type(name);
        let mut sline = String::from_str(".sType = ");
        sline.append(tag.as_str());
        sline.append(",");
        proof {
            assert(sline@ =~= ".sType = "@ + spec_cast_s_type(sv.name) + ","@);
        }
        ret.line(sline.as_str());
        proof {
            reveal_strlit(".pNext = nullptr,");
            reveal_strlit(".pNext = nullptr");
            reveal_strlit(",");
            assert(".pNext = nullptr,"@ =~= ".pNext = nullptr"@ + ","@);
            assert(".pNext = nullptr"@ + Seq::<char>::empty() =~= ".pNext = nullptr"@);
        }
        if skip_n < flen {
            ret.line(".pNext = nullptr,");
        } else {
            ret.line(".pNext = nullptr");
        }

        let ghost part2 = part1 + spec_line_text(1, Seq::empty()) + spec_line_text(
            1,
            spec_scope_header(title1),
        ) + spec_line_text(2, spec_scope_header(title2)) + spec_line_text(
            3,
            ".sType = "@ + spec_cast_s_type(sv.name) + ","@,
        ) + spec_line_text(
            3,
            ".pNext = nullptr"@ + (if rest.len() > 0 {
                ","@
            } else {
                Seq::empty()
            }),
        );
        proof {
            assert(ret.spec_content() =~= part2);
        }

        let ghost mut assigns: Seq<char> = Seq::empty();
        let mut k: usize = skip_n;
        while k < flen
            invariant
                flen == fields@.len(),
                skip_n <= k <= flen,
                skip_n <= flen,
                sv == element@,
                sv.fields == crate::c_parser::spec_fields_view(fields@),
                rest == spec_ci_rest_fields(sv),
                rest == sv.fields.skip(skip_n as int),
                rest.len() == flen - skip_n,
                ret.spec_tabs() == 3,
                ret.spec_content() == part2 + assigns,
                spec_ci_assign_lines(rest, k - skip_n, assigns) == spec_ci_assign_lines(
                    rest,
                    0,
                    Seq::empty(),
                ),
            decreases flen - k,
        {
            let f = &fields[k];
            proof {
                lemma_fields_view_index(fields@, k as int);
                assert(rest[k - skip_n] == sv.fields[k as int]);
                assert(f@ == rest[k - skip_n]);
            }
            let fty = parse_type_name(f.field_type.as_str());
            let conv_name = convert_field_name(f.name.as_str());
            let value = fty.cast_variable(f.field_type.as_str(), conv_name.as_str());
            let mut line = String::from_str(".");
            line.append(f.name.as_str());
            line.append(" = ");
            line.append(value.as_str());
            if k != flen - 1 {
                line.append(",");
            }
            proof {
                if k - skip_n != rest.len() - 1 {
                    assert(line@ =~= spec_ci_assign_entry(rest, k - skip_n));
                } else {
                    assert(line@ =~= ("."@ + rest[k - skip_n].name + " = "@ + spec_vk_type_cast(
                        spec_parse_type_name(rest[k - skip_n].ty),
                        rest[k - skip_n].ty,
                        spec_convert_field_name(rest[k - skip_n].name),
                    )) + Seq::<char>::empty());
                    assert(line@ =~= spec_ci_assign_entry(rest, k - skip_n));
                }
            }
            let ghost a0 = assigns;
            ret.line(line.as_str());
            proof {
                assigns = a0 + spec_line_text(3, spec_ci_assign_entry(rest, k - skip_n));
                assert(ret.spec_content() =~= part2 + assigns);
            }
            k = k + 1;
        }
        proof {
            assert(assigns == spec_ci_assign_lines(rest, 0, Seq::empty()));
        }
        ret.end_tab();
        ret.line("};");
        ret.end_tab();
        ret.line("}");
        ret.end_tab();
        ret.line("};");
        proof {
            reveal_strlit("};");
            reveal_strlit("}");
            assert("};"@ =~= spec_scope_close(true));
            assert("}"@ =~= spec_scope_close(false));
            assert(ret.spec_content() =~= spec_emit_create_info(element@)->0);
        }
        Some(ret.take_result())
    }

    fn generate(&self, elements: &Vec<CStruct>, context: &Context) -> (r: String)
        ensures
            r@ == spec_emit_create_infos_from(spec_struct_decls_view(elements@), 0),
    {
        let ghost em = spec_struct_decls_view(elements@);
        let mut ret = String::new();
        let mut i: usize = 0;
        proof {
            assert(ret@ + spec_emit_create_infos_from(em, 0) =~= spec_emit_create_infos_from(
                em,
                0,
            ));
        }
        while i < elements.len()
            invariant
                em == spec_struct_decls_view(elements@),
                i <= elements@.len(),
                ret@ + spec_emit_create_infos_from(em, i as int) == spec_emit_create_infos_from(
                    em,
                    0,
                ),
            decreases elements@.len() - i,
        {
            let ghost r0 = ret@;
            proof {
                lemma_struct_decls_view_index(elements@, i as int);
                assert(em[i as int] == elements@[i as int]@);
            }
            match self.element(&elements[i], context) {
                Some(e) => {
                    ret.append(e.as_str());
                    push_char(&mut ret, '\n');
                    proof {
                        assert(ret@ =~= r0 + (e@ + seq!['\n']));
                        assert((r0 + (e@ + seq!['\n'])) + spec_emit_create_infos_from(
                            em,
                            i as int + 1,
                        ) =~= r0 + ((e@ + seq!['\n']) + spec_emit_create_infos_from(
                            em,
                            i as int + 1,
                        )));
                    }
                },
                None => {},
            }
            i = i + 1;
        }
        ret
    }
}

} // verus!
