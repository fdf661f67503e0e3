//! Emission of wrapper structs: the wrapper's own fields (the type-tag and
//! next-pointer pair of an extensible record is skipped), and a
//! reconstruction routine that rebuilds the original C aggregate value.

use vstd::prelude::*;
use crate::c_parser::lemma_fields_view_index;
use crate::c_parser::FieldView;
use crate::generator::cast_s_type;
use crate::generator::convert_field_name;
use crate::generator::spec_cast_s_type;
use crate::generator::spec_context_cast;
use crate::generator::spec_convert_field_name;
use crate::generator::spec_resolve;
use crate::generator::Context;
use crate::generator::ContextView;
use crate::generator::ElementsGenerator;
use crate::generator::VkStruct;
use crate::generator::VkStructType;
use crate::generator::VkStructView;
use crate::str_utils::push_char;
use crate::str_utils::spec_line_text;
use crate::str_utils::spec_scope_close;
use crate::str_utils::spec_scope_header;
use crate::str_utils::StringBuilder;

verus! {

/// The fields the wrapper carries: for an extensible record the type-tag
/// and next-pointer pair is skipped, otherwise all fields.
pub open spec fn spec_rest_fields(s: VkStructView) -> Seq<FieldView> {
    let fs = s.c_struct.fields;
    if s.ty == VkStructType::SType {
        fs.skip(if fs.len() >= 2 {
            2
        } else {
            fs.len() as int
        })
    } else {
        fs
    }
}

/// One wrapper field declaration: resolved type name, rewritten field
/// name.
pub open spec fn spec_field_decl_line(ctx: ContextView, f: FieldView) -> Seq<char> {
    spec_resolve(ctx, f.ty) + " "@ + spec_convert_field_name(f.name) + ";"@
}

pub open spec fn spec_field_lines(
    ctx: ContextView,
    fs: Seq<FieldView>,
    i: int,
    acc: Seq<char>,
) -> Seq<char>
    decreases fs.len() - i,
{
    if i < 0 || i >= fs.len() {
        acc
    } else {
        spec_field_lines(ctx, fs, i + 1, acc + spec_line_text(1, spec_field_decl_line(ctx, fs[i])))
    }
}

/// One assignment of the reconstruction routine: the original field name
/// on the left, the cast wrapper value on the right, a trailing separator
/// on every assignment but the last.
pub open spec fn spec_assign_entry(ctx: ContextView, fs: Seq<FieldView>, i: int) -> Seq<char> {
    "."@ + fs[i].name + " = "@ + spec_context_cast(ctx, fs[i].ty, spec_convert_field_name(
        fs[i].name,
    )) + (if i != fs.len() - 1 {
        ","@
    } else {
        Seq::empty()
    })
}

pub open spec fn spec_assign_lines(
    ctx: ContextView,
    fs: Seq<FieldView>,
    i: int,
    acc: Seq<char>,
) -> Seq<char>
    decreases fs.len() - i,
{
    if i < 0 || i >= fs.len() {
        acc
    } else {
        spec_assign_lines(ctx, fs, i + 1, acc + spec_line_text(3, spec_assign_entry(ctx, fs, i)))
    }
}

/// The synthesized type-tag and next-pointer assignments of an extensible
/// record's reconstruction routine.  The next-pointer line is the last
/// initializer line when no field follows, and then omits the trailing
/// separator.
pub open spec fn spec_stype_lines(s: VkStructView) -> Seq<char> {
    if s.ty == VkStructType::SType {
        spec_line_text(3, ".sType = "@ + spec_cast_s_type(s.c_struct.name) + ","@)
            + spec_line_text(
            3,
            ".pNext = nullptr"@ + (if spec_rest_fields(s).len() > 0 {
                ","@
            } else {
                Seq::empty()
            }),
        )
    } else {
        Seq::empty()
    }
}

/// The whole emitted text of one struct: the wrapper declaration with its
/// fields, and the `raw()` routine that rebuilds the original C value as
/// an aggregate initializer.
pub open spec fn spec_emit_struct(s: VkStructView, ctx: ContextView) -> Seq<char> {
    let rest = spec_rest_fields(s);
    spec_line_text(0, spec_scope_header("struct "@ + s.new_name)) + spec_field_lines(
        ctx,
        rest,
        0,
        Seq::empty(),
    ) + spec_line_text(1, Seq::empty()) + spec_line_text(
        1,
        spec_scope_header(s.c_struct.name + " raw()"@),
    ) + spec_line_text(2, spec_scope_header("return "@ + s.c_struct.name)) + spec_stype_lines(s)
        + spec_assign_lines(ctx, rest, 0, Seq::empty()) + spec_line_text(2, spec_scope_close(true))
        + spec_line_text(1, spec_scope_close(false)) + spec_line_text(0, spec_scope_close(true))
}

/// What `generate` emits over a registry's struct list: each struct's text
/// followed by a separator newline.
pub open spec fn spec_emit_structs_from(
    elems: Seq<VkStructView>,
    ctx: ContextView,
    i: int,
) -> Seq<char>
    decreases elems.len() - i,
{
    if i < 0 || i >= elems.len() {
        Seq::empty()
    } else {
        (spec_emit_struct(elems[i], ctx) + seq!['\n']) + spec_emit_structs_from(elems, ctx, i + 1)
    }
}

/// The logical inverse of `cast_variable`: strips the cast decoration that
/// the reconstruction routine put around a wrapper value of the given
/// original type.
pub open spec fn spec_uncast(ctx: ContextView, ty: Seq<char>, e: Seq<char>) -> Seq<char> {
    if crate::generator::spec_find_enum(ctx.enums, ty) is Some {
        e.subrange(("static_cast<"@.len() + ty.len() + ">("@.len()) as int, e.len() - ")"@.len())
    } else if crate::generator::spec_find_struct(ctx.structs, ty) is Some {
        e.take(e.len() - ".raw()"@.len())
    } else if ty == "VkBool32"@ {
        e.subrange("static_cast<VkBool32>("@.len() as int, e.len() - ")"@.len())
    } else {
        e
    }
}

/// Every cast the reconstruction routine writes is logically invertible:
/// stripping the cast recovers the wrapper value exactly.
pub proof fn lemma_cast_inverts(ctx: ContextView, ty: Seq<char>, v: Seq<char>)
    ensures
        spec_uncast(ctx, ty, spec_context_cast(ctx, ty, v)) == v,
{
    let e = spec_context_cast(ctx, ty, v);
    if crate::generator::spec_find_enum(ctx.enums, ty) is Some {
        assert(e.subrange(
            ("static_cast<"@.len() + ty.len() + ">("@.len()) as int,
            e.len() - ")"@.len(),
        ) =~= v);
    } else if crate::generator::spec_find_struct(ctx.structs, ty) is Some {
        assert(e.take(e.len() - ".raw()"@.len()) =~= v);
    } else if ty == "VkBool32"@ {
        assert(e.subrange("static_cast<VkBool32>("@.len() as int, e.len() - ")"@.len()) =~= v);
    }
}

/// Round-trip for extensible records: after the synthesized type-tag and
/// next-pointer, the reconstruction routine writes one assignment per
/// remaining field, in original field order; assignment `k` targets the
/// original name of field `k + 2`, and inverting its cast recovers exactly
/// that field's wrapper value.
pub proof fn lemma_reconstruction_round_trip(s: VkStructView, ctx: ContextView, k: int)
    requires
        s.ty == VkStructType::SType,
        s.c_struct.fields.len() >= 2,
        0 <= k < spec_rest_fields(s).len(),
    ensures
        ({
            let rest = spec_rest_fields(s);
            let f = s.c_struct.fields[k + 2];
            &&& rest[k] == f
            &&& spec_assign_entry(ctx, rest, k) == "."@ + f.name + " = "@ + spec_context_cast(
                ctx,
                f.ty,
                spec_convert_field_name(f.name),
            ) + (if k != rest.len() - 1 {
                ","@
            } else {
                Seq::<char>::empty()
            })
            &&& spec_uncast(
                ctx,
                f.ty,
                spec_context_cast(ctx, f.ty, spec_convert_field_name(f.name)),
            ) == spec_convert_field_name(f.name)
        }),
{
    let rest = spec_rest_fields(s);
    let f = s.c_struct.fields[k + 2];
    assert(rest[k] == f);
    lemma_cast_inverts(ctx, f.ty, spec_convert_field_name(f.name));
}

pub struct VkStructGenerator;

impl ElementsGenerator<VkStruct> for VkStructGenerator {
    fn element(&self, element: &VkStruct, context: &Context) -> (r: Option<String>)
        ensures
            r is Some,
            r->0@ == spec_emit_struct(element@, context@),
    {
        let ghost sv = element@;
        let ghost ctxv = context@;
        let fields = &element.c_struct.fields;
        let flen = fields.len();
        proof {
            assert(sv.c_struct == element.c_struct@);
            assert(sv.c_struct.fields == crate::c_parser::spec_fields_view(fields@));
        }
        let skip_n: usize = if matches!(element.ty, VkStructType::SType) {
            if flen >= 2 {
                2
            } else {
                flen
            }
        } else {
            0
        };
        let ghost rest = spec_rest_fields(sv);
        proof {
            assert(rest =~= sv.c_struct.fields.skip(skip_n as int));
        }

        let mut header = String::from_str("struct ");
        header.append(element.new_name.as_str());
        let ghost title0 = "struct "@ + sv.new_name;
        let mut ret = StringBuilder::new();
        {
            let mut h = header.clone();
            h.append(" {");
            proof {
                reveal_strlit("struct ");
                reveal_strlit(" {");
                assert(header@ =~= title0);
                assert(title0.len() > 0);
                assert(" {"@ =~= seq![' ', '{']);
                assert(h@ =~= spec_scope_header(title0));
            }
            ret.line(h.as_str());
        }
        ret.tab();
        let ghost l0 = spec_line_text(0, spec_scope_header(title0));

        let ghost mut emitted: Seq<char> = Seq::empty();
        let mut i: usize = skip_n;
        while i < flen
            invariant
                flen == fields@.len(),
                skip_n <= i <= flen,
                skip_n <= flen,
                sv == element@,
                ctxv == context@,
                sv.c_struct.fields == crate::c_parser::spec_fields_view(fields@),
                rest == spec_rest_fields(sv),
                rest == sv.c_struct.fields.skip(skip_n as int),
                ret.spec_tabs() == 1,
                ret.spec_content() == l0 + emitted,
                l0 == spec_line_text(0, spec_scope_header("struct "@ + sv.new_name)),
                spec_field_lines(ctxv, rest, i - skip_n, emitted) == spec_field_lines(
                    ctxv,
                    rest,
                    0,
                    Seq::empty(),
                ),
            decreases flen - i,
        {
            let f = &fields[i];
            proof {
                lemma_fields_view_index(fields@, i as int);
                assert(rest[i - skip_n] == sv.c_struct.fields[i as int]);
                assert(f@ == rest[i - skip_n]);
            }
            let conv_type = context.get_field_new_type_name(f.field_type.as_str());
            let conv_name = convert_field_name(f.name.as_str());
            let mut line = conv_type;
            line.append(" ");
            line.append(conv_name.as_str());
            line.append(";");
            proof {
                assert(line@ =~= spec_field_decl_line(ctxv, rest[i - skip_n]));
            }
            let ghost e0 = emitted;
            ret.line(line.as_str());
            proof {
                emitted = e0 + spec_line_text(1, spec_field_decl_line(ctxv, rest[i - skip_n]));
                assert(ret.spec_content() =~= l0 + emitted);
            }
            i = i + 1;
        }
        proof {
            assert(rest.len() == flen - skip_n);
            assert(emitted == spec_field_lines(ctxv, rest, 0, Seq::empty()));
        }
        let ghost part1 = l0 + spec_field_lines(ctxv, rest, 0, Seq::empty());

        ret.line("");
        proof {
            reveal_strlit("");
            assert(""@ =~= Seq::<char>::empty());
        }

        let mut raw_hdr = String::from_str(element.c_struct.name.as_str());
        raw_hdr.append(" raw()");
        let ghost title1 = sv.c_struct.name + " raw()"@;
        {
            let mut h = raw_hdr.clone();
            h.append(" {");
            proof {
                reveal_strlit(" raw()");
                reveal_strlit(" {");
                assert(raw_hdr@ =~= title1);
                assert(title1.len() > 0);
                assert(" {"@ =~= seq![' ', '{']);
                assert(h@ =~= spec_scope_header(title1));
            }
            ret.line(h.as_str());
        }
        ret.tab();

        let mut ret_hdr = String::from_str("return ");
        ret_hdr.append(element.c_struct.name.as_str());
        let ghost title2 = "return "@ + sv.c_struct.name;
        {
            let mut h = ret_hdr.clone();
            h.append(" {");
            proof {
                reveal_strlit("return ");
                reveal_strlit(" {");
                assert(ret_hdr@ =~= title2);
                assert(title2.len() > 0);
                assert(" {"@ =~= seq![' ', '{']);
                assert(h@ =~= spec_scope_header(title2));
            }
            ret.line(h.as_str());
        }
        ret.tab();

        if matches!(element.ty, VkStructType::SType) {
            let tag = cast_s_type(element.c_struct.name.as_str());
            let mut sline = String::from_str(".sType = ");
            sline.append(tag.as_str());
            sline.append(",");
            proof {
                assert(sline@ =~= ".sType = "@ + spec_cast_s_type(sv.c_struct.name) + ","@);
            }
            ret.line(sline.as_str());
            proof {
                reveal_strlit(".pNext = nullptr,");
                reveal_strlit(".pNext = nullptr");
                reveal_strlit(",");
                assert(".pNext = nullptr,"@ =~= ".pNext = nullptr"@ + ","@);
                assert(".pNext = nullptr"@ + Seq::<char>::empty() =~= ".pNext = nullptr"@);
            }
            if skip_n < flen {
                ret.line(".pNext = nullptr,");
            } else {
                ret.line(".pNext = nullptr");
            }
        }
        let ghost part2 = part1 + spec_line_text(1, Seq::empty()) + spec_line_text(
            1,
            spec_scope_header(title1),
        ) + spec_line_text(2, spec_scope_header(title2)) + spec_stype_lines(sv);
        proof {
            assert(ret.spec_content() =~= part2);
        }

        let ghost mut assigns: Seq<char> = Seq::empty();
        let mut k: usize = skip_n;
        while k < flen
            invariant
                flen == fields@.len(),
                skip_n <= k <= flen,
                skip_n <= flen,
                sv == element@,
                ctxv == context@,
                sv.c_struct.fields == crate::c_parser::spec_fields_view(fields@),
                rest == spec_rest_fields(sv),
                rest == sv.c_struct.fields.skip(skip_n as int),
                rest.len() == flen - skip_n,
                ret.spec_tabs() == 3,
                ret.spec_content() == part2 + assigns,
                spec_assign_lines(ctxv, rest, k - skip_n, assigns) == spec_assign_lines(
                    ctxv,
                    rest,
                    0,
                    Seq::empty(),
                ),
            decreases flen - k,
        {
            let f = &fields[k];
            proof {
                lemma_fields_view_index(fields@, k as int);
                assert(rest[k - skip_n] == sv.c_struct.fields[k as int]);
                assert(f@ == rest[k - skip_n]);
            }
            let conv_name = convert_field_name(f.name.as_str());
            let value = context.cast_variable(f.field_type.as_str(), conv_name.as_str());
            let mut line = String::from_str(".");
            line.append(f.name.as_str());
            line.append(" = ");
            line.append(value.as_str());
            if k != flen - 1 {
                line.append(",");
            }
            proof {
                if k - skip_n != rest.len() - 1 {
                    assert(line@ =~= spec_assign_entry(ctxv, rest, k - skip_n));
                } else {
                    assert(line@ =~= ("."@ + rest[k - skip_n].name + " = "@ + spec_context_cast(
                        ctxv,
                        rest[k - skip_n].ty,
                        spec_convert_field_name(rest[k - skip_n].name),
                    )) + Seq::<char>::empty());
                    assert(line@ =~= spec_assign_entry(ctxv, rest, k - skip_n));
                }
            }
            let ghost a0 = assigns;
            ret.line(line.as_str());
            proof {
                assigns = a0 + spec_line_text(3, spec_assign_entry(ctxv, rest, k - skip_n));
                assert(ret.spec_content() =~= part2 + assigns);
            }
            k = k + 1;
        }
        proof {
            assert(assigns == spec_assign_lines(ctxv, rest, 0, Seq::empty()));
        }
        ret.end_tab();
        ret.line("};");
        ret.end_tab();
        ret.line("}");
        ret.end_tab();
        ret.line("};");
        proof {
            reveal_strlit("};");
            reveal_strlit("}");
            assert("};"@ =~= spec_scope_close(true));
            assert("}"@ =~= spec_scope_close(false));
            assert(ret.spec_content() =~= spec_emit_struct(element@, context@));
        }
        Some(ret.take_result())
    }

    fn generate(&self, elements: &Vec<VkStruct>, context: &Context) -> (r: String)
        ensures
            r@ == spec_emit_structs_from(
                crate::generator::spec_structs_view(elements@),
                context@,
                0,
            ),
    {
        let ghost em = crate::generator::spec_structs_view(elements@);
        let ghost ctxv = context@;
        let mut ret = String::new();
        let mut i: usize = 0;
        proof {
            assert(ret@ + spec_emit_structs_from(em, ctxv, 0) =~= spec_emit_structs_from(
                em,
                ctxv,
                0,
            ));
        }
        while i < elements.len()
            invariant
                em == crate::generator::spec_structs_view(elements@),
                ctxv == context@,
                i <= elements@.len(),
                ret@ + spec_emit_structs_from(em, ctxv, i as int) == spec_emit_structs_from(
                    em,
                    ctxv,
                    0,
                ),
            decreases elements@.len() - i,
        {
            let ghost r0 = ret@;
            proof {
                crate::generator::lemma_structs_view_index(elements@, i as int);
                assert(em[i as int] == elements@[i as int]@);
            }
            match self.element(&elements[i], context) {
                Some(e) => {
                    ret.append(e.as_str());
                    push_char(&mut ret, '\n');
                    proof {
                        assert(ret@ =~= r0 + (e@ + seq!['\n']));
                        assert((r0 + (e@ + seq!['\n'])) + spec_emit_structs_from(
                            em,
                            ctxv,
                            i as int + 1,
                        ) =~= r0 + ((e@ + seq!['\n']) + spec_emit_structs_from(
                            em,
                            ctxv,
                            i as int + 1,
                        )));
                    }
                },
                None => {},
            }
            i = i + 1;
        }
        ret
    }
}

} // verus!
