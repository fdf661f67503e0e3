//! Emission of wrapper enums: a scoped enumeration with an explicit
//! unsigned 32-bit underlying representation, each rewritten value defined
//! in terms of the original source enumerator.

use vstd::prelude::*;
use crate::c_parser::lemma_values_view_index;
use crate::c_parser::EnumValueView;
use crate::generator::Context;
use crate::generator::ElementsGenerator;
use crate::generator::VkEnum;
use crate::generator::VkEnumType;
use crate::generator::VkEnumView;
use crate::str_utils::contains_str;
use crate::str_utils::common_prefix_iter;
use crate::str_utils::lemma_strings_view_push;
use crate::str_utils::push_char;
use crate::str_utils::replace_all;
use crate::str_utils::spec_common_prefix;
use crate::str_utils::spec_line_text;
use crate::str_utils::spec_replace;
use crate::str_utils::spec_scope_close;
use crate::str_utils::spec_scope_header;
use crate::str_utils::spec_strings_view;
use crate::str_utils::spec_upper_snake_to_upper_camel;
use crate::str_utils::upper_snake_to_upper_camel_iter;
use crate::str_utils::StringBuilder;

verus! {

/// The value names of an enum, over which the shared prefix is computed.
pub open spec fn spec_value_names(vs: Seq<EnumValueView>) -> Seq<Seq<char>> {
    vs.map_values(|v: EnumValueView| v.name)
}

/// Length of the prefix shared by every value name of the enum.
pub open spec fn spec_enum_prefix_len(vs: Seq<EnumValueView>) -> nat {
    spec_common_prefix(spec_value_names(vs))
}

/// The rewritten form of one enumerator name: the shared prefix and the
/// `_BIT` marker are stripped, then the name is converted to upper camel
/// case.
pub open spec fn spec_value_new_name_of(name: Seq<char>, cp: nat) -> Seq<char> {
    let start: int = if cp <= name.len() {
        cp as int
    } else {
        name.len() as int
    };
    spec_upper_snake_to_upper_camel(spec_replace(name.skip(start), "_BIT"@, Seq::empty()))
}

/// The rewritten name of enumerator `i`.
pub open spec fn spec_value_new_name(vs: Seq<EnumValueView>, cp: nat, i: int) -> Seq<char> {
    spec_value_new_name_of(vs[i].name, cp)
}

/// Strips the shared prefix and the `_BIT` marker, then converts to upper
/// camel case.
pub fn rewrite_value_name(name: &str, cp: usize) -> (r: String)
    ensures
        r@ == spec_value_new_name_of(name@, cp as nat),
{
    let nlen = name.unicode_len();
    let start = if cp <= nlen {
        cp
    } else {
        nlen
    };
    let stripped = name.substring_char(start, nlen);
    proof {
        reveal_strlit("_BIT");
        reveal_strlit("");
        assert(""@ =~= Seq::<char>::empty());
        assert(stripped@ =~= name@.skip(start as int));
    }
    let replaced = replace_all(stripped, "_BIT", "");
    upper_snake_to_upper_camel_iter(replaced.as_str())
}

/// A right-hand side that references another enumerator rather than
/// writing a number: it begins with an identifier character (a letter or
/// an underscore), never with a digit or a sign.
pub open spec fn spec_is_alias_literal(l: Seq<char>) -> bool {
    l.len() > 0 && (crate::str_utils::is_upper_char(l[0]) || crate::str_utils::is_lower_char(l[0])
        || l[0] == '_')
}

pub fn is_alias_ref(l: &str) -> (r: bool)
    ensures
        r == spec_is_alias_literal(l@),
{
    let n = l.unicode_len();
    if n == 0 {
        false
    } else {
        let c = l.get_char(0);
        (c >= 'A' && c <= 'Z') || (c >= 'a' && c <= 'z') || c == '_'
    }
}

/// Whether enumerator `i` survives duplicate collapse: it is dropped when
/// its rewritten name collides with that of any earlier enumerator, or
/// when its right-hand side is a reference already written by an earlier
/// enumerator — the first occurrence wins, and aliases that repeat an
/// earlier reference are dropped silently.
pub open spec fn spec_kept(vs: Seq<EnumValueView>, cp: nat, i: int) -> bool {
    &&& (forall|j: int|
        0 <= j < i ==> spec_value_new_name(vs, cp, j) != spec_value_new_name(vs, cp, i))
    &&& !(match vs[i].literal {
        Some(l) => spec_is_alias_literal(l) && (exists|j: int|
            0 <= j < i && vs[j].literal == Some(l)),
        None => false,
    })
}

/// The rewritten names of the first `n` enumerators, dropped or not.
pub open spec fn spec_new_names_prefix(vs: Seq<EnumValueView>, cp: nat, n: int) -> Seq<Seq<char>>
    decreases n,
{
    if n <= 0 {
        Seq::empty()
    } else {
        spec_new_names_prefix(vs, cp, n - 1).push(spec_value_new_name(vs, cp, n - 1))
    }
}

pub proof fn lemma_new_names_prefix_len(vs: Seq<EnumValueView>, cp: nat, n: int)
    requires
        n >= 0,
    ensures
        spec_new_names_prefix(vs, cp, n).len() == n,
    decreases n,
{
    if n > 0 {
        lemma_new_names_prefix_len(vs, cp, n - 1);
    }
}

/// The prefix list holds a name exactly when some earlier enumerator
/// rewrites to it.
pub proof fn lemma_new_names_prefix_contains(
    vs: Seq<EnumValueView>,
    cp: nat,
    n: int,
    x: Seq<char>,
)
    requires
        n >= 0,
    ensures
        spec_new_names_prefix(vs, cp, n).contains(x) <==> (exists|j: int|
            0 <= j < n && spec_value_new_name(vs, cp, j) == x),
    decreases n,
{
    lemma_new_names_prefix_len(vs, cp, n);
    if n > 0 {
        lemma_new_names_prefix_contains(vs, cp, n - 1, x);
        lemma_new_names_prefix_len(vs, cp, n - 1);
        let prev = spec_new_names_prefix(vs, cp, n - 1);
        let cur = spec_new_names_prefix(vs, cp, n);
        if cur.contains(x) {
            let k = choose|k: int| 0 <= k < cur.len() && cur[k] == x;
            if k < n - 1 {
                assert(prev[k] == x);
                assert(prev.contains(x));
            } else {
                assert(spec_value_new_name(vs, cp, n - 1) == x);
            }
        }
        if exists|j: int| 0 <= j < n && spec_value_new_name(vs, cp, j) == x {
            let j = choose|j: int| 0 <= j < n && spec_value_new_name(vs, cp, j) == x;
            if j < n - 1 {
                assert(prev.contains(x));
                let k = choose|k: int| 0 <= k < prev.len() && prev[k] == x;
                assert(cur[k] == x);
            } else {
                assert(cur[n - 1] == x);
            }
        }
    }
}

/// The right-hand sides written by the first `n` enumerators, in order.
pub open spec fn spec_lits_prefix(vs: Seq<EnumValueView>, n: int) -> Seq<Seq<char>>
    decreases n,
{
    if n <= 0 {
        Seq::empty()
    } else {
        spec_lits_prefix(vs, n - 1) + (match vs[n - 1].literal {
            Some(l) => seq![l],
            None => Seq::empty(),
        })
    }
}

/// The literal list holds a right-hand side exactly when some earlier
/// enumerator wrote it.
pub proof fn lemma_lits_prefix_contains(vs: Seq<EnumValueView>, n: int, l: Seq<char>)
    requires
        n >= 0,
    ensures
        spec_lits_prefix(vs, n).contains(l) <==> (exists|j: int|
            0 <= j < n && vs[j].literal == Some(l)),
    decreases n,
{
    if n > 0 {
        lemma_lits_prefix_contains(vs, n - 1, l);
        let prev = spec_lits_prefix(vs, n - 1);
        let cur = spec_lits_prefix(vs, n);
        if cur.contains(l) {
            let k = choose|k: int| 0 <= k < cur.len() && cur[k] == l;
            if k < prev.len() {
                assert(prev[k] == l);
                assert(prev.contains(l));
            } else {
                assert(vs[n - 1].literal == Some(l));
            }
        }
        if exists|j: int| 0 <= j < n && vs[j].literal == Some(l) {
            let j = choose|j: int| 0 <= j < n && vs[j].literal == Some(l);
            if j < n - 1 {
                assert(prev.contains(l));
                let k = choose|k: int| 0 <= k < prev.len() && prev[k] == l;
                assert(cur[k] == l);
            } else {
                assert(cur[prev.len() as int] == l);
            }
        }
    }
}

/// The text of one emitted enumerator line: rewritten name, the original
/// enumerator identifier as the right-hand side, and a trailing comma for
/// every source position but the last.
pub open spec fn spec_entry_text(vs: Seq<EnumValueView>, cp: nat, i: int) -> Seq<char> {
    spec_value_new_name(vs, cp, i) + " = "@ + vs[i].name + (if i != vs.len() - 1 {
        ","@
    } else {
        Seq::empty()
    })
}

/// The enumerator lines of the enum body, one per kept enumerator, in
/// source order, one indentation level deep.
pub open spec fn spec_enum_lines(
    vs: Seq<EnumValueView>,
    cp: nat,
    i: int,
    acc: Seq<char>,
) -> Seq<char>
    decreases vs.len() - i,
{
    if i < 0 || i >= vs.len() {
        acc
    } else if spec_kept(vs, cp, i) {
        spec_enum_lines(vs, cp, i + 1, acc + spec_line_text(1, spec_entry_text(vs, cp, i)))
    } else {
        spec_enum_lines(vs, cp, i + 1, acc)
    }
}

/// The whole emitted text of one enum: the scoped-enumeration header, the
/// kept enumerator lines, the closing brace, and for a bit-flag enum the
/// bitmask-operator-enabling declaration.
pub open spec fn spec_emit_enum(e: VkEnumView) -> Seq<char> {
    let vs = e.c_enum.values;
    let cp = spec_enum_prefix_len(vs);
    let base = spec_line_text(0, spec_scope_header("enum class "@ + e.new_name + " : u32"@))
        + spec_enum_lines(vs, cp, 0, Seq::empty()) + spec_line_text(0, spec_scope_close(true));
    if e.ty == VkEnumType::Flags {
        base + spec_line_text(0, "ENABLE_BITMASK_OPERATORS("@ + e.new_name + ");"@)
    } else {
        base
    }
}

/// What `generate` emits over a registry's enum list: each enum's text
/// followed by a separator newline.
pub open spec fn spec_emit_enums_from(elems: Seq<VkEnumView>, i: int) -> Seq<char>
    decreases elems.len() - i,
{
    if i < 0 || i >= elems.len() {
        Seq::empty()
    } else {
        (spec_emit_enum(elems[i]) + seq!['\n']) + spec_emit_enums_from(elems, i + 1)
    }
}

/// Duplicate collapse: of two enumerators whose rewritten names collide,
/// only the first-declared one can be emitted — the later one is dropped.
pub proof fn lemma_duplicate_collapse(vs: Seq<EnumValueView>, cp: nat, i: int, j: int)
    requires
        0 <= i < j < vs.len(),
        spec_value_new_name(vs, cp, i) == spec_value_new_name(vs, cp, j),
    ensures
        !spec_kept(vs, cp, j),
{
}

/// Any two kept enumerators carry distinct rewritten names.
pub proof fn lemma_kept_names_unique(vs: Seq<EnumValueView>, cp: nat, i: int, j: int)
    requires
        0 <= i < j < vs.len(),
        spec_kept(vs, cp, i),
        spec_kept(vs, cp, j),
    ensures
        spec_value_new_name(vs, cp, i) != spec_value_new_name(vs, cp, j),
{
}

/// The source positions of the kept enumerators, from `i` on, in source
/// order.
pub open spec fn spec_kept_indices_from(vs: Seq<EnumValueView>, cp: nat, i: int) -> Seq<int>
    decreases vs.len() - i,
{
    if i < 0 || i >= vs.len() {
        Seq::empty()
    } else {
        (if spec_kept(vs, cp, i) {
            seq![i]
        } else {
            Seq::empty()
        }) + spec_kept_indices_from(vs, cp, i + 1)
    }
}

/// The body lines written for the given source positions, in order.
pub open spec fn spec_lines_of(vs: Seq<EnumValueView>, cp: nat, idx: Seq<int>) -> Seq<char>
    decreases idx.len(),
{
    if idx.len() == 0 {
        Seq::empty()
    } else {
        spec_line_text(1, spec_entry_text(vs, cp, idx[0])) + spec_lines_of(vs, cp, idx.drop_first())
    }
}

proof fn lemma_enum_lines_shape(vs: Seq<EnumValueView>, cp: nat, i: int, acc: Seq<char>)
    ensures
        spec_enum_lines(vs, cp, i, acc) == acc + spec_lines_of(vs, cp, spec_kept_indices_from(vs, cp, i)),
    decreases vs.len() - i,
{
    if i < 0 || i >= vs.len() {
        assert(acc + spec_lines_of(vs, cp, Seq::empty()) =~= acc);
    } else {
        let tail = spec_kept_indices_from(vs, cp, i + 1);
        if spec_kept(vs, cp, i) {
            lemma_enum_lines_shape(vs, cp, i + 1, acc + spec_line_text(1, spec_entry_text(vs, cp, i)));
            let idx = spec_kept_indices_from(vs, cp, i);
            assert(idx =~= seq![i] + tail);
            assert(idx[0] == i);
            assert(idx.drop_first() =~= tail);
            assert((acc + spec_line_text(1, spec_entry_text(vs, cp, i))) + spec_lines_of(vs, cp, tail)
                =~= acc + (spec_line_text(1, spec_entry_text(vs, cp, i)) + spec_lines_of(
                vs,
                cp,
                tail,
            )));
        } else {
            lemma_enum_lines_shape(vs, cp, i + 1, acc);
            assert(spec_kept_indices_from(vs, cp, i) =~= tail);
        }
    }
}

proof fn lemma_kept_indices_props(vs: Seq<EnumValueView>, cp: nat, i: int)
    requires
        i >= 0,
    ensures
        forall|k: int|
            0 <= k < spec_kept_indices_from(vs, cp, i).len() ==> i <= #[trigger] spec_kept_indices_from(
                vs,
                cp,
                i,
            )[k] < vs.len() && spec_kept(vs, cp, spec_kept_indices_from(vs, cp, i)[k]),
        forall|a: int, b: int|
            0 <= a < b < spec_kept_indices_from(vs, cp, i).len()
                ==> #[trigger] spec_kept_indices_from(vs, cp, i)[a]
                < #[trigger] spec_kept_indices_from(vs, cp, i)[b],
        forall|j: int|
            i <= j < vs.len() && spec_kept(vs, cp, j) ==> spec_kept_indices_from(
                vs,
                cp,
                i,
            ).contains(j),
    decreases vs.len() - i,
{
    if 0 <= i && i < vs.len() {
        lemma_kept_indices_props(vs, cp, i + 1);
        let tail = spec_kept_indices_from(vs, cp, i + 1);
        let idx = spec_kept_indices_from(vs, cp, i);
        if spec_kept(vs, cp, i) {
            assert(idx =~= seq![i] + tail);
            assert forall|j: int| i <= j < vs.len() && spec_kept(vs, cp, j) implies idx.contains(
                j,
            ) by {
                if j == i {
                    assert(idx[0] == i);
                } else {
                    assert(tail.contains(j));
                    let k = choose|k: int| 0 <= k < tail.len() && tail[k] == j;
                    assert(idx[k + 1] == j);
                }
            }
        } else {
            assert(idx =~= tail);
            assert forall|j: int| i <= j < vs.len() && spec_kept(vs, cp, j) implies idx.contains(
                j,
            ) by {
                assert(j != i);
                assert(tail.contains(j));
            }
        }
    }
}

/// Enum value fidelity: the emitted body holds exactly one line per kept
/// enumerator, in strictly increasing source order with every kept
/// enumerator present, and each line defines the rewritten name by the
/// original source enumerator identifier — so the wrapper value equals the
/// raw enumerator's value exactly, and stripping introduces no gaps or
/// reorderings.
pub proof fn lemma_enum_value_fidelity(vs: Seq<EnumValueView>, cp: nat)
    ensures
        ({
            let idx = spec_kept_indices_from(vs, cp, 0);
            &&& spec_enum_lines(vs, cp, 0, Seq::empty()) == spec_lines_of(vs, cp, idx)
            &&& forall|k: int|
                0 <= k < idx.len() ==> 0 <= #[trigger] idx[k] < vs.len() && spec_kept(
                    vs,
                    cp,
                    idx[k],
                )
            &&& forall|a: int, b: int|
                0 <= a < b < idx.len() ==> #[trigger] idx[a] < #[trigger] idx[b]
            &&& forall|j: int| 0 <= j < vs.len() && spec_kept(vs, cp, j) ==> idx.contains(j)
        }),
{
    lemma_enum_lines_shape(vs, cp, 0, Seq::empty());
    assert(Seq::<char>::empty() + spec_lines_of(vs, cp, spec_kept_indices_from(vs, cp, 0))
        =~= spec_lines_of(vs, cp, spec_kept_indices_from(vs, cp, 0)));
    lemma_kept_indices_props(vs, cp, 0);
}

pub struct VkEnumGenerator;

impl ElementsGenerator<VkEnum> for VkEnumGenerator {
    fn element(&self, element: &VkEnum, _context: &Context) -> (r: Option<String>)
        ensures
            r is Some,
            r->0@ == spec_emit_enum(element@),
    {
        let ghost vs = element@.c_enum.values;
        let values = &element.c_enum.values;
        let len = values.len();
        proof {
            assert(element@.c_enum == element.c_enum@);
            assert(vs == crate::c_parser::spec_values_view(values@));
        }

        let mut names: Vec<String> = Vec::new();
        let mut k: usize = 0;
        proof {
            assert(spec_strings_view(names@) =~= spec_value_names(vs).take(0));
        }
        while k < len
            invariant
                len == values@.len(),
                k <= len,
                vs == element@.c_enum.values,
                vs == crate::c_parser::spec_values_view(values@),
                vs.len() == len,
                spec_strings_view(names@) == spec_value_names(vs).take(k as int),
            decreases len - k,
        {
            let ghost before = names@;
            names.push(values[k].name.clone());
            proof {
                lemma_values_view_index(values@, k as int);
                assert(vs[k as int] == values@[k as int]@);
                lemma_strings_view_push(before, names@.last());
                assert(spec_strings_view(names@) =~= spec_value_names(vs).take(k + 1));
            }
            k = k + 1;
        }
        proof {
            assert(spec_value_names(vs).take(len as int) =~= spec_value_names(vs));
        }
        let cp = common_prefix_iter(&names);

        let mut title = String::from_str("enum class ");
        title.append(element.new_name.as_str());
        title.append(" : u32");
        let mut header = title.clone();
        header.append(" {");
        proof {
            reveal_strlit("enum class ");
            reveal_strlit(" {");
            assert(title@ =~= "enum class "@ + element@.new_name + " : u32"@);
            assert(title@.len() > 0);
            assert(" {"@ =~= seq![' ', '{']);
            assert(header@ =~= spec_scope_header(title@));
        }
        let mut ret = StringBuilder::new();
        ret.line(header.as_str());
        ret.tab();
        let ghost hdr_line = spec_line_text(0, spec_scope_header(title@));

        let mut seen_names: Vec<String> = Vec::new();
        let mut seen_lits: Vec<String> = Vec::new();
        let ghost mut emitted: Seq<char> = Seq::empty();
        let mut i: usize = 0;
        proof {
            assert(spec_strings_view(seen_names@) =~= spec_new_names_prefix(vs, cp as nat, 0));
            assert(spec_strings_view(seen_lits@) =~= spec_lits_prefix(vs, 0));
        }
        while i < len
            invariant
                len == values@.len(),
                i <= len,
                vs == element@.c_enum.values,
                vs == crate::c_parser::spec_values_view(values@),
                vs.len() == len,
                cp as nat == spec_enum_prefix_len(vs),
                ret.spec_tabs() == 1,
                ret.spec_content() == hdr_line + emitted,
                hdr_line == spec_line_text(
                    0,
                    spec_scope_header("enum class "@ + element@.new_name + " : u32"@),
                ),
                spec_enum_lines(vs, cp as nat, i as int, emitted) == spec_enum_lines(
                    vs,
                    cp as nat,
                    0,
                    Seq::empty(),
                ),
                spec_strings_view(seen_names@) == spec_new_names_prefix(vs, cp as nat, i as int),
                spec_strings_view(seen_lits@) == spec_lits_prefix(vs, i as int),
            decreases len - i,
        {
            let v = &values[i];
            proof {
                lemma_values_view_index(values@, i as int);
                assert(v@ == vs[i as int]);
            }
            let new_name = rewrite_value_name(v.name.as_str(), cp);
            proof {
                assert(new_name@ == spec_value_new_name(vs, cp as nat, i as int));
            }

            let name_dup = contains_str(&seen_names, new_name.as_str());
            proof {
                lemma_new_names_prefix_contains(vs, cp as nat, i as int, new_name@);
            }
            let lit_dup = match &v.value {
                Some(l) => is_alias_ref(l.as_str()) && contains_str(&seen_lits, l.as_str()),
                None => false,
            };
            proof {
                match vs[i as int].literal {
                    Some(l) => {
                        lemma_lits_prefix_contains(vs, i as int, l);
                    },
                    None => {},
                }
                assert((!name_dup && !lit_dup) == spec_kept(vs, cp as nat, i as int));
            }
            let kept = !name_dup && !lit_dup;
            if kept {
                let mut entry = new_name.clone();
                entry.append(" = ");
                entry.append(v.name.as_str());
                if i != len - 1 {
                    entry.append(",");
                }
                proof {
                    if i as int != vs.len() - 1 {
                        assert(entry@ =~= spec_entry_text(vs, cp as nat, i as int));
                    } else {
                        assert(entry@ =~= (spec_value_new_name(vs, cp as nat, i as int) + " = "@
                            + vs[i as int].name) + Seq::<char>::empty());
                        assert(entry@ =~= spec_entry_text(vs, cp as nat, i as int));
                    }
                }
                let ghost e0 = emitted;
                ret.line(entry.as_str());
                proof {
                    emitted = e0 + spec_line_text(1, spec_entry_text(vs, cp as nat, i as int));
                    assert(ret.spec_content() =~= hdr_line + emitted);
                }
            }
            let ghost sn0 = seen_names@;
            seen_names.push(new_name);
            proof {
                lemma_strings_view_push(sn0, seen_names@.last());
                assert(spec_strings_view(seen_names@) =~= spec_new_names_prefix(
                    vs,
                    cp as nat,
                    i as int + 1,
                ));
            }
            if let Some(l) = &v.value {
                let ghost sl0 = seen_lits@;
                seen_lits.push(l.clone());
                proof {
                    lemma_strings_view_push(sl0, seen_lits@.last());
                    assert(spec_strings_view(seen_lits@) =~= spec_lits_prefix(vs, i as int + 1));
                }
            } else {
                proof {
                    assert(spec_strings_view(seen_lits@) + Seq::<Seq<char>>::empty()
                        =~= spec_strings_view(seen_lits@));
                    assert(spec_strings_view(seen_lits@) =~= spec_lits_prefix(vs, i as int + 1));
                }
            }
            i = i + 1;
        }
        proof {
            assert(emitted == spec_enum_lines(vs, cp as nat, 0, Seq::empty()));
        }
        ret.end_tab();
        ret.line("};");
        proof {
            reveal_strlit("};");
            assert("};"@ =~= spec_scope_close(true));
        }
        if matches!(element.ty, VkEnumType::Flags) {
            let mut fl = String::from_str("ENABLE_BITMASK_OPERATORS(");
            fl.append(element.new_name.as_str());
            fl.append(");");
            proof {
                assert(fl@ =~= "ENABLE_BITMASK_OPERATORS("@ + element@.new_name + ");"@);
            }
            ret.line(fl.as_str());
        }
        proof {
            assert(ret.spec_content() =~= spec_emit_enum(element@));
        }
        Some(ret.take_result())
    }

    fn generate(&self, elements: &Vec<VkEnum>, context: &Context) -> (r: String)
        ensures
            r@ == spec_emit_enums_from(crate::generator::spec_enums_view(elements@), 0),
    {
        let ghost em = crate::generator::spec_enums_view(elements@);
        let mut ret = String::new();
        let mut i: usize = 0;
        proof {
            assert(ret@ + spec_emit_enums_from(em, 0) =~= spec_emit_enums_from(em, 0));
        }
        while i < elements.len()
            invariant
                em == crate::generator::spec_enums_view(elements@),
                i <= elements@.len(),
                ret@ + spec_emit_enums_from(em, i as int) == spec_emit_enums_from(em, 0),
            decreases elements@.len() - i,
        {
            let ghost r0 = ret@;
            proof {
                crate::generator::lemma_enums_view_index(elements@, i as int);
                assert(em[i as int] == elements@[i as int]@);
            }
            match self.element(&elements[i], context) {
                Some(e) => {
                    ret.append(e.as_str());
                    push_char(&mut ret, '\n');
                    proof {
                        assert(ret@ =~= r0 + (e@ + seq!['\n']));
                        assert((r0 + (e@ + seq!['\n'])) + spec_emit_enums_from(em, i as int + 1)
                            =~= r0 + ((e@ + seq!['\n']) + spec_emit_enums_from(em, i as int + 1)));
                    }
                },
                None => {},
            }
            i = i + 1;
        }
        ret
    }
}

} // verus!
