//! Type classification, identifier rewriting, the registry that maps
//! original type names to their classification and rewritten name, and the
//! orchestration that drives emission in a deterministic order.

use vstd::prelude::*;
use crate::str_utils::spec_camel_to_snake;
use crate::str_utils::spec_ends_with;
use crate::str_utils::spec_replace;
use crate::str_utils::spec_starts_with;
use crate::str_utils::spec_strip_prefix;
use crate::str_utils::spec_upper_all;
use crate::str_utils::str_ends_with;
use crate::str_utils::str_eq;
use crate::str_utils::str_starts_with;
use crate::str_utils::camel_to_snake;
use crate::str_utils::replace_all;
use crate::str_utils::strip_prefix;
use crate::str_utils::to_uppercase;
use crate::c_parser::CEnum;
use crate::c_parser::CStruct;
use crate::c_parser::EnumView;
use crate::c_parser::StructView;

pub mod vk_create_info;
pub mod vk_enum;
pub mod vk_struct;

verus! {

/// Fixed table mapping C primitive type names (and the boolean-flag type)
/// to their target-language names.
pub open spec fn spec_primitive_target(name: Seq<char>) -> Option<Seq<char>> {
    if name == "uint32_t"@ {
        Some("u32"@)
    } else if name == "uint16_t"@ {
        Some("u16"@)
    } else if name == "int32_t"@ {
        Some("i32"@)
    } else if name == "int16_t"@ {
        Some("i16"@)
    } else if name == "int"@ {
        Some("i32"@)
    } else if name == "unsigned int"@ {
        Some("u32"@)
    } else if name == "float"@ {
        Some("f32"@)
    } else if name == "double"@ {
        Some("f64"@)
    } else if name == "bool"@ {
        Some("bool"@)
    } else if name == "VkBool32"@ {
        Some("bool"@)
    } else {
        None
    }
}

pub fn primitive_target(name: &str) -> (r: Option<&'static str>)
    ensures
        (match r {
            Some(t) => spec_primitive_target(name@) == Some(t@),
            None => spec_primitive_target(name@) is None,
        }),
{
    if str_eq(name, "uint32_t") {
        Some("u32")
    } else if str_eq(name, "uint16_t") {
        Some("u16")
    } else if str_eq(name, "int32_t") {
        Some("i32")
    } else if str_eq(name, "int16_t") {
        Some("i16")
    } else if str_eq(name, "int") {
        Some("i32")
    } else if str_eq(name, "unsigned int") {
        Some("u32")
    } else if str_eq(name, "float") {
        Some("f32")
    } else if str_eq(name, "double") {
        Some("f64")
    } else if str_eq(name, "bool") {
        Some("bool")
    } else if str_eq(name, "VkBool32") {
        Some("bool")
    } else {
        None
    }
}

/// The canonical table of flag-style name suffixes, across the known
/// vendor suffix variants.
pub open spec fn spec_is_flags_name(name: Seq<char>) -> bool {
    ||| spec_ends_with(name, "Flags"@)
    ||| spec_ends_with(name, "Flags2"@)
    ||| spec_ends_with(name, "FlagsKHR"@)
    ||| spec_ends_with(name, "FlagsEXT"@)
    ||| spec_ends_with(name, "FlagsNV"@)
    ||| spec_ends_with(name, "FlagBits"@)
    ||| spec_ends_with(name, "FlagBits2"@)
    ||| spec_ends_with(name, "FlagBitsKHR"@)
    ||| spec_ends_with(name, "FlagBitsEXT"@)
    ||| spec_ends_with(name, "FlagBitsNV"@)
}

pub fn is_flags_name(name: &str) -> (r: bool)
    ensures
        r == spec_is_flags_name(name@),
{
    str_ends_with(name, "Flags") || str_ends_with(name, "Flags2") || str_ends_with(
        name,
        "FlagsKHR",
    ) || str_ends_with(name, "FlagsEXT") || str_ends_with(name, "FlagsNV") || str_ends_with(
        name,
        "FlagBits",
    ) || str_ends_with(name, "FlagBits2") || str_ends_with(name, "FlagBitsKHR") || str_ends_with(
        name,
        "FlagBitsEXT",
    ) || str_ends_with(name, "FlagBitsNV")
}

/// Semantic category of a bare type name, decided by fixed tables and
/// naming conventions alone.
#[derive(Clone, Copy, Debug, PartialEq, Eq, Structural)]
pub enum VkType {
    VkCreateInfo,
    VkFlags,
    VkOthers,
    VkBool32,
    Primitive,
    Others,
}

/// Classification rules in priority order: the boolean-flag type, the
/// primitive table, then — for names carrying the `Vk` namespace prefix —
/// the flag suffixes, the extensible-record suffix, and a catch-all; a
/// name without the prefix is foreign.
pub open spec fn spec_parse_type_name(name: Seq<char>) -> VkType {
    if name == "VkBool32"@ {
        VkType::VkBool32
    } else if spec_primitive_target(name) is Some {
        VkType::Primitive
    } else if spec_starts_with(name, "Vk"@) {
        if spec_is_flags_name(name) {
            VkType::VkFlags
        } else if spec_ends_with(name, "CreateInfo"@) {
            VkType::VkCreateInfo
        } else {
            VkType::VkOthers
        }
    } else {
        VkType::Others
    }
}

pub fn parse_type_name(name: &str) -> (r: VkType)
    ensures
        r == spec_parse_type_name(name@),
{
    if str_eq(name, "VkBool32") {
        VkType::VkBool32
    } else if primitive_target(name).is_some() {
        VkType::Primitive
    } else if str_starts_with(name, "Vk") {
        if is_flags_name(name) {
            VkType::VkFlags
        } else if str_ends_with(name, "CreateInfo") {
            VkType::VkCreateInfo
        } else {
            VkType::VkOthers
        }
    } else {
        VkType::Others
    }
}

/// The rewritten name a type of the given category gets: the leading
/// namespace prefix is stripped, flag-style suffixes are normalized to
/// `Flag`, primitives map through the fixed table, foreign names pass
/// through.
pub open spec fn spec_vk_type_convert(ty: VkType, name: Seq<char>) -> Seq<char> {
    match ty {
        VkType::VkCreateInfo => spec_strip_prefix(name, "Vk"@),
        VkType::VkFlags => spec_replace(
            spec_replace(spec_strip_prefix(name, "Vk"@), "Flags"@, "Flag"@),
            "FlagBits"@,
            "Flag"@,
        ),
        VkType::Primitive => match spec_primitive_target(name) {
            Some(t) => t,
            None => name,
        },
        VkType::Others => name,
        VkType::VkOthers => name,
        VkType::VkBool32 => "bool"@,
    }
}

/// The expression that converts a wrapper value of the given category back
/// to its raw form.
pub open spec fn spec_vk_type_cast(ty: VkType, raw: Seq<char>, var: Seq<char>) -> Seq<char> {
    match ty {
        VkType::VkCreateInfo => var + ".raw()"@,
        VkType::VkFlags => "static_cast<"@ + raw + ">("@ + var + ")"@,
        VkType::VkBool32 => "static_cast<VkBool32>("@ + var + ")"@,
        _ => var,
    }
}

impl VkType {
    pub fn convert(&self, name: &str) -> (r: String)
        ensures
            r@ == spec_vk_type_convert(*self, name@),
    {
        proof {
            reveal_strlit("Flags");
            reveal_strlit("FlagBits");
        }
        match self {
            VkType::VkCreateInfo => strip_prefix(name, "Vk"),
            VkType::VkFlags => {
                let a = strip_prefix(name, "Vk");
                let b = replace_all(a.as_str(), "Flags", "Flag");
                replace_all(b.as_str(), "FlagBits", "Flag")
            },
            VkType::Primitive => match primitive_target(name) {
                Some(t) => String::from_str(t),
                None => String::from_str(name),
            },
            VkType::Others => String::from_str(name),
            VkType::VkOthers => String::from_str(name),
            VkType::VkBool32 => String::from_str("bool"),
        }
    }

    pub fn cast_variable(&self, raw_type_name: &str, new_variable_name: &str) -> (r: String)
        ensures
            r@ == spec_vk_type_cast(*self, raw_type_name@, new_variable_name@),
    {
        match self {
            VkType::VkCreateInfo => {
                let mut s = String::from_str(new_variable_name);
                s.append(".raw()");
                s
            },
            VkType::VkFlags => {
                let mut s = String::from_str("static_cast<");
                s.append(raw_type_name);
                s.append(">(");
                s.append(new_variable_name);
                s.append(")");
                proof {
                    assert(s@ =~= "static_cast<"@ + raw_type_name@ + ">("@ + new_variable_name@
                        + ")"@);
                }
                s
            },
            VkType::VkBool32 => {
                let mut s = String::from_str("static_cast<VkBool32>(");
                s.append(new_variable_name);
                s.append(")");
                proof {
                    assert(s@ =~= "static_cast<VkBool32>("@ + new_variable_name@ + ")"@);
                }
                s
            },
            _ => String::from_str(new_variable_name),
        }
    }
}

/// A rewritten field name: camel-case converted to snake-case, then the
/// conventional output-pointer marker `p_` dropped from the front.
pub open spec fn spec_convert_field_name(s: Seq<char>) -> Seq<char> {
    let t = spec_camel_to_snake(s);
    if spec_starts_with(t, seq!['p', '_']) {
        t.skip(2)
    } else {
        t
    }
}

pub fn convert_field_name(field_name: &str) -> (r: String)
    ensures
        r@ == spec_convert_field_name(field_name@),
{
    let snake = camel_to_snake(field_name);
    proof {
        reveal_strlit("p_");
        assert("p_"@ =~= seq!['p', '_']);
    }
    if str_starts_with(snake.as_str(), "p_") {
        let n = snake.as_str().unicode_len();
        let stripped = String::from_str(snake.as_str().substring_char(2, n));
        proof {
            assert(snake@.subrange(2, snake@.len() as int) =~= snake@.skip(2));
        }
        stripped
    } else {
        snake
    }
}

/// Idempotence of field-name rewriting: rewriting an already-rewritten
/// wrapper field name a second time is a no-op.  The one family of inputs
/// left out: a name whose single rewriting still begins with the
/// output-pointer marker `p_` (such a name loses that marker again on a
/// second pass).
pub proof fn lemma_convert_field_name_idempotent(x: Seq<char>)
    requires
        !spec_starts_with(spec_convert_field_name(x), seq!['p', '_']),
    ensures
        spec_convert_field_name(spec_convert_field_name(x)) == spec_convert_field_name(x),
{
    let t = spec_camel_to_snake(x);
    let w = spec_convert_field_name(x);
    crate::str_utils::lemma_camel_rec_no_upper(x, false);
    assert forall|i: int| 0 <= i < w.len() implies !crate::str_utils::is_upper_char(
        #[trigger] w[i],
    ) by {
        if spec_starts_with(t, seq!['p', '_']) {
            assert(w[i] == t[i + 2]);
        }
    }
    crate::str_utils::lemma_camel_rec_lower_fixed(w, false);
}

/// The conventionally-derived type-tag constant for an extensible record.
pub open spec fn spec_cast_s_type(name: Seq<char>) -> Seq<char> {
    "VK_STRUCT_TYPE_"@ + spec_upper_all(spec_camel_to_snake(spec_strip_prefix(name, "Vk"@)))
}

pub fn cast_s_type(name: &str) -> (r: String)
    ensures
        r@ == spec_cast_s_type(name@),
{
    let stripped = strip_prefix(name, "Vk");
    let upper = to_uppercase(camel_to_snake(stripped.as_str()).as_str());
    let mut s = String::from_str("VK_STRUCT_TYPE_");
    s.append(upper.as_str());
    s
}

/// Lexicographic order on names by character code; the order in which
/// registry entries are emitted.
pub open spec fn lex_lt(a: Seq<char>, b: Seq<char>) -> bool
    decreases a.len(),
{
    if b.len() == 0 {
        false
    } else if a.len() == 0 {
        true
    } else if a[0] != b[0] {
        a[0] < b[0]
    } else {
        lex_lt(a.drop_first(), b.drop_first())
    }
}

pub proof fn lemma_lex_connex(a: Seq<char>, b: Seq<char>)
    ensures
        lex_lt(a, b) || lex_lt(b, a) || a == b,
    decreases a.len(),
{
    if a.len() != 0 && b.len() != 0 && a[0] == b[0] {
        lemma_lex_connex(a.drop_first(), b.drop_first());
        if !lex_lt(a, b) && !lex_lt(b, a) {
            assert(a.drop_first() == b.drop_first());
            assert forall|i: int| 0 <= i < a.len() implies a[i] == b[i] by {
                if i > 0 {
                    assert(a[i] == a.drop_first()[i - 1]);
                    assert(b[i] == b.drop_first()[i - 1]);
                }
            }
            assert(a =~= b);
        }
    }
}

pub proof fn lemma_lex_asym(a: Seq<char>, b: Seq<char>)
    ensures
        lex_lt(a, b) ==> !lex_lt(b, a),
    decreases a.len(),
{
    if a.len() != 0 && b.len() != 0 && a[0] == b[0] {
        lemma_lex_asym(a.drop_first(), b.drop_first());
    }
}

pub proof fn lemma_lex_trans(a: Seq<char>, b: Seq<char>, c: Seq<char>)
    ensures
        lex_lt(a, b) && lex_lt(b, c) ==> lex_lt(a, c),
    decreases a.len(),
{
    if a.len() != 0 && b.len() != 0 && c.len() != 0 && a[0] == b[0] && b[0] == c[0] {
        lemma_lex_trans(a.drop_first(), b.drop_first(), c.drop_first());
    }
}

pub fn str_lex_lt(a: &str, b: &str) -> (r: bool)
    ensures
        r == lex_lt(a@, b@),
{
    let na = a.unicode_len();
    let nb = b.unicode_len();
    let mut i: usize = 0;
    proof {
        assert(a@.skip(0) =~= a@);
        assert(b@.skip(0) =~= b@);
    }
    loop
        invariant
            na == a@.len(),
            nb == b@.len(),
            i <= na,
            i <= nb,
            lex_lt(a@, b@) == lex_lt(a@.skip(i as int), b@.skip(i as int)),
        decreases na - i,
    {
        if i >= nb {
            return false;
        }
        if i >= na {
            return true;
        }
        proof {
            assert(a@.skip(i as int).drop_first() =~= a@.skip(i as int + 1));
            assert(b@.skip(i as int).drop_first() =~= b@.skip(i as int + 1));
            assert(a@.skip(i as int)[0] == a@[i as int]);
            assert(b@.skip(i as int)[0] == b@[i as int]);
        }
        let ca = a.get_char(i);
        let cb = b.get_char(i);
        if ca != cb {
            return ca < cb;
        }
        i = i + 1;
    }
}

/// The original declaration name under which a registry entry is keyed.
pub trait RegistryKey {
    spec fn key(self) -> Seq<char>;
}

/// Inserts an entry into a name-sorted sequence; an entry with the same
/// key replaces the old one, so of several declarations under one name the
/// last wins.
pub open spec fn spec_insert_sorted<T: RegistryKey>(acc: Seq<T>, x: T) -> Seq<T>
    decreases acc.len(),
{
    if acc.len() == 0 {
        seq![x]
    } else if lex_lt(x.key(), acc[0].key()) {
        seq![x] + acc
    } else if x.key() == acc[0].key() {
        seq![x] + acc.drop_first()
    } else {
        seq![acc[0]] + spec_insert_sorted(acc.drop_first(), x)
    }
}

/// Strictly ascending by key; strictness also gives key uniqueness.
pub open spec fn spec_registry_sorted<T: RegistryKey>(s: Seq<T>) -> bool {
    forall|i: int, j: int| 0 <= i < j < s.len() ==> lex_lt(#[trigger] s[i].key(), #[trigger] s[j].key())
}

/// Where the scan of the insertion point stopped, the insertion takes
/// place: everything before `j` keeps its place, and the entry lands at
/// `j`, replacing an entry with an equal key.
pub proof fn lemma_insert_at<T: RegistryKey>(acc: Seq<T>, x: T, j: int)
    requires
        0 <= j <= acc.len(),
        forall|k: int| 0 <= k < j ==> lex_lt(#[trigger] acc[k].key(), x.key()),
        j == acc.len() || !lex_lt(acc[j].key(), x.key()),
    ensures
        spec_insert_sorted(acc, x) == (if j < acc.len() && acc[j].key() == x.key() {
            acc.take(j) + seq![x] + acc.skip(j + 1)
        } else {
            acc.take(j) + seq![x] + acc.skip(j)
        }),
    decreases j,
{
    if j == 0 {
        if acc.len() == 0 {
            assert(spec_insert_sorted(acc, x) =~= acc.take(0) + seq![x] + acc.skip(0));
        } else {
            lemma_lex_connex(x.key(), acc[0].key());
            if acc[0].key() == x.key() {
                assert(seq![x] + acc.drop_first() =~= acc.take(0) + seq![x] + acc.skip(1));
            } else {
                assert(lex_lt(x.key(), acc[0].key()));
                assert(seq![x] + acc =~= acc.take(0) + seq![x] + acc.skip(0));
            }
        }
    } else {
        assert(lex_lt(acc[0].key(), x.key()));
        lemma_lex_asym(acc[0].key(), x.key());
        let rest = acc.drop_first();
        assert(forall|k: int| 0 <= k < j - 1 ==> lex_lt(#[trigger] rest[k].key(), x.key()));
        lemma_insert_at(rest, x, j - 1);
        if j < acc.len() && acc[j].key() == x.key() {
            assert(rest[j - 1].key() == x.key());
            assert(seq![acc[0]] + (rest.take(j - 1) + seq![x] + rest.skip(j)) =~= acc.take(j)
                + seq![x] + acc.skip(j + 1));
        } else {
            assert(seq![acc[0]] + (rest.take(j - 1) + seq![x] + rest.skip(j - 1)) =~= acc.take(j)
                + seq![x] + acc.skip(j));
        }
    }
}

/// Sorted insertion keeps the sequence sorted.
pub proof fn lemma_insert_sorted_keeps_sorted<T: RegistryKey>(acc: Seq<T>, x: T)
    requires
        spec_registry_sorted(acc),
    ensures
        spec_registry_sorted(spec_insert_sorted(acc, x)),
    decreases acc.len(),
{
    let r = spec_insert_sorted(acc, x);
    if acc.len() == 0 {
    } else if lex_lt(x.key(), acc[0].key()) {
        assert forall|i: int, j: int| 0 <= i < j < r.len() implies lex_lt(
            #[trigger] r[i].key(),
            #[trigger] r[j].key(),
        ) by {
            if i == 0 {
                if j > 1 {
                    lemma_lex_trans(x.key(), acc[0].key(), acc[j - 1].key());
                }
            }
        }
    } else if x.key() == acc[0].key() {
        assert forall|i: int, j: int| 0 <= i < j < r.len() implies lex_lt(
            #[trigger] r[i].key(),
            #[trigger] r[j].key(),
        ) by {
            assert(r[i] == (seq![x] + acc.drop_first())[i]);
        }
    } else {
        lemma_lex_connex(x.key(), acc[0].key());
        assert(lex_lt(acc[0].key(), x.key()));
        let rest = acc.drop_first();
        assert(spec_registry_sorted(rest)) by {
            assert(forall|i: int, j: int|
                0 <= i < j < rest.len() ==> lex_lt(
                    #[trigger] rest[i].key(),
                    #[trigger] rest[j].key(),
                ));
        }
        lemma_insert_sorted_keeps_sorted(rest, x);
        let ri = spec_insert_sorted(rest, x);
        lemma_insert_sorted_members(rest, x);
        assert forall|i: int, j: int| 0 <= i < j < r.len() implies lex_lt(
            #[trigger] r[i].key(),
            #[trigger] r[j].key(),
        ) by {
            if i == 0 {
                assert(r[j] == ri[j - 1]);
                if ri[j - 1].key() == x.key() {
                } else {
                    let orig = choose|k: int| 0 <= k < rest.len() && rest[k] == ri[j - 1];
                    lemma_lex_trans(acc[0].key(), rest[orig].key(), x.key());
                }
            } else {
                assert(r[i] == ri[i - 1] && r[j] == ri[j - 1]);
            }
        }
    }
}

/// Shape classification of a declared struct: `SType` marks the
/// extensible-record convention, a type-tag field first.
#[derive(Clone, Copy, Debug, PartialEq, Eq, Structural)]
pub enum VkStructType {
    Normal,
    SType,
}

/// Classification of a declared enum: plain, or a bit-flag enum.
#[derive(Clone, Copy, Debug, PartialEq, Eq, Structural)]
pub enum VkEnumType {
    Normal,
    Flags,
}

/// Mathematical model of a classified struct.
pub ghost struct VkStructView {
    pub c_struct: StructView,
    pub ty: VkStructType,
    pub new_name: Seq<char>,
}

impl RegistryKey for VkStructView {
    open spec fn key(self) -> Seq<char> {
        self.c_struct.name
    }
}

/// Mathematical model of a classified enum.
pub ghost struct VkEnumView {
    pub c_enum: EnumView,
    pub ty: VkEnumType,
    pub new_name: Seq<char>,
}

impl RegistryKey for VkEnumView {
    open spec fn key(self) -> Seq<char> {
        self.c_enum.name
    }
}

/// A struct is an extensible record exactly when its first field is the
/// type-tag field.
pub open spec fn spec_struct_classify(s: StructView) -> VkStructType {
    if s.fields.len() > 0 && s.fields[0].name == "sType"@ {
        VkStructType::SType
    } else {
        VkStructType::Normal
    }
}

/// The rewritten struct name: the leading namespace prefix is stripped.
pub open spec fn spec_struct_new_name(name: Seq<char>) -> Seq<char> {
    spec_strip_prefix(name, "Vk"@)
}

pub open spec fn spec_vk_struct_new(s: StructView) -> VkStructView {
    VkStructView {
        c_struct: s,
        ty: spec_struct_classify(s),
        new_name: spec_struct_new_name(s.name),
    }
}

pub open spec fn spec_enum_classify(name: Seq<char>) -> VkEnumType {
    if spec_is_flags_name(name) {
        VkEnumType::Flags
    } else {
        VkEnumType::Normal
    }
}

/// The rewritten enum name: the leading namespace prefix is stripped; a
/// bit-flag enum additionally has its `FlagBits` suffix normalized to
/// `Flags`.
pub open spec fn spec_enum_new_name(name: Seq<char>, ty: VkEnumType) -> Seq<char> {
    let base = spec_strip_prefix(name, "Vk"@);
    match ty {
        VkEnumType::Normal => base,
        VkEnumType::Flags => spec_replace(base, "FlagBits"@, "Flags"@),
    }
}

pub open spec fn spec_vk_enum_new(e: EnumView) -> VkEnumView {
    VkEnumView {
        c_enum: e,
        ty: spec_enum_classify(e.name),
        new_name: spec_enum_new_name(e.name, spec_enum_classify(e.name)),
    }
}

/// A declared struct together with its classification and rewritten name.
#[derive(Debug, Clone)]
pub struct VkStruct {
    pub c_struct: CStruct,
    pub ty: VkStructType,
    pub new_name: String,
}

impl View for VkStruct {
    type V = VkStructView;

    open spec fn view(&self) -> VkStructView {
        VkStructView { c_struct: self.c_struct@, ty: self.ty, new_name: self.new_name@ }
    }
}

impl VkStruct {
    pub fn parse_type(c_struct: &CStruct) -> (r: VkStructType)
        ensures
            r == spec_struct_classify(c_struct@),
    {
        if c_struct.fields.len() > 0 && str_eq(c_struct.fields[0].name.as_str(), "sType") {
            VkStructType::SType
        } else {
            VkStructType::Normal
        }
    }

    pub fn parse_new_name(name: &str, _ty: VkStructType) -> (r: String)
        ensures
            r@ == spec_struct_new_name(name@),
    {
        strip_prefix(name, "Vk")
    }

    pub fn new(c_struct: CStruct) -> (r: Self)
        ensures
            r@ == spec_vk_struct_new(c_struct@),
    {
        let ty = Self::parse_type(&c_struct);
        let new_name = Self::parse_new_name(c_struct.name.as_str(), ty);
        Self { c_struct, ty, new_name }
    }
}

/// A declared enum together with its classification and rewritten name.
#[derive(Debug, Clone)]
pub struct VkEnum {
    pub c_enum: CEnum,
    pub ty: VkEnumType,
    pub new_name: String,
}

impl View for VkEnum {
    type V = VkEnumView;

    open spec fn view(&self) -> VkEnumView {
        VkEnumView { c_enum: self.c_enum@, ty: self.ty, new_name: self.new_name@ }
    }
}

impl VkEnum {
    pub fn parse_type(name: &str) -> (r: VkEnumType)
        ensures
            r == spec_enum_classify(name@),
    {
        if is_flags_name(name) {
            VkEnumType::Flags
        } else {
            VkEnumType::Normal
        }
    }

    pub fn parse_new_name(name: &str, ty: VkEnumType) -> (r: String)
        ensures
            r@ == spec_enum_new_name(name@, ty),
    {
        proof {
            reveal_strlit("FlagBits");
        }
        let base = strip_prefix(name, "Vk");
        match ty {
            VkEnumType::Normal => base,
            VkEnumType::Flags => replace_all(base.as_str(), "FlagBits", "Flags"),
        }
    }

    pub fn new(c_enum: CEnum) -> (r: Self)
        ensures
            r@ == spec_vk_enum_new(c_enum@),
    {
        let ty = Self::parse_type(c_enum.name.as_str());
        let new_name = Self::parse_new_name(c_enum.name.as_str(), ty);
        Self { c_enum, ty, new_name }
    }
}

/// Every entry of the inserted sequence is the new entry or one of the old
/// ones.
pub proof fn lemma_insert_sorted_members<T: RegistryKey>(acc: Seq<T>, x: T)
    ensures
        forall|m: int|
            0 <= m < spec_insert_sorted(acc, x).len() ==> (#[trigger] spec_insert_sorted(
                acc,
                x,
            )[m] == x || exists|k: int| 0 <= k < acc.len() && acc[k] == spec_insert_sorted(acc, x)[m]),
    decreases acc.len(),
{
    let r = spec_insert_sorted(acc, x);
    if acc.len() == 0 {
    } else if lex_lt(x.key(), acc[0].key()) {
        assert forall|m: int| 0 <= m < r.len() implies (#[trigger] r[m] == x || exists|k: int|
            0 <= k < acc.len() && acc[k] == r[m]) by {
            if m > 0 {
                assert(acc[m - 1] == r[m]);
            }
        }
    } else if x.key() == acc[0].key() {
        assert forall|m: int| 0 <= m < r.len() implies (#[trigger] r[m] == x || exists|k: int|
            0 <= k < acc.len() && acc[k] == r[m]) by {
            if m > 0 {
                assert(acc[m] == r[m]);
            }
        }
    } else {
        let rest = acc.drop_first();
        lemma_insert_sorted_members(rest, x);
        let ri = spec_insert_sorted(rest, x);
        assert forall|m: int| 0 <= m < r.len() implies (#[trigger] r[m] == x || exists|k: int|
            0 <= k < acc.len() && acc[k] == r[m]) by {
            if m == 0 {
                assert(acc[0] == r[0]);
            } else {
                assert(r[m] == ri[m - 1]);
                if ri[m - 1] == x {
                } else {
                    let k = choose|k: int| 0 <= k < rest.len() && rest[k] == ri[m - 1];
                    assert(acc[k + 1] == r[m]);
                }
            }
        }
    }
}

/// The models of a list of classified enums, in order.
pub open spec fn spec_enums_view(v: Seq<VkEnum>) -> Seq<VkEnumView> {
    v.map_values(|e: VkEnum| e@)
}

/// The models of a list of classified structs, in order.
pub open spec fn spec_structs_view(v: Seq<VkStruct>) -> Seq<VkStructView> {
    v.map_values(|s: VkStruct| s@)
}

pub proof fn lemma_enums_view_index(v: Seq<VkEnum>, i: int)
    requires
        0 <= i < v.len(),
    ensures
        spec_enums_view(v)[i] == v[i]@,
{
}

pub proof fn lemma_structs_view_index(v: Seq<VkStruct>, i: int)
    requires
        0 <= i < v.len(),
    ensures
        spec_structs_view(v)[i] == v[i]@,
{
}

/// Mathematical model of the registry.
pub ghost struct ContextView {
    pub enums: Seq<VkEnumView>,
    pub structs: Seq<VkStructView>,
}

/// Registry construction over the filtered enum declarations: classify
/// each, insert in name order, the last declaration under a name wins.
pub open spec fn spec_build_enums_from(
    es: Seq<EnumView>,
    i: int,
    acc: Seq<VkEnumView>,
) -> Seq<VkEnumView>
    decreases es.len() - i,
{
    if i < 0 || i >= es.len() {
        acc
    } else {
        spec_build_enums_from(es, i + 1, spec_insert_sorted(acc, spec_vk_enum_new(es[i])))
    }
}

pub open spec fn spec_build_enums(es: Seq<EnumView>) -> Seq<VkEnumView> {
    spec_build_enums_from(es, 0, Seq::empty())
}

/// Registry construction over the filtered struct declarations.
pub open spec fn spec_build_structs_from(
    ss: Seq<StructView>,
    i: int,
    acc: Seq<VkStructView>,
) -> Seq<VkStructView>
    decreases ss.len() - i,
{
    if i < 0 || i >= ss.len() {
        acc
    } else {
        spec_build_structs_from(ss, i + 1, spec_insert_sorted(acc, spec_vk_struct_new(ss[i])))
    }
}

pub open spec fn spec_build_structs(ss: Seq<StructView>) -> Seq<VkStructView> {
    spec_build_structs_from(ss, 0, Seq::empty())
}

proof fn lemma_build_enums_sorted(es: Seq<EnumView>, i: int, acc: Seq<VkEnumView>)
    requires
        spec_registry_sorted(acc),
    ensures
        spec_registry_sorted(spec_build_enums_from(es, i, acc)),
    decreases es.len() - i,
{
    if 0 <= i && i < es.len() {
        lemma_insert_sorted_keeps_sorted(acc, spec_vk_enum_new(es[i]));
        lemma_build_enums_sorted(es, i + 1, spec_insert_sorted(acc, spec_vk_enum_new(es[i])));
    }
}

proof fn lemma_build_structs_sorted(ss: Seq<StructView>, i: int, acc: Seq<VkStructView>)
    requires
        spec_registry_sorted(acc),
    ensures
        spec_registry_sorted(spec_build_structs_from(ss, i, acc)),
    decreases ss.len() - i,
{
    if 0 <= i && i < ss.len() {
        lemma_insert_sorted_keeps_sorted(acc, spec_vk_struct_new(ss[i]));
        lemma_build_structs_sorted(ss, i + 1, spec_insert_sorted(acc, spec_vk_struct_new(ss[i])));
    }
}

/// The registry holds its enum entries in strictly ascending original-name
/// order, whatever the declaration order was: emission in registry order is
/// emission in original-name lexical order, and is therefore deterministic.
pub proof fn lemma_registry_enums_sorted(es: Seq<EnumView>)
    ensures
        spec_registry_sorted(spec_build_enums(es)),
{
    lemma_build_enums_sorted(es, 0, Seq::empty());
}

/// The registry holds its struct entries in strictly ascending
/// original-name order, whatever the declaration order was.
pub proof fn lemma_registry_structs_sorted(ss: Seq<StructView>)
    ensures
        spec_registry_sorted(spec_build_structs(ss)),
{
    lemma_build_structs_sorted(ss, 0, Seq::empty());
}

/// The first registry entry under the given original name.
pub open spec fn spec_find_enum(s: Seq<VkEnumView>, name: Seq<char>) -> Option<VkEnumView>
    decreases s.len(),
{
    if s.len() == 0 {
        None
    } else if s[0].c_enum.name == name {
        Some(s[0])
    } else {
        spec_find_enum(s.drop_first(), name)
    }
}

pub open spec fn spec_find_struct(s: Seq<VkStructView>, name: Seq<char>) -> Option<VkStructView>
    decreases s.len(),
{
    if s.len() == 0 {
        None
    } else if s[0].c_struct.name == name {
        Some(s[0])
    } else {
        spec_find_struct(s.drop_first(), name)
    }
}

/// What `resolve` answers for a field's type name: a registered enum or
/// struct resolves to its rewritten name, a known primitive to its target
/// name, anything else passes through unchanged.
pub open spec fn spec_resolve(ctx: ContextView, name: Seq<char>) -> Seq<char> {
    match spec_find_enum(ctx.enums, name) {
        Some(e) => e.new_name,
        None => match spec_find_struct(ctx.structs, name) {
            Some(s) => s.new_name,
            None => match spec_primitive_target(name) {
                Some(p) => p,
                None => name,
            },
        },
    }
}

/// What `cast_variable` answers: a registered enum casts numerically, a
/// registered struct is asked for its raw form, the boolean-flag type
/// casts to its raw representation, anything else passes through.
pub open spec fn spec_context_cast(ctx: ContextView, raw: Seq<char>, var: Seq<char>) -> Seq<char> {
    if spec_find_enum(ctx.enums, raw) is Some {
        "static_cast<"@ + raw + ">("@ + var + ")"@
    } else if spec_find_struct(ctx.structs, raw) is Some {
        var + ".raw()"@
    } else if raw == "VkBool32"@ {
        "static_cast<VkBool32>("@ + var + ")"@
    } else {
        var
    }
}

/// An ordered mapping from original type name to classification and
/// rewritten name, built once and consulted read-only during emission.
pub struct Context {
    pub vk_enums: Vec<VkEnum>,
    pub vk_structs: Vec<VkStruct>,
}

impl View for Context {
    type V = ContextView;

    open spec fn view(&self) -> ContextView {
        ContextView {
            enums: spec_enums_view(self.vk_enums@),
            structs: spec_structs_view(self.vk_structs@),
        }
    }
}

fn insert_enum_sorted(v: &mut Vec<VkEnum>, x: VkEnum)
    ensures
        spec_enums_view(final(v)@) == spec_insert_sorted(
            spec_enums_view(old(v)@),
            x@,
        ),
{
    let ghost m0 = spec_enums_view(v@);
    let mut j: usize = 0;
    while j < v.len() && str_lex_lt(v[j].c_enum.name.as_str(), x.c_enum.name.as_str())
        invariant
            j <= v@.len(),
            m0 == spec_enums_view(v@),
            forall|k: int| 0 <= k < j ==> lex_lt(#[trigger] m0[k].key(), x@.key()),
        decreases v@.len() - j,
    {
        j = j + 1;
    }
    proof {
        lemma_insert_at(m0, x@, j as int);
    }
    if j < v.len() && str_eq(v[j].c_enum.name.as_str(), x.c_enum.name.as_str()) {
        v.remove(j);
        v.insert(j, x);
        proof {
            assert(spec_enums_view(v@) =~= m0.take(j as int) + seq![x@] + m0.skip(
                j as int + 1,
            ));
        }
    } else {
        v.insert(j, x);
        proof {
            assert(spec_enums_view(v@) =~= m0.take(j as int) + seq![x@] + m0.skip(
                j as int,
            ));
        }
    }
}

fn insert_struct_sorted(v: &mut Vec<VkStruct>, x: VkStruct)
    ensures
        spec_structs_view(final(v)@) == spec_insert_sorted(
            spec_structs_view(old(v)@),
            x@,
        ),
{
    let ghost m0 = spec_structs_view(v@);
    let mut j: usize = 0;
    while j < v.len() && str_lex_lt(v[j].c_struct.name.as_str(), x.c_struct.name.as_str())
        invariant
            j <= v@.len(),
            m0 == spec_structs_view(v@),
            forall|k: int| 0 <= k < j ==> lex_lt(#[trigger] m0[k].key(), x@.key()),
        decreases v@.len() - j,
    {
        j = j + 1;
    }
    proof {
        lemma_insert_at(m0, x@, j as int);
    }
    if j < v.len() && str_eq(v[j].c_struct.name.as_str(), x.c_struct.name.as_str()) {
        v.remove(j);
        v.insert(j, x);
        proof {
            assert(spec_structs_view(v@) =~= m0.take(j as int) + seq![x@] + m0.skip(
                j as int + 1,
            ));
        }
    } else {
        v.insert(j, x);
        proof {
            assert(spec_structs_view(v@) =~= m0.take(j as int) + seq![x@] + m0.skip(
                j as int,
            ));
        }
    }
}

impl Context {
    /// Builds the two ordered mappings from the filtered declaration
    /// lists.
    pub fn new(c_enums: Vec<CEnum>, c_structs: Vec<CStruct>) -> (r: Self)
        ensures
            r@.enums == spec_build_enums(c_enums@.map_values(|e: CEnum| e@)),
            r@.structs == spec_build_structs(c_structs@.map_values(|s: CStruct| s@)),
    {
        let ghost es0 = c_enums@.map_values(|e: CEnum| e@);
        let ghost ss0 = c_structs@.map_values(|s: CStruct| s@);
        let mut c_enums = c_enums;
        let mut c_structs = c_structs;
        let mut vk_enums: Vec<VkEnum> = Vec::new();
        let mut vk_structs: Vec<VkStruct> = Vec::new();
        let ghost mut i: int = 0;
        proof {
            assert(spec_enums_view(vk_enums@) =~= Seq::<VkEnumView>::empty());
            assert(c_enums@.map_values(|e: CEnum| e@) =~= es0.skip(0));
        }
        while c_enums.len() > 0
            invariant
                0 <= i <= es0.len(),
                c_enums@.map_values(|e: CEnum| e@) == es0.skip(i),
                spec_build_enums_from(es0, i, spec_enums_view(vk_enums@))
                    == spec_build_enums(es0),
            decreases c_enums@.len(),
        {
            let ghost pre = c_enums@.map_values(|e: CEnum| e@);
            let e = c_enums.remove(0);
            proof {
                assert(pre.len() > 0);
                assert(e@ == pre[0]);
                assert(pre[0] == es0.skip(i)[0]);
                assert(es0.skip(i)[0] == es0[i]);
                assert(c_enums@.map_values(|e: CEnum| e@) =~= pre.drop_first());
                assert(pre.drop_first() =~= es0.skip(i + 1));
            }
            let ve = VkEnum::new(e);
            insert_enum_sorted(&mut vk_enums, ve);
            proof {
                i = i + 1;
            }
        }
        proof {
            assert(es0.skip(i).len() == 0);
            assert(i == es0.len());
        }
        let ghost mut t: int = 0;
        proof {
            assert(spec_structs_view(vk_structs@) =~= Seq::<VkStructView>::empty());
            assert(c_structs@.map_values(|s: CStruct| s@) =~= ss0.skip(0));
        }
        while c_structs.len() > 0
            invariant
                0 <= t <= ss0.len(),
                c_structs@.map_values(|s: CStruct| s@) == ss0.skip(t),
                spec_build_structs_from(ss0, t, spec_structs_view(vk_structs@))
                    == spec_build_structs(ss0),
            decreases c_structs@.len(),
        {
            let ghost pre = c_structs@.map_values(|s: CStruct| s@);
            let s = c_structs.remove(0);
            proof {
                assert(pre.len() > 0);
                assert(s@ == pre[0]);
                assert(pre[0] == ss0.skip(t)[0]);
                assert(ss0.skip(t)[0] == ss0[t]);
                assert(c_structs@.map_values(|s: CStruct| s@) =~= pre.drop_first());
                assert(pre.drop_first() =~= ss0.skip(t + 1));
            }
            let vs = VkStruct::new(s);
            insert_struct_sorted(&mut vk_structs, vs);
            proof {
                t = t + 1;
            }
        }
        proof {
            assert(ss0.skip(t).len() == 0);
            assert(t == ss0.len());
        }
        Self { vk_enums, vk_structs }
    }

    /// The rewritten type name a field of the given original type gets.
    pub fn get_field_new_type_name(&self, name: &str) -> (r: String)
        ensures
            r@ == spec_resolve(self@, name@),
    {
        let ghost em = spec_enums_view(self.vk_enums@);
        let mut i: usize = 0;
        proof {
            assert(em.skip(0) =~= em);
        }
        while i < self.vk_enums.len()
            invariant
                i <= self.vk_enums@.len(),
                em == spec_enums_view(self.vk_enums@),
                spec_find_enum(em, name@) == spec_find_enum(em.skip(i as int), name@),
            decreases self.vk_enums@.len() - i,
        {
            proof {
                assert(em.skip(i as int)[0] == em[i as int]);
                assert(em.skip(i as int).drop_first() =~= em.skip(i as int + 1));
            }
            if str_eq(self.vk_enums[i].c_enum.name.as_str(), name) {
                return self.vk_enums[i].new_name.clone();
            }
            i = i + 1;
        }
        proof {
            assert(em.skip(self.vk_enums@.len() as int).len() == 0);
        }
        let ghost sm = spec_structs_view(self.vk_structs@);
        let mut k: usize = 0;
        proof {
            assert(sm.skip(0) =~= sm);
        }
        while k < self.vk_structs.len()
            invariant
                k <= self.vk_structs@.len(),
                sm == spec_structs_view(self.vk_structs@),
                em == spec_enums_view(self.vk_enums@),
                spec_find_enum(em, name@) is None,
                spec_find_struct(sm, name@) == spec_find_struct(sm.skip(k as int), name@),
            decreases self.vk_structs@.len() - k,
        {
            proof {
                assert(sm.skip(k as int)[0] == sm[k as int]);
                assert(sm.skip(k as int).drop_first() =~= sm.skip(k as int + 1));
            }
            if str_eq(self.vk_structs[k].c_struct.name.as_str(), name) {
                return self.vk_structs[k].new_name.clone();
            }
            k = k + 1;
        }
        proof {
            assert(sm.skip(self.vk_structs@.len() as int).len() == 0);
        }
        match primitive_target(name) {
            Some(p) => String::from_str(p),
            None => String::from_str(name),
        }
    }

    /// The expression that converts a wrapper value of the given original
    /// type back to its raw form.
    pub fn cast_variable(&self, raw_type_name: &str, new_variable_name: &str) -> (r: String)
        ensures
            r@ == spec_context_cast(self@, raw_type_name@, new_variable_name@),
    {
        if self.find_enum(raw_type_name) {
            let mut s = String::from_str("static_cast<");
            s.append(raw_type_name);
            s.append(">(");
            s.append(new_variable_name);
            s.append(")");
            proof {
                assert(s@ =~= "static_cast<"@ + raw_type_name@ + ">("@ + new_variable_name@
                    + ")"@);
            }
            s
        } else if self.find_struct(raw_type_name) {
            let mut s = String::from_str(new_variable_name);
            s.append(".raw()");
            s
        } else if str_eq(raw_type_name, "VkBool32") {
            let mut s = String::from_str("static_cast<VkBool32>(");
            s.append(new_variable_name);
            s.append(")");
            proof {
                assert(s@ =~= "static_cast<VkBool32>("@ + new_variable_name@ + ")"@);
            }
            s
        } else {
            String::from_str(new_variable_name)
        }
    }

    /// Whether an enum was registered under this original name.
    fn find_enum(&self, name: &str) -> (r: bool)
        ensures
            r == (spec_find_enum(self@.enums, name@) is Some),
    {
        let ghost em = spec_enums_view(self.vk_enums@);
        let mut i: usize = 0;
        proof {
            assert(em.skip(0) =~= em);
        }
        while i < self.vk_enums.len()
            invariant
                i <= self.vk_enums@.len(),
                em == spec_enums_view(self.vk_enums@),
                spec_find_enum(em, name@) == spec_find_enum(em.skip(i as int), name@),
            decreases self.vk_enums@.len() - i,
        {
            proof {
                assert(em.skip(i as int)[0] == em[i as int]);
                assert(em.skip(i as int).drop_first() =~= em.skip(i as int + 1));
            }
            if str_eq(self.vk_enums[i].c_enum.name.as_str(), name) {
                return true;
            }
            i = i + 1;
        }
        proof {
            assert(em.skip(self.vk_enums@.len() as int).len() == 0);
        }
        false
    }

    /// Whether a struct was registered under this original name.
    fn find_struct(&self, name: &str) -> (r: bool)
        ensures
            r == (spec_find_struct(self@.structs, name@) is Some),
    {
        let ghost sm = spec_structs_view(self.vk_structs@);
        let mut i: usize = 0;
        proof {
            assert(sm.skip(0) =~= sm);
        }
        while i < self.vk_structs.len()
            invariant
                i <= self.vk_structs@.len(),
                sm == spec_structs_view(self.vk_structs@),
                spec_find_struct(sm, name@) == spec_find_struct(sm.skip(i as int), name@),
            decreases self.vk_structs@.len() - i,
        {
            proof {
                assert(sm.skip(i as int)[0] == sm[i as int]);
                assert(sm.skip(i as int).drop_first() =~= sm.skip(i as int + 1));
            }
            if str_eq(self.vk_structs[i].c_struct.name.as_str(), name) {
                return true;
            }
            i = i + 1;
        }
        proof {
            assert(sm.skip(self.vk_structs@.len() as int).len() == 0);
        }
        false
    }
}

/// An enum declaration survives the orchestrator's filter when it carries
/// the namespace prefix and is not in the fixed exclusion set.
pub open spec fn spec_enum_kept_by_filter(e: EnumView) -> bool {
    spec_starts_with(e.name, "Vk"@) && e.name != "VkStructureType"@
}

/// A struct declaration survives the filter when it carries the namespace
/// prefix; the struct exclusion set is empty.
pub open spec fn spec_struct_kept_by_filter(s: StructView) -> bool {
    spec_starts_with(s.name, "Vk"@)
}

pub open spec fn spec_filter_enums_from(es: Seq<EnumView>, i: int) -> Seq<EnumView>
    decreases es.len() - i,
{
    if i < 0 || i >= es.len() {
        Seq::empty()
    } else {
        (if spec_enum_kept_by_filter(es[i]) {
            seq![es[i]]
        } else {
            Seq::empty()
        }) + spec_filter_enums_from(es, i + 1)
    }
}

pub open spec fn spec_filter_enums(es: Seq<EnumView>) -> Seq<EnumView> {
    spec_filter_enums_from(es, 0)
}

pub open spec fn spec_filter_structs_from(ss: Seq<StructView>, i: int) -> Seq<StructView>
    decreases ss.len() - i,
{
    if i < 0 || i >= ss.len() {
        Seq::empty()
    } else {
        (if spec_struct_kept_by_filter(ss[i]) {
            seq![ss[i]]
        } else {
            Seq::empty()
        }) + spec_filter_structs_from(ss, i + 1)
    }
}

pub open spec fn spec_filter_structs(ss: Seq<StructView>) -> Seq<StructView> {
    spec_filter_structs_from(ss, 0)
}

/// Per-kind emission logic: renders one declaration, and a whole list of
/// them with each rendered declaration followed by a blank separator line.
/// Each implementation states its exact output in its own contracts.
pub trait ElementsGenerator<T: View> {
    fn element(&self, element: &T, context: &Context) -> Option<String>;

    fn generate(&self, elements: &Vec<T>, context: &Context) -> String;
}

/// Drives the whole translation: filters the parsed declarations, builds
/// the registry over what remains, and emits enums then structs, each in
/// original-name lexical order.
pub struct Generator {
    pub context: Context,
}

impl View for Generator {
    type V = ContextView;

    open spec fn view(&self) -> ContextView {
        self.context@
    }
}

impl Generator {
    pub fn new(c_enums: Vec<CEnum>, c_structs: Vec<CStruct>) -> (r: Self)
        ensures
            r@.enums == spec_build_enums(spec_filter_enums(c_enums@.map_values(|e: CEnum| e@))),
            r@.structs == spec_build_structs(
                spec_filter_structs(c_structs@.map_values(|s: CStruct| s@)),
            ),
    {
        let ghost es0 = c_enums@.map_values(|e: CEnum| e@);
        let ghost ss0 = c_structs@.map_values(|s: CStruct| s@);
        let mut c_enums = c_enums;
        let mut c_structs = c_structs;
        let mut kept_enums: Vec<CEnum> = Vec::new();
        let mut kept_structs: Vec<CStruct> = Vec::new();
        let ghost mut i: int = 0;
        proof {
            assert(kept_enums@.map_values(|e: CEnum| e@) =~= Seq::<EnumView>::empty());
            assert(c_enums@.map_values(|e: CEnum| e@) =~= es0.skip(0));
            assert(Seq::<EnumView>::empty() + spec_filter_enums_from(es0, 0)
                =~= spec_filter_enums_from(es0, 0));
        }
        while c_enums.len() > 0
            invariant
                0 <= i <= es0.len(),
                c_enums@.map_values(|e: CEnum| e@) == es0.skip(i),
                kept_enums@.map_values(|e: CEnum| e@) + spec_filter_enums_from(es0, i) == spec_filter_enums(
                    es0,
                ),
            decreases c_enums@.len(),
        {
            let ghost pre = c_enums@.map_values(|e: CEnum| e@);
            let ghost k0 = kept_enums@.map_values(|e: CEnum| e@);
            let e = c_enums.remove(0);
            proof {
                assert(pre.len() > 0);
                assert(e@ == pre[0]);
                assert(pre[0] == es0.skip(i)[0]);
                assert(es0.skip(i)[0] == es0[i]);
                assert(c_enums@.map_values(|e: CEnum| e@) =~= pre.drop_first());
                assert(pre.drop_first() =~= es0.skip(i + 1));
            }
            if str_starts_with(e.name.as_str(), "Vk") && !str_eq(
                e.name.as_str(),
                "VkStructureType",
            ) {
                kept_enums.push(e);
                proof {
                    assert(kept_enums@.map_values(|e: CEnum| e@) =~= k0.push(es0[i]));
                    assert(k0.push(es0[i]) =~= k0 + seq![es0[i]]);
                    assert((k0 + seq![es0[i]]) + spec_filter_enums_from(es0, i + 1) =~= k0 + (
                    seq![es0[i]] + spec_filter_enums_from(es0, i + 1)));
                }
            }
            proof {
                i = i + 1;
            }
        }
        proof {
            assert(es0.skip(i).len() == 0);
            assert(kept_enums@.map_values(|e: CEnum| e@) + Seq::<EnumView>::empty()
                =~= kept_enums@.map_values(|e: CEnum| e@));
        }
        let ghost mut t: int = 0;
        proof {
            assert(kept_structs@.map_values(|s: CStruct| s@) =~= Seq::<StructView>::empty());
            assert(c_structs@.map_values(|s: CStruct| s@) =~= ss0.skip(0));
            assert(Seq::<StructView>::empty() + spec_filter_structs_from(ss0, 0)
                =~= spec_filter_structs_from(ss0, 0));
        }
        while c_structs.len() > 0
            invariant
                0 <= t <= ss0.len(),
                c_structs@.map_values(|s: CStruct| s@) == ss0.skip(t),
                kept_structs@.map_values(|s: CStruct| s@) + spec_filter_structs_from(ss0, t)
                    == spec_filter_structs(ss0),
            decreases c_structs@.len(),
        {
            let ghost pre = c_structs@.map_values(|s: CStruct| s@);
            let ghost k0 = kept_structs@.map_values(|s: CStruct| s@);
            let s = c_structs.remove(0);
            proof {
                assert(pre.len() > 0);
                assert(s@ == pre[0]);
                assert(pre[0] == ss0.skip(t)[0]);
                assert(ss0.skip(t)[0] == ss0[t]);
                assert(c_structs@.map_values(|s: CStruct| s@) =~= pre.drop_first());
                assert(pre.drop_first() =~= ss0.skip(t + 1));
            }
            if str_starts_with(s.name.as_str(), "Vk") {
                kept_structs.push(s);
                proof {
                    assert(kept_structs@.map_values(|s: CStruct| s@) =~= k0.push(ss0[t]));
                    assert(k0.push(ss0[t]) =~= k0 + seq![ss0[t]]);
                    assert((k0 + seq![ss0[t]]) + spec_filter_structs_from(ss0, t + 1) =~= k0 + (
                    seq![ss0[t]] + spec_filter_structs_from(ss0, t + 1)));
                }
            }
            proof {
                t = t + 1;
            }
        }
        proof {
            assert(ss0.skip(t).len() == 0);
            assert(kept_structs@.map_values(|s: CStruct| s@) + Seq::<StructView>::empty()
                =~= kept_structs@.map_values(|s: CStruct| s@));
        }
        Self { context: Context::new(kept_enums, kept_structs) }
    }

    /// Emits every registered enum, then every registered struct, each part
    /// iterated in original-name lexical order, the two parts joined by one
    /// separator newline.
    pub fn generate(&self) -> (r: String)
        ensures
            r@ == spec_generator_output(self@),
    {
        let vk_enum_generator = crate::generator::vk_enum::VkEnumGenerator;
        let vk_struct_generator = crate::generator::vk_struct::VkStructGenerator;
        let mut out = vk_enum_generator.generate(&self.context.vk_enums, &self.context);
        let ghost p1 = out@;
        crate::str_utils::push_char(&mut out, '\n');
        let part2 = vk_struct_generator.generate(&self.context.vk_structs, &self.context);
        out.append(part2.as_str());
        proof {
            assert(out@ =~= (p1 + seq!['\n']) + part2@);
            assert(out@ =~= spec_generator_output(self@));
        }
        out
    }
}

/// The whole translated output: all emitted enum declarations, then all
/// emitted struct declarations, each declaration separated by a blank
/// line.
pub open spec fn spec_generator_output(ctx: ContextView) -> Seq<char> {
    (crate::generator::vk_enum::spec_emit_enums_from(ctx.enums, 0) + seq!['\n'])
        + crate::generator::vk_struct::spec_emit_structs_from(ctx.structs, ctx, 0)
}

} // verus!
