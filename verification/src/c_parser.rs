//! Walks a concrete syntax tree of a C translation unit and extracts flat
//! lists of struct and enum declarations into a structured model.
//!
//! The tree itself is held as plain values (`SyntaxNode`); the grammar-based
//! parsing that produces it is the only trusted boundary of this module.
//! Extraction never fails on a recoverable declaration: a struct, enum,
//! field or enumerator that is missing its name is dropped, and the walk
//! goes on with the remaining siblings.

use vstd::prelude::*;
use crate::str_utils::spec_trim;
use crate::str_utils::str_eq;
use crate::str_utils::trim;

verus! {

/// One node of the concrete syntax tree, as plain values: the grammar's
/// node kind, the source text the node covers, and the child nodes in
/// source order.
#[derive(Debug)]
pub struct SyntaxNode {
    pub kind: String,
    pub text: String,
    pub children: Vec<SyntaxNode>,
}

/// Mathematical model of a struct field.
pub ghost struct FieldView {
    pub ty: Seq<char>,
    pub name: Seq<char>,
    pub is_pointer: bool,
    pub is_array: bool,
    pub array_size: Option<Seq<char>>,
}

/// Mathematical model of a struct declaration.
pub ghost struct StructView {
    pub name: Seq<char>,
    pub fields: Seq<FieldView>,
}

/// Mathematical model of one enumerator.
pub ghost struct EnumValueView {
    pub name: Seq<char>,
    pub literal: Option<Seq<char>>,
}

/// Mathematical model of an enum declaration.
pub ghost struct EnumView {
    pub name: Seq<char>,
    pub values: Seq<EnumValueView>,
}

/// One field of a C struct.  `field_type` carries the pointer and array
/// decoration collected during parsing; pointer-ness, array-ness and the
/// optional array bound are also recorded as first-class attributes.
#[derive(Debug, Clone)]
pub struct CField {
    pub field_type: String,
    pub name: String,
    pub is_pointer: bool,
    pub is_array: bool,
    pub array_size: Option<String>,
}

impl View for CField {
    type V = FieldView;

    open spec fn view(&self) -> FieldView {
        FieldView {
            ty: self.field_type@,
            name: self.name@,
            is_pointer: self.is_pointer,
            is_array: self.is_array,
            array_size: match self.array_size {
                Some(s) => Some(s@),
                None => None,
            },
        }
    }
}

/// The models of a list of fields, in order.
pub open spec fn spec_fields_view(s: Seq<CField>) -> Seq<FieldView> {
    s.map_values(|f: CField| f@)
}

pub proof fn lemma_fields_view_index(s: Seq<CField>, i: int)
    requires
        0 <= i < s.len(),
    ensures
        spec_fields_view(s)[i] == s[i]@,
{
}

/// A C struct declaration: original name and fields in source order.
#[derive(Debug, Clone)]
pub struct CStruct {
    pub name: String,
    pub fields: Vec<CField>,
}

impl View for CStruct {
    type V = StructView;

    open spec fn view(&self) -> StructView {
        StructView { name: self.name@, fields: spec_fields_view(self.fields@) }
    }
}

/// One enumerator: its name, and the textual right-hand side if the source
/// wrote one (an integer, or a reference to a previously declared name).
#[derive(Debug, Clone)]
pub struct EnumValue {
    pub name: String,
    pub value: Option<String>,
}

impl View for EnumValue {
    type V = EnumValueView;

    open spec fn view(&self) -> EnumValueView {
        EnumValueView {
            name: self.name@,
            literal: match self.value {
                Some(ref s) => Some(s@),
                None => None,
            },
        }
    }
}

/// The models of a list of enumerators, in order.
pub open spec fn spec_values_view(s: Seq<EnumValue>) -> Seq<EnumValueView> {
    s.map_values(|v: EnumValue| v@)
}

pub proof fn lemma_values_view_index(s: Seq<EnumValue>, i: int)
    requires
        0 <= i < s.len(),
    ensures
        spec_values_view(s)[i] == s[i]@,
{
}

/// The models of a list of struct declarations, in order.
pub open spec fn spec_struct_decls_view(s: Seq<CStruct>) -> Seq<StructView> {
    s.map_values(|c: CStruct| c@)
}

pub proof fn lemma_struct_decls_view_index(s: Seq<CStruct>, i: int)
    requires
        0 <= i < s.len(),
    ensures
        spec_struct_decls_view(s)[i] == s[i]@,
{
}

/// A C enum declaration: original name and enumerators in source order.
#[derive(Debug, Clone)]
pub struct CEnum {
    pub name: String,
    pub values: Vec<EnumValue>,
}

impl View for CEnum {
    type V = EnumView;

    open spec fn view(&self) -> EnumView {
        EnumView { name: self.name@, values: spec_values_view(self.values@) }
    }
}

/// Folds the children of an `enumerator` node: the first identifier is the
/// enumerator's name; a number literal, or a later identifier referencing
/// an earlier enumerator, is its right-hand side.
pub open spec fn spec_enumerator_fold(
    ch: Seq<SyntaxNode>,
    i: int,
    name: Seq<char>,
    lit: Option<Seq<char>>,
) -> (Seq<char>, Option<Seq<char>>)
    decreases ch.len() - i,
{
    if i < 0 || i >= ch.len() {
        (name, lit)
    } else {
        let c = ch[i];
        if c.kind@ == "identifier"@ {
            if name.len() == 0 {
                spec_enumerator_fold(ch, i + 1, c.text@, lit)
            } else {
                spec_enumerator_fold(ch, i + 1, name, Some(c.text@))
            }
        } else if c.kind@ == "number_literal"@ {
            spec_enumerator_fold(ch, i + 1, name, Some(c.text@))
        } else {
            spec_enumerator_fold(ch, i + 1, name, lit)
        }
    }
}

/// What parsing one `enumerator` node yields: `None` exactly when the node
/// holds no name.
pub open spec fn spec_parse_enumerator(n: SyntaxNode) -> Option<EnumValueView> {
    let (name, lit) = spec_enumerator_fold(n.children@, 0, Seq::empty(), None);
    if name.len() > 0 {
        Some(EnumValueView { name, literal: lit })
    } else {
        None
    }
}

pub fn parse_enumerator(n: &SyntaxNode) -> (r: Option<EnumValue>)
    ensures
        spec_parse_enumerator(*n) == (match r {
            Some(v) => Some(v@),
            None => None::<EnumValueView>,
        }),
{
    let mut name = String::new();
    let mut value: Option<String> = None;
    let mut i: usize = 0;
    let len = n.children.len();
    while i < len
        invariant
            len == n.children@.len(),
            i <= len,
            spec_enumerator_fold(
                n.children@,
                i as int,
                name@,
                match value {
                    Some(ref s) => Some(s@),
                    None => None,
                },
            ) == spec_enumerator_fold(n.children@, 0, Seq::empty(), None),
        decreases len - i,
    {
        let c = &n.children[i];
        if str_eq(c.kind.as_str(), "identifier") {
            if name.as_str().unicode_len() == 0 {
                name = c.text.clone();
            } else {
                value = Some(c.text.clone());
            }
        } else if str_eq(c.kind.as_str(), "number_literal") {
            value = Some(c.text.clone());
        }
        i = i + 1;
    }
    if name.as_str().unicode_len() > 0 {
        Some(EnumValue { name, value })
    } else {
        None
    }
}

/// Folds an `enumerator_list` node: every parseable `enumerator` child is
/// kept, in source order.
pub open spec fn spec_enumerator_list_fold(
    ch: Seq<SyntaxNode>,
    i: int,
    acc: Seq<EnumValueView>,
) -> Seq<EnumValueView>
    decreases ch.len() - i,
{
    if i < 0 || i >= ch.len() {
        acc
    } else {
        let c = ch[i];
        if c.kind@ == "enumerator"@ {
            match spec_parse_enumerator(c) {
                Some(v) => spec_enumerator_list_fold(ch, i + 1, acc.push(v)),
                None => spec_enumerator_list_fold(ch, i + 1, acc),
            }
        } else {
            spec_enumerator_list_fold(ch, i + 1, acc)
        }
    }
}

pub open spec fn spec_parse_enumerator_list(n: SyntaxNode) -> Seq<EnumValueView> {
    spec_enumerator_list_fold(n.children@, 0, Seq::empty())
}

pub fn parse_enumerator_list(n: &SyntaxNode) -> (r: Vec<EnumValue>)
    ensures
        r@.map_values(|v: EnumValue| v@) == spec_parse_enumerator_list(*n),
{
    let mut values: Vec<EnumValue> = Vec::new();
    let mut i: usize = 0;
    let len = n.children.len();
    proof {
        assert(values@.map_values(|v: EnumValue| v@) =~= Seq::<EnumValueView>::empty());
    }
    while i < len
        invariant
            len == n.children@.len(),
            i <= len,
            spec_enumerator_list_fold(n.children@, i as int, values@.map_values(|v: EnumValue| v@))
                == spec_parse_enumerator_list(*n),
        decreases len - i,
    {
        let c = &n.children[i];
        if str_eq(c.kind.as_str(), "enumerator") {
            let ghost before = values@.map_values(|v: EnumValue| v@);
            if let Some(v) = parse_enumerator(c) {
                values.push(v);
                proof {
                    assert(values@.map_values(|v: EnumValue| v@) =~= before.push(
                        values@.last()@,
                    ));
                }
            }
        }
        i = i + 1;
    }
    values
}

/// Folds an `enum_specifier` node: the last `type_identifier` child names
/// the enum, the last `enumerator_list` child holds its values.
pub open spec fn spec_enum_fold(
    ch: Seq<SyntaxNode>,
    i: int,
    name: Seq<char>,
    values: Seq<EnumValueView>,
) -> (Seq<char>, Seq<EnumValueView>)
    decreases ch.len() - i,
{
    if i < 0 || i >= ch.len() {
        (name, values)
    } else {
        let c = ch[i];
        if c.kind@ == "type_identifier"@ {
            spec_enum_fold(ch, i + 1, c.text@, values)
        } else if c.kind@ == "enumerator_list"@ {
            spec_enum_fold(ch, i + 1, name, spec_parse_enumerator_list(c))
        } else {
            spec_enum_fold(ch, i + 1, name, values)
        }
    }
}

/// What parsing one `enum_specifier` node yields: `None` exactly when the
/// declaration has no name.
pub open spec fn spec_parse_enum(n: SyntaxNode) -> Option<EnumView> {
    let (name, values) = spec_enum_fold(n.children@, 0, Seq::empty(), Seq::empty());
    if name.len() > 0 {
        Some(EnumView { name, values })
    } else {
        None
    }
}

pub fn parse_enum(n: &SyntaxNode) -> (r: Option<CEnum>)
    ensures
        spec_parse_enum(*n) == (match r {
            Some(e) => Some(e@),
            None => None::<EnumView>,
        }),
{
    let mut name = String::new();
    let mut values: Vec<EnumValue> = Vec::new();
    let mut i: usize = 0;
    let len = n.children.len();
    proof {
        assert(values@.map_values(|v: EnumValue| v@) =~= Seq::<EnumValueView>::empty());
    }
    while i < len
        invariant
            len == n.children@.len(),
            i <= len,
            spec_enum_fold(
                n.children@,
                i as int,
                name@,
                values@.map_values(|v: EnumValue| v@),
            ) == spec_enum_fold(n.children@, 0, Seq::empty(), Seq::empty()),
        decreases len - i,
    {
        let c = &n.children[i];
        if str_eq(c.kind.as_str(), "type_identifier") {
            name = c.text.clone();
        } else if str_eq(c.kind.as_str(), "enumerator_list") {
            values = parse_enumerator_list(c);
        }
        i = i + 1;
    }
    if name.as_str().unicode_len() > 0 {
        Some(CEnum { name, values })
    } else {
        None
    }
}

/// Folds the children of a `pointer_declarator` node: stars accumulate,
/// the innermost identifier wins, nested pointer declarators contribute
/// their stars and identifier when they hold one.
pub open spec fn spec_ptr_fold(
    ch: Seq<SyntaxNode>,
    i: int,
    stars: Seq<char>,
    id: Seq<char>,
) -> (Seq<char>, Seq<char>)
    decreases ch, ch.len() - i,
{
    if i < 0 || i >= ch.len() {
        (stars, id)
    } else {
        let c = ch[i];
        if c.kind@ == "*"@ {
            spec_ptr_fold(ch, i + 1, stars.push('*'), id)
        } else if c.kind@ == "identifier"@ || c.kind@ == "field_identifier"@ {
            spec_ptr_fold(ch, i + 1, stars, c.text@)
        } else if c.kind@ == "pointer_declarator"@ {
            let (ns, nid) = spec_ptr_fold(c.children@, 0, Seq::empty(), Seq::empty());
            if nid.len() > 0 {
                spec_ptr_fold(ch, i + 1, stars + ns, nid)
            } else {
                spec_ptr_fold(ch, i + 1, stars, id)
            }
        } else {
            spec_ptr_fold(ch, i + 1, stars, id)
        }
    }
}

/// What parsing one `pointer_declarator` node yields: the pointer stars and
/// the declared identifier; `None` exactly when no identifier was found.
pub open spec fn spec_parse_pointer_declarator(n: SyntaxNode) -> Option<(Seq<char>, Seq<char>)> {
    let (stars, id) = spec_ptr_fold(n.children@, 0, Seq::empty(), Seq::empty());
    if id.len() > 0 {
        Some((stars, id))
    } else {
        None
    }
}

pub fn parse_pointer_declarator(n: &SyntaxNode) -> (r: Option<(String, String)>)
    ensures
        spec_parse_pointer_declarator(*n) == (match r {
            Some((a, b)) => Some((a@, b@)),
            None => None::<(Seq<char>, Seq<char>)>,
        }),
    decreases *n,
{
    let mut stars = String::new();
    let mut identifier = String::new();
    let mut i: usize = 0;
    let len = n.children.len();
    while i < len
        invariant
            len == n.children@.len(),
            i <= len,
            spec_ptr_fold(n.children@, i as int, stars@, identifier@) == spec_ptr_fold(
                n.children@,
                0,
                Seq::empty(),
                Seq::empty(),
            ),
        decreases len - i,
    {
        let c = &n.children[i];
        if str_eq(c.kind.as_str(), "*") {
            crate::str_utils::push_char(&mut stars, '*');
        } else if str_eq(c.kind.as_str(), "identifier") || str_eq(
            c.kind.as_str(),
            "field_identifier",
        ) {
            identifier = c.text.clone();
        } else if str_eq(c.kind.as_str(), "pointer_declarator") {
            proof {
                assert(decreases_to!(*n => n.children));
                assert(decreases_to!(n.children => n.children@));
                assert(decreases_to!(n.children@ => n.children@[i as int]));
            }
            if let Some((nested_stars, nested_id)) = parse_pointer_declarator(c) {
                stars.append(nested_stars.as_str());
                identifier = nested_id;
            }
        }
        i = i + 1;
    }
    if identifier.as_str().unicode_len() > 0 {
        Some((stars, identifier))
    } else {
        None
    }
}

/// State for folding an `array_declarator` node.
pub ghost struct ArrayAcc {
    pub id: Seq<char>,
    pub brackets: Seq<char>,
    pub size: Option<Seq<char>>,
}

/// Folds the children of an `array_declarator` node: the identifier, the
/// bracket text with the optional constant bound inside, and that bound by
/// itself.
pub open spec fn spec_array_fold(ch: Seq<SyntaxNode>, i: int, acc: ArrayAcc) -> ArrayAcc
    decreases ch.len() - i,
{
    if i < 0 || i >= ch.len() {
        acc
    } else {
        let c = ch[i];
        if c.kind@ == "identifier"@ || c.kind@ == "field_identifier"@ {
            spec_array_fold(ch, i + 1, ArrayAcc { id: c.text@, ..acc })
        } else if c.kind@ == "["@ {
            spec_array_fold(ch, i + 1, ArrayAcc { brackets: acc.brackets.push('['), ..acc })
        } else if c.kind@ == "]"@ {
            spec_array_fold(ch, i + 1, ArrayAcc { brackets: acc.brackets.push(']'), ..acc })
        } else if c.kind@ == "number_literal"@ {
            spec_array_fold(
                ch,
                i + 1,
                ArrayAcc { brackets: acc.brackets + c.text@, size: Some(c.text@), ..acc },
            )
        } else {
            spec_array_fold(ch, i + 1, acc)
        }
    }
}

/// What parsing one `array_declarator` node yields: identifier, bracket
/// text and optional bound; `None` exactly when no identifier was found.
pub open spec fn spec_parse_array_declarator(n: SyntaxNode) -> Option<ArrayAcc> {
    let acc = spec_array_fold(
        n.children@,
        0,
        ArrayAcc { id: Seq::empty(), brackets: Seq::empty(), size: None },
    );
    if acc.id.len() > 0 {
        Some(acc)
    } else {
        None
    }
}

pub fn parse_array_declarator(n: &SyntaxNode) -> (r: Option<(String, String, Option<String>)>)
    ensures
        (match r {
            Some((id, br, sz)) => spec_parse_array_declarator(*n) == Some(
                (ArrayAcc {
                    id: id@,
                    brackets: br@,
                    size: match sz {
                        Some(s) => Some(s@),
                        None => None,
                    },
                }),
            ),
            None => spec_parse_array_declarator(*n) is None,
        }),
{
    let mut identifier = String::new();
    let mut brackets = String::new();
    let mut size: Option<String> = None;
    let mut i: usize = 0;
    let len = n.children.len();
    while i < len
        invariant
            len == n.children@.len(),
            i <= len,
            spec_array_fold(
                n.children@,
                i as int,
                ArrayAcc {
                    id: identifier@,
                    brackets: brackets@,
                    size: match size {
                        Some(ref s) => Some(s@),
                        None => None,
                    },
                },
            ) == spec_array_fold(
                n.children@,
                0,
                ArrayAcc { id: Seq::empty(), brackets: Seq::empty(), size: None },
            ),
        decreases len - i,
    {
        let c = &n.children[i];
        if str_eq(c.kind.as_str(), "identifier") || str_eq(c.kind.as_str(), "field_identifier") {
            identifier = c.text.clone();
        } else if str_eq(c.kind.as_str(), "[") {
            crate::str_utils::push_char(&mut brackets, '[');
        } else if str_eq(c.kind.as_str(), "]") {
            crate::str_utils::push_char(&mut brackets, ']');
        } else if str_eq(c.kind.as_str(), "number_literal") {
            brackets.append(c.text.as_str());
            size = Some(c.text.clone());
        }
        i = i + 1;
    }
    if identifier.as_str().unicode_len() > 0 {
        Some((identifier, brackets, size))
    } else {
        None
    }
}

/// State for folding a `field_declaration` node.
pub ghost struct FieldAcc {
    pub ty: Seq<char>,
    pub name: Seq<char>,
    pub is_pointer: bool,
    pub is_array: bool,
    pub size: Option<Seq<char>>,
}

/// Folds the children of a `field_declaration` node, combining the base
/// type with pointer stars and array brackets and attaching the identifier
/// from whichever declarator wraps it.
pub open spec fn spec_field_fold(ch: Seq<SyntaxNode>, i: int, acc: FieldAcc) -> FieldAcc
    decreases ch.len() - i,
{
    if i < 0 || i >= ch.len() {
        acc
    } else {
        let c = ch[i];
        if c.kind@ == "primitive_type"@ {
            spec_field_fold(ch, i + 1, FieldAcc { ty: c.text@, ..acc })
        } else if c.kind@ == "type_identifier"@ {
            if acc.ty.len() == 0 {
                spec_field_fold(ch, i + 1, FieldAcc { ty: c.text@, ..acc })
            } else {
                spec_field_fold(ch, i + 1, acc)
            }
        } else if c.kind@ == "field_identifier"@ {
            spec_field_fold(ch, i + 1, FieldAcc { name: c.text@, ..acc })
        } else if c.kind@ == "identifier"@ {
            if acc.name.len() == 0 {
                spec_field_fold(ch, i + 1, FieldAcc { name: c.text@, ..acc })
            } else {
                spec_field_fold(ch, i + 1, acc)
            }
        } else if c.kind@ == "pointer_declarator"@ {
            match spec_parse_pointer_declarator(c) {
                Some((stars, id)) => spec_field_fold(
                    ch,
                    i + 1,
                    FieldAcc {
                        ty: acc.ty + stars,
                        name: if acc.name.len() == 0 {
                            id
                        } else {
                            acc.name
                        },
                        is_pointer: true,
                        ..acc
                    },
                ),
                None => spec_field_fold(ch, i + 1, acc),
            }
        } else if c.kind@ == "array_declarator"@ {
            match spec_parse_array_declarator(c) {
                Some(arr) => spec_field_fold(
                    ch,
                    i + 1,
                    FieldAcc {
                        ty: acc.ty + arr.brackets,
                        name: arr.id,
                        is_array: true,
                        size: arr.size,
                        ..acc
                    },
                ),
                None => spec_field_fold(ch, i + 1, acc),
            }
        } else {
            spec_field_fold(ch, i + 1, acc)
        }
    }
}

/// What parsing one `field_declaration` node yields: type and name are
/// trimmed of surrounding whitespace, and a field whose trimmed type or
/// trimmed name is empty is never materialized.
pub open spec fn spec_parse_field_declaration(n: SyntaxNode) -> Option<FieldView> {
    let acc = spec_field_fold(
        n.children@,
        0,
        FieldAcc { ty: Seq::empty(), name: Seq::empty(), is_pointer: false, is_array: false, size: None },
    );
    let ty = spec_trim(acc.ty);
    let name = spec_trim(acc.name);
    if ty.len() > 0 && name.len() > 0 {
        Some(
            FieldView {
                ty: ty,
                name: name,
                is_pointer: acc.is_pointer,
                is_array: acc.is_array,
                array_size: acc.size,
            },
        )
    } else {
        None
    }
}

pub fn parse_field_declaration(n: &SyntaxNode) -> (r: Option<CField>)
    ensures
        spec_parse_field_declaration(*n) == (match r {
            Some(f) => Some(f@),
            None => None::<FieldView>,
        }),
{
    let mut field_type = String::new();
    let mut field_name = String::new();
    let mut is_pointer = false;
    let mut is_array = false;
    let mut array_size: Option<String> = None;
    let mut i: usize = 0;
    let len = n.children.len();
    while i < len
        invariant
            len == n.children@.len(),
            i <= len,
            spec_field_fold(
                n.children@,
                i as int,
                FieldAcc {
                    ty: field_type@,
                    name: field_name@,
                    is_pointer: is_pointer,
                    is_array: is_array,
                    size: match array_size {
                        Some(ref s) => Some(s@),
                        None => None,
                    },
                },
            ) == spec_field_fold(
                n.children@,
                0,
                FieldAcc {
                    ty: Seq::empty(),
                    name: Seq::empty(),
                    is_pointer: false,
                    is_array: false,
                    size: None,
                },
            ),
        decreases len - i,
    {
        let c = &n.children[i];
        if str_eq(c.kind.as_str(), "primitive_type") {
            field_type = c.text.clone();
        } else if str_eq(c.kind.as_str(), "type_identifier") {
            if field_type.as_str().unicode_len() == 0 {
                field_type = c.text.clone();
            }
        } else if str_eq(c.kind.as_str(), "field_identifier") {
            field_name = c.text.clone();
        } else if str_eq(c.kind.as_str(), "identifier") {
            if field_name.as_str().unicode_len() == 0 {
                field_name = c.text.clone();
            }
        } else if str_eq(c.kind.as_str(), "pointer_declarator") {
            if let Some((stars, id)) = parse_pointer_declarator(c) {
                field_type.append(stars.as_str());
                if field_name.as_str().unicode_len() == 0 {
                    field_name = id;
                }
                is_pointer = true;
            }
        } else if str_eq(c.kind.as_str(), "array_declarator") {
            if let Some((id, brackets, size)) = parse_array_declarator(c) {
                field_type.append(brackets.as_str());
                field_name = id;
                is_array = true;
                array_size = size;
            }
        }
        i = i + 1;
    }
    let trimmed_type = trim(field_type.as_str());
    let trimmed_name = trim(field_name.as_str());
    if trimmed_type.as_str().unicode_len() > 0 && trimmed_name.as_str().unicode_len() > 0 {
        Some(
            CField {
                field_type: trimmed_type,
                name: trimmed_name,
                is_pointer,
                is_array,
                array_size,
            },
        )
    } else {
        None
    }
}

/// Folds a `field_declaration_list` node: every parseable
/// `field_declaration` child is kept, in source order.
pub open spec fn spec_field_list_fold(
    ch: Seq<SyntaxNode>,
    i: int,
    acc: Seq<FieldView>,
) -> Seq<FieldView>
    decreases ch.len() - i,
{
    if i < 0 || i >= ch.len() {
        acc
    } else {
        let c = ch[i];
        if c.kind@ == "field_declaration"@ {
            match spec_parse_field_declaration(c) {
                Some(f) => spec_field_list_fold(ch, i + 1, acc.push(f)),
                None => spec_field_list_fold(ch, i + 1, acc),
            }
        } else {
            spec_field_list_fold(ch, i + 1, acc)
        }
    }
}

pub open spec fn spec_parse_field_declaration_list(n: SyntaxNode) -> Seq<FieldView> {
    spec_field_list_fold(n.children@, 0, Seq::empty())
}

pub fn parse_field_declaration_list(n: &SyntaxNode) -> (r: Vec<CField>)
    ensures
        r@.map_values(|f: CField| f@) == spec_parse_field_declaration_list(*n),
{
    let mut fields: Vec<CField> = Vec::new();
    let mut i: usize = 0;
    let len = n.children.len();
    proof {
        assert(fields@.map_values(|f: CField| f@) =~= Seq::<FieldView>::empty());
    }
    while i < len
        invariant
            len == n.children@.len(),
            i <= len,
            spec_field_list_fold(n.children@, i as int, fields@.map_values(|f: CField| f@))
                == spec_parse_field_declaration_list(*n),
        decreases len - i,
    {
        let c = &n.children[i];
        if str_eq(c.kind.as_str(), "field_declaration") {
            let ghost before = fields@.map_values(|f: CField| f@);
            if let Some(f) = parse_field_declaration(c) {
                fields.push(f);
                proof {
                    assert(fields@.map_values(|f: CField| f@) =~= before.push(fields@.last()@));
                }
            }
        }
        i = i + 1;
    }
    fields
}

/// Folds a `struct_specifier` node: the last `type_identifier` child names
/// the struct, the last `field_declaration_list` child holds its fields.
pub open spec fn spec_struct_fold(
    ch: Seq<SyntaxNode>,
    i: int,
    name: Seq<char>,
    fields: Seq<FieldView>,
) -> (Seq<char>, Seq<FieldView>)
    decreases ch.len() - i,
{
    if i < 0 || i >= ch.len() {
        (name, fields)
    } else {
        let c = ch[i];
        if c.kind@ == "type_identifier"@ {
            spec_struct_fold(ch, i + 1, c.text@, fields)
        } else if c.kind@ == "field_declaration_list"@ {
            spec_struct_fold(ch, i + 1, name, spec_parse_field_declaration_list(c))
        } else {
            spec_struct_fold(ch, i + 1, name, fields)
        }
    }
}

/// What parsing one `struct_specifier` node yields: `None` exactly when
/// the declaration has no name.
pub open spec fn spec_parse_struct(n: SyntaxNode) -> Option<StructView> {
    let (name, fields) = spec_struct_fold(n.children@, 0, Seq::empty(), Seq::empty());
    if name.len() > 0 {
        Some(StructView { name, fields })
    } else {
        None
    }
}

pub fn parse_struct(n: &SyntaxNode) -> (r: Option<CStruct>)
    ensures
        spec_parse_struct(*n) == (match r {
            Some(s) => Some(s@),
            None => None::<StructView>,
        }),
{
    let mut name = String::new();
    let mut fields: Vec<CField> = Vec::new();
    let mut i: usize = 0;
    let len = n.children.len();
    proof {
        assert(fields@.map_values(|f: CField| f@) =~= Seq::<FieldView>::empty());
    }
    while i < len
        invariant
            len == n.children@.len(),
            i <= len,
            spec_struct_fold(
                n.children@,
                i as int,
                name@,
                fields@.map_values(|f: CField| f@),
            ) == spec_struct_fold(n.children@, 0, Seq::empty(), Seq::empty()),
        decreases len - i,
    {
        let c = &n.children[i];
        if str_eq(c.kind.as_str(), "type_identifier") {
            name = c.text.clone();
        } else if str_eq(c.kind.as_str(), "field_declaration_list") {
            fields = parse_field_declaration_list(c);
        }
        i = i + 1;
    }
    if name.as_str().unicode_len() > 0 {
        Some(CStruct { name, fields })
    } else {
        None
    }
}

/// Struct declarations found in the subtree rooted at `n`, in source
/// order.  A captured struct is not descended into: declarations nested in
/// a field are not pursued.
pub open spec fn spec_extract_structs(n: SyntaxNode) -> Seq<StructView>
    decreases n, 0int,
{
    if n.kind@ == "struct_specifier"@ {
        match spec_parse_struct(n) {
            Some(s) => seq![s],
            None => Seq::empty(),
        }
    } else if n.kind@ == "enum_specifier"@ {
        Seq::empty()
    } else {
        spec_extract_structs_from(n.children@, 0)
    }
}

pub open spec fn spec_extract_structs_from(ch: Seq<SyntaxNode>, i: int) -> Seq<StructView>
    decreases ch, ch.len() - i + 1,
{
    if i < 0 || i >= ch.len() {
        Seq::empty()
    } else {
        spec_extract_structs(ch[i]) + spec_extract_structs_from(ch, i + 1)
    }
}

/// Enum declarations found in the subtree rooted at `n`, in source order.
pub open spec fn spec_extract_enums(n: SyntaxNode) -> Seq<EnumView>
    decreases n, 0int,
{
    if n.kind@ == "struct_specifier"@ {
        Seq::empty()
    } else if n.kind@ == "enum_specifier"@ {
        match spec_parse_enum(n) {
            Some(e) => seq![e],
            None => Seq::empty(),
        }
    } else {
        spec_extract_enums_from(n.children@, 0)
    }
}

pub open spec fn spec_extract_enums_from(ch: Seq<SyntaxNode>, i: int) -> Seq<EnumView>
    decreases ch, ch.len() - i + 1,
{
    if i < 0 || i >= ch.len() {
        Seq::empty()
    } else {
        spec_extract_enums(ch[i]) + spec_extract_enums_from(ch, i + 1)
    }
}

/// Recursive visit collecting struct and enum declarations.
pub fn extract_declarations(
    node: &SyntaxNode,
    structs: &mut Vec<CStruct>,
    enums: &mut Vec<CEnum>,
)
    ensures
        final(structs)@.map_values(|s: CStruct| s@) == old(structs)@.map_values(|s: CStruct| s@)
            + spec_extract_structs(*node),
        final(enums)@.map_values(|e: CEnum| e@) == old(enums)@.map_values(|e: CEnum| e@)
            + spec_extract_enums(*node),
    decreases *node,
{
    let ghost s0 = structs@.map_values(|s: CStruct| s@);
    let ghost e0 = enums@.map_values(|e: CEnum| e@);
    if str_eq(node.kind.as_str(), "struct_specifier") {
        if let Some(c_struct) = parse_struct(node) {
            structs.push(c_struct);
            proof {
                assert(structs@.map_values(|s: CStruct| s@) =~= s0.push(structs@.last()@));
                assert(s0.push(structs@.last()@) =~= s0 + spec_extract_structs(*node));
            }
        }
        proof {
            assert(structs@.map_values(|s: CStruct| s@) =~= s0 + spec_extract_structs(*node));
            assert(enums@.map_values(|e: CEnum| e@) =~= e0 + spec_extract_enums(*node));
        }
    } else if str_eq(node.kind.as_str(), "enum_specifier") {
        if let Some(c_enum) = parse_enum(node) {
            enums.push(c_enum);
            proof {
                assert(enums@.map_values(|e: CEnum| e@) =~= e0.push(enums@.last()@));
                assert(e0.push(enums@.last()@) =~= e0 + spec_extract_enums(*node));
            }
        }
        proof {
            assert(structs@.map_values(|s: CStruct| s@) =~= s0 + spec_extract_structs(*node));
            assert(enums@.map_values(|e: CEnum| e@) =~= e0 + spec_extract_enums(*node));
        }
    } else {
        let mut i: usize = 0;
        let len = node.children.len();
        proof {
            assert(s0 + Seq::<StructView>::empty() =~= s0);
            assert(e0 + Seq::<EnumView>::empty() =~= e0);
        }
        while i < len
            invariant
                len == node.children@.len(),
                i <= len,
                structs@.map_values(|s: CStruct| s@) + spec_extract_structs_from(
                    node.children@,
                    i as int,
                ) == s0 + spec_extract_structs_from(node.children@, 0),
                enums@.map_values(|e: CEnum| e@) + spec_extract_enums_from(
                    node.children@,
                    i as int,
                ) == e0 + spec_extract_enums_from(node.children@, 0),
            decreases len - i,
        {
            let ghost si = structs@.map_values(|s: CStruct| s@);
            let ghost ei = enums@.map_values(|e: CEnum| e@);
            let c = &node.children[i];
            proof {
                assert(decreases_to!(*node => node.children));
                assert(decreases_to!(node.children => node.children@));
                assert(decreases_to!(node.children@ => node.children@[i as int]));
            }
            extract_declarations(c, structs, enums);
            proof {
                assert((si + spec_extract_structs(*c)) + spec_extract_structs_from(
                    node.children@,
                    i as int + 1,
                ) =~= si + (spec_extract_structs(*c) + spec_extract_structs_from(
                    node.children@,
                    i as int + 1,
                )));
                assert((ei + spec_extract_enums(*c)) + spec_extract_enums_from(
                    node.children@,
                    i as int + 1,
                ) =~= ei + (spec_extract_enums(*c) + spec_extract_enums_from(
                    node.children@,
                    i as int + 1,
                )));
            }
            i = i + 1;
        }
        proof {
            assert(structs@.map_values(|s: CStruct| s@) + Seq::<StructView>::empty()
                =~= structs@.map_values(|s: CStruct| s@));
            assert(enums@.map_values(|e: CEnum| e@) + Seq::<EnumView>::empty() =~= enums@.map_values(
                |e: CEnum| e@,
            ));
        }
    }
}

#[verifier::external_type_specification]
#[verifier::external_body]
pub struct ExTreeSitterParser(tree_sitter::Parser);

#[verifier::external_type_specification]
#[verifier::external_body]
pub struct ExTreeSitterNode<'tree>(tree_sitter::Node<'tree>);

/// How a run over one translation unit can fail.
#[derive(Clone, Copy, Debug, PartialEq, Eq, Structural)]
pub enum ParseError {
    /// The grammar could not be loaded into the parser.
    Init,
    /// The whole translation unit was beyond recovery.
    Syntax,
}

/// The syntax tree that the C grammar assigns to a source text, as plain
/// values; `None` when parsing fails as a whole.  Parsing is deterministic:
/// the tree is a function of the source text alone.
pub uninterp spec fn parsed_tree(source: Seq<char>) -> Option<SyntaxNode>;

/// Relies on `tree_sitter::Node`: `kind`, `start_byte`, `end_byte`,
/// `child_count` and `child` are read to copy the syntax tree, node by
/// node, into plain values.  Called only from `parse_tree` below.
#[verifier::external_body]
fn convert_node(node: tree_sitter::Node<'_>, source: &str) -> SyntaxNode {
    let mut children = Vec::new();
    for i in 0..node.child_count() {
        if let Some(child) = node.child(i) {
            children.push(convert_node(child, source));
        }
    }
    SyntaxNode {
        kind: node.kind().to_string(),
        text: source.get(node.start_byte()..node.end_byte()).unwrap_or("").to_string(),
        children,
    }
}

/// Parses C struct and enum declarations out of a source text through the
/// grammar-based syntax tree.
pub struct CParser {
    parser: tree_sitter::Parser,
}

impl CParser {
    /// Relies on `tree_sitter::Parser::new` and `set_language` with the C
    /// grammar of `tree_sitter_c`.
    #[verifier::external_body]
    pub fn new() -> (r: Result<CParser, ParseError>) {
        let mut parser = tree_sitter::Parser::new();
        let language: tree_sitter::Language = tree_sitter_c::LANGUAGE.into();
        match parser.set_language(&language) {
            Ok(()) => Ok(CParser { parser }),
            Err(_) => Err(ParseError::Init),
        }
    }

    /// Relies on `tree_sitter::Parser::parse`: for a fixed grammar the
    /// resulting tree depends on the source text alone, so the result is
    /// exactly `parsed_tree` of the source.
    #[verifier::external_body]
    fn parse_tree(&mut self, source_code: &str) -> (r: Option<SyntaxNode>)
        ensures
            r == parsed_tree(source_code@),
    {
        let tree = self.parser.parse(source_code, None)?;
        Some(convert_node(tree.root_node(), source_code))
    }

    /// Extracts every struct and enum declaration of the translation unit,
    /// in source order; fails only when the unit as a whole cannot be
    /// parsed.
    pub fn parse_c_code(&mut self, source_code: &str) -> (r: Result<
        (Vec<CStruct>, Vec<CEnum>),
        ParseError,
    >)
        ensures
            match r {
                Ok(p) => parsed_tree(source_code@) is Some && p.0@.map_values(|s: CStruct| s@)
                    == spec_extract_structs(parsed_tree(source_code@)->0) && p.1@.map_values(
                    |e: CEnum| e@,
                ) == spec_extract_enums(parsed_tree(source_code@)->0),
                Err(e) => parsed_tree(source_code@) is None && e == ParseError::Syntax,
            },
    {
        match self.parse_tree(source_code) {
            Some(root) => {
                let mut structs: Vec<CStruct> = Vec::new();
                let mut enums: Vec<CEnum> = Vec::new();
                proof {
                    assert(structs@.map_values(|s: CStruct| s@) =~= Seq::<StructView>::empty());
                    assert(enums@.map_values(|e: CEnum| e@) =~= Seq::<EnumView>::empty());
                }
                extract_declarations(&root, &mut structs, &mut enums);
                proof {
                    assert(Seq::<StructView>::empty() + spec_extract_structs(root)
                        =~= spec_extract_structs(root));
                    assert(Seq::<EnumView>::empty() + spec_extract_enums(root)
                        =~= spec_extract_enums(root));
                }
                Ok((structs, enums))
            },
            None => Err(ParseError::Syntax),
        }
    }
}

} // verus!
