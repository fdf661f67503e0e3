use vulkan_header_converter::c_parser::parse_field_declaration;
use vulkan_header_converter::c_parser::CParser;
use vulkan_header_converter::c_parser::SyntaxNode;
use vulkan_header_converter::generator::cast_s_type;
use vulkan_header_converter::generator::convert_field_name;
use vulkan_header_converter::generator::parse_type_name;
use vulkan_header_converter::generator::Context;
use vulkan_header_converter::generator::ElementsGenerator;
use vulkan_header_converter::generator::VkEnum;
use vulkan_header_converter::generator::VkEnumType;
use vulkan_header_converter::generator::VkStruct;
use vulkan_header_converter::generator::VkStructType;
use vulkan_header_converter::generator::VkType;
use vulkan_header_converter::generator::vk_create_info::VkCreateInfoGenerator;
use vulkan_header_converter::str_utils::camel_to_snake;
use vulkan_header_converter::str_utils::common_prefix_iter;
use vulkan_header_converter::str_utils::replace_all;
use vulkan_header_converter::str_utils::trim;
use vulkan_header_converter::str_utils::upper_snake_to_upper_camel_iter;
use vulkan_header_converter::str_utils::StringBuilder;

#[test]
fn camel_to_snake_examples() {
    assert_eq!(camel_to_snake("maxImageCount"), "max_image_count");
    assert_eq!(camel_to_snake("pNext"), "p_next");
    assert_eq!(camel_to_snake("BufferCreateInfo"), "buffer_create_info");
    assert_eq!(camel_to_snake(""), "");
}

#[test]
fn upper_snake_to_upper_camel_examples() {
    assert_eq!(upper_snake_to_upper_camel_iter("INDEX_BUFFER"), "IndexBuffer");
    assert_eq!(upper_snake_to_upper_camel_iter("_LEADING__DOUBLE"), "LeadingDouble");
    assert_eq!(upper_snake_to_upper_camel_iter(""), "");
}

#[test]
fn common_prefix_examples() {
    let names = vec![
        String::from("VK_CULL_MODE_NONE"),
        String::from("VK_CULL_MODE_FRONT_BIT"),
        String::from("VK_CULL_MODE_BACK_BIT"),
    ];
    assert_eq!(common_prefix_iter(&names), "VK_CULL_MODE_".len());
    let single = vec![String::from("ALONE")];
    assert_eq!(common_prefix_iter(&single), 0);
    let empty: Vec<String> = vec![];
    assert_eq!(common_prefix_iter(&empty), 0);
}

#[test]
fn replace_all_examples() {
    assert_eq!(replace_all("VkSomeVkThing", "Vk", ""), "SomeThing");
    assert_eq!(replace_all("A_BIT_B_BIT", "_BIT", ""), "A_B");
    assert_eq!(replace_all("abc", "abcd", "x"), "abc");
}

#[test]
fn trim_examples() {
    assert_eq!(trim("  unsigned int \t"), "unsigned int");
    assert_eq!(trim("   "), "");
    assert_eq!(trim("x"), "x");
}

#[test]
fn field_name_rewriting_is_idempotent_on_examples() {
    for input in ["pNext", "maxImageCount", "ppEnabledLayerNames", "width"] {
        let once = convert_field_name(input);
        let twice = convert_field_name(once.as_str());
        assert_eq!(once, twice);
    }
    assert_eq!(convert_field_name("pNext"), "next");
    assert_eq!(convert_field_name("ppEnabledLayerNames"), "pp_enabled_layer_names");
}

#[test]
fn classifier_examples() {
    assert_eq!(parse_type_name("uint32_t"), VkType::Primitive);
    assert_eq!(parse_type_name("VkBool32"), VkType::VkBool32);
    assert_eq!(parse_type_name("VkBufferUsageFlags"), VkType::VkFlags);
    assert_eq!(parse_type_name("VkAccessFlags2"), VkType::VkFlags);
    assert_eq!(parse_type_name("VkSampleCountFlagBitsEXT"), VkType::VkFlags);
    assert_eq!(parse_type_name("VkBufferCreateInfo"), VkType::VkCreateInfo);
    assert_eq!(parse_type_name("VkExtent2D"), VkType::VkOthers);
    assert_eq!(parse_type_name("size_t"), VkType::Others);
}

#[test]
fn vk_type_conversion_examples() {
    assert_eq!(VkType::VkCreateInfo.convert("VkBufferCreateInfo"), "BufferCreateInfo");
    assert_eq!(VkType::VkFlags.convert("VkBufferUsageFlags"), "BufferUsageFlag");
    assert_eq!(VkType::VkFlags.convert("VkCullModeFlagBits"), "CullModeFlag");
    assert_eq!(VkType::Primitive.convert("uint16_t"), "u16");
    assert_eq!(VkType::VkBool32.convert("VkBool32"), "bool");
    assert_eq!(VkType::Others.convert("size_t"), "size_t");
}

#[test]
fn vk_type_cast_examples() {
    assert_eq!(
        VkType::VkFlags.cast_variable("VkBufferUsageFlags", "usage"),
        "static_cast<VkBufferUsageFlags>(usage)"
    );
    assert_eq!(VkType::VkCreateInfo.cast_variable("VkBufferCreateInfo", "info"), "info.raw()");
    assert_eq!(VkType::VkBool32.cast_variable("VkBool32", "clipped"), "static_cast<VkBool32>(clipped)");
    assert_eq!(VkType::Primitive.cast_variable("uint32_t", "width"), "width");
}

#[test]
fn cast_s_type_examples() {
    assert_eq!(cast_s_type("VkImageViewCreateInfo"), "VK_STRUCT_TYPE_IMAGE_VIEW_CREATE_INFO");
    assert_eq!(cast_s_type("VkFramebufferCreateInfo"), "VK_STRUCT_TYPE_FRAMEBUFFER_CREATE_INFO");
}

#[test]
fn prefix_stripping_keeps_interior_occurrences() {
    assert_eq!(VkType::VkCreateInfo.convert("VkAVkB"), "AVkB");
    assert_eq!(VkStruct::parse_new_name("VkAVkB", VkStructType::Normal), "AVkB");
    assert_eq!(VkStruct::parse_new_name("SomeVkThing", VkStructType::Normal), "SomeVkThing");
    assert_eq!(
        VkEnum::parse_new_name("VkAVkBFlagBits", VkEnumType::Flags),
        "AVkBFlags"
    );
    assert_eq!(cast_s_type("VkAVkB"), "VK_STRUCT_TYPE_AVK_B");
}

#[test]
fn whitespace_only_field_tokens_are_dropped() {
    let node = SyntaxNode {
        kind: String::from("field_declaration"),
        text: String::from("   x;"),
        children: vec![
            SyntaxNode {
                kind: String::from("primitive_type"),
                text: String::from("   "),
                children: vec![],
            },
            SyntaxNode {
                kind: String::from("identifier"),
                text: String::from("x"),
                children: vec![],
            },
        ],
    };
    assert!(parse_field_declaration(&node).is_none());
    let good = SyntaxNode {
        kind: String::from("field_declaration"),
        text: String::from("int x;"),
        children: vec![
            SyntaxNode {
                kind: String::from("primitive_type"),
                text: String::from(" int "),
                children: vec![],
            },
            SyntaxNode {
                kind: String::from("identifier"),
                text: String::from("x"),
                children: vec![],
            },
        ],
    };
    let field = parse_field_declaration(&good).unwrap();
    assert_eq!(field.field_type, "int");
    assert_eq!(field.name, "x");
}

#[test]
fn enum_and_struct_classification() {
    assert_eq!(VkEnum::parse_type("VkCullModeFlagBits"), VkEnumType::Flags);
    assert_eq!(VkEnum::parse_type("VkSharingMode"), VkEnumType::Normal);
    assert_eq!(VkEnum::parse_new_name("VkCullModeFlagBits", VkEnumType::Flags), "CullModeFlags");
    assert_eq!(VkEnum::parse_new_name("VkSharingMode", VkEnumType::Normal), "SharingMode");
    assert_eq!(VkStruct::parse_new_name("VkExtent2D", VkStructType::Normal), "Extent2D");
}

#[test]
fn string_builder_behaviour() {
    let mut b = StringBuilder::new();
    b.line("a");
    b.tab();
    b.line("b");
    b.end_tab();
    b.end_tab();
    b.line("c");
    b.push_str("d");
    assert_eq!(b.clone_result(), "a\n    b\nc\nd");
    b.clear_tab();
    let out = b.take_result();
    assert_eq!(out, "a\n    b\nc\nd");
}

#[test]
fn string_builder_scope() {
    let b = StringBuilder::new();
    let b = b.scope("struct X", true, |mut inner: StringBuilder| {
        inner.line("int a;");
        inner
    });
    assert_eq!(b.clone_result(), "struct X {\n    int a;\n};\n");
}

#[test]
fn parser_collects_pointer_and_array_fields() {
    let source = "
typedef struct VkThing {
    void** ppData;
    float color[4];
    uint32_t count;
} VkThing;
";
    let mut parser = CParser::new().unwrap();
    let (structs, _enums) = parser.parse_c_code(source).unwrap();
    assert_eq!(structs.len(), 1);
    let s = &structs[0];
    assert_eq!(s.name, "VkThing");
    assert_eq!(s.fields.len(), 3);
    assert_eq!(s.fields[0].name, "ppData");
    assert_eq!(s.fields[0].field_type, "void**");
    assert!(s.fields[0].is_pointer);
    assert_eq!(s.fields[1].name, "color");
    assert_eq!(s.fields[1].field_type, "float[4]");
    assert!(s.fields[1].is_array);
    assert_eq!(s.fields[1].array_size.as_deref(), Some("4"));
    assert_eq!(s.fields[2].name, "count");
    assert_eq!(s.fields[2].field_type, "uint32_t");
    assert!(!s.fields[2].is_pointer);
}

#[test]
fn parser_drops_nameless_declarations() {
    let source = "
typedef struct {
    uint32_t a;
} Anonymous;

typedef enum VkOk {
    VK_OK_ONE = 1
} VkOk;
";
    let mut parser = CParser::new().unwrap();
    let (structs, enums) = parser.parse_c_code(source).unwrap();
    assert_eq!(structs.len(), 0);
    assert_eq!(enums.len(), 1);
    assert_eq!(enums[0].name, "VkOk");
    assert_eq!(enums[0].values.len(), 1);
    assert_eq!(enums[0].values[0].name, "VK_OK_ONE");
    assert_eq!(enums[0].values[0].value.as_deref(), Some("1"));
}

#[test]
fn vk_create_info_test_generator() {
    let source = "
typedef struct VkSemaphoreCreateInfo {
    VkStructureType sType;
    void* pNext;
    uint32_t flags;
} VkSemaphoreCreateInfo;

typedef struct VkExtent2D {
    uint32_t width;
    uint32_t height;
} VkExtent2D;
";
    let mut parser = CParser::new().unwrap();
    let result = parser.parse_c_code(source).unwrap();
    let context = Context::new(Vec::new(), Vec::new());
    let generator = VkCreateInfoGenerator;
    let output = generator.generate(&result.0, &context);
    println!("{}", &output);
    assert!(output.contains("struct SemaphoreCreateInfo {"));
    assert!(output.contains(".sType = VK_STRUCT_TYPE_SEMAPHORE_CREATE_INFO,"));
    assert!(!output.contains("struct Extent2D"));
}
