use vulkan_header_converter::c_parser::CEnum;
use vulkan_header_converter::c_parser::CField;
use vulkan_header_converter::c_parser::CParser;
use vulkan_header_converter::c_parser::CStruct;
use vulkan_header_converter::c_parser::EnumValue;
use vulkan_header_converter::generator::Context;
use vulkan_header_converter::translate_header;

fn sharing_mode() -> CEnum {
    CEnum {
        name: String::from("VkSharingMode"),
        values: vec![
            EnumValue { name: String::from("VK_SHARING_MODE_EXCLUSIVE"), value: Some(String::from("0")) },
            EnumValue { name: String::from("VK_SHARING_MODE_CONCURRENT"), value: Some(String::from("1")) },
        ],
    }
}

fn extent() -> CStruct {
    CStruct {
        name: String::from("VkExtent2D"),
        fields: vec![
            CField {
                field_type: String::from("uint32_t"),
                name: String::from("width"),
                is_pointer: false,
                is_array: false,
                array_size: None,
            },
        ],
    }
}

#[test]
fn registry_resolves_field_type_names() {
    let context = Context::new(vec![sharing_mode()], vec![extent()]);
    assert_eq!(context.get_field_new_type_name("VkSharingMode"), "SharingMode");
    assert_eq!(context.get_field_new_type_name("VkExtent2D"), "Extent2D");
    assert_eq!(context.get_field_new_type_name("uint32_t"), "u32");
    assert_eq!(context.get_field_new_type_name("VkBool32"), "bool");
    assert_eq!(context.get_field_new_type_name("size_t"), "size_t");
}

#[test]
fn registry_picks_the_cast_for_each_kind() {
    let context = Context::new(vec![sharing_mode()], vec![extent()]);
    assert_eq!(
        context.cast_variable("VkSharingMode", "sharing_mode"),
        "static_cast<VkSharingMode>(sharing_mode)"
    );
    assert_eq!(context.cast_variable("VkExtent2D", "extent"), "extent.raw()");
    assert_eq!(context.cast_variable("VkBool32", "clipped"), "static_cast<VkBool32>(clipped)");
    assert_eq!(context.cast_variable("uint32_t", "width"), "width");
}

#[test]
fn later_declaration_under_one_name_wins() {
    let source = "
typedef struct VkExtent2D {
    uint32_t width;
} VkExtent2D;

typedef struct VkExtent2D {
    uint32_t width;
    uint32_t height;
} VkExtent2D;
";
    let mut parser = CParser::new().unwrap();
    let output = translate_header(&mut parser, source).unwrap();
    assert_eq!(output.matches("struct Extent2D {").count(), 1);
    assert!(output.contains("    u32 height;"));
}

#[test]
fn single_value_enum_strips_no_prefix() {
    let source = "
typedef enum VkSolo {
    VK_SOLO = 3
} VkSolo;
";
    let mut parser = CParser::new().unwrap();
    let output = translate_header(&mut parser, source).unwrap();
    assert!(output.contains("enum class Solo : u32 {"));
    assert!(output.contains("    VkSolo = VK_SOLO\n"));
}

#[test]
fn whole_output_of_the_alias_scenario() {
    let source = "
typedef enum VkAttachmentStoreOp {
    VK_ATTACHMENT_STORE_OP_STORE = 0,
    VK_ATTACHMENT_STORE_OP_DONT_CARE = 1,
    VK_ATTACHMENT_STORE_OP_NONE = 1000301000,
    VK_ATTACHMENT_STORE_OP_NONE_KHR = VK_ATTACHMENT_STORE_OP_NONE,
    VK_ATTACHMENT_STORE_OP_NONE_QCOM = VK_ATTACHMENT_STORE_OP_NONE,
    VK_ATTACHMENT_STORE_OP_NONE_EXT = VK_ATTACHMENT_STORE_OP_NONE,
    VK_ATTACHMENT_STORE_OP_MAX_ENUM = 0x7FFFFFFF
} VkAttachmentStoreOp;
";
    let mut parser = CParser::new().unwrap();
    let output = translate_header(&mut parser, source).unwrap();
    let expected = "enum class AttachmentStoreOp : u32 {\n    Store = VK_ATTACHMENT_STORE_OP_STORE,\n    DontCare = VK_ATTACHMENT_STORE_OP_DONT_CARE,\n    None = VK_ATTACHMENT_STORE_OP_NONE,\n    NoneKhr = VK_ATTACHMENT_STORE_OP_NONE_KHR,\n    MaxEnum = VK_ATTACHMENT_STORE_OP_MAX_ENUM\n};\n\n\n";
    assert_eq!(output, expected);
}
