use vulkan_header_converter::c_parser::CParser;
use vulkan_header_converter::generator::Generator;
use vulkan_header_converter::translate_header;

fn run(source: &str) -> String {
    let mut parser = CParser::new().unwrap();
    translate_header(&mut parser, source).unwrap()
}

#[test]
fn enum_alias_collapse_scenario() {
    let source = "
typedef enum VkAttachmentStoreOp {
    VK_ATTACHMENT_STORE_OP_STORE = 0,
    VK_ATTACHMENT_STORE_OP_DONT_CARE = 1,
    VK_ATTACHMENT_STORE_OP_NONE = 1000301000,
    VK_ATTACHMENT_STORE_OP_NONE_KHR = VK_ATTACHMENT_STORE_OP_NONE,
    VK_ATTACHMENT_STORE_OP_NONE_QCOM = VK_ATTACHMENT_STORE_OP_NONE,
    VK_ATTACHMENT_STORE_OP_NONE_EXT = VK_ATTACHMENT_STORE_OP_NONE,
    VK_ATTACHMENT_STORE_OP_MAX_ENUM = 0x7FFFFFFF
} VkAttachmentStoreOp;
";
    let output = run(source);
    let value_lines = output.lines().filter(|l| l.contains(" = ")).count();
    assert_eq!(value_lines, 5);
    assert!(output.contains("enum class AttachmentStoreOp : u32 {"));
    assert!(output.contains("    Store = VK_ATTACHMENT_STORE_OP_STORE,"));
    assert!(output.contains("    DontCare = VK_ATTACHMENT_STORE_OP_DONT_CARE,"));
    assert!(output.contains("    None = VK_ATTACHMENT_STORE_OP_NONE,"));
    assert!(output.contains("    NoneKhr = VK_ATTACHMENT_STORE_OP_NONE_KHR,"));
    assert!(output.contains("    MaxEnum = VK_ATTACHMENT_STORE_OP_MAX_ENUM\n"));
    assert!(!output.contains("NoneQcom"));
    assert!(!output.contains("NoneExt"));
}

#[test]
fn extensible_record_scenario() {
    let source = "
typedef struct VkFramebufferCreateInfo {
    VkStructureType sType;
    void* pNext;
    uint32_t width;
    uint32_t height;
} VkFramebufferCreateInfo;
";
    let output = run(source);
    let expected = "\nstruct FramebufferCreateInfo {\n    u32 width;\n    u32 height;\n    \n    VkFramebufferCreateInfo raw() {\n        return VkFramebufferCreateInfo {\n            .sType = VK_STRUCT_TYPE_FRAMEBUFFER_CREATE_INFO,\n            .pNext = nullptr,\n            .width = width,\n            .height = height\n        };\n    }\n};\n\n";
    assert_eq!(output, expected);
}

#[test]
fn plain_record_scenario() {
    let source = "
typedef struct VkExtent2D {
    uint32_t width;
    uint32_t height;
} VkExtent2D;
";
    let output = run(source);
    assert!(output.contains("struct Extent2D {\n    u32 width;\n    u32 height;\n"));
    assert!(!output.contains(".sType"));
    assert!(!output.contains(".pNext"));
    assert!(output.contains("            .width = width,\n            .height = height\n"));
}

#[test]
fn output_is_deterministic() {
    let source = "
typedef enum VkCullModeFlagBits {
    VK_CULL_MODE_NONE = 0,
    VK_CULL_MODE_FRONT_BIT = 0x00000001,
    VK_CULL_MODE_BACK_BIT = 0x00000002,
    VK_CULL_MODE_FLAG_BITS_MAX_ENUM = 0x7FFFFFFF
} VkCullModeFlagBits;

typedef struct VkExtent3D {
    uint32_t width;
    uint32_t height;
    uint32_t depth;
} VkExtent3D;
";
    let first = run(source);
    let second = run(source);
    assert_eq!(first, second);
}

#[test]
fn bit_flag_enum_gets_bitmask_operators() {
    let source = "
typedef enum VkCullModeFlagBits {
    VK_CULL_MODE_NONE = 0,
    VK_CULL_MODE_FRONT_BIT = 0x00000001,
    VK_CULL_MODE_BACK_BIT = 0x00000002
} VkCullModeFlagBits;
";
    let output = run(source);
    assert!(output.contains("enum class CullModeFlags : u32 {"));
    assert!(output.contains("ENABLE_BITMASK_OPERATORS(CullModeFlags);"));
    assert!(output.contains("    Front = VK_CULL_MODE_FRONT_BIT,"));
    assert!(output.contains("    Back = VK_CULL_MODE_BACK_BIT\n"));
}

#[test]
fn declarations_are_emitted_in_name_order() {
    let source = "
typedef enum VkZetaOp {
    VK_ZETA_OP_ONE = 0,
    VK_ZETA_OP_TWO = 1
} VkZetaOp;

typedef enum VkAlphaOp {
    VK_ALPHA_OP_ONE = 0,
    VK_ALPHA_OP_TWO = 1
} VkAlphaOp;
";
    let output = run(source);
    let alpha = output.find("enum class AlphaOp").unwrap();
    let zeta = output.find("enum class ZetaOp").unwrap();
    assert!(alpha < zeta);
}

#[test]
fn excluded_and_foreign_declarations_are_dropped() {
    let source = "
typedef enum VkStructureType {
    VK_STRUCTURE_TYPE_APPLICATION_INFO = 0
} VkStructureType;

typedef struct Plain {
    uint32_t a;
} Plain;
";
    let output = run(source);
    assert!(!output.contains("StructureType"));
    assert!(!output.contains("struct Plain"));
}

#[test]
fn registered_types_resolve_and_cast_through_registry() {
    let source = "
typedef enum VkSharingMode {
    VK_SHARING_MODE_EXCLUSIVE = 0,
    VK_SHARING_MODE_CONCURRENT = 1
} VkSharingMode;

typedef struct VkImageViewCreateInfo {
    VkStructureType sType;
    void* pNext;
    VkSharingMode sharingMode;
    VkBool32 clipped;
    VkExtent2D extent;
} VkImageViewCreateInfo;

typedef struct VkExtent2D {
    uint32_t width;
    uint32_t height;
} VkExtent2D;
";
    let output = run(source);
    assert!(output.contains("    SharingMode sharing_mode;"));
    assert!(output.contains("    bool clipped;"));
    assert!(output.contains("    Extent2D extent;"));
    assert!(output.contains(".sharingMode = static_cast<VkSharingMode>(sharing_mode),"));
    assert!(output.contains(".clipped = static_cast<VkBool32>(clipped),"));
    assert!(output.contains(".extent = extent.raw()"));
}

#[test]
fn tagged_record_with_no_remaining_fields_omits_last_separator() {
    let source = "
typedef struct VkFooCreateInfo {
    VkStructureType sType;
    void* pNext;
} VkFooCreateInfo;
";
    let output = run(source);
    let expected = "\nstruct FooCreateInfo {\n    \n    VkFooCreateInfo raw() {\n        return VkFooCreateInfo {\n            .sType = VK_STRUCT_TYPE_FOO_CREATE_INFO,\n            .pNext = nullptr\n        };\n    }\n};\n\n";
    assert_eq!(output, expected);
}

#[test]
fn repeated_negative_literals_do_not_collapse() {
    let source = "
typedef enum VkQuirkOp {
    VK_QUIRK_OP_A = -1,
    VK_QUIRK_OP_B = -1
} VkQuirkOp;
";
    let output = run(source);
    let value_lines = output.lines().filter(|l| l.contains(" = ")).count();
    assert_eq!(value_lines, 2);
    assert!(output.contains("    A = VK_QUIRK_OP_A,"));
    assert!(output.contains("    B = VK_QUIRK_OP_B\n"));
}

#[test]
fn test_generator() {
    let source = "
typedef struct VkBufferCreateInfo {
    VkStructureType sType;
    void* pNext;
    uint32_t size;
    uint32_t usage;
} VkBufferCreateInfo;
";
    let mut parser = CParser::new().unwrap();
    let (structs, enums) = parser.parse_c_code(source).unwrap();
    let generator = Generator::new(enums, structs);
    let output = generator.generate();
    println!("{}", &output);
    assert!(output.contains("struct BufferCreateInfo {"));
}
