use networking::bindings::{CacheLookup, FastDOMBinding, InterfaceBinding, MethodBinding, PropertyBinding};
use networking::generator::WebIDLGenerator;
use networking::time::Timestamp;
use networking::table::KeyedTable;
use networking::webidl::{
    WebIDLArgument, WebIDLDefinition, WebIDLDictionary, WebIDLDictionaryMember, WebIDLEnum, WebIDLInterface,
    WebIDLMethod, WebIDLParser, WebIDLProperty, WebIDLType,
};

#[test]
fn test_webidl_parser_simple_interface() {
    let input = r#"
        interface Element {
            readonly attribute DOMString tagName;
            DOMString getAttribute(DOMString name);
        };
    "#.to_string();
    
    let mut parser = WebIDLParser::new(input);
    let definition = parser.parse().unwrap();
    
    assert_eq!(definition.interfaces.len(), 1);
    assert!(definition.interfaces.contains_key("Element"));
    
    let element = definition.interfaces.get("Element").unwrap();
    assert_eq!(element.name, "Element");
    assert_eq!(element.properties.len(), 1);
    assert_eq!(element.methods.len(), 1);
    
    let tag_name_prop = &element.properties[0];
    assert_eq!(tag_name_prop.name, "tagName");
    assert_eq!(tag_name_prop.property_type, WebIDLType::DOMString);
    assert!(tag_name_prop.readonly);
    
    let get_attribute_method = &element.methods[0];
    assert_eq!(get_attribute_method.name, "getAttribute");
    assert_eq!(get_attribute_method.return_type, WebIDLType::DOMString);
    assert_eq!(get_attribute_method.arguments.len(), 1);
    
    let name_arg = &get_attribute_method.arguments[0];
    assert_eq!(name_arg.name, "name");
    assert_eq!(name_arg.arg_type, WebIDLType::DOMString);
}

#[test]
fn test_webidl_parser_inheritance() {
    let input = r#"
        interface Node {
            readonly attribute DOMString nodeName;
        };
        
        interface Element : Node {
            readonly attribute DOMString tagName;
        };
    "#.to_string();
    
    let mut parser = WebIDLParser::new(input);
    let definition = parser.parse().unwrap();
    
    assert_eq!(definition.interfaces.len(), 2);
    
    let node = definition.interfaces.get("Node").unwrap();
    assert_eq!(node.name, "Node");
    assert_eq!(node.parent, None);
    
    let element = definition.interfaces.get("Element").unwrap();
    assert_eq!(element.name, "Element");
    assert_eq!(element.parent, Some("Node".to_string()));
}

#[test]
fn test_webidl_parser_dictionary() {
    let input = r#"
        dictionary EventInit {
            boolean bubbles = false;
            boolean cancelable = false;
            boolean composed = false;
        };
    "#.to_string();
    
    let mut parser = WebIDLParser::new(input);
    let definition = parser.parse().unwrap();
    
    assert_eq!(definition.dictionaries.len(), 1);
    assert!(definition.dictionaries.contains_key("EventInit"));
    
    let event_init = definition.dictionaries.get("EventInit").unwrap();
    assert_eq!(event_init.name, "EventInit");
    assert_eq!(event_init.members.len(), 3);
    
    let bubbles = &event_init.members[0];
    assert_eq!(bubbles.name, "bubbles");
    assert_eq!(bubbles.member_type, WebIDLType::Boolean);
    assert_eq!(bubbles.default_value, Some("false".to_string()));
}

#[test]
fn test_webidl_parser_enum() {
    let input = r#"
        enum DocumentReadyState {
            "loading",
            "interactive",
            "complete"
        };
    "#.to_string();
    
    let mut parser = WebIDLParser::new(input);
    let definition = parser.parse().unwrap();
    
    assert_eq!(definition.enums.len(), 1);
    assert!(definition.enums.contains_key("DocumentReadyState"));
    
    let ready_state = definition.enums.get("DocumentReadyState").unwrap();
    assert_eq!(ready_state.name, "DocumentReadyState");
    assert_eq!(ready_state.values, vec!["loading", "interactive", "complete"]);
}

#[test]
fn test_webidl_parser_callback() {
    let input = r#"
        callback EventHandler = void (Event event);
    "#.to_string();
    
    let mut parser = WebIDLParser::new(input);
    let definition = parser.parse().unwrap();
    
    assert_eq!(definition.callbacks.len(), 1);
    assert!(definition.callbacks.contains_key("EventHandler"));
    
    let event_handler = definition.callbacks.get("EventHandler").unwrap();
    assert_eq!(event_handler.name, "EventHandler");
    assert_eq!(event_handler.return_type, WebIDLType::Void);
    assert_eq!(event_handler.arguments.len(), 1);
    
    let event_arg = &event_handler.arguments[0];
    assert_eq!(event_arg.name, "event");
    assert_eq!(event_arg.arg_type, WebIDLType::Interface("Event".to_string()));
}

#[test]
fn test_webidl_parser_complex_types() {
    let input = r#"
        interface TestInterface {
            Promise<DOMString> fetchData();
            sequence<long> getNumbers();
            record<DOMString, any> getData();
            DOMString? getOptionalString();
        };
    "#.to_string();
    
    let mut parser = WebIDLParser::new(input);
    let definition = parser.parse().unwrap();
    
    let test_interface = definition.interfaces.get("TestInterface").unwrap();
    assert_eq!(test_interface.methods.len(), 4);
    
    let fetch_data = &test_interface.methods[0];
    assert_eq!(fetch_data.return_type, WebIDLType::Promise(Box::new(WebIDLType::DOMString)));
    
    let get_numbers = &test_interface.methods[1];
    assert_eq!(get_numbers.return_type, WebIDLType::Sequence(Box::new(WebIDLType::Long)));
    
    let get_data = &test_interface.methods[2];
    assert_eq!(get_data.return_type, WebIDLType::Record(Box::new(WebIDLType::DOMString), Box::new(WebIDLType::Any)));
    
    let get_optional_string = &test_interface.methods[3];
    assert_eq!(get_optional_string.return_type, WebIDLType::Nullable(Box::new(WebIDLType::DOMString)));
}

#[test]
fn test_webidl_type_enum() {
    // Test all WebIDL type variants
    let types = vec![
        WebIDLType::DOMString,
        WebIDLType::Boolean,
        WebIDLType::Long,
        WebIDLType::Object,
        WebIDLType::Any,
        WebIDLType::Void,
        WebIDLType::Interface("CustomType".to_string()),
        WebIDLType::Nullable(Box::new(WebIDLType::DOMString)),
        WebIDLType::Sequence(Box::new(WebIDLType::Long)),
        WebIDLType::Promise(Box::new(WebIDLType::DOMString)),
    ];
    
    for webidl_type in types {
        assert_eq!(format!("{:?}", webidl_type), format!("{:?}", webidl_type));
    }
}

#[test]
fn test_webidl_generator_simple_interface() {
    let mut generator = WebIDLGenerator::new();
    
    let mut definition = WebIDLDefinition {
        interfaces: KeyedTable::new(),
        dictionaries: KeyedTable::new(),
        enums: KeyedTable::new(),
        callbacks: KeyedTable::new(),
        globals: KeyedTable::new(),
    };
    
    let interface = WebIDLInterface {
        name: "TestElement".to_string(),
        parent: None,
        methods: vec![
            WebIDLMethod {
                name: "getAttribute".to_string(),
                return_type: WebIDLType::DOMString,
                arguments: vec![
                    WebIDLArgument {
                        name: "name".to_string(),
                        arg_type: WebIDLType::DOMString,
                        optional: false,
                        default_value: None,
                        variadic: false,
                        documentation: None,
                    }
                ],
                static_method: false,
                getter: false,
                setter: false,
                deleter: false,
                documentation: None,
            }
        ],
        properties: vec![
            WebIDLProperty {
                name: "tagName".to_string(),
                property_type: WebIDLType::DOMString,
                readonly: true,
                required: false,
                inherited: false,
                documentation: None,
            }
        ],
        mixin: false,
        partial: false,
        documentation: None,
        attributes: KeyedTable::new(),
    };
    
    definition.interfaces.insert("TestElement".to_string(), interface);
    
    let rust_code = generator.generate_rust_code(&definition).unwrap();
    
    assert!(rust_code.contains("pub struct TestElement"));
    assert!(rust_code.contains("pub tagName: String"));
    assert!(rust_code.contains("pub fn getAttribute(&self, name: String) -> String"));
}

#[test]
fn test_webidl_generator_dictionary() {
    let mut generator = WebIDLGenerator::new();
    
    let mut definition = WebIDLDefinition {
        interfaces: KeyedTable::new(),
        dictionaries: KeyedTable::new(),
        enums: KeyedTable::new(),
        callbacks: KeyedTable::new(),
        globals: KeyedTable::new(),
    };
    
    let dictionary = WebIDLDictionary {
        name: "TestOptions".to_string(),
        parent: None,
        members: vec![
            WebIDLDictionaryMember {
                name: "enabled".to_string(),
                member_type: WebIDLType::Boolean,
                default_value: Some("true".to_string()),
                required: false,
                documentation: None,
            }
        ],
        documentation: None,
    };
    
    definition.dictionaries.insert("TestOptions".to_string(), dictionary);
    
    let rust_code = generator.generate_rust_code(&definition).unwrap();
    
    assert!(rust_code.contains("pub struct TestOptions"));
    assert!(rust_code.contains("pub enabled: bool"));
}

#[test]
fn test_webidl_generator_enum() {
    let mut generator = WebIDLGenerator::new();
    
    let mut definition = WebIDLDefinition {
        interfaces: KeyedTable::new(),
        dictionaries: KeyedTable::new(),
        enums: KeyedTable::new(),
        callbacks: KeyedTable::new(),
        globals: KeyedTable::new(),
    };
    
    let enum_def = WebIDLEnum {
        name: "TestState".to_string(),
        values: vec!["Idle".to_string(), "Running".to_string(), "Complete".to_string()],
        documentation: None,
    };
    
    definition.enums.insert("TestState".to_string(), enum_def);
    
    let rust_code = generator.generate_rust_code(&definition).unwrap();
    
    assert!(rust_code.contains("pub enum TestState"));
    assert!(rust_code.contains("Idle"));
    assert!(rust_code.contains("Running"));
    assert!(rust_code.contains("Complete"));
}

#[test]
fn test_webidl_generator_type_mapping() {
    let generator = WebIDLGenerator::new();
    
    // Test basic type mappings
    assert_eq!(generator.map_type(&WebIDLType::Boolean).unwrap(), "bool");
    assert_eq!(generator.map_type(&WebIDLType::DOMString).unwrap(), "String");
    assert_eq!(generator.map_type(&WebIDLType::Long).unwrap(), "i32");
    assert_eq!(generator.map_type(&WebIDLType::Object).unwrap(), "Value");
    
    // Test complex type mappings
    assert_eq!(generator.map_type(&WebIDLType::Nullable(Box::new(WebIDLType::DOMString))).unwrap(), "Option<String>");
    assert_eq!(generator.map_type(&WebIDLType::Sequence(Box::new(WebIDLType::Long))).unwrap(), "Vec<i32>");
    assert_eq!(generator.map_type(&WebIDLType::Promise(Box::new(WebIDLType::DOMString))).unwrap(), "Promise<String>");
}

#[test]
fn test_webidl_generator_default_values() {
    let generator = WebIDLGenerator::new();
    
    assert_eq!(generator.get_default_value(&WebIDLType::Boolean).unwrap(), "false");
    assert_eq!(generator.get_default_value(&WebIDLType::DOMString).unwrap(), "String::new()");
    assert_eq!(generator.get_default_value(&WebIDLType::Long).unwrap(), "0");
    assert_eq!(generator.get_default_value(&WebIDLType::Nullable(Box::new(WebIDLType::DOMString))).unwrap(), "None");
    assert_eq!(generator.get_default_value(&WebIDLType::Sequence(Box::new(WebIDLType::Long))).unwrap(), "Vec::new()");
}

#[test]
fn generator_writes_enum_exactly() {
    let mut generator = WebIDLGenerator::new();
    let mut definition = WebIDLDefinition {
        interfaces: KeyedTable::new(),
        dictionaries: KeyedTable::new(),
        enums: KeyedTable::new(),
        callbacks: KeyedTable::new(),
        globals: KeyedTable::new(),
    };
    definition.enums.insert(
        "State".to_string(),
        WebIDLEnum { name: "State".to_string(), values: vec!["A".to_string(), "B".to_string()], documentation: None },
    );
    let code = generator.generate_rust_code(&definition).unwrap();
    assert_eq!(code, "#[derive(Debug, Clone, PartialEq)]\npub enum State {\n    A,\n    B,\n}\n\n");
}

#[test]
fn generator_writes_interface_exactly() {
    let mut parser = WebIDLParser::new(
        "interface Node { attribute long count; boolean check(DOMString name); void reset(); };".to_string(),
    );
    let definition = parser.parse().unwrap();
    let mut generator = WebIDLGenerator::new();
    let code = generator.generate_rust_code(&definition).unwrap();
    let expected = "#[derive(Debug, Clone)]\n\
pub struct Node {\n\
\x20   pub count: i32,\n\
}\n\
\n\
impl Node {\n\
\x20   pub fn new() -> Self {\n\
\x20       Self {\n\
\x20           count: 0,\n\
\x20       }\n\
\x20   }\n\
\n\
\x20   pub fn check(&self, name: String) -> bool {\n\
\x20       false\n\
\x20   }\n\
\n\
\x20   pub fn reset(&self) -> () {\n\
\x20       // TODO: Implement method\n\
\x20   }\n\
\n\
}\n\
\n";
    assert_eq!(code, expected);
}

#[test]
fn generator_writes_callback_exactly() {
    let mut parser = WebIDLParser::new("callback Handler = void (Event event, long code);".to_string());
    let definition = parser.parse().unwrap();
    let mut generator = WebIDLGenerator::new();
    let code = generator.generate_rust_code(&definition).unwrap();
    assert_eq!(code, "pub type Handler = fn(event: Event, code: i32) -> ();\n\n");
}

#[test]
fn generator_maps_composite_types() {
    let generator = WebIDLGenerator::new();
    let union = WebIDLType::Union(vec![WebIDLType::Long, WebIDLType::DOMString]);
    assert_eq!(generator.map_type(&union).unwrap(), "Union<i32, String>");
    let record = WebIDLType::Record(Box::new(WebIDLType::DOMString), Box::new(WebIDLType::Any));
    assert_eq!(generator.map_type(&record).unwrap(), "HashMap<String, Value>");
    assert_eq!(generator.map_type(&WebIDLType::Interface("Node".to_string())).unwrap(), "Node");
    assert_eq!(generator.get_default_value(&WebIDLType::Interface("Node".to_string())).unwrap(), "Node::new()");
    assert_eq!(generator.get_default_value(&WebIDLType::Double).unwrap(), "0.0");
    assert_eq!(generator.get_default_value(&WebIDLType::ArrayBuffer).unwrap(), "Default::default()");
}

#[test]
fn generator_rejects_unmapped_types() {
    let generator = WebIDLGenerator::new();
    assert!(generator.map_type(&WebIDLType::ByteString).is_err());
    let nested = WebIDLType::Sequence(Box::new(WebIDLType::ArrayBuffer));
    let err = generator.map_type(&nested).unwrap_err();
    assert_eq!(err.message(), "Parsing error: Unknown type: ArrayBuffer");
    let union = WebIDLType::Union(vec![WebIDLType::Long, WebIDLType::DataView]);
    assert!(generator.map_type(&union).is_err());
}

#[test]
fn generator_keeps_indentation_after_a_failed_interface() {
    let mut generator = WebIDLGenerator::new();
    let mut parser = WebIDLParser::new("interface Bad { attribute ByteString data; };".to_string());
    let bad = parser.parse().unwrap();
    assert!(generator.generate_rust_code(&bad).is_err());
    let mut parser = WebIDLParser::new("enum Mode { \"on\" };".to_string());
    let good = parser.parse().unwrap();
    let code = generator.generate_rust_code(&good).unwrap();
    assert_eq!(code, "    #[derive(Debug, Clone, PartialEq)]\n    pub enum Mode {\n        on,\n    }\n\n");
}

#[test]
fn test_webidl_integration() {
    let input = r#"
        interface TestElement {
            readonly attribute DOMString tagName;
            DOMString getAttribute(DOMString name);
            void setAttribute(DOMString name, DOMString value);
        };
    "#
    .to_string();
    let mut parser = WebIDLParser::new(input);
    let definition = parser.parse().unwrap();
    let mut generator = WebIDLGenerator::new();
    let rust_code = generator.generate_rust_code(&definition).unwrap();
    assert!(rust_code.contains("pub struct TestElement"));
    assert!(rust_code.contains("pub tagName: String"));
    assert!(rust_code.contains("pub fn getAttribute(&self, name: String) -> String"));
    assert!(rust_code.contains("pub fn setAttribute(&self, name: String, value: String) -> ()"));

    // Create fast DOM binding
    let mut binding = FastDOMBinding::new();

    let mut methods = KeyedTable::new();
    methods.insert(
        "getAttribute".to_string(),
        MethodBinding {
            name: "getAttribute".to_string(),
            native_function: "test_element_get_attribute".to_string(),
            argument_types: vec![WebIDLType::DOMString],
            return_type: WebIDLType::DOMString,
            static_method: false,
            documentation: None,
        },
    );

    let mut properties = KeyedTable::new();
    properties.insert(
        "tagName".to_string(),
        PropertyBinding {
            name: "tagName".to_string(),
            property_type: WebIDLType::DOMString,
            getter: Some("test_element_get_tag_name".to_string()),
            setter: None,
            readonly: true,
            documentation: None,
        },
    );

    let interface_binding = InterfaceBinding {
        name: "TestElement".to_string(),
        constructor: Some("TestElement::new".to_string()),
        methods,
        properties,
        prototype: None,
    };

    binding.register_interface("TestElement", interface_binding).unwrap();

    // Test method call: the first one misses the cache
    let result = binding.call_method("TestElement", "getAttribute", Timestamp::now());
    assert_eq!(result.unwrap(), CacheLookup::Miss);

    // Test property access: the first one misses the cache
    let result = binding.get_property_value("TestElement", "tagName", Timestamp::now());
    assert_eq!(result.unwrap(), CacheLookup::Miss);
}

#[test]
fn test_webidl_parser_creation() {
    let input = "interface Test {};".to_string();
    let parser = WebIDLParser::new(input);

    assert_eq!(parser.position(), 0);
    assert_eq!(parser.line(), 1);
    assert_eq!(parser.column(), 1);
}

#[test]
fn test_webidl_generator_creation() {
    let generator = WebIDLGenerator::new();

    assert_eq!(generator.indent_level(), 0);
    assert!(generator.code().is_empty());
    assert_eq!(generator.map_type(&WebIDLType::DOMString).unwrap(), "String");
}
