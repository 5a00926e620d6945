use networking::bindings::BindingCounts;
use networking::error::Error;
use networking::bindings::{CacheLookup, FastDOMBinding, InterfaceBinding, MethodBinding, PropertyBinding};
use networking::table::KeyedTable;
use networking::time::Timestamp;
use networking::webidl::WebIDLType;

fn element_binding() -> InterfaceBinding {
    let mut methods = KeyedTable::new();
    methods.insert(
        "getAttribute".to_string(),
        MethodBinding {
            name: "getAttribute".to_string(),
            native_function: "element_get_attribute".to_string(),
            argument_types: vec![WebIDLType::DOMString],
            return_type: WebIDLType::DOMString,
            static_method: false,
            documentation: None,
        },
    );
    let mut properties = KeyedTable::new();
    properties.insert(
        "tagName".to_string(),
        PropertyBinding {
            name: "tagName".to_string(),
            property_type: WebIDLType::DOMString,
            getter: Some("element_get_tag_name".to_string()),
            setter: None,
            readonly: true,
            documentation: None,
        },
    );
    properties.insert(
        "className".to_string(),
        PropertyBinding {
            name: "className".to_string(),
            property_type: WebIDLType::DOMString,
            getter: None,
            setter: Some("element_set_class_name".to_string()),
            readonly: false,
            documentation: None,
        },
    );
    InterfaceBinding {
        name: "Element".to_string(),
        constructor: Some("Element::new".to_string()),
        methods,
        properties,
        prototype: None,
    }
}

#[test]
fn registered_members_are_found() {
    let mut binding = FastDOMBinding::new();
    assert!(binding.get_method("Element", "getAttribute").is_none());
    binding.register_interface("Element", element_binding()).unwrap();
    let method = binding.get_method("Element", "getAttribute").unwrap();
    assert_eq!(method.native_function, "element_get_attribute");
    assert_eq!(method.return_type, WebIDLType::DOMString);
    let property = binding.get_property("Element", "tagName").unwrap();
    assert!(property.readonly);
    assert_eq!(property.getter, Some("element_get_tag_name".to_string()));
    assert!(binding.get_method("Element", "setAttribute").is_none());
    assert!(binding.get_property("Node", "tagName").is_none());
}

#[test]
fn the_first_call_misses_and_later_ones_hit() {
    let mut binding = FastDOMBinding::new();
    binding.register_interface("Element", element_binding()).unwrap();
    let now = Timestamp::now();
    assert_eq!(binding.call_method("Element", "getAttribute", now).unwrap(), CacheLookup::Miss);
    assert_eq!(binding.call_method("Element", "getAttribute", now).unwrap(), CacheLookup::Hit);
    assert_eq!(binding.call_method("Element", "getAttribute", now).unwrap(), CacheLookup::Hit);
    assert_eq!(binding.get_property_value("Element", "tagName", now).unwrap(), CacheLookup::Miss);
    assert_eq!(binding.get_property_value("Element", "className", now).unwrap(), CacheLookup::Miss);
    assert_eq!(binding.get_property_value("Element", "tagName", now).unwrap(), CacheLookup::Hit);
}

#[test]
fn unknown_members_are_errors() {
    let mut binding = FastDOMBinding::new();
    binding.register_interface("Element", element_binding()).unwrap();
    let now = Timestamp::now();
    let err = binding.call_method("Element", "remove", now).unwrap_err();
    assert_eq!(err.message(), "Parsing error: Method remove not found on interface Element");
    let err = binding.get_property_value("Node", "tagName", now).unwrap_err();
    assert_eq!(err.message(), "Parsing error: Property tagName not found on interface Node");
}

#[test]
fn read_only_properties_refuse_a_value() {
    let mut binding = FastDOMBinding::new();
    binding.register_interface("Element", element_binding()).unwrap();
    assert!(binding.set_property_value("Element", "className").is_ok());
    let err = binding.set_property_value("Element", "tagName").unwrap_err();
    assert_eq!(err.message(), "Parsing error: Property tagName is read-only");
    assert!(binding.set_property_value("Element", "id").is_err());
}

#[test]
fn clearing_the_caches_makes_the_next_call_miss() {
    let mut binding = FastDOMBinding::new();
    binding.register_interface("Element", element_binding()).unwrap();
    let now = Timestamp::now();
    binding.call_method("Element", "getAttribute", now).unwrap();
    binding.clear_caches();
    assert_eq!(binding.call_method("Element", "getAttribute", now).unwrap(), CacheLookup::Miss);
}

fn method_only_binding(native: &str) -> InterfaceBinding {
    let mut methods = KeyedTable::new();
    methods.insert(
        "getAttribute".to_string(),
        MethodBinding {
            name: "getAttribute".to_string(),
            native_function: native.to_string(),
            argument_types: vec![WebIDLType::DOMString],
            return_type: WebIDLType::DOMString,
            static_method: false,
            documentation: None,
        },
    );
    InterfaceBinding {
        name: "Element".to_string(),
        constructor: None,
        methods,
        properties: KeyedTable::new(),
        prototype: None,
    }
}

fn property_only_binding(name: &str, getter: &str, setter: Option<&str>, readonly: bool) -> InterfaceBinding {
    let mut properties = KeyedTable::new();
    properties.insert(
        name.to_string(),
        PropertyBinding {
            name: name.to_string(),
            property_type: WebIDLType::DOMString,
            getter: Some(getter.to_string()),
            setter: setter.map(|s| s.to_string()),
            readonly,
            documentation: None,
        },
    );
    InterfaceBinding {
        name: "Element".to_string(),
        constructor: None,
        methods: KeyedTable::new(),
        properties,
        prototype: None,
    }
}

#[test]
fn test_fast_dom_binding_creation() {
    let binding = FastDOMBinding::new();
    assert!(binding.get_method("Element", "getAttribute").is_none());
    assert!(binding.get_property("Element", "tagName").is_none());
}

#[test]
fn test_fast_dom_binding_interface_registration() {
    let mut binding = FastDOMBinding::new();

    let interface_binding = InterfaceBinding {
        name: "Element".to_string(),
        constructor: Some("Element::new".to_string()),
        methods: KeyedTable::new(),
        properties: KeyedTable::new(),
        prototype: None,
    };

    binding.register_interface("Element", interface_binding).unwrap();

    // Verify interface is registered
    let method = binding.get_method("Element", "getAttribute");
    assert!(method.is_none()); // No methods registered yet
}

#[test]
fn test_fast_dom_binding_method_registration() {
    let mut binding = FastDOMBinding::new();
    binding.register_interface("Element", method_only_binding("element_get_attribute")).unwrap();

    let method = binding.get_method("Element", "getAttribute");
    assert!(method.is_some());

    let method_binding = method.unwrap();
    assert_eq!(method_binding.name, "getAttribute");
    assert_eq!(method_binding.native_function, "element_get_attribute");
    assert_eq!(method_binding.return_type, WebIDLType::DOMString);
}

#[test]
fn test_fast_dom_binding_property_registration() {
    let mut binding = FastDOMBinding::new();
    binding
        .register_interface("Element", property_only_binding("tagName", "element_get_tag_name", None, true))
        .unwrap();

    let property = binding.get_property("Element", "tagName");
    assert!(property.is_some());

    let property_binding = property.unwrap();
    assert_eq!(property_binding.name, "tagName");
    assert_eq!(property_binding.property_type, WebIDLType::DOMString);
    assert!(property_binding.readonly);
    assert_eq!(property_binding.getter, Some("element_get_tag_name".to_string()));
}

#[test]
fn test_fast_dom_binding_method_call() {
    let mut binding = FastDOMBinding::new();
    binding.register_interface("Element", method_only_binding("element_get_attribute")).unwrap();

    let result = binding.call_method("Element", "getAttribute", Timestamp::now());
    assert!(result.is_ok());
    // First call is a cache miss
    assert_eq!(result.unwrap(), CacheLookup::Miss);
}

#[test]
fn test_fast_dom_binding_property_access() {
    let mut binding = FastDOMBinding::new();
    binding
        .register_interface("Element", property_only_binding("tagName", "element_get_tag_name", None, true))
        .unwrap();

    let result = binding.get_property_value("Element", "tagName", Timestamp::now());
    assert!(result.is_ok());
    // First access is a cache miss
    assert_eq!(result.unwrap(), CacheLookup::Miss);
}

#[test]
fn test_fast_dom_binding_property_set() {
    let mut binding = FastDOMBinding::new();
    binding
        .register_interface(
            "Element",
            property_only_binding("className", "element_get_class_name", Some("element_set_class_name"), false),
        )
        .unwrap();

    let result = binding.set_property_value("Element", "className");
    assert!(result.is_ok());
}

#[test]
fn test_fast_dom_binding_readonly_property_set() {
    let mut binding = FastDOMBinding::new();
    binding
        .register_interface("Element", property_only_binding("tagName", "element_get_tag_name", None, true))
        .unwrap();

    let result = binding.set_property_value("Element", "tagName");
    assert!(result.is_err());
    match result.unwrap_err() {
        Error::Parsing(m) => assert_eq!(m, "Property tagName is read-only"),
        _ => panic!("expected a parsing error"),
    }
}

#[test]
fn test_fast_dom_binding_cache_behavior() {
    let mut binding = FastDOMBinding::new();
    binding.register_interface("Element", method_only_binding("element_get_attribute")).unwrap();

    // First call - cache miss
    let first = binding.call_method("Element", "getAttribute", Timestamp::now()).unwrap();
    // Second call - cache hit
    let second = binding.call_method("Element", "getAttribute", Timestamp::now()).unwrap();

    assert_eq!(first, CacheLookup::Miss);
    assert_eq!(second, CacheLookup::Hit);
}

#[test]
fn test_fast_dom_binding_clear_caches() {
    let mut binding = FastDOMBinding::new();
    binding.register_interface("Element", method_only_binding("element_get_attribute")).unwrap();

    // Make some calls to populate cache
    binding.call_method("Element", "getAttribute", Timestamp::now()).unwrap();

    // Clear caches
    binding.clear_caches();

    // Verify caches are cleared: the next call misses again
    assert_eq!(binding.call_method("Element", "getAttribute", Timestamp::now()).unwrap(), CacheLookup::Miss);
}

#[test]
fn binding_counts_follow_the_lookups() {
    let mut counts = BindingCounts::new();
    counts.record_method_call(CacheLookup::Miss);
    counts.record_method_call(CacheLookup::Hit);
    counts.record_property_access(CacheLookup::Miss);
    assert_eq!(counts.total_method_calls, 2);
    assert_eq!(counts.total_property_accesses, 1);
    assert_eq!(counts.cache_hits, 1);
    assert_eq!(counts.cache_misses, 2);
}
