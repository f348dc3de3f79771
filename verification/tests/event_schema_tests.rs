use attune_routes::events::{event_section_schemas, SchemaMember, SectionSchema, TriggerSchemaShape};

const SECTION: SchemaMember = SchemaMember { is_object: true, has_properties: true, type_is_object: false };

#[test]
fn flat_trigger_schemas_describe_the_payload() {
    // {"username": {...}, "password": {"type": "string", "secret": true}}
    let flat = TriggerSchemaShape {
        is_object: true,
        type_is_object: false,
        properties_payload: false,
        properties_config: false,
        payload: None,
        config: None,
    };
    assert_eq!(event_section_schemas(Some(flat)), (SectionSchema::Whole, SectionSchema::Absent));
    assert_eq!(event_section_schemas(None), (SectionSchema::Absent, SectionSchema::Absent));
}

#[test]
fn sectioned_trigger_schemas_split_payload_and_config() {
    // {"payload": {"properties": {...}}, "config": {"properties": {...}}}
    let sectioned = TriggerSchemaShape {
        is_object: true,
        type_is_object: false,
        properties_payload: false,
        properties_config: false,
        payload: Some(SECTION),
        config: Some(SECTION),
    };
    assert_eq!(event_section_schemas(Some(sectioned)), (SectionSchema::Member, SectionSchema::Member));

    // A top-level `payload` that is not a schema leaves the whole schema for the payload.
    let plain_member = SchemaMember { is_object: true, has_properties: false, type_is_object: false };
    let odd = TriggerSchemaShape { payload: Some(plain_member), config: None, ..sectioned };
    assert_eq!(event_section_schemas(Some(odd)), (SectionSchema::Whole, SectionSchema::Absent));

    // {"type": "object", "properties": {"payload": ..., "config": ...}}
    let object = TriggerSchemaShape {
        is_object: true,
        type_is_object: true,
        properties_payload: true,
        properties_config: false,
        payload: Some(SECTION),
        config: Some(SECTION),
    };
    assert_eq!(event_section_schemas(Some(object)), (SectionSchema::Property, SectionSchema::Absent));
}
