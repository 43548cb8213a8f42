use bedrock_components::component::{
    ComponentDescriptor, ComponentError, ComponentInstance, DescriptorError, FieldConversion,
    FieldSpec, FieldVisibility, ItemComponent, ValueKind,
};
use bedrock_components::fragment::ComponentValue;

fn field(name: &str, wire_key: &str, value_type: ValueKind, optional: bool) -> FieldSpec {
    FieldSpec {
        field_name: name.to_string(),
        wire_key: wire_key.to_string(),
        value_type,
        visibility: FieldVisibility::Public,
        optional,
        conversion: FieldConversion::Exact,
    }
}

fn durability_descriptor() -> ComponentDescriptor {
    ComponentDescriptor {
        name: "Durability".to_string(),
        wire_key: "minecraft:durability".to_string(),
        transparent: false,
        fields: vec![
            field("damage_chance", "damage_chance", ValueKind::List, true),
            field("max_durability", "max_durability", ValueKind::Int, false),
        ],
    }
}

fn rarity_descriptor() -> ComponentDescriptor {
    ComponentDescriptor {
        name: "Rarity".to_string(),
        wire_key: "minecraft:rarity".to_string(),
        transparent: true,
        fields: vec![field("rarity", "minecraft:rarity", ValueKind::Str, false)],
    }
}

#[test]
fn valid_descriptor_is_accepted() {
    assert_eq!(durability_descriptor().validate(), Ok(()));
    assert_eq!(rarity_descriptor().validate(), Ok(()));
}

#[test]
fn duplicate_wire_key_is_rejected_at_generation_time() {
    let d = ComponentDescriptor {
        name: "Broken".to_string(),
        wire_key: "minecraft:broken".to_string(),
        transparent: false,
        fields: vec![
            field("first", "value", ValueKind::Int, false),
            field("second", "value", ValueKind::Int, false),
        ],
    };
    assert_eq!(d.validate(), Err(DescriptorError::DuplicateWireKey));
    let r = ComponentInstance::new(d, vec![ComponentValue::Int(1), ComponentValue::Int(2)]);
    assert!(matches!(
        r,
        Err(ComponentError::InvalidDescriptor(DescriptorError::DuplicateWireKey))
    ));
}

#[test]
fn transparent_descriptor_with_two_fields_is_rejected() {
    let d = ComponentDescriptor {
        name: "Broken".to_string(),
        wire_key: "minecraft:broken".to_string(),
        transparent: true,
        fields: vec![
            field("first", "first", ValueKind::Int, false),
            field("second", "second", ValueKind::Int, false),
        ],
    };
    assert_eq!(d.validate(), Err(DescriptorError::TransparentFieldCount));
}

#[test]
fn duplicate_field_name_is_rejected() {
    let d = ComponentDescriptor {
        name: "Broken".to_string(),
        wire_key: "minecraft:broken".to_string(),
        transparent: false,
        fields: vec![
            field("value", "first", ValueKind::Int, false),
            field("value", "second", ValueKind::Int, false),
        ],
    };
    assert_eq!(d.validate(), Err(DescriptorError::DuplicateFieldName));
}

#[test]
fn field_count_mismatch_is_rejected() {
    let r = ComponentInstance::new(durability_descriptor(), vec![ComponentValue::Int(100)]);
    assert!(matches!(r, Err(ComponentError::FieldCountMismatch)));
}

#[test]
fn field_type_mismatch_is_rejected() {
    let r = ComponentInstance::new(
        durability_descriptor(),
        vec![ComponentValue::List(vec![]), ComponentValue::Bool(true)],
    );
    assert!(matches!(r, Err(ComponentError::FieldTypeMismatch)));
}

#[test]
fn serialization_is_idempotent() {
    let c = ComponentInstance::new(
        durability_descriptor(),
        vec![
            ComponentValue::List(vec![ComponentValue::Int(25), ComponentValue::Int(50)]),
            ComponentValue::Int(100),
        ],
    )
    .unwrap();
    let first = c.serialize();
    let second = c.serialize();
    assert_eq!(first, second);
}

#[test]
fn transparent_component_has_one_bare_key() {
    let c = ComponentInstance::new(
        rarity_descriptor(),
        vec![ComponentValue::Str("rare".to_string())],
    )
    .unwrap();
    assert_eq!(c.serialize(), "{\"minecraft:rarity\":\"rare\"}");
}

#[test]
fn nontransparent_component_keeps_declared_field_order() {
    let d = ComponentDescriptor {
        name: "Enchantable".to_string(),
        wire_key: "minecraft:enchantable".to_string(),
        transparent: false,
        fields: vec![
            field("value", "value", ValueKind::Int, false),
            field("slot", "slot", ValueKind::Str, false),
        ],
    };
    let c = ComponentInstance::new(
        d,
        vec![
            ComponentValue::Int(10),
            ComponentValue::Str("sword".to_string()),
        ],
    )
    .unwrap();
    assert_eq!(
        c.serialize(),
        "{\"minecraft:enchantable\":{\"value\":10,\"slot\":\"sword\"}}"
    );
}

#[test]
fn optional_field_at_zero_value_is_omitted() {
    let c = ComponentInstance::new(
        durability_descriptor(),
        vec![ComponentValue::List(vec![]), ComponentValue::Int(100)],
    )
    .unwrap();
    assert_eq!(
        c.serialize(),
        "{\"minecraft:durability\":{\"max_durability\":100}}"
    );
}

#[test]
fn optional_field_with_other_value_is_present() {
    let c = ComponentInstance::new(
        durability_descriptor(),
        vec![
            ComponentValue::List(vec![ComponentValue::Int(25), ComponentValue::Int(50)]),
            ComponentValue::Int(100),
        ],
    )
    .unwrap();
    assert_eq!(
        c.serialize(),
        "{\"minecraft:durability\":{\"damage_chance\":[25,50],\"max_durability\":100}}"
    );
}

#[test]
fn required_field_at_zero_value_stays() {
    let d = ComponentDescriptor {
        name: "Damage".to_string(),
        wire_key: "minecraft:damage".to_string(),
        transparent: false,
        fields: vec![field("value", "value", ValueKind::Int, false)],
    };
    let c = ComponentInstance::new(d, vec![ComponentValue::Int(0)]).unwrap();
    assert_eq!(c.serialize(), "{\"minecraft:damage\":{\"value\":0}}");
}

#[test]
fn optional_zero_values_of_each_shape_are_omitted() {
    let d = ComponentDescriptor {
        name: "Defaults".to_string(),
        wire_key: "minecraft:defaults".to_string(),
        transparent: false,
        fields: vec![
            field("count", "count", ValueKind::Int, true),
            field("flag", "flag", ValueKind::Bool, true),
            field("label", "label", ValueKind::Str, true),
            field("entries", "entries", ValueKind::List, true),
            field("kept", "kept", ValueKind::Int, false),
        ],
    };
    let c = ComponentInstance::new(
        d,
        vec![
            ComponentValue::Int(0),
            ComponentValue::Bool(false),
            ComponentValue::Str(String::new()),
            ComponentValue::List(vec![]),
            ComponentValue::Int(7),
        ],
    )
    .unwrap();
    assert_eq!(c.serialize(), "{\"minecraft:defaults\":{\"kept\":7}}");
}

#[test]
fn string_values_are_escaped() {
    let d = ComponentDescriptor {
        name: "DisplayName".to_string(),
        wire_key: "minecraft:display_name".to_string(),
        transparent: false,
        fields: vec![field("value", "value", ValueKind::Str, false)],
    };
    let c = ComponentInstance::new(
        d,
        vec![ComponentValue::Str("say \"hi\" \\ done".to_string())],
    )
    .unwrap();
    assert_eq!(
        c.serialize(),
        "{\"minecraft:display_name\":{\"value\":\"say \\\"hi\\\" \\\\ done\"}}"
    );
}

#[test]
fn negative_and_large_numbers_render_in_decimal() {
    let d = ComponentDescriptor {
        name: "Armor".to_string(),
        wire_key: "minecraft:armor".to_string(),
        transparent: false,
        fields: vec![field("protection", "protection", ValueKind::Int, false)],
    };
    let c = ComponentInstance::new(d, vec![ComponentValue::Int(-12345)]).unwrap();
    assert_eq!(
        c.serialize(),
        "{\"minecraft:armor\":{\"protection\":-12345}}"
    );
}

#[test]
fn nested_object_values_serialize_in_order() {
    let d = ComponentDescriptor {
        name: "Repairable".to_string(),
        wire_key: "minecraft:repairable".to_string(),
        transparent: false,
        fields: vec![field("repair_items", "repair_items", ValueKind::List, false)],
    };
    let entry = ComponentValue::Object(vec![
        (
            "items".to_string(),
            ComponentValue::List(vec![ComponentValue::Str("minecraft:stick".to_string())]),
        ),
        ("amount".to_string(), ComponentValue::Str("10".to_string())),
    ]);
    let c = ComponentInstance::new(d, vec![ComponentValue::List(vec![entry])]).unwrap();
    assert_eq!(
        c.serialize(),
        "{\"minecraft:repairable\":{\"repair_items\":[{\"items\":[\"minecraft:stick\"],\"amount\":\"10\"}]}}"
    );
}

#[test]
fn visibility_and_conversion_do_not_change_output() {
    let mut d1 = durability_descriptor();
    let mut d2 = durability_descriptor();
    d1.fields[1].visibility = FieldVisibility::Public;
    d2.fields[1].visibility = FieldVisibility::Private;
    d1.fields[1].conversion = FieldConversion::Exact;
    d2.fields[1].conversion = FieldConversion::Converted;
    let vals = vec![ComponentValue::List(vec![]), ComponentValue::Int(64)];
    let c1 = ComponentInstance::new(d1, vals.clone()).unwrap();
    let c2 = ComponentInstance::new(d2, vals).unwrap();
    assert_eq!(c1.serialize(), c2.serialize());
}
