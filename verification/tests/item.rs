use bedrock_components::component::{
    ComponentDescriptor, ComponentInstance, FieldConversion, FieldSpec, FieldVisibility,
    ItemComponent, ValueKind,
};
use bedrock_components::fragment::ComponentValue;
use bedrock_components::item::Item;
use bedrock_components::vio::{Buildable, Identifier, MolangStatement, Pair, SemVer};

fn field(name: &str, wire_key: &str, value_type: ValueKind, optional: bool) -> FieldSpec {
    FieldSpec {
        field_name: name.to_string(),
        wire_key: wire_key.to_string(),
        value_type,
        visibility: FieldVisibility::Public,
        optional,
        conversion: FieldConversion::Exact,
    }
}

fn single_field_component(
    name: &str,
    wire_key: &str,
    field_name: &str,
    value: ComponentValue,
    kind: ValueKind,
) -> ComponentInstance {
    let d = ComponentDescriptor {
        name: name.to_string(),
        wire_key: wire_key.to_string(),
        transparent: false,
        fields: vec![field(field_name, field_name, kind, false)],
    };
    ComponentInstance::new(d, vec![value]).unwrap()
}

#[test]
fn main() {
    let server_ui_version = "1.2.0-beta";
    let server_version = "1.9.0-beta";
    assert_eq!(SemVer::new_beta(1, 2, 0).render(), server_ui_version);
    assert_eq!(SemVer::new_beta(1, 9, 0).render(), server_version);
    assert_eq!(SemVer::new(1, 0, 0).render_commas(), "1, 0, 0");

    let pack_names = Pair::new("TestThird".to_string(), "testThird".to_string());
    assert_eq!(pack_names.first, "TestThird");
    assert_eq!(pack_names.second, "testThird");
    let author = Identifier::new("naker".to_string(), "NaKeR".to_string());
    assert_eq!(author.render(), "naker:NaKeR");
    let description = MolangStatement::new("Nothing here".to_string());
    assert_eq!(description.text(), "Nothing here");
    let scripts_folder = MolangStatement::new("./src-scripts".to_string());
    assert_eq!(scripts_folder.text(), "./src-scripts");

    let damage = ComponentInstance::new(
        ComponentDescriptor {
            name: "Damage".to_string(),
            wire_key: "minecraft:damage".to_string(),
            transparent: false,
            fields: vec![field("value", "value", ValueKind::Int, true)],
        },
        vec![ComponentValue::Int(3)],
    )
    .unwrap();
    let display_name = single_field_component(
        "DisplayName",
        "minecraft:display_name",
        "value",
        ComponentValue::Str("Test".to_string()),
        ValueKind::Str,
    );
    let icon = single_field_component(
        "Icon",
        "minecraft:icon",
        "texture",
        ComponentValue::Str("test_test".to_string()),
        ValueKind::Str,
    );
    let fuel = single_field_component(
        "Fuel",
        "minecraft:fuel",
        "duration",
        ComponentValue::Int(10),
        ValueKind::Int,
    );
    let repair_entry = ComponentValue::Object(vec![
        (
            "items".to_string(),
            ComponentValue::List(vec![ComponentValue::Str("minecraft:stick".to_string())]),
        ),
        ("amount".to_string(), ComponentValue::Str("10".to_string())),
    ]);
    let repairable = single_field_component(
        "Repairable",
        "minecraft:repairable",
        "repair_entries",
        ComponentValue::List(vec![repair_entry]),
        ValueKind::List,
    );

    let item = Item::new(
        Identifier::new("test".to_string(), "test".to_string()),
        r"C:\Users\User\newgito\bluestone.png".to_string(),
        vec![
            damage.build(),
            display_name.build(),
            icon.build(),
            fuel.build(),
            repairable.build(),
        ],
    );
    assert_eq!(item.type_id.render(), "test:test");

    let map = item.render_component_map();
    let expected = "{\"minecraft:damage\":{\"value\":3},\"minecraft:display_name\":{\"value\":\"Test\"},\"minecraft:icon\":{\"texture\":\"test_test\"},\"minecraft:fuel\":{\"duration\":10},\"minecraft:repairable\":{\"repair_entries\":[{\"items\":[\"minecraft:stick\"],\"amount\":\"10\"}]}}";
    assert_eq!(map, expected);
}

#[test]
fn rarity_and_durability_end_to_end() {
    let rarity = ComponentInstance::new(
        ComponentDescriptor {
            name: "Rarity".to_string(),
            wire_key: "minecraft:rarity".to_string(),
            transparent: true,
            fields: vec![field("rarity", "minecraft:rarity", ValueKind::Str, false)],
        },
        vec![ComponentValue::Str("rare".to_string())],
    )
    .unwrap();
    let durability = ComponentInstance::new(
        ComponentDescriptor {
            name: "Durability".to_string(),
            wire_key: "minecraft:durability".to_string(),
            transparent: false,
            fields: vec![
                field("damage_chance", "damage_chance", ValueKind::List, true),
                field("max_durability", "max_durability", ValueKind::Int, false),
            ],
        },
        vec![ComponentValue::List(vec![]), ComponentValue::Int(100)],
    )
    .unwrap();
    let item = Item::new(
        Identifier::new("test".to_string(), "gadget".to_string()),
        "gadget.png".to_string(),
        vec![rarity.build(), durability.build()],
    );
    assert_eq!(
        item.render_component_map(),
        "{\"minecraft:rarity\":\"rare\",\"minecraft:durability\":{\"max_durability\":100}}"
    );
}

#[test]
fn shared_component_serializes_alike_from_every_holder() {
    let fuel = single_field_component(
        "Fuel",
        "minecraft:fuel",
        "duration",
        ComponentValue::Int(20),
        ValueKind::Int,
    );
    let shared = fuel.build();
    let first = Item::new(
        Identifier::new("test".to_string(), "first".to_string()),
        "first.png".to_string(),
        vec![shared.clone()],
    );
    let second = Item::new(
        Identifier::new("test".to_string(), "second".to_string()),
        "second.png".to_string(),
        vec![shared],
    );
    assert_eq!(first.render_component_map(), second.render_component_map());
    assert_eq!(fuel.serialize(), "{\"minecraft:fuel\":{\"duration\":20}}");
}

#[test]
fn empty_component_list_renders_empty_map() {
    let item = Item::new(
        Identifier::new("test".to_string(), "bare".to_string()),
        "bare.png".to_string(),
        vec![],
    );
    assert_eq!(item.render_component_map(), "{}");
}
