use bedrock_components::vio::{
    Buildable, ColorCode, Identifier, MolangStatement, Pair, RangeDescriptor, SemVer, vec_into,
};

#[test]
fn identifier_renders_namespaced_name() {
    let id = Identifier::new("minecraft".to_string(), "stick".to_string());
    assert_eq!(id.render(), "minecraft:stick");
}

#[test]
fn identifier_render_is_repeatable() {
    let id = Identifier::new("test".to_string(), "test".to_string());
    assert_eq!(id.render(), "test:test");
    assert_eq!(id.render(), "test:test");
}

#[test]
fn semver_renders_dotted_and_beta() {
    assert_eq!(SemVer::new(1, 0, 0).render(), "1.0.0");
    assert_eq!(SemVer::new_beta(1, 2, 0).render(), "1.2.0-beta");
    assert_eq!(SemVer::new_beta(1, 9, 0).render(), "1.9.0-beta");
    assert_eq!(SemVer::new(10, 21, 40).render(), "10.21.40");
}

#[test]
fn semver_renders_commas_without_suffix() {
    assert_eq!(SemVer::new(1, 0, 0).render_commas(), "1, 0, 0");
    assert_eq!(SemVer::new_beta(1, 2, 0).render_commas(), "1, 2, 0");
}

#[test]
fn semver_current_is_fixed() {
    assert_eq!(SemVer::current().render(), "1.21.40");
}

#[test]
fn pair_keeps_order() {
    let p = Pair::new(1i64, "second".to_string());
    assert_eq!(p.first, 1);
    assert_eq!(p.second, "second");
}

#[test]
fn range_descriptor_keeps_bounds() {
    let r = RangeDescriptor::new(3i64, 7i64);
    assert_eq!(r.min, 3);
    assert_eq!(r.max, 7);
}

#[test]
fn molang_keeps_its_text() {
    let m = MolangStatement::new("q.is_sneaking".to_string());
    assert_eq!(m.text(), "q.is_sneaking");
}

#[test]
fn vec_into_converts_each_element() {
    let out: Vec<String> = vec_into(vec!["a", "b", "c"]);
    assert_eq!(out, vec!["a".to_string(), "b".to_string(), "c".to_string()]);
}

#[test]
fn vec_into_empty_stays_empty() {
    let out: Vec<String> = vec_into(Vec::<&str>::new());
    assert!(out.is_empty());
}

fn all_color_codes() -> Vec<ColorCode> {
    vec![
        ColorCode::Black,
        ColorCode::DarkBlue,
        ColorCode::DarkGreen,
        ColorCode::DarkAqua,
        ColorCode::DarkRed,
        ColorCode::DarkPurple,
        ColorCode::Gold,
        ColorCode::Gray,
        ColorCode::DarkGray,
        ColorCode::Blue,
        ColorCode::Green,
        ColorCode::Aqua,
        ColorCode::Red,
        ColorCode::LightPurple,
        ColorCode::Yellow,
        ColorCode::White,
        ColorCode::MinecoinGold,
        ColorCode::MaterialQuartz,
        ColorCode::MaterialIron,
        ColorCode::MaterialNetherite,
        ColorCode::MaterialRedstone,
        ColorCode::MaterialCopper,
        ColorCode::MaterialGold,
        ColorCode::MaterialEmerald,
        ColorCode::MaterialDiamond,
        ColorCode::MaterialLapis,
        ColorCode::MaterialAmethyst,
        ColorCode::MaterialResin,
    ]
}

#[test]
fn color_tokens_are_two_chars_and_open_with_section_sign() {
    let codes = all_color_codes();
    assert_eq!(codes.len(), 28);
    for c in &codes {
        let token: Vec<char> = c.str_code().chars().collect();
        assert_eq!(token.len(), 2);
        assert_eq!(token[0], '§');
    }
}

#[test]
fn color_tokens_are_pairwise_distinct() {
    let codes = all_color_codes();
    let tokens: Vec<&str> = codes.iter().map(|c| c.str_code()).collect();
    for i in 0..tokens.len() {
        for j in (i + 1)..tokens.len() {
            assert_ne!(tokens[i], tokens[j]);
        }
    }
}

#[test]
fn color_token_spot_checks() {
    assert_eq!(ColorCode::Black.str_code(), "§0");
    assert_eq!(ColorCode::Green.str_code(), "§a");
    assert_eq!(ColorCode::MaterialResin.str_code(), "§v");
}

#[test]
fn built_snapshot_ignores_later_mutation() {
    let mut r = RangeDescriptor::new(1i64, 5i64);
    let snapshot = r.build();
    r.min = 7;
    r.max = 9;
    assert_eq!(snapshot.min, 1);
    assert_eq!(snapshot.max, 5);
    let other = snapshot.clone();
    assert_eq!(other.min, 1);
}
