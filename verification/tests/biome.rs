use pumpkin_embed::biome::{
    ActiveBiomeSupplier, Biome, BiomeQuery, BiomeRegistry, BiomeSource, BiomeSupplier, BiomeTree,
    Dimension, FixedBiomeSupplier, LastResultNode, MultiNoiseBiomeSupplier, TheEndBiomeSupplier,
    TreeAnswer,
};

const PLAINS: Biome = Biome { id: 40 };
const DESERT: Biome = Biome { id: 14 };

fn registry() -> BiomeRegistry {
    BiomeRegistry::new(
        vec![("desert".to_owned(), DESERT), ("plains".to_owned(), PLAINS)],
        PLAINS,
    )
}

fn fixed(name: &str) -> BiomeSource {
    BiomeSource::Fixed { biome: name.to_owned() }
}

fn preset(name: &str) -> BiomeSource {
    BiomeSource::WithPreset { preset: name.to_owned() }
}

fn simple(name: &str) -> BiomeSource {
    BiomeSource::Simple { biome_type: name.to_owned() }
}

fn chosen(source: &BiomeSource, dimension: Dimension) -> ActiveBiomeSupplier {
    ActiveBiomeSupplier::from_biome_source(Some(source), &dimension, &registry())
}

fn overworld() -> ActiveBiomeSupplier {
    ActiveBiomeSupplier::MultiNoise(MultiNoiseBiomeSupplier::overworld())
}

fn nether() -> ActiveBiomeSupplier {
    ActiveBiomeSupplier::MultiNoise(MultiNoiseBiomeSupplier::nether())
}

fn end() -> ActiveBiomeSupplier {
    ActiveBiomeSupplier::End(TheEndBiomeSupplier)
}

#[test]
fn presets_select_their_trees() {
    for name in ["overworld", "large_biomes", "amplified"] {
        let found = MultiNoiseBiomeSupplier::from_preset(name);
        assert_eq!(found, Some(MultiNoiseBiomeSupplier::overworld()));
        let found = MultiNoiseBiomeSupplier::from_preset(&format!("minecraft:{name}"));
        assert_eq!(found, Some(MultiNoiseBiomeSupplier::overworld()));
    }
    let found = MultiNoiseBiomeSupplier::from_preset("minecraft:nether");
    assert_eq!(found, Some(MultiNoiseBiomeSupplier::nether()));
    assert_eq!(MultiNoiseBiomeSupplier::nether().source, BiomeTree::Nether);
    for name in ["", "the_end", "Nether", "minecraft:minecraft:nether", "nether "] {
        assert_eq!(MultiNoiseBiomeSupplier::from_preset(name), None);
    }
}

#[test]
fn dimensions_select_their_suppliers() {
    assert_eq!(ActiveBiomeSupplier::from_dimension(&Dimension::Overworld), overworld());
    assert_eq!(ActiveBiomeSupplier::from_dimension(&Dimension::TheNether), nether());
    assert_eq!(ActiveBiomeSupplier::from_dimension(&Dimension::TheEnd), end());
    assert_eq!(ActiveBiomeSupplier::from_dimension(&Dimension::Other), overworld());
}

#[test]
fn no_settings_mean_the_dimension_decides() {
    for dimension in [Dimension::Overworld, Dimension::TheNether, Dimension::TheEnd] {
        assert_eq!(
            ActiveBiomeSupplier::from_biome_source(None, &dimension, &registry()),
            ActiveBiomeSupplier::from_dimension(&dimension)
        );
    }
}

#[test]
fn a_fixed_biome_is_looked_up_by_its_bare_name() {
    let desert = ActiveBiomeSupplier::Fixed(FixedBiomeSupplier::new(DESERT));
    let plains = ActiveBiomeSupplier::Fixed(FixedBiomeSupplier::new(PLAINS));
    assert_eq!(chosen(&fixed("desert"), Dimension::TheEnd), desert);
    assert_eq!(chosen(&fixed("minecraft:desert"), Dimension::Overworld), desert);
    assert_eq!(chosen(&fixed("minecraft:atlantis"), Dimension::Overworld), plains);
    assert_eq!(chosen(&fixed(""), Dimension::Overworld), plains);
}

#[test]
fn an_unknown_preset_means_the_overworld() {
    assert_eq!(chosen(&preset("minecraft:nether"), Dimension::Overworld), nether());
    assert_eq!(chosen(&preset("nether"), Dimension::TheEnd), nether());
    assert_eq!(chosen(&preset("amplified"), Dimension::TheNether), overworld());
    assert_eq!(chosen(&preset("unknown"), Dimension::TheNether), overworld());
}

#[test]
fn a_simple_source_overrides_the_dimension_where_it_is_known() {
    assert_eq!(chosen(&simple("minecraft:the_end"), Dimension::Overworld), end());
    assert_eq!(chosen(&simple("the_nether"), Dimension::Overworld), nether());
    assert_eq!(chosen(&simple("checkerboard"), Dimension::TheNether), nether());
    assert_eq!(chosen(&simple("nether"), Dimension::Overworld), overworld());
}

#[test]
fn registries_know_the_first_biome_of_a_name() {
    assert_eq!(registry().from_name("desert"), Some(DESERT));
    assert_eq!(registry().from_name("deser"), None);
    let doubled = BiomeRegistry::new(
        vec![("a".to_owned(), Biome { id: 1 }), ("a".to_owned(), Biome { id: 2 })],
        PLAINS,
    );
    assert_eq!(doubled.from_name("a"), Some(Biome { id: 1 }));
}

#[test]
fn suppliers_ask_for_what_they_need() {
    let fixed = ActiveBiomeSupplier::Fixed(FixedBiomeSupplier { biome: DESERT });
    assert_eq!(fixed.biome(-24, 1, 8), BiomeQuery::Known(DESERT));
    assert_eq!(fixed.biome(i32::MAX, i32::MIN, 0), BiomeQuery::Known(DESERT));
    assert_eq!(
        nether().biome(-24, 1, 8),
        BiomeQuery::MultiNoise { source: BiomeTree::Nether, x: -24, y: 1, z: 8 }
    );
    assert_eq!(end().biome(1, 2, 3), BiomeQuery::End { x: 1, y: 2, z: 3 });
}

#[test]
fn a_search_starts_where_the_last_one_ended() {
    let mut last = LastResultNode::new();
    let first = last.search(BiomeTree::Overworld, vec![1, -2, 3]);
    assert_eq!(first.hint, None);
    assert_eq!(first.point, [1, -2, 3]);
    let found = last.answered(TreeAnswer { biome: DESERT, node: Some(77) });
    assert_eq!(found, DESERT);
    let second = last.search(BiomeTree::Nether, Vec::new());
    assert_eq!(second.source, BiomeTree::Nether);
    assert_eq!(second.hint, Some(77));
}
