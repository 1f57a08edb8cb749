//! Which biome source a dimension uses, and what a supplier asks for to name
//! the biome at a position.

use crate::text;
use crate::text::{same_text, strip_prefix};
use vstd::prelude::*;

verus! {

/// A name without the namespace of the base game, which may precede it.
pub open spec fn bare_name(name: Seq<char>) -> Seq<char> {
    text::without_prefix(name, "minecraft:"@)
}

/// A biome, by its number in the registry.
#[derive(Clone, Copy, Debug, PartialEq, Eq, Structural)]
pub struct Biome {
    pub id: u8,
}

/// The biome trees that multi-noise suppliers search.
#[derive(Clone, Copy, Debug, PartialEq, Eq, Structural)]
pub enum BiomeTree {
    Overworld,
    Nether,
}

/// The dimensions that biome suppliers are chosen for.
#[derive(Clone, Copy, Debug, PartialEq, Eq, Structural)]
pub enum Dimension {
    Overworld,
    TheNether,
    TheEnd,
    /// Any dimension besides these three.
    Other,
}

/// The biome source that a world's settings name for a dimension.
pub enum BiomeSource {
    /// One biome everywhere.
    Fixed { biome: String },
    /// A preset of the multi-noise source.
    WithPreset { preset: String },
    /// A source without settings of its own.
    Simple { biome_type: String },
}

/// The biomes a server knows, by name.
pub struct BiomeRegistry {
    entries: Vec<(String, Biome)>,
    plains: Biome,
}

/// The biome of the first entry with a name.
pub open spec fn first_named(entries: Seq<(String, Biome)>, name: Seq<char>) -> Option<Biome>
    decreases entries.len(),
{
    if entries.len() == 0 {
        None
    } else if entries.first().0@ == name {
        Some(entries.first().1)
    } else {
        first_named(entries.drop_first(), name)
    }
}

/// Whether entry `i` has a name that no entry before it has.
pub open spec fn is_first_named(entries: Seq<(String, Biome)>, name: Seq<char>, i: int) -> bool {
    &&& 0 <= i < entries.len()
    &&& entries[i].0@ == name
    &&& forall|j: int| 0 <= j < i ==> (#[trigger] entries[j]).0@ != name
}

/// A name that an entry has finds the biome of the first such entry; one that
/// no entry has finds nothing.
pub proof fn law_first_of_a_name_is_found(entries: Seq<(String, Biome)>, name: Seq<char>)
    ensures
        first_named(entries, name) is None <==> (forall|i: int|
            0 <= i < entries.len() ==> (#[trigger] entries[i]).0@ != name),
        first_named(entries, name) matches Some(biome) ==> exists|i: int|
            is_first_named(entries, name, i) && (#[trigger] entries[i]).1 == biome,
        forall|i: int|
            is_first_named(entries, name, i) ==> first_named(entries, name) == Some(
                (#[trigger] entries[i]).1,
            ),
    decreases entries.len(),
{
    if entries.len() > 0 {
        let rest = entries.drop_first();
        if entries[0].0@ == name {
            assert(is_first_named(entries, name, 0));
        } else {
            law_first_of_a_name_is_found(rest, name);
            assert forall|i: int| is_first_named(entries, name, i) implies first_named(
                entries,
                name,
            ) == Some((#[trigger] entries[i]).1) by {
                assert(i > 0);
                assert(rest[i - 1] == entries[i]);
                assert forall|j: int| 0 <= j < i - 1 implies (#[trigger] rest[j]).0@ != name by {
                    assert(rest[j] == entries[j + 1]);
                }
                assert(is_first_named(rest, name, i - 1));
            }
            if first_named(rest, name) is Some {
                let k = choose|k: int|
                    is_first_named(rest, name, k) && (#[trigger] rest[k]).1 == first_named(
                        rest,
                        name,
                    )->0;
                assert(entries[k + 1] == rest[k]);
                assert forall|j: int| 0 <= j < k + 1 implies (#[trigger] entries[j]).0@
                    != name by {
                    if j > 0 {
                        assert(rest[j - 1] == entries[j]);
                    }
                }
                assert(is_first_named(entries, name, k + 1));
            } else {
                assert forall|i: int| 0 <= i < entries.len() implies (#[trigger] entries[i]).0@
                    != name by {
                    if i > 0 {
                        assert(rest[i - 1] == entries[i]);
                    }
                }
            }
        }
    }
}

impl BiomeRegistry {
    /// The registered names and biomes, in order.
    pub closed spec fn entries(&self) -> Seq<(String, Biome)> {
        self.entries@
    }

    /// The biome that stands in for an unknown one.
    pub closed spec fn plains(&self) -> Biome {
        self.plains
    }

    /// The biome with a name, where one is registered.
    pub open spec fn named(&self, name: Seq<char>) -> Option<Biome> {
        first_named(self.entries(), name)
    }

    pub fn new(entries: Vec<(String, Biome)>, plains: Biome) -> (registry: BiomeRegistry)
        ensures
            registry.entries() == entries@,
            registry.plains() == plains,
    {
        BiomeRegistry { entries, plains }
    }

    /// The biome with a name, where one is registered.
    pub fn from_name(&self, name: &str) -> (found: Option<Biome>)
        ensures
            found == self.named(name@),
            found is None <==> (forall|i: int|
                0 <= i < self.entries().len() ==> (#[trigger] self.entries()[i]).0@ != name@),
            found matches Some(biome) ==> exists|i: int|
                is_first_named(self.entries(), name@, i) && (#[trigger] self.entries()[i]).1
                    == biome,
    {
        proof {
            law_first_of_a_name_is_found(self.entries(), name@);
        }
        let mut i: usize = 0;
        assert(self.entries@.skip(0) =~= self.entries@);
        while i < self.entries.len()
            invariant
                i <= self.entries@.len(),
                self.named(name@) == first_named(self.entries@.skip(i as int), name@),
            decreases self.entries@.len() - i,
        {
            let ghost rest = self.entries@.skip(i as int);
            assert(rest.first() == self.entries@[i as int]);
            assert(rest.drop_first() =~= self.entries@.skip(i + 1));
            if same_text(self.entries[i].0.as_str(), name) {
                proof {
                    law_first_of_a_name_is_found(self.entries(), name@);
                }
                return Some(self.entries[i].1);
            }
            i += 1;
        }
        None
    }
}

/// What it takes to name the biome at a position.
#[derive(Clone, Copy, Debug, PartialEq, Eq, Structural)]
pub enum BiomeQuery {
    /// The biome is known.
    Known(Biome),
    /// The noise at the position has to be sampled and `source` searched for
    /// the entry closest to it.
    MultiNoise { source: BiomeTree, x: i32, y: i32, z: i32 },
    /// The End's own rule has to be asked about the position.
    End { x: i32, y: i32, z: i32 },
}

/// Names the biome at each position.
pub trait BiomeSupplier {
    /// What the supplier asks about a position.
    spec fn query_at(&self, x: i32, y: i32, z: i32) -> BiomeQuery;

    /// What it takes to name the biome at a position.
    fn biome(&self, x: i32, y: i32, z: i32) -> (query: BiomeQuery)
        ensures
            query == self.query_at(x, y, z),
    ;
}

/// Supplies the biomes of a tree by the noise at each position.
#[derive(Clone, Copy, Debug, PartialEq, Eq, Structural)]
pub struct MultiNoiseBiomeSupplier {
    pub source: BiomeTree,
}

/// The tree that a preset name selects, where it is the name of a preset.
pub open spec fn preset_tree(preset: Seq<char>) -> Option<BiomeTree> {
    let bare = bare_name(preset);
    if bare == "overworld"@ || bare == "large_biomes"@ || bare == "amplified"@ {
        Some(BiomeTree::Overworld)
    } else if bare == "nether"@ {
        Some(BiomeTree::Nether)
    } else {
        None
    }
}

impl MultiNoiseBiomeSupplier {
    /// The supplier for the overworld.
    pub fn overworld() -> (supplier: Self)
        ensures
            supplier.source == BiomeTree::Overworld,
    {
        MultiNoiseBiomeSupplier { source: BiomeTree::Overworld }
    }

    /// The supplier for the nether.
    pub fn nether() -> (supplier: Self)
        ensures
            supplier.source == BiomeTree::Nether,
    {
        MultiNoiseBiomeSupplier { source: BiomeTree::Nether }
    }

    /// The supplier for a preset, with or without its namespace.
    #[must_use]
    pub fn from_preset(preset: &str) -> (supplier: Option<Self>)
        ensures
            supplier == (match preset_tree(preset@) {
                Some(source) => Some(MultiNoiseBiomeSupplier { source }),
                None => None,
            }),
    {
        let preset = strip_prefix(preset, "minecraft:");
        if same_text(preset, "overworld") || same_text(preset, "large_biomes") || same_text(
            preset,
            "amplified",
        ) {
            Some(Self::overworld())
        } else if same_text(preset, "nether") {
            Some(Self::nether())
        } else {
            None
        }
    }
}

impl BiomeSupplier for MultiNoiseBiomeSupplier {
    open spec fn query_at(&self, x: i32, y: i32, z: i32) -> BiomeQuery {
        BiomeQuery::MultiNoise { source: self.source, x, y, z }
    }

    fn biome(&self, x: i32, y: i32, z: i32) -> (query: BiomeQuery)
        ensures
            query == (BiomeQuery::MultiNoise { source: self.source, x, y, z }),
    {
        BiomeQuery::MultiNoise { source: self.source, x, y, z }
    }
}

/// Supplies the biomes of the End.
#[derive(Clone, Copy, Debug, PartialEq, Eq, Structural)]
pub struct TheEndBiomeSupplier;

impl BiomeSupplier for TheEndBiomeSupplier {
    open spec fn query_at(&self, x: i32, y: i32, z: i32) -> BiomeQuery {
        BiomeQuery::End { x, y, z }
    }

    fn biome(&self, x: i32, y: i32, z: i32) -> (query: BiomeQuery)
        ensures
            query == (BiomeQuery::End { x, y, z }),
    {
        BiomeQuery::End { x, y, z }
    }
}

/// Supplies one biome everywhere.
#[derive(Clone, Copy, Debug, PartialEq, Eq, Structural)]
pub struct FixedBiomeSupplier {
    pub biome: Biome,
}

impl FixedBiomeSupplier {
    #[must_use]
    pub fn new(biome: Biome) -> (supplier: Self)
        ensures
            supplier.biome == biome,
    {
        FixedBiomeSupplier { biome }
    }
}

impl BiomeSupplier for FixedBiomeSupplier {
    open spec fn query_at(&self, x: i32, y: i32, z: i32) -> BiomeQuery {
        BiomeQuery::Known(self.biome)
    }

    fn biome(&self, _x: i32, _y: i32, _z: i32) -> (query: BiomeQuery)
        ensures
            query == BiomeQuery::Known(self.biome),
    {
        BiomeQuery::Known(self.biome)
    }
}

/// The supplier that a dimension uses.
#[derive(Clone, Copy, Debug, PartialEq, Eq, Structural)]
pub enum ActiveBiomeSupplier {
    MultiNoise(MultiNoiseBiomeSupplier),
    End(TheEndBiomeSupplier),
    Fixed(FixedBiomeSupplier),
}

impl BiomeSupplier for ActiveBiomeSupplier {
    open spec fn query_at(&self, x: i32, y: i32, z: i32) -> BiomeQuery {
        match self {
            ActiveBiomeSupplier::MultiNoise(supplier) => supplier.query_at(x, y, z),
            ActiveBiomeSupplier::End(supplier) => supplier.query_at(x, y, z),
            ActiveBiomeSupplier::Fixed(supplier) => supplier.query_at(x, y, z),
        }
    }

    fn biome(&self, x: i32, y: i32, z: i32) -> (query: BiomeQuery)
        ensures
            self matches ActiveBiomeSupplier::MultiNoise(supplier) ==> query == (
            BiomeQuery::MultiNoise { source: supplier.source, x, y, z }),
            self is End ==> query == (BiomeQuery::End { x, y, z }),
            self matches ActiveBiomeSupplier::Fixed(supplier) ==> query == BiomeQuery::Known(
                supplier.biome,
            ),
    {
        match self {
            ActiveBiomeSupplier::MultiNoise(supplier) => supplier.biome(x, y, z),
            ActiveBiomeSupplier::End(supplier) => supplier.biome(x, y, z),
            ActiveBiomeSupplier::Fixed(supplier) => supplier.biome(x, y, z),
        }
    }
}

/// The supplier that searches a tree.
pub open spec fn multi_noise(source: BiomeTree) -> ActiveBiomeSupplier {
    ActiveBiomeSupplier::MultiNoise(MultiNoiseBiomeSupplier { source })
}

/// The supplier that a dimension has where its settings name no source.
pub open spec fn supplier_of_dimension(dimension: Dimension) -> ActiveBiomeSupplier {
    match dimension {
        Dimension::TheEnd => ActiveBiomeSupplier::End(TheEndBiomeSupplier),
        Dimension::TheNether => multi_noise(BiomeTree::Nether),
        _ => multi_noise(BiomeTree::Overworld),
    }
}

/// The supplier that a dimension's settings select.
pub open spec fn supplier_of_source(
    source: Option<&BiomeSource>,
    dimension: Dimension,
    biomes: &BiomeRegistry,
) -> ActiveBiomeSupplier {
    match source {
        None => supplier_of_dimension(dimension),
        Some(BiomeSource::Fixed { biome }) => ActiveBiomeSupplier::Fixed(
            FixedBiomeSupplier {
                biome: match biomes.named(bare_name(biome@)) {
                    Some(found) => found,
                    None => biomes.plains(),
                },
            },
        ),
        Some(BiomeSource::WithPreset { preset }) => multi_noise(
            if bare_name(preset@) == "nether"@ {
                BiomeTree::Nether
            } else {
                BiomeTree::Overworld
            },
        ),
        Some(BiomeSource::Simple { biome_type }) => if bare_name(biome_type@) == "the_end"@ {
            ActiveBiomeSupplier::End(TheEndBiomeSupplier)
        } else if bare_name(biome_type@) == "the_nether"@ {
            multi_noise(BiomeTree::Nether)
        } else {
            supplier_of_dimension(dimension)
        },
    }
}

impl ActiveBiomeSupplier {
    /// The supplier that a dimension's settings select. A fixed biome that is
    /// not registered becomes plains, and a preset that is not the nether's
    /// becomes the overworld's.
    #[must_use]
    pub fn from_biome_source(
        source: Option<&BiomeSource>,
        dimension: &Dimension,
        biomes: &BiomeRegistry,
    ) -> (supplier: Self)
        ensures
            supplier == supplier_of_source(source, *dimension, biomes),
    {
        match source {
            Some(BiomeSource::Fixed { biome }) => {
                let clean = strip_prefix(biome.as_str(), "minecraft:");
                let resolved = match biomes.from_name(clean) {
                    Some(found) => found,
                    None => biomes.plains,
                };
                ActiveBiomeSupplier::Fixed(FixedBiomeSupplier::new(resolved))
            },
            Some(BiomeSource::WithPreset { preset }) => {
                let clean = strip_prefix(preset.as_str(), "minecraft:");
                if same_text(clean, "nether") {
                    ActiveBiomeSupplier::MultiNoise(MultiNoiseBiomeSupplier::nether())
                } else {
                    ActiveBiomeSupplier::MultiNoise(MultiNoiseBiomeSupplier::overworld())
                }
            },
            Some(BiomeSource::Simple { biome_type }) => {
                let clean = strip_prefix(biome_type.as_str(), "minecraft:");
                if same_text(clean, "the_end") {
                    ActiveBiomeSupplier::End(TheEndBiomeSupplier)
                } else if same_text(clean, "the_nether") {
                    ActiveBiomeSupplier::MultiNoise(MultiNoiseBiomeSupplier::nether())
                } else {
                    Self::from_dimension(dimension)
                }
            },
            None => Self::from_dimension(dimension),
        }
    }

    /// The supplier that a dimension has where its settings name no source.
    #[must_use]
    pub fn from_dimension(dimension: &Dimension) -> (supplier: Self)
        ensures
            supplier == supplier_of_dimension(*dimension),
    {
        if *dimension == Dimension::TheEnd {
            ActiveBiomeSupplier::End(TheEndBiomeSupplier)
        } else if *dimension == Dimension::TheNether {
            ActiveBiomeSupplier::MultiNoise(MultiNoiseBiomeSupplier::nether())
        } else {
            ActiveBiomeSupplier::MultiNoise(MultiNoiseBiomeSupplier::overworld())
        }
    }
}

/// A search of a biome tree for the entry closest to `point`, starting at the
/// node `hint` where there is one.
pub struct TreeSearch {
    pub source: BiomeTree,
    pub point: Vec<i64>,
    pub hint: Option<u64>,
}

/// What a search found, and the node to start the next search at.
#[derive(Clone, Copy, Debug, PartialEq, Eq, Structural)]
pub struct TreeAnswer {
    pub biome: Biome,
    pub node: Option<u64>,
}

/// The node that the last search left behind: a shortcut, since neighbouring
/// positions mostly have the same biome. All suppliers of a thread share it.
#[derive(Clone, Copy, Debug, PartialEq, Eq, Structural)]
pub struct LastResultNode {
    pub node: Option<u64>,
}

impl LastResultNode {
    /// What is left behind once a search was answered.
    pub open spec fn after(self, answer: TreeAnswer) -> LastResultNode {
        LastResultNode { node: answer.node }
    }

    /// The node to start a search at, whichever tree it is of.
    pub open spec fn hint(self) -> Option<u64> {
        self.node
    }

    /// A search starts at the node that the search before it left behind.
    pub proof fn law_search_starts_where_last_one_ended(self, answer: TreeAnswer)
        ensures
            self.hint() == self.node,
            self.after(answer).hint() == answer.node,
    {
    }

    /// No search was made yet.
    pub fn new() -> (last: Self)
        ensures
            last.hint() is None,
    {
        LastResultNode { node: None }
    }

    /// The search to make for a sampled point.
    pub fn search(&self, source: BiomeTree, point: Vec<i64>) -> (search: TreeSearch)
        ensures
            search.source == source,
            search.point == point,
            search.hint == self.hint(),
            search.hint == self.node,
    {
        TreeSearch { source, point, hint: self.node }
    }

    /// Takes the answer of a search, and gives the biome it found.
    pub fn answered(&mut self, answer: TreeAnswer) -> (biome: Biome)
        ensures
            biome == answer.biome,
            *final(self) == old(self).after(answer),
            final(self).node == answer.node,
    {
        self.node = answer.node;
        answer.biome
    }
}

/// A name means the same with and without the namespace, for each bare name.
pub proof fn law_namespace_is_optional(name: Seq<char>)
    requires
        !"minecraft:"@.is_prefix_of(name),
    ensures
        bare_name("minecraft:"@ + name) == bare_name(name),
        preset_tree("minecraft:"@ + name) == preset_tree(name),
{
    let full = "minecraft:"@ + name;
    assert("minecraft:"@.is_prefix_of(full)) by {
        assert(full.take("minecraft:"@.len() as int) =~= "minecraft:"@);
    }
    assert(full.skip("minecraft:"@.len() as int) =~= name);
}

/// Settings mean the same with and without the namespace before the name
/// that they hold.
pub proof fn law_namespace_is_optional_in_settings(
    full: String,
    name: String,
    dimension: Dimension,
    biomes: &BiomeRegistry,
)
    requires
        full@ == "minecraft:"@ + name@,
        !"minecraft:"@.is_prefix_of(name@),
    ensures
        supplier_of_source(Some(&BiomeSource::Fixed { biome: full }), dimension, biomes)
            == supplier_of_source(Some(&BiomeSource::Fixed { biome: name }), dimension, biomes),
        supplier_of_source(Some(&BiomeSource::WithPreset { preset: full }), dimension, biomes)
            == supplier_of_source(
            Some(&BiomeSource::WithPreset { preset: name }),
            dimension,
            biomes,
        ),
        supplier_of_source(Some(&BiomeSource::Simple { biome_type: full }), dimension, biomes)
            == supplier_of_source(
            Some(&BiomeSource::Simple { biome_type: name }),
            dimension,
            biomes,
        ),
{
    law_namespace_is_optional(name@);
}

/// Settings that name a preset select the supplier of that preset; where the
/// name is no preset's, they select the overworld's.
pub proof fn law_settings_agree_with_presets(
    preset: String,
    dimension: Dimension,
    biomes: &BiomeRegistry,
)
    ensures
        supplier_of_source(Some(&BiomeSource::WithPreset { preset }), dimension, biomes)
            == multi_noise(
            match preset_tree(preset@) {
                Some(source) => source,
                None => BiomeTree::Overworld,
            },
        ),
{
    reveal_strlit("overworld");
    reveal_strlit("large_biomes");
    reveal_strlit("amplified");
    reveal_strlit("nether");
    assert("nether"@.len() != "overworld"@.len());
    assert("nether"@.len() != "large_biomes"@.len());
    assert("nether"@.len() != "amplified"@.len());
}

/// A name behind the namespace is that name without it, whatever it is, and a
/// name without the namespace is left as it is.
pub proof fn law_only_the_namespace_comes_off(name: Seq<char>)
    ensures
        bare_name("minecraft:"@ + name) == name,
        !"minecraft:"@.is_prefix_of(name) ==> bare_name(name) == name,
{
    crate::text::law_prefix_comes_off(name, "minecraft:"@);
}

/// Whether a full name is `bare`, with or without the namespace.
pub open spec fn names(full: Seq<char>, bare: Seq<char>) -> bool {
    full == bare || full == "minecraft:"@ + bare
}

/// A bare name is that of the name itself and of the name in the namespace,
/// and of no other.
proof fn lemma_bare_name_is(full: Seq<char>, bare: Seq<char>)
    requires
        !"minecraft:"@.is_prefix_of(bare),
    ensures
        bare_name(full) == bare <==> names(full, bare),
{
    crate::text::law_prefix_comes_off(full, "minecraft:"@);
    crate::text::law_prefix_comes_off(bare, "minecraft:"@);
}

/// The presets `overworld`, `large_biomes` and `amplified` are the overworld's
/// and `nether` is the nether's, each with or without the namespace; there are
/// no others.
pub proof fn law_presets(preset: Seq<char>)
    ensures
        preset_tree(preset) == Some(BiomeTree::Overworld) <==> names(preset, "overworld"@) || names(
            preset,
            "large_biomes"@,
        ) || names(preset, "amplified"@),
        preset_tree(preset) == Some(BiomeTree::Nether) <==> names(preset, "nether"@),
{
    reveal_strlit("minecraft:");
    reveal_strlit("overworld");
    reveal_strlit("large_biomes");
    reveal_strlit("amplified");
    reveal_strlit("nether");
    assert("minecraft:"@[0] == 'm');
    assert("large_biomes"@[0] == 'l');
    assert("nether"@.len() != "overworld"@.len());
    assert("nether"@.len() != "large_biomes"@.len());
    assert("nether"@.len() != "amplified"@.len());
    assert(!"minecraft:"@.is_prefix_of("overworld"@));
    assert(!"minecraft:"@.is_prefix_of("large_biomes"@)) by {
        if "minecraft:"@.is_prefix_of("large_biomes"@) {
            assert("large_biomes"@.take(10)[0] == 'l');
        }
    }
    assert(!"minecraft:"@.is_prefix_of("amplified"@));
    assert(!"minecraft:"@.is_prefix_of("nether"@));
    lemma_bare_name_is(preset, "overworld"@);
    lemma_bare_name_is(preset, "large_biomes"@);
    lemma_bare_name_is(preset, "amplified"@);
    lemma_bare_name_is(preset, "nether"@);
}

/// Without settings the End has the End's supplier, the nether the nether's
/// tree, and every other dimension the overworld's, whatever is registered.
pub proof fn law_dimension_decides_without_settings(dimension: Dimension, biomes: &BiomeRegistry)
    ensures
        supplier_of_source(None, dimension, biomes) == supplier_of_dimension(dimension),
        supplier_of_dimension(dimension) is End <==> dimension == Dimension::TheEnd,
        supplier_of_dimension(dimension) == ActiveBiomeSupplier::MultiNoise(
            MultiNoiseBiomeSupplier { source: BiomeTree::Nether },
        ) <==> dimension == Dimension::TheNether,
        supplier_of_dimension(dimension) == ActiveBiomeSupplier::MultiNoise(
            MultiNoiseBiomeSupplier { source: BiomeTree::Overworld },
        ) <==> dimension != Dimension::TheEnd && dimension != Dimension::TheNether,
{
}

/// A simple source that names the End has the End's supplier and one that names
/// the nether has the nether's tree, in every dimension. Any other is as good
/// as none.
pub proof fn law_simple_source_decides_where_it_is_known(
    biome_type: String,
    dimension: Dimension,
    biomes: &BiomeRegistry,
)
    ensures
        ({
            let chosen = supplier_of_source(
                Some(&BiomeSource::Simple { biome_type }),
                dimension,
                biomes,
            );
            &&& names(biome_type@, "the_end"@) ==> chosen is End
            &&& names(biome_type@, "the_nether"@) ==> chosen == ActiveBiomeSupplier::MultiNoise(
                MultiNoiseBiomeSupplier { source: BiomeTree::Nether },
            )
            &&& !names(biome_type@, "the_end"@) && !names(biome_type@, "the_nether"@) ==> chosen
                == supplier_of_source(None, dimension, biomes)
        }),
{
    reveal_strlit("minecraft:");
    reveal_strlit("the_end");
    reveal_strlit("the_nether");
    assert("the_end"@.len() != "the_nether"@.len());
    assert("minecraft:"@[0] == 'm' && "the_nether"@[0] == 't');
    assert(!"minecraft:"@.is_prefix_of("the_end"@));
    assert(!"minecraft:"@.is_prefix_of("the_nether"@)) by {
        if "minecraft:"@.is_prefix_of("the_nether"@) {
            assert("the_nether"@.take(10)[0] == 't');
        }
    }
    lemma_bare_name_is(biome_type@, "the_end"@);
    lemma_bare_name_is(biome_type@, "the_nether"@);
}

/// A preset in settings has the nether's tree where it names the nether, and
/// the overworld's otherwise, in every dimension.
pub proof fn law_preset_source_is_the_nether_or_the_overworld(
    preset: String,
    dimension: Dimension,
    biomes: &BiomeRegistry,
)
    ensures
        supplier_of_source(Some(&BiomeSource::WithPreset { preset }), dimension, biomes)
            == ActiveBiomeSupplier::MultiNoise(
            MultiNoiseBiomeSupplier {
                source: if names(preset@, "nether"@) {
                    BiomeTree::Nether
                } else {
                    BiomeTree::Overworld
                },
            },
        ),
{
    law_presets(preset@);
    law_settings_agree_with_presets(preset, dimension, biomes);
    reveal_strlit("minecraft:");
    reveal_strlit("nether");
    assert(!"minecraft:"@.is_prefix_of("nether"@));
    lemma_bare_name_is(preset@, "nether"@);
}

/// A fixed source has the biome of the first entry with its name, which may be
/// in the namespace, and plains where there is no such entry, in every
/// dimension.
pub proof fn law_fixed_source_is_looked_up(
    biome: String,
    name: Seq<char>,
    dimension: Dimension,
    biomes: &BiomeRegistry,
)
    requires
        biome@ == "minecraft:"@ + name || biome@ == name && !"minecraft:"@.is_prefix_of(name),
    ensures
        ({
            let chosen = supplier_of_source(Some(&BiomeSource::Fixed { biome }), dimension, biomes);
            &&& forall|i: int|
                is_first_named(biomes.entries(), name, i) ==> chosen == ActiveBiomeSupplier::Fixed(
                    FixedBiomeSupplier { biome: (#[trigger] biomes.entries()[i]).1 },
                )
            &&& (forall|i: int|
                0 <= i < biomes.entries().len() ==> (#[trigger] biomes.entries()[i]).0@ != name)
                ==> chosen == ActiveBiomeSupplier::Fixed(
                FixedBiomeSupplier { biome: biomes.plains() },
            )
        }),
{
    law_only_the_namespace_comes_off(name);
    law_first_of_a_name_is_found(biomes.entries(), name);
}

/// A supplier that has to ask about a position asks about exactly that
/// position, and a multi-noise supplier about exactly its own tree, by itself
/// and as the supplier of a dimension.
pub proof fn law_suppliers_ask_about_the_position(source: BiomeTree, x: i32, y: i32, z: i32)
    ensures
        (MultiNoiseBiomeSupplier { source }).query_at(x, y, z) == (BiomeQuery::MultiNoise {
            source,
            x,
            y,
            z,
        }),
        ActiveBiomeSupplier::MultiNoise(MultiNoiseBiomeSupplier { source }).query_at(x, y, z) == (
        BiomeQuery::MultiNoise { source, x, y, z }),
        TheEndBiomeSupplier.query_at(x, y, z) == (BiomeQuery::End { x, y, z }),
        ActiveBiomeSupplier::End(TheEndBiomeSupplier).query_at(x, y, z) == (BiomeQuery::End {
            x,
            y,
            z,
        }),
{
}

/// A fixed supplier answers every position alike, and asks for nothing.
pub proof fn law_fixed_supplier_ignores_position(
    supplier: FixedBiomeSupplier,
    x: i32,
    y: i32,
    z: i32,
)
    ensures
        supplier.query_at(x, y, z) == BiomeQuery::Known(supplier.biome),
        ActiveBiomeSupplier::Fixed(supplier).query_at(x, y, z) == BiomeQuery::Known(
            supplier.biome,
        ),
{
}

} // verus!
