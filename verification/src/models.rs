//! The data shapes the cache's callers trade in, and the static gem-color
//! classification: which alternate-quality gem names count as red, green or
//! blue.

use vstd::prelude::*;

use crate::strutil::str_eq;

verus! {

/// One league as the service reports it.
#[derive(Debug, Clone)]
pub struct League {
    pub name: String,
    pub display_name: Option<String>,
    pub hardcore: bool,
    pub indexed: bool,
}

/// Leagues grouped as current and old, as an upstream provider shapes them.
#[derive(Debug)]
pub struct LeaguesResponse {
    pub economy_leagues: Option<Vec<League>>,
    pub old_economy_leagues: Option<Vec<League>>,
}

/// The league listing the service serves.
#[derive(Debug)]
pub struct LeaguesApiResponse {
    pub leagues: Vec<League>,
}

/// An implicit modifier line on a gem.
#[derive(Debug, Clone)]
pub struct ImplicitModifier {
    pub text: String,
    pub optional: Option<bool>,
}

/// An explicit modifier line on a gem.
#[derive(Debug, Clone)]
pub struct ExplicitModifier {
    pub text: String,
    pub optional: Option<bool>,
}

/// One currency's detail row from the upstream market data.
#[derive(Debug, Clone)]
pub struct CurrencyDetail {
    pub id: Option<u32>,
    pub icon: Option<String>,
    pub name: Option<String>,
    pub trade_id: Option<String>,
}

/// The three gem name lists, grouped by color.
#[derive(Debug)]
pub struct GemColorsResponse {
    pub red: Vec<String>,
    pub green: Vec<String>,
    pub blue: Vec<String>,
}

/// A gem's color class.
#[derive(Debug, Clone)]
pub enum GemColor {
    Red,
    Green,
    Blue,
}

impl GemColor {
    /// The color's lower-case name.
    pub fn as_str(&self) -> (r: &'static str)
        ensures
            match self {
                GemColor::Red => r@ == "red"@,
                GemColor::Green => r@ == "green"@,
                GemColor::Blue => r@ == "blue"@,
            },
    {
        match self {
            GemColor::Red => "red",
            GemColor::Green => "green",
            GemColor::Blue => "blue",
        }
    }
}

/// The red gem names, in listing order.
pub open spec fn red_gem_names() -> Seq<Seq<char>> {
    seq![
        "Absolution of Inspiring"@,
        "Animate Guardian of Smiting"@,
        "Bladestorm of Uncertainty"@,
        "Boneshatter of Carnage"@,
        "Boneshatter of Complex Trauma"@,
        "Cleave of Rage"@,
        "Consecrated Path of Endurance"@,
        "Dominating Blow of Inspiring"@,
        "Earthquake of Amplification"@,
        "Earthshatter of Fragility"@,
        "Earthshatter of Prominence"@,
        "Exsanguinate of Transmission"@,
        "Frozen Legion of Rallying"@,
        "Glacial Hammer of Shattering"@,
        "Ground Slam of Earthshaking"@,
        "Holy Flame Totem of Ire"@,
        "Ice Crash of Cadence"@,
        "Infernal Blow of Immolation"@,
        "Leap Slam of Groundbreaking"@,
        "Molten Strike of the Zenith"@,
        "Perforate of Bloodshed"@,
        "Perforate of Duality"@,
        "Rage Vortex of Berserking"@,
        "Shield Crush of the Chieftain"@,
        "Smite of Divine Judgement"@,
        "Summon Flame Golem of Hordes"@,
        "Summon Flame Golem of the Meteor"@,
        "Summon Stone Golem of Hordes"@,
        "Summon Stone Golem of Safeguarding"@,
        "Sunder of Earthbreaking"@,
        "Tectonic Slam of Cataclysm"@,
        "Volcanic Fissure of Snaking"@,
    ]
}

/// The green gem names, in listing order.
pub open spec fn green_gem_names() -> Seq<Seq<char>> {
    seq![
        "Animate Weapon of Ranged Arms"@,
        "Animate Weapon of Self Reflection"@,
        "Artillery Ballista of Cross Strafe"@,
        "Artillery Ballista of Focus Fire"@,
        "Barrage of Volley Fire"@,
        "Bear Trap of Skewers"@,
        "Blade Blast of Dagger Detonation"@,
        "Blade Blast of Unloading"@,
        "Blade Flurry of Incision"@,
        "Blade Trap of Greatswords"@,
        "Blade Trap of Laceration"@,
        "Blade Vortex of the Scythe"@,
        "Bladefall of Impaling"@,
        "Bladefall of Volleys"@,
        "Blink Arrow of Bombarding Clones"@,
        "Blink Arrow of Prismatic Clones"@,
        "Burning Arrow of Vigour"@,
        "Caustic Arrow of Poison"@,
        "Cremation of Exhuming"@,
        "Cremation of the Volcano"@,
        "Cyclone of Tumult"@,
        "Detonate Dead of Chain Reaction"@,
        "Detonate Dead of Scavenging"@,
        "Double Strike of Impaling"@,
        "Double Strike of Momentum"@,
        "Dual Strike of Ambidexterity"@,
        "Elemental Hit of the Spectrum"@,
        "Ethereal Knives of Lingering Blades"@,
        "Ethereal Knives of the Massacre"@,
        "Explosive Concoction of Destruction"@,
        "Explosive Trap of Magnitude"@,
        "Explosive Trap of Shrapnel"@,
        "Fire Trap of Blasting"@,
        "Flicker Strike of Power"@,
        "Frenzy of Onslaught"@,
        "Frost Blades of Katabasis"@,
        "Galvanic Arrow of Energy"@,
        "Galvanic Arrow of Surging"@,
        "Ice Shot of Penetration"@,
        "Ice Trap of Hollowness"@,
        "Lacerate of Butchering"@,
        "Lacerate of Haemorrhage"@,
        "Lancing Steel of Spraying"@,
        "Lightning Arrow of Electrocution"@,
        "Lightning Strike of Arcing"@,
        "Mirror Arrow of Bombarding Clones"@,
        "Mirror Arrow of Prismatic Clones"@,
        "Poisonous Concoction of Bouncing"@,
        "Rain of Arrows of Artillery"@,
        "Rain of Arrows of Saturation"@,
        "Reave of Refraction"@,
        "Scourge Arrow of Menace"@,
        "Seismic Trap of Swells"@,
        "Shattering Steel of Ammunition"@,
        "Shrapnel Ballista of Steel"@,
        "Siege Ballista of Splintering"@,
        "Spectral Shield Throw of Shattering"@,
        "Spectral Throw of Materialising"@,
        "Split Arrow of Splitting"@,
        "Splitting Steel of Ammunition"@,
        "Storm Rain of the Conduit"@,
        "Storm Rain of the Fence"@,
        "Summon Ice Golem of Hordes"@,
        "Summon Ice Golem of Shattering"@,
        "Tornado of Elemental Turbulence"@,
        "Tornado Shot of Cloudburst"@,
        "Toxic Rain of Sporeburst"@,
        "Toxic Rain of Withering"@,
        "Viper Strike of the Mamba"@,
        "Volatile Dead of Confinement"@,
        "Volatile Dead of Seething"@,
        "Wild Strike of Extremes"@,
    ]
}

/// The blue gem names, in listing order.
pub open spec fn blue_gem_names() -> Seq<Seq<char>> {
    seq![
        "Arc of Oscillating"@,
        "Arc of Surging"@,
        "Armageddon Brand of Recall"@,
        "Armageddon Brand of Volatility"@,
        "Ball Lightning of Orbiting"@,
        "Ball Lightning of Static"@,
        "Bane of Condemnation"@,
        "Blight of Atrophy"@,
        "Blight of Contagion"@,
        "Bodyswap of Sacrifice"@,
        "Cold Snap of Power"@,
        "Contagion of Subsiding"@,
        "Contagion of Transference"@,
        "Crackling Lance of Branching"@,
        "Crackling Lance of Disintegration"@,
        "Discharge of Misery"@,
        "Divine Ire of Disintegration"@,
        "Divine Ire of Holy Lightning"@,
        "Essence Drain of Desperation"@,
        "Essence Drain of Wickedness"@,
        "Eye of Winter of Finality"@,
        "Eye of Winter of Transience"@,
        "Firestorm of Meteors"@,
        "Firestorm of Pelting"@,
        "Flame Dash of Return"@,
        "Flame Surge of Combusting"@,
        "Flameblast of Celerity"@,
        "Flameblast of Contraction"@,
        "Forbidden Rite of Soul Sacrifice"@,
        "Frost Bomb of Forthcoming"@,
        "Frost Bomb of Instability"@,
        "Frostblink of Wintry Blast"@,
        "Galvanic Field of Intensity"@,
        "Glacial Cascade of the Fissure"@,
        "Hexblast of Contradiction"@,
        "Hexblast of Havoc"@,
        "Ice Nova of Deep Freeze"@,
        "Ice Nova of Frostbolts"@,
        "Ice Spear of Splitting"@,
        "Icicle Mine of Fanning"@,
        "Icicle Mine of Sabotage"@,
        "Incinerate of Expanse"@,
        "Incinerate of Venting"@,
        "Kinetic Blast of Clustering"@,
        "Kinetic Bolt of Fragmentation"@,
        "Lightning Conduit of the Heavens"@,
        "Lightning Spire Trap of Overloading"@,
        "Lightning Spire Trap of Zapping"@,
        "Lightning Tendrils of Eccentricity"@,
        "Lightning Tendrils of Escalation"@,
        "Lightning Trap of Sparking"@,
        "Penance Brand of Conduction"@,
        "Penance Brand of Dissipation"@,
        "Power Siphon of the Archmage"@,
        "Purifying Flame of Revelations"@,
        "Pyroclast Mine of Sabotage"@,
        "Raise Spectre of Transience"@,
        "Raise Zombie of Falling"@,
        "Raise Zombie of Slamming"@,
        "Righteous Fire of Arcane Devotion"@,
        "Scorching Ray of Immolation"@,
        "Soulrend of Reaping"@,
        "Soulrend of the Spiral"@,
        "Spark of the Nova"@,
        "Spark of Unpredictability"@,
        "Storm Brand of Indecision"@,
        "Stormbind of Teleportation"@,
        "Summon Carrion Golem of Hordes"@,
        "Summon Carrion Golem of Scavenging"@,
        "Summon Chaos Golem of Hordes"@,
        "Summon Chaos Golem of the Maelström"@,
        "Summon Holy Relic of Conviction"@,
        "Summon Lightning Golem of Hordes"@,
        "Summon Raging Spirit of Enormity"@,
        "Summon Reaper of Eviscerating"@,
        "Summon Reaper of Revenants"@,
        "Summon Skeletons of Archers"@,
        "Summon Skeletons of Mages"@,
        "Void Sphere of Rending"@,
        "Vortex of Projection"@,
    ]
}

/// The red gems.
pub fn red_gems() -> (r: Vec<&'static str>)
    ensures
        r@.len() == red_gem_names().len(),
        forall|i: int| 0 <= i < r@.len() ==> r@[i]@ == #[trigger] red_gem_names()[i],
{
    let r = vec![
        "Absolution of Inspiring",
        "Animate Guardian of Smiting",
        "Bladestorm of Uncertainty",
        "Boneshatter of Carnage",
        "Boneshatter of Complex Trauma",
        "Cleave of Rage",
        "Consecrated Path of Endurance",
        "Dominating Blow of Inspiring",
        "Earthquake of Amplification",
        "Earthshatter of Fragility",
        "Earthshatter of Prominence",
        "Exsanguinate of Transmission",
        "Frozen Legion of Rallying",
        "Glacial Hammer of Shattering",
        "Ground Slam of Earthshaking",
        "Holy Flame Totem of Ire",
        "Ice Crash of Cadence",
        "Infernal Blow of Immolation",
        "Leap Slam of Groundbreaking",
        "Molten Strike of the Zenith",
        "Perforate of Bloodshed",
        "Perforate of Duality",
        "Rage Vortex of Berserking",
        "Shield Crush of the Chieftain",
        "Smite of Divine Judgement",
        "Summon Flame Golem of Hordes",
        "Summon Flame Golem of the Meteor",
        "Summon Stone Golem of Hordes",
        "Summon Stone Golem of Safeguarding",
        "Sunder of Earthbreaking",
        "Tectonic Slam of Cataclysm",
        "Volcanic Fissure of Snaking",
    ];
    proof {
        assert forall|i: int| 0 <= i < r@.len() implies r@[i]@ == #[trigger] red_gem_names()[
            i
        ] by {
        }
    }
    r
}

/// The green gems.
pub fn green_gems() -> (r: Vec<&'static str>)
    ensures
        r@.len() == green_gem_names().len(),
        forall|i: int| 0 <= i < r@.len() ==> r@[i]@ == #[trigger] green_gem_names()[i],
{
    let r = vec![
        "Animate Weapon of Ranged Arms",
        "Animate Weapon of Self Reflection",
        "Artillery Ballista of Cross Strafe",
        "Artillery Ballista of Focus Fire",
        "Barrage of Volley Fire",
        "Bear Trap of Skewers",
        "Blade Blast of Dagger Detonation",
        "Blade Blast of Unloading",
        "Blade Flurry of Incision",
        "Blade Trap of Greatswords",
        "Blade Trap of Laceration",
        "Blade Vortex of the Scythe",
        "Bladefall of Impaling",
        "Bladefall of Volleys",
        "Blink Arrow of Bombarding Clones",
        "Blink Arrow of Prismatic Clones",
        "Burning Arrow of Vigour",
        "Caustic Arrow of Poison",
        "Cremation of Exhuming",
        "Cremation of the Volcano",
        "Cyclone of Tumult",
        "Detonate Dead of Chain Reaction",
        "Detonate Dead of Scavenging",
        "Double Strike of Impaling",
        "Double Strike of Momentum",
        "Dual Strike of Ambidexterity",
        "Elemental Hit of the Spectrum",
        "Ethereal Knives of Lingering Blades",
        "Ethereal Knives of the Massacre",
        "Explosive Concoction of Destruction",
        "Explosive Trap of Magnitude",
        "Explosive Trap of Shrapnel",
        "Fire Trap of Blasting",
        "Flicker Strike of Power",
        "Frenzy of Onslaught",
        "Frost Blades of Katabasis",
        "Galvanic Arrow of Energy",
        "Galvanic Arrow of Surging",
        "Ice Shot of Penetration",
        "Ice Trap of Hollowness",
        "Lacerate of Butchering",
        "Lacerate of Haemorrhage",
        "Lancing Steel of Spraying",
        "Lightning Arrow of Electrocution",
        "Lightning Strike of Arcing",
        "Mirror Arrow of Bombarding Clones",
        "Mirror Arrow of Prismatic Clones",
        "Poisonous Concoction of Bouncing",
        "Rain of Arrows of Artillery",
        "Rain of Arrows of Saturation",
        "Reave of Refraction",
        "Scourge Arrow of Menace",
        "Seismic Trap of Swells",
        "Shattering Steel of Ammunition",
        "Shrapnel Ballista of Steel",
        "Siege Ballista of Splintering",
        "Spectral Shield Throw of Shattering",
        "Spectral Throw of Materialising",
        "Split Arrow of Splitting",
        "Splitting Steel of Ammunition",
        "Storm Rain of the Conduit",
        "Storm Rain of the Fence",
        "Summon Ice Golem of Hordes",
        "Summon Ice Golem of Shattering",
        "Tornado of Elemental Turbulence",
        "Tornado Shot of Cloudburst",
        "Toxic Rain of Sporeburst",
        "Toxic Rain of Withering",
        "Viper Strike of the Mamba",
        "Volatile Dead of Confinement",
        "Volatile Dead of Seething",
        "Wild Strike of Extremes",
    ];
    proof {
        assert forall|i: int| 0 <= i < r@.len() implies r@[i]@ == #[trigger] green_gem_names()[
            i
        ] by {
        }
    }
    r
}

/// The blue gems.
pub fn blue_gems() -> (r: Vec<&'static str>)
    ensures
        r@.len() == blue_gem_names().len(),
        forall|i: int| 0 <= i < r@.len() ==> r@[i]@ == #[trigger] blue_gem_names()[i],
{
    let r = vec![
        "Arc of Oscillating",
        "Arc of Surging",
        "Armageddon Brand of Recall",
        "Armageddon Brand of Volatility",
        "Ball Lightning of Orbiting",
        "Ball Lightning of Static",
        "Bane of Condemnation",
        "Blight of Atrophy",
        "Blight of Contagion",
        "Bodyswap of Sacrifice",
        "Cold Snap of Power",
        "Contagion of Subsiding",
        "Contagion of Transference",
        "Crackling Lance of Branching",
        "Crackling Lance of Disintegration",
        "Discharge of Misery",
        "Divine Ire of Disintegration",
        "Divine Ire of Holy Lightning",
        "Essence Drain of Desperation",
        "Essence Drain of Wickedness",
        "Eye of Winter of Finality",
        "Eye of Winter of Transience",
        "Firestorm of Meteors",
        "Firestorm of Pelting",
        "Flame Dash of Return",
        "Flame Surge of Combusting",
        "Flameblast of Celerity",
        "Flameblast of Contraction",
        "Forbidden Rite of Soul Sacrifice",
        "Frost Bomb of Forthcoming",
        "Frost Bomb of Instability",
        "Frostblink of Wintry Blast",
        "Galvanic Field of Intensity",
        "Glacial Cascade of the Fissure",
        "Hexblast of Contradiction",
        "Hexblast of Havoc",
        "Ice Nova of Deep Freeze",
        "Ice Nova of Frostbolts",
        "Ice Spear of Splitting",
        "Icicle Mine of Fanning",
        "Icicle Mine of Sabotage",
        "Incinerate of Expanse",
        "Incinerate of Venting",
        "Kinetic Blast of Clustering",
        "Kinetic Bolt of Fragmentation",
        "Lightning Conduit of the Heavens",
        "Lightning Spire Trap of Overloading",
        "Lightning Spire Trap of Zapping",
        "Lightning Tendrils of Eccentricity",
        "Lightning Tendrils of Escalation",
        "Lightning Trap of Sparking",
        "Penance Brand of Conduction",
        "Penance Brand of Dissipation",
        "Power Siphon of the Archmage",
        "Purifying Flame of Revelations",
        "Pyroclast Mine of Sabotage",
        "Raise Spectre of Transience",
        "Raise Zombie of Falling",
        "Raise Zombie of Slamming",
        "Righteous Fire of Arcane Devotion",
        "Scorching Ray of Immolation",
        "Soulrend of Reaping",
        "Soulrend of the Spiral",
        "Spark of the Nova",
        "Spark of Unpredictability",
        "Storm Brand of Indecision",
        "Stormbind of Teleportation",
        "Summon Carrion Golem of Hordes",
        "Summon Carrion Golem of Scavenging",
        "Summon Chaos Golem of Hordes",
        "Summon Chaos Golem of the Maelström",
        "Summon Holy Relic of Conviction",
        "Summon Lightning Golem of Hordes",
        "Summon Raging Spirit of Enormity",
        "Summon Reaper of Eviscerating",
        "Summon Reaper of Revenants",
        "Summon Skeletons of Archers",
        "Summon Skeletons of Mages",
        "Void Sphere of Rending",
        "Vortex of Projection",
    ];
    proof {
        assert forall|i: int| 0 <= i < r@.len() implies r@[i]@ == #[trigger] blue_gem_names()[
            i
        ] by {
        }
    }
    r
}

/// The color a gem name belongs to: red, green or blue where the name
/// stands in the matching list, checked in that order; `None` otherwise.
pub open spec fn gem_color_spec(name: Seq<char>) -> Option<GemColor> {
    if red_gem_names().contains(name) {
        Some(GemColor::Red)
    } else if green_gem_names().contains(name) {
        Some(GemColor::Green)
    } else if blue_gem_names().contains(name) {
        Some(GemColor::Blue)
    } else {
        None
    }
}

fn name_in_list(list: &Vec<&str>, name: &str) -> (r: bool)
    ensures
        r == exists|i: int| 0 <= i < list@.len() && (#[trigger] list@[i])@ == name@,
{
    let n = list.len();
    let mut i: usize = 0;
    while i < n
        invariant
            i <= n,
            n == list@.len(),
            forall|j: int| 0 <= j < i ==> (#[trigger] list@[j])@ != name@,
        decreases n - i,
    {
        if str_eq(list[i], name) {
            return true;
        }
        i = i + 1;
    }
    false
}

/// The color class of a gem name, or `None` for a name in no list.
pub fn get_gem_color(gem_name: &str) -> (r: Option<GemColor>)
    ensures
        r == gem_color_spec(gem_name@),
{
    let red = red_gems();
    if name_in_list(&red, gem_name) {
        return Some(GemColor::Red);
    }
    let green = green_gems();
    if name_in_list(&green, gem_name) {
        return Some(GemColor::Green);
    }
    let blue = blue_gems();
    if name_in_list(&blue, gem_name) {
        return Some(GemColor::Blue);
    }
    None
}

/// The gem names of one color class.
pub fn get_gems_by_color(color: &GemColor) -> (r: Vec<&'static str>)
    ensures
        match color {
            GemColor::Red => r@.len() == red_gem_names().len() && forall|i: int|
                0 <= i < r@.len() ==> r@[i]@ == #[trigger] red_gem_names()[i],
            GemColor::Green => r@.len() == green_gem_names().len() && forall|i: int|
                0 <= i < r@.len() ==> r@[i]@ == #[trigger] green_gem_names()[i],
            GemColor::Blue => r@.len() == blue_gem_names().len() && forall|i: int|
                0 <= i < r@.len() ==> r@[i]@ == #[trigger] blue_gem_names()[i],
        },
{
    match color {
        GemColor::Red => red_gems(),
        GemColor::Green => green_gems(),
        GemColor::Blue => blue_gems(),
    }
}

} // verus!
