//! Colour that means something: the theme's constants, the age ramp, and the
//! table of colours a page is painted from.

use crate::app::Filtered;
use crate::tree;
use crate::tree::Category;
use vstd::prelude::*;

verus! {

/// The dark theme: the surface fills step back toward.
pub const DARK_INSET: u32 = 0x0013_141c;

/// The dark theme's brightest foreground.
pub const DARK_BRIGHT: u32 = 0x00c0_caf5;

pub const DARK_ACCENT: u32 = 0x007a_a2f7;

pub const DARK_DANGER: u32 = 0x00f7_768e;

pub const DARK_WARNING: u32 = 0x00e0_af68;

/// The light theme: the surface fills step back toward.
pub const LIGHT_INSET: u32 = 0x00e6_e4d9;

pub const LIGHT_FOREGROUND: u32 = 0x0010_0f0f;

/// The light theme's strongest foreground.
pub const LIGHT_BRIGHT: u32 = 0x0010_0f0f;

pub const LIGHT_ACCENT: u32 = 0x0020_5ea6;

pub const LIGHT_DANGER: u32 = 0x00af_3029;

pub const LIGHT_WARNING: u32 = 0x0085_5b00;

/// Depth steps a fill distinguishes; deeper clamps.
pub const DEPTHS: u32 = 5;

/// Steps of the age ramp.
pub const AGES: usize = 5;

/// Dark or light: the browser's `prefers-color-scheme`, relayed by the shim.
#[derive(Clone, Copy, Debug, PartialEq, Eq, Structural)]
pub enum Appearance {
    Dark,
    Light,
}

impl Default for Appearance {
    fn default() -> (r: Appearance)
        ensures
            r == Appearance::Dark,
    {
        Appearance::Dark
    }
}

impl Appearance {
    /// One constant or the other.
    pub fn pick(self, dark: u32, light: u32) -> (r: u32)
        ensures
            r == match self {
                Appearance::Dark => dark,
                Appearance::Light => light,
            },
    {
        match self {
            Appearance::Dark => dark,
            Appearance::Light => light,
        }
    }

    /// The colour a fill steps back toward.
    pub fn inset(self) -> (r: u32)
        ensures
            r == match self {
                Appearance::Dark => DARK_INSET,
                Appearance::Light => LIGHT_INSET,
            },
    {
        self.pick(DARK_INSET, LIGHT_INSET)
    }

    /// The hatch's colour.
    pub fn bright(self) -> (r: u32)
        ensures
            r == match self {
                Appearance::Dark => DARK_BRIGHT,
                Appearance::Light => LIGHT_BRIGHT,
            },
    {
        self.pick(DARK_BRIGHT, LIGHT_BRIGHT)
    }

    /// The colour of names.
    pub fn foreground(self) -> (r: u32)
        ensures
            r == match self {
                Appearance::Dark => DARK_BRIGHT,
                Appearance::Light => LIGHT_FOREGROUND,
            },
    {
        self.pick(DARK_BRIGHT, LIGHT_FOREGROUND)
    }

    /// The hue of recent writes.
    pub fn accent(self) -> (r: u32)
        ensures
            r == match self {
                Appearance::Dark => DARK_ACCENT,
                Appearance::Light => LIGHT_ACCENT,
            },
    {
        self.pick(DARK_ACCENT, LIGHT_ACCENT)
    }

    /// The danger colour, in this appearance.
    pub fn danger(self) -> (r: u32)
        ensures
            r == match self {
                Appearance::Dark => DARK_DANGER,
                Appearance::Light => LIGHT_DANGER,
            },
    {
        self.pick(DARK_DANGER, LIGHT_DANGER)
    }

    /// The one strong colour, in this appearance.
    pub fn warning(self) -> (r: u32)
        ensures
            r == match self {
                Appearance::Dark => DARK_WARNING,
                Appearance::Light => LIGHT_WARNING,
            },
    {
        self.pick(DARK_WARNING, LIGHT_WARNING)
    }
}

/// The most days an age of a bucket has, newest bucket first: this week,
/// this month, this half-year, this year, older.
pub open spec fn age_limit(bucket: int) -> int {
    if bucket == 0 {
        7
    } else if bucket == 1 {
        30
    } else if bucket == 2 {
        182
    } else if bucket == 3 {
        365
    } else {
        i64::MAX as int
    }
}

/// What a bucket is called.
pub open spec fn age_name(bucket: int) -> Seq<char> {
    if bucket == 0 {
        "This week"@
    } else if bucket == 1 {
        "This month"@
    } else if bucket == 2 {
        "Six months"@
    } else if bucket == 3 {
        "This year"@
    } else {
        "Older"@
    }
}

/// What a bucket is called.
pub fn age_label(bucket: usize) -> (r: &'static str)
    ensures
        r@ == age_name(bucket as int),
{
    match bucket {
        0 => "This week",
        1 => "This month",
        2 => "Six months",
        3 => "This year",
        _ => "Older",
    }
}

/// Which bucket an age in days falls in.
pub open spec fn bucket_of(days: int) -> int {
    if days <= age_limit(0) {
        0
    } else if days <= age_limit(1) {
        1
    } else if days <= age_limit(2) {
        2
    } else if days <= age_limit(3) {
        3
    } else {
        4
    }
}

/// Which bucket an age in days falls in: the first whose limit it keeps.
pub fn age_bucket(days: i64) -> (r: usize)
    ensures
        r == bucket_of(days as int),
        r < AGES,
        days <= age_limit(r as int),
        forall|newer: int| 0 <= newer < r ==> age_limit(newer) < days,
{
    if days <= 7 {
        0
    } else if days <= 30 {
        1
    } else if days <= 182 {
        2
    } else if days <= 365 {
        3
    } else {
        4
    }
}

/// One fill, by how its tile stands against the find text.
#[derive(Debug)]
pub struct Shades {
    pub shown: String,
    pub holds: String,
    pub out: String,
}

impl Shades {
    /// The shade of a tile.
    pub open spec fn shade(self, filtered: Filtered) -> Seq<char> {
        match filtered {
            Filtered::Shown => self.shown@,
            Filtered::Holds => self.holds@,
            Filtered::Out => self.out@,
        }
    }

    /// Only what matches keeps its colour; a directory holding matches steps
    /// back less, so the way to them stays readable.
    pub fn pick(&self, filtered: Filtered) -> (r: &str)
        ensures
            r@ == self.shade(filtered),
    {
        match filtered {
            Filtered::Shown => self.shown.as_str(),
            Filtered::Holds => self.holds.as_str(),
            Filtered::Out => self.out.as_str(),
        }
    }
}

/// Every colour of a page, as CSS.
#[derive(Debug)]
pub struct Palette {
    /// Fills by category, then depth.
    pub categories: Vec<Vec<Shades>>,
    /// Fills by age, then depth.
    pub ages: Vec<Vec<Shades>>,
    /// Strips and swatches by category.
    pub accents: Vec<String>,
    /// Swatches by age.
    pub age_accents: Vec<String>,
    /// The fill every marked or covered tile shares.
    pub marked: String,
    pub hatch: String,
    pub highlight: String,
    pub danger: String,
    pub warning: String,
    /// Names on the first level.
    pub label_top: String,
    /// Names further in.
    pub label: String,
    /// Names that step back, and sizes.
    pub label_dim: String,
}

/// The depth a fill distinguishes.
pub open spec fn step(depth: u32) -> int {
    if depth < DEPTHS {
        depth as int
    } else {
        DEPTHS - 1
    }
}

impl Palette {
    /// The table has a colour for everything.
    pub open spec fn full(self) -> bool {
        &&& self.categories@.len() == tree::CATEGORIES
        &&& forall|i: int|
            0 <= i < tree::CATEGORIES ==> (#[trigger] self.categories@[i])@.len() == DEPTHS
        &&& self.ages@.len() == AGES
        &&& forall|i: int| 0 <= i < AGES ==> (#[trigger] self.ages@[i])@.len() == DEPTHS
        &&& self.accents@.len() == tree::CATEGORIES
        &&& self.age_accents@.len() == AGES
    }

    /// The strip and swatch of a category.
    pub open spec fn accent(self, category: Category) -> Seq<char> {
        self.accents@[category.place()]@
    }

    /// A fill: marked or covered, by age, or by category.
    pub open spec fn fill(
        self,
        marked: bool,
        age: Option<int>,
        category: Category,
        depth: u32,
        filtered: Filtered,
    ) -> Seq<char> {
        if marked {
            self.marked@
        } else {
            match age {
                Some(bucket) => self.ages@[bucket]@[step(depth)].shade(filtered),
                None => self.categories@[category.place()]@[step(depth)].shade(filtered),
            }
        }
    }

    /// The strip and swatch of a category.
    pub fn accent_of(&self, category: Category) -> (r: &str)
        requires
            self.full(),
        ensures
            r@ == self.accent(category),
    {
        self.accents[category.index()].as_str()
    }

    /// The fill a tile gets. What is marked, or inside something marked, all
    /// goes together.
    pub fn fill_of(
        &self,
        marked: bool,
        age: Option<usize>,
        category: Category,
        depth: u32,
        filtered: Filtered,
    ) -> (r: &str)
        requires
            self.full(),
            age matches Some(bucket) ==> bucket < AGES,
        ensures
            r@ == self.fill(
                marked,
                match age {
                    Some(bucket) => Some(bucket as int),
                    None => None,
                },
                category,
                depth,
                filtered,
            ),
    {
        if marked {
            return self.marked.as_str();
        }
        let at: usize = if depth < DEPTHS {
            depth as usize
        } else {
            (DEPTHS - 1) as usize
        };
        match age {
            Some(bucket) => self.ages[bucket][at].pick(filtered),
            None => self.categories[category.index()][at].pick(filtered),
        }
    }
}

} // verus!
