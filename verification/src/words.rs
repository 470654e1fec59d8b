//! The words a page is written with: how numbers and paths are spelled.

use crate::paths;
use crate::paths::OsPath;
use crate::tree::Category;
use vstd::prelude::*;

verus! {

/// A number, spelled.
#[derive(Debug)]
pub struct Worded {
    pub value: u64,
    pub text: String,
}

/// A path, as it is shown.
#[derive(Debug)]
pub struct PathText {
    pub path: OsPath,
    pub text: String,
}

/// The share `part` is of `total`, in each of its spellings.
#[derive(Debug)]
pub struct Share {
    pub part: u64,
    pub total: u64,
    /// A percentage, with one decimal while it is small.
    pub percent: String,
    /// A bar of ten cells.
    pub bar: String,
    /// A bar of eight cells.
    pub lane: String,
    /// A whole percentage that leaves a bar visible: 2 to 100.
    pub width: String,
    /// A percentage with one decimal.
    pub exact: String,
}

/// The volume's meter once `reclaiming` bytes are freed.
#[derive(Debug)]
pub struct Meter {
    pub reclaiming: u64,
    /// What is used now.
    pub used: String,
    /// What is available after.
    pub after: String,
    /// Percent used after.
    pub left: String,
    /// Percent that comes back.
    pub back: String,
}

/// One entry of the colour key.
#[derive(Debug)]
pub struct LegendRow {
    pub category: Category,
    pub label: String,
}

/// How everything on a page is spelled.
#[derive(Debug)]
pub struct Words {
    /// Sizes in full.
    pub bytes: Vec<Worded>,
    /// Sizes in the fewest characters.
    pub short: Vec<Worded>,
    pub counts: Vec<Worded>,
    pub paths: Vec<PathText>,
    pub shares: Vec<Share>,
    pub meters: Vec<Meter>,
    pub legend: Vec<LegendRow>,
    /// What the metric is called.
    pub metric: String,
    /// Percent a scan meter shows.
    pub estimate: String,
    /// Percent a removal meter shows.
    pub progress: String,
    /// The magnification, when it shows.
    pub zoom: Option<String>,
    /// The panel's width in pixels.
    pub panel: String,
    /// Where the sibling menu opens, in pixels.
    pub anchor: (String, String),
    /// The tile the keys act on is a git checkout.
    pub checkout: bool,
}

/// The spelling of a number; the last one given counts, and a number
/// without one is left blank.
pub open spec fn worded(rows: Seq<Worded>, value: u64) -> Seq<char>
    decreases rows.len(),
{
    if rows.len() == 0 {
        ""@
    } else if rows.last().value == value {
        rows.last().text@
    } else {
        worded(rows.drop_last(), value)
    }
}

/// The spelling of a path.
pub open spec fn path_worded(rows: Seq<PathText>, path: Seq<u8>) -> Seq<char>
    decreases rows.len(),
{
    if rows.len() == 0 {
        ""@
    } else if rows.last().path@ == path {
        rows.last().text@
    } else {
        path_worded(rows.drop_last(), path)
    }
}

/// Where a share's spellings are.
pub open spec fn share_index(rows: Seq<Share>, part: u64, total: u64) -> Option<int>
    decreases rows.len(),
{
    if rows.len() == 0 {
        None
    } else if rows.last().part == part && rows.last().total == total {
        Some(rows.len() - 1)
    } else {
        share_index(rows.drop_last(), part, total)
    }
}

/// Where a meter is.
pub open spec fn meter_index(rows: Seq<Meter>, reclaiming: u64) -> Option<int>
    decreases rows.len(),
{
    if rows.len() == 0 {
        None
    } else if rows.last().reclaiming == reclaiming {
        Some(rows.len() - 1)
    } else {
        meter_index(rows.drop_last(), reclaiming)
    }
}



fn find_worded(rows: &Vec<Worded>, value: u64) -> (r: &str)
    ensures
        r@ == worded(rows@, value),
{
    let mut at: usize = rows.len();
    assert(rows@.take(at as int) =~= rows@);
    while at > 0
        invariant
            at <= rows@.len(),
            worded(rows@, value) == worded(rows@.take(at as int), value),
        decreases at,
    {
        assert(rows@.take(at as int).drop_last() =~= rows@.take(at - 1));
        at = at - 1;
        if rows[at].value == value {
            return rows[at].text.as_str();
        }
    }
    ""
}

fn find_share(rows: &Vec<Share>, part: u64, total: u64) -> (r: Option<usize>)
    ensures
        match r {
            Some(at) => at < rows@.len() && share_index(rows@, part, total) == Some(at as int),
            None => share_index(rows@, part, total) is None,
        },
{
    let mut at: usize = rows.len();
    assert(rows@.take(at as int) =~= rows@);
    while at > 0
        invariant
            at <= rows@.len(),
            share_index(rows@, part, total) == share_index(rows@.take(at as int), part, total),
        decreases at,
    {
        assert(rows@.take(at as int).drop_last() =~= rows@.take(at - 1));
        at = at - 1;
        if rows[at].part == part && rows[at].total == total {
            return Some(at);
        }
    }
    None
}

impl Words {
    /// A size in full.
    pub open spec fn size(self, value: u64) -> Seq<char> {
        worded(self.bytes@, value)
    }

    /// A size in the fewest characters.
    pub open spec fn brief(self, value: u64) -> Seq<char> {
        worded(self.short@, value)
    }

    /// A count.
    pub open spec fn count(self, value: u64) -> Seq<char> {
        worded(self.counts@, value)
    }

    /// A path as it is shown.
    pub open spec fn place(self, path: Seq<u8>) -> Seq<char> {
        path_worded(self.paths@, path)
    }

    /// A share as a percentage.
    pub open spec fn percent(self, part: u64, total: u64) -> Seq<char> {
        match share_index(self.shares@, part, total) {
            Some(at) => self.shares@[at].percent@,
            None => ""@,
        }
    }

    /// A share as a bar of ten cells.
    pub open spec fn bar(self, part: u64, total: u64) -> Seq<char> {
        match share_index(self.shares@, part, total) {
            Some(at) => self.shares@[at].bar@,
            None => ""@,
        }
    }

    /// A share as a bar of eight cells.
    pub open spec fn lane(self, part: u64, total: u64) -> Seq<char> {
        match share_index(self.shares@, part, total) {
            Some(at) => self.shares@[at].lane@,
            None => ""@,
        }
    }

    /// A share as the width of a bar.
    pub open spec fn width(self, part: u64, total: u64) -> Seq<char> {
        match share_index(self.shares@, part, total) {
            Some(at) => self.shares@[at].width@,
            None => ""@,
        }
    }

    /// A share with one decimal.
    pub open spec fn exact(self, part: u64, total: u64) -> Seq<char> {
        match share_index(self.shares@, part, total) {
            Some(at) => self.shares@[at].exact@,
            None => ""@,
        }
    }

    /// The meter once `reclaiming` bytes are freed.
    pub open spec fn meter(self, reclaiming: u64) -> Option<Meter> {
        match meter_index(self.meters@, reclaiming) {
            Some(at) => Some(self.meters@[at]),
            None => None,
        }
    }

    /// A size in full.
    pub fn size_text(&self, value: u64) -> (r: &str)
        ensures
            r@ == self.size(value),
    {
        find_worded(&self.bytes, value)
    }

    /// A size in the fewest characters.
    pub fn brief_text(&self, value: u64) -> (r: &str)
        ensures
            r@ == self.brief(value),
    {
        find_worded(&self.short, value)
    }

    /// A count.
    pub fn count_text(&self, value: u64) -> (r: &str)
        ensures
            r@ == self.count(value),
    {
        find_worded(&self.counts, value)
    }

    /// A path as it is shown.
    pub fn place_text(&self, path: &OsPath) -> (r: &str)
        ensures
            r@ == self.place(path@),
    {
        let rows = &self.paths;
        let mut at: usize = rows.len();
        assert(rows@.take(at as int) =~= rows@);
        while at > 0
            invariant
                *rows == self.paths,
                at <= rows@.len(),
                path_worded(rows@, path@) == path_worded(rows@.take(at as int), path@),
            decreases at,
        {
            assert(rows@.take(at as int).drop_last() =~= rows@.take(at - 1));
            at = at - 1;
            if paths::same_bytes(rows[at].path.bytes.as_slice(), path.bytes.as_slice()) {
                return rows[at].text.as_str();
            }
        }
        ""
    }

    /// A share as a percentage.
    pub fn percent_text(&self, part: u64, total: u64) -> (r: &str)
        ensures
            r@ == self.percent(part, total),
    {
        match find_share(&self.shares, part, total) {
            Some(at) => self.shares[at].percent.as_str(),
            None => "",
        }
    }

    /// A share as a bar of ten cells.
    pub fn bar_text(&self, part: u64, total: u64) -> (r: &str)
        ensures
            r@ == self.bar(part, total),
    {
        match find_share(&self.shares, part, total) {
            Some(at) => self.shares[at].bar.as_str(),
            None => "",
        }
    }

    /// A share as a bar of eight cells.
    pub fn lane_text(&self, part: u64, total: u64) -> (r: &str)
        ensures
            r@ == self.lane(part, total),
    {
        match find_share(&self.shares, part, total) {
            Some(at) => self.shares[at].lane.as_str(),
            None => "",
        }
    }

    /// A share as the width of a bar.
    pub fn width_text(&self, part: u64, total: u64) -> (r: &str)
        ensures
            r@ == self.width(part, total),
    {
        match find_share(&self.shares, part, total) {
            Some(at) => self.shares[at].width.as_str(),
            None => "",
        }
    }

    /// A share with one decimal.
    pub fn exact_text(&self, part: u64, total: u64) -> (r: &str)
        ensures
            r@ == self.exact(part, total),
    {
        match find_share(&self.shares, part, total) {
            Some(at) => self.shares[at].exact.as_str(),
            None => "",
        }
    }

    /// The meter once `reclaiming` bytes are freed.
    pub fn meter_for(&self, reclaiming: u64) -> (r: Option<&Meter>)
        ensures
            match r {
                Some(meter) => self.meter(reclaiming) == Some(*meter),
                None => self.meter(reclaiming) is None,
            },
    {
        let rows = &self.meters;
        let mut at: usize = rows.len();
        assert(rows@.take(at as int) =~= rows@);
        while at > 0
            invariant
                *rows == self.meters,
                at <= rows@.len(),
                meter_index(rows@, reclaiming) == meter_index(rows@.take(at as int), reclaiming),
            decreases at,
        {
            assert(rows@.take(at as int).drop_last() =~= rows@.take(at - 1));
            at = at - 1;
            if rows[at].reclaiming == reclaiming {
                return Some(&rows[at]);
            }
        }
        None
    }

    /// Percent used once `reclaiming` bytes are freed.
    pub open spec fn left(self, reclaiming: u64) -> Seq<char> {
        match self.meter(reclaiming) {
            Some(meter) => meter.left@,
            None => ""@,
        }
    }

    /// Percent that comes back.
    pub open spec fn back(self, reclaiming: u64) -> Seq<char> {
        match self.meter(reclaiming) {
            Some(meter) => meter.back@,
            None => ""@,
        }
    }

    /// Bytes available once `reclaiming` bytes are freed.
    pub open spec fn after(self, reclaiming: u64) -> Seq<char> {
        match self.meter(reclaiming) {
            Some(meter) => meter.after@,
            None => ""@,
        }
    }

    /// Bytes used now.
    pub open spec fn used(self, reclaiming: u64) -> Seq<char> {
        match self.meter(reclaiming) {
            Some(meter) => meter.used@,
            None => ""@,
        }
    }

    /// Percent used once `reclaiming` bytes are freed.
    pub fn left_text(&self, reclaiming: u64) -> (r: &str)
        ensures
            r@ == self.left(reclaiming),
    {
        match self.meter_for(reclaiming) {
            Some(meter) => meter.left.as_str(),
            None => "",
        }
    }

    /// Percent that comes back.
    pub fn back_text(&self, reclaiming: u64) -> (r: &str)
        ensures
            r@ == self.back(reclaiming),
    {
        match self.meter_for(reclaiming) {
            Some(meter) => meter.back.as_str(),
            None => "",
        }
    }

    /// Bytes available once `reclaiming` bytes are freed.
    pub fn after_text(&self, reclaiming: u64) -> (r: &str)
        ensures
            r@ == self.after(reclaiming),
    {
        match self.meter_for(reclaiming) {
            Some(meter) => meter.after.as_str(),
            None => "",
        }
    }

    /// Bytes used now.
    pub fn used_text(&self, reclaiming: u64) -> (r: &str)
        ensures
            r@ == self.used(reclaiming),
    {
        match self.meter_for(reclaiming) {
            Some(meter) => meter.used.as_str(),
            None => "",
        }
    }
}

} // verus!
