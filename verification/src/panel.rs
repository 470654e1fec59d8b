//! The side panel: the selection, what is worth a look, what is marked, and
//! the disk.

use crate::app::{Candidate, Finding, News, Notice, State, Status, Web};
use crate::codec;
use crate::json;
use crate::marks;
use crate::marks::{Mark, Plan, Target};
use crate::palette::Palette;
use crate::paths::OsPath;
use crate::render;
use crate::text;
use crate::tree;
use crate::tree::{Category, Metric, Node};
use crate::words::Words;
use vstd::prelude::*;

verus! {

/// Marked rows the panel lists before pointing at the review screen.
pub const MARKED_ROWS: usize = 6;

/// A size split into number and unit.
pub open spec fn size_parts(text: Seq<char>) -> (Seq<char>, Seq<char>) {
    match text::found(text, ' ', 0) {
        Some(at) => (text.take(at), text.skip(at + 1)),
        None => (text, ""@),
    }
}

/// A size split into number and unit, so the number can be set large:
/// `90.1 GiB` is `("90.1", "GiB")`.
pub fn split_size(text: &str) -> (r: (String, String))
    ensures
        (r.0@, r.1@) == size_parts(text@),
{
    let chars = text::chars_of(text);
    let end: usize = chars.len();
    match text::find(&chars, ' ') {
        Some(at) => {
            let number = text::text_between(&chars, 0, at);
            let unit = text::text_between(&chars, at + 1, end);
            assert(number@ =~= text@.take(at as int));
            assert(unit@ =~= text@.skip(at + 1));
            (number, unit)
        },
        None => (text.to_owned(), "".to_owned()),
    }
}

/// A count of units, in words.
pub open spec fn units_ago(count: nat, unit: Seq<char>) -> Seq<char> {
    if count == 1 {
        "1 "@ + unit + " ago"@
    } else {
        text::decimal(count) + " "@ + unit + "s ago"@
    }
}

/// How long ago a Unix time was, in the unit a person would use.
pub open spec fn ago_words(now: i64, then: i64) -> Seq<char> {
    let seconds = if now > then {
        now - then
    } else {
        0
    };
    if then <= 0 {
        "unknown"@
    } else if seconds < 60 {
        "just now"@
    } else if seconds < 3_600 {
        units_ago((seconds / 60) as nat, "minute"@)
    } else if seconds < 86_400 {
        units_ago((seconds / 3_600) as nat, "hour"@)
    } else if seconds < 2_592_000 {
        units_ago((seconds / 86_400) as nat, "day"@)
    } else if seconds < 31_536_000 {
        units_ago((seconds / 2_592_000) as nat, "month"@)
    } else {
        units_ago((seconds / 31_536_000) as nat, "year"@)
    }
}

fn plural(count: u64, unit: &str) -> (r: String)
    ensures
        r@ == units_ago(count as nat, unit@),
{
    if count == 1 {
        "1 ".to_owned().concat(unit).concat(" ago")
    } else {
        text::decimal_text(count).concat(" ").concat(unit).concat("s ago")
    }
}

/// How long ago a Unix time was, in the unit a person would use.
pub fn ago(now: i64, then: i64) -> (r: String)
    ensures
        r@ == ago_words(now, then),
{
    if then <= 0 {
        return "unknown".to_owned();
    }
    let seconds: u64 = if now > then {
        (now - then) as u64
    } else {
        0
    };
    if seconds < 60 {
        "just now".to_owned()
    } else if seconds < 3_600 {
        plural(seconds / 60, "minute")
    } else if seconds < 86_400 {
        plural(seconds / 3_600, "hour")
    } else if seconds < 2_592_000 {
        plural(seconds / 86_400, "day")
    } else if seconds < 31_536_000 {
        plural(seconds / 2_592_000, "month")
    } else {
        plural(seconds / 31_536_000, "year")
    }
}

/// A dim label above a value, for the selection grid.
pub open spec fn figure_markup(label: Seq<char>, value: Seq<char>, class: Seq<char>) -> Seq<char> {
    "<span class=\"figure\"><span class=\"caption dim\">"@
        + label
        + "</span><span class=\"figure-value "@
        + class
        + "\">"@
        + value
        + "</span></span>"@
}

/// A dim label above a value, for the selection grid.
pub fn figure(label: &str, value: &str, class: &str) -> (r: String)
    ensures
        r@ == figure_markup(label@, value@, class@),
{
    "<span class=\"figure\"><span class=\"caption dim\">".to_owned()
        .concat(label)
        .concat("</span><span class=\"figure-value ")
        .concat(class)
        .concat("\">")
        .concat(value)
        .concat("</span></span>")
}

/// What an insight's row says of why it is there.
pub open spec fn insight_detail(finding: Finding) -> Seq<char> {
    match finding {
        Finding::Reclaimable { reason } => reason@,
        Finding::Worktrees { count, oldest_days } => text::decimal(count as nat) + " worktree"@ + (
        if count == 1 {
            ""@
        } else {
            "s"@
        }) + " · oldest "@ + text::decimal(oldest_days as nat) + " d"@,
        Finding::StaleExperiments { count, .. } => text::decimal(count as nat) + " experiment"@ + (
        if count == 1 {
            ""@
        } else {
            "s"@
        }) + " untouched"@,
    }
}

/// The sizes of the first `count` candidates, added up.
pub open spec fn sizes(candidates: Seq<Candidate>, count: int) -> int
    decreases count,
{
    if count <= 0 {
        0
    } else {
        sizes(candidates, count - 1) + candidates[count - 1].bytes
    }
}

proof fn lemma_sizes(candidates: Seq<Candidate>, some: int, all: int)
    requires
        0 <= some <= all <= candidates.len(),
    ensures
        0 <= sizes(candidates, some) <= sizes(candidates, all),
    decreases all,
{
    if some < all {
        lemma_sizes(candidates, some, all - 1);
    } else if all > 0 {
        lemma_sizes(candidates, some - 1, all - 1);
    }
}

/// A total beside a heading.
pub open spec fn total_markup(total: u64, words: Words) -> Seq<char> {
    if total > 0 {
        "<span class=\"caption hl\">"@ + words.size(total) + "</span>"@
    } else {
        ""@
    }
}

impl State {
    /// The name of what crumbs lead to.
    pub open spec fn name_at(self, crumbs: Seq<usize>) -> Seq<char> {
        match self.node_at(crumbs) {
            Some(node) => node.name(),
            None => ""@,
        }
    }

    /// The last two names on the way crumbs lead.
    pub open spec fn tail(self, crumbs: Seq<usize>) -> Seq<char> {
        if crumbs.len() == 0 {
            ""@
        } else if crumbs.len() == 1 {
            self.name_at(crumbs)
        } else {
            self.name_at(crumbs.drop_last()) + "/"@ + self.name_at(crumbs)
        }
    }

    /// What an insight's row is called.
    pub open spec fn insight_title(self, candidate: Candidate) -> Seq<char> {
        match candidate.finding {
            Finding::StaleExperiments { days, .. } => self.tail(candidate.crumbs@) + " > "@
                + text::decimal(days as nat) + " days"@,
            _ => self.tail(candidate.crumbs@),
        }
    }

    /// The marked directory a path is inside, by short name.
    pub open spec fn marks_ancestor(self, path: Option<Seq<u8>>) -> Option<Seq<char>> {
        match path {
            Some(path) => match marks::first_cover(self.marks, path) {
                Some(cover) => Some(render::short(cover)),
                None => None,
            },
            None => None,
        }
    }

    /// The selection's name and place.
    pub open spec fn identity(self, node: Node, words: Words, palette: Palette) -> Seq<char> {
        let color = palette.accent(node.category);
        let name = render::escaped(node.name());
        let place = match self.path_at(self.target()) {
            Some(path) => render::escaped(words.place(path)),
            None => ""@,
        };
        "<div class=\"identity\"><div class=\"name-row\"><span class=\"strip\""@
            + " style=\"background:"@
            + color
            + "\"></span><span class=\"name\" title=\""@
            + name
            + "\">"@
            + name
            + "</span></div><div class=\"caption dim ellipsis\">"@
            + place
            + "</div></div>"@
    }

    /// The size of the whole scan.
    pub open spec fn root_bytes(self) -> u64 {
        match self.tree {
            Some(tree) => tree.bytes,
            None => 0,
        }
    }

    /// The selection's number and its unit.
    pub open spec fn measure_parts(self, node: Node, words: Words) -> (Seq<char>, Seq<char>) {
        match self.options.metric {
            Metric::Bytes => size_parts(words.size(node.bytes)),
            Metric::Files => (words.count(node.files), "files"@),
        }
    }

    /// The selection's size set large, with its share of the scan.
    pub open spec fn measure(self, node: Node, words: Words) -> Seq<char> {
        let (number, unit) = self.measure_parts(node, words);
        let share = words.exact(node.bytes, self.root_bytes());
        "<div class=\"measure\"><span class=\"big\">"@
            + number
            + "</span><span class=\"unit\">"@
            + unit
            + "</span></div><div class=\"bar tall\"><span style=\"width:"@
            + share
            + "%\"></span></div>"@
    }

    /// What git says of a checkout, and whether it is clean.
    pub open spec fn git_words(self, path: Seq<u8>) -> (Seq<char>, bool) {
        match self.git_at(path) {
            Some(Some(state)) => (state.summary@, state.clean),
            Some(None) => ("not readable"@, false),
            None => ("asking…"@, false),
        }
    }

    /// What git says of the selection, or else its kind.
    pub open spec fn fourth_figure(self, node: Node, words: Words) -> Seq<char> {
        let path = self.path_at(self.target());
        if node.dir && path is Some && words.checkout {
            let (value, clean) = self.git_words(path->0);
            figure_markup("Git"@, render::escaped(value), render::when(clean, "ok"@))
        } else {
            let kind = match node.reclaim {
                Some(reason) => node.kind@ + " · "@ + reason@,
                None => node.kind@,
            };
            figure_markup("Kind"@, render::escaped(kind), ""@)
        }
    }

    /// The selection's four figures.
    pub open spec fn figures(self, node: Node, now: i64, words: Words) -> Seq<char> {
        let share = figure_markup("Of scan"@, words.percent(node.bytes, self.root_bytes()), ""@);
        let files = figure_markup("Files"@, words.count(node.files), ""@);
        let written = figure_markup("Last write"@, ago_words(now, node.modified), ""@);
        let fourth = self.fourth_figure(node, words);
        "<div class=\"grid\">"@
            + share
            + files
            + written
            + fourth
            + "</div>"@
    }

    /// The states of the selection that change the decision.
    pub open spec fn chips(self, node: Node) -> Seq<char> {
        render::when(
            self.on_list(self.target()),
            "<span class=\"chip chip-danger\">Marked</span>"@,
        ) + (match self.marks_ancestor(self.path_at(self.target())) {
            Some(ancestor) => "<span class=\"chip chip-danger\">Goes with "@ + render::escaped(
                ancestor,
            ) + "</span>"@,
            None => ""@,
        }) + render::when(
            node.read_error,
            "<span class=\"chip chip-warn\">Partly unreadable</span>"@,
        )
    }

    /// Some state of the selection changes the decision.
    pub open spec fn has_chips(self, node: Node) -> bool {
        ||| self.on_list(self.target())
        ||| self.marks_ancestor(self.path_at(self.target())) is Some
        ||| node.read_error
    }

    /// The marked directory the selection goes with, when it is not marked
    /// itself.
    pub open spec fn kept_by(self) -> Option<Seq<u8>> {
        if self.on_list(self.target()) {
            None
        } else {
            match self.path_at(self.target()) {
                Some(path) => marks::shortest_cover(self.marks, path),
                None => None,
            }
        }
    }

    /// The button that marks the selection, or keeps it.
    pub open spec fn mark_button(self) -> Seq<char> {
        let marked = self.on_list(self.target());
        let covered = self.marks_ancestor(self.path_at(self.target()));
        let class = if !marked && covered is None {
            "btn highlight flex-1"@
        } else {
            "btn primary flex-1"@
        };
        let event = render::ev_attr(
            match self.kept_by() {
                Some(ancestor) => json::path_event("unmark"@, codec::encoded(ancestor)),
                None => json::crumbs_event("mark"@, self.target()),
            },
        );
        let label = render::escaped(
            match self.kept_by() {
                Some(ancestor) => "Unmark "@ + render::short(ancestor),
                None => if marked {
                    "Unmark"@
                } else {
                    "Mark for removal"@
                },
            },
        );
        "<button class=\""@
            + class
            + "\" "@
            + event
            + ">"@
            + label
            + "</button>"@
    }

    /// What can be done with the selection.
    pub open spec fn actions(self, node: Node) -> Seq<char> {
        if self.target() == self.crumbs {
            ""@
        } else {
            (if node.dir {
                "<button class=\"btn outline flex-1\" "@ + render::ev_attr(
                    json::crumbs_event("goto"@, self.target()),
                ) + ">Open</button>"@
            } else {
                ""@
            }) + self.mark_button()
        }
    }

    /// What the keys act on.
    #[verifier::opaque]
    pub open spec fn selection_section(self, now: i64, words: Words, palette: Palette) -> Seq<char> {
        match self.node_at(self.target()) {
            Some(node) => {
                let identity = self.identity(node, words, palette);
                let measure = self.measure(node, words);
                let grid = self.figures(node, now, words);
                let chips = if self.has_chips(node) {
                    "<div class=\"chips\">"@ + self.chips(node) + "</div>"@
                } else {
                    ""@
                };
                let actions = self.actions(node);
                "<div class=\"section\"><div class=\"eyebrow\">Selection</div>"@
                    + identity
                    + measure
                    + grid
                    + chips
                    + "<div class=\"actions\">"@
                    + actions
                    + "</div></div>"@
            },
            None =>
                "<div class=\"eyebrow\">Selection</div>"@
                    + "<div class=\"dim\">Point at a tile or select one with the arrows</div>"@,
        }
    }

    /// The size of everything worth a look.
    pub open spec fn worth_total(self) -> int {
        sizes(self.insights, self.insights.len() as int)
    }

    /// One thing worth a look.
    pub open spec fn insight_row(
        self,
        candidate: Candidate,
        node: Node,
        words: Words,
        palette: Palette,
    ) -> Seq<char> {
        let active = render::when(
            self.action_target() == Some(candidate.crumbs@),
            " active"@,
        );
        let event = render::ev_attr(json::crumbs_event("reveal"@, candidate.crumbs@));
        let title = render::escaped(self.insight_title(candidate));
        let accent = palette.accent(node.category);
        let detail = render::escaped(insight_detail(candidate.finding));
        let size = words.size(candidate.bytes);
        let width = words.width(candidate.bytes, self.insights[0].bytes);
        "<div class=\"insight"@
            + active
            + "\" "@
            + event
            + " title=\""@
            + title
            + "\"><span class=\"strip\" style=\"background:"@
            + accent
            + "\"></span><span class=\"insight-text\"><span class=\"name ellipsis\">"@
            + title
            + "</span><span class=\"caption dim ellipsis\">"@
            + detail
            + "</span></span><span class=\"insight-figures\"><span>"@
            + size
            + "</span><span class=\"bar\"><span style=\"width:"@
            + width
            + "%;background:"@
            + accent
            + "\"></span></span></span></div>"@
    }

    /// The first `count` things worth a look that are still in the tree.
    pub open spec fn insight_rows(self, words: Words, palette: Palette, count: int) -> Seq<char>
        decreases count,
    {
        if count <= 0 {
            ""@
        } else {
            let before = self.insight_rows(words, palette, count - 1);
            match self.node_at(self.insights[count - 1].crumbs@) {
                Some(node) => before + self.insight_row(
                    self.insights[count - 1],
                    node,
                    words,
                    palette,
                ),
                None => before,
            }
        }
    }

    /// The biggest things that could plausibly go, with their total.
    #[verifier::opaque]
    pub open spec fn worth_section(self, words: Words, palette: Palette) -> Seq<char> {
        let total = total_markup(self.worth_total() as u64, words);
        let body = if self.insights.len() == 0 {
            let note = if self.tree is Some {
                "Nothing obviously disposable"@
            } else {
                "Waiting for the scan"@
            };
            "<div class=\"caption dim\">"@ + note + "</div>"@
        } else {
            self.insight_rows(words, palette, self.insights.len() as int)
        };
        "<div class=\"section-head\"><span class=\"eyebrow\">Worth a look</span>"@
            + total
            + "</div>"@
            + body
    }

    /// The category of a marked path.
    pub open spec fn mark_category(self, path: Seq<u8>) -> Category {
        match self.crumbs_for_path(path) {
            Some(crumbs) => match self.node_at(crumbs) {
                Some(node) => node.category,
                None => Category::Other,
            },
            None => Category::Other,
        }
    }

    /// One marked path in the panel.
    pub open spec fn marked_row(self, item: Mark, words: Words, palette: Palette) -> Seq<char> {
        let color = palette.accent(self.mark_category(item.path));
        let full = render::escaped(text::lossy_text(item.path));
        let place = render::escaped(words.place(item.path));
        let size = words.size(item.bytes);
        let event = render::ev_attr(json::path_event("unmark"@, codec::encoded(item.path)));
        "<div class=\"marked-row\"><span class=\"dot\" style=\"background:"@
            + color
            + "\"></span><span class=\"ellipsis flex-1\" title=\""@
            + full
            + "\">"@
            + place
            + "</span><span class=\"dim\">"@
            + size
            + "</span><span class=\"unmark\" "@
            + event
            + " title=\"unmark\">×</span></div>"@
    }

    /// The first `count` marked paths.
    pub open spec fn marked_rows(self, words: Words, palette: Palette, count: int) -> Seq<char>
        decreases count,
    {
        if count <= 0 {
            ""@
        } else {
            self.marked_rows(words, palette, count - 1) + self.marked_row(
                self.marks[count - 1],
                words,
                palette,
            )
        }
    }

    /// What is queued for removal, each with a way off the list.
    #[verifier::opaque]
    pub open spec fn marked_section(self, plan: Plan, words: Words, palette: Palette) -> Seq<char> {
        let many = self.marks.len();
        if many == 0 {
            "<div class=\"section-head\"><span class=\"eyebrow\">Marked</span></div>"@
                + "<div class=\"caption dim\">Space marks the tile you point at</div>"@
        } else {
            let count = text::decimal(many);
            let size = words.size(plan.bytes);
            let rows = self.marked_rows(
                words,
                palette,
                if many > MARKED_ROWS {
                    MARKED_ROWS as int
                } else {
                    many as int
                },
            );
            let more = if many > MARKED_ROWS {
                "<div class=\"caption dim\">+"@ + text::decimal((many - MARKED_ROWS) as nat)
                    + " more on the review screen</div>"@
            } else {
                ""@
            };
            let aside = if plan.covered@.len() > 0 || plan.blocked@.len() > 0 {
                "<div class=\"caption dim\">"@ + text::decimal(plan.covered@.len()) + " nested · "@
                    + text::decimal(plan.blocked@.len()) + " kept back</div>"@
            } else {
                ""@
            };
            "<div class=\"section-head\"><span class=\"eyebrow\">Marked · "@
                + count
                + "</span><span class=\"caption dim\">"@
                + size
                + "</span></div>"@
                + rows
                + more
                + aside
        }
    }

    /// What a notice says.
    pub open spec fn news_words(news: News, words: Words) -> Seq<char> {
        match news {
            News::GoesWith { path, ancestor } => Notice::says(
                news,
                words.place(path),
                words.place(ancestor),
            ),
            News::Covers { path, .. } => Notice::says(news, words.place(path), ""@),
            _ => Notice::says(news, ""@, ""@),
        }
    }

    /// The last thing that happened, or a scan error, above the disk.
    #[verifier::opaque]
    pub open spec fn notice_line(self, words: Words) -> Seq<char> {
        match self.scan_error {
            Some(error) => notice("danger"@, error),
            None => match self.notice {
                Some(news) => notice(
                    if news is Covers {
                        "neutral"@
                    } else {
                        "warn"@
                    },
                    State::news_words(news, words),
                ),
                None => ""@,
            },
        }
    }

    /// The way to the review screen.
    pub open spec fn review_button(self, reclaiming: u64, words: Words) -> Seq<char> {
        let event = render::key_attr("c"@);
        let count = text::decimal(self.marks.len());
        let size = words.size(reclaiming);
        "<button class=\"review-btn\" "@
            + event
            + "><span class=\"flex-1 ellipsis\">Review "@
            + count
            + " marked · frees "@
            + size
            + "…</span><span class=\"keycap\">c</span></button>"@
    }

    /// Free space on the volume now, and after the marks go.
    #[verifier::opaque]
    pub open spec fn disk_section(self, plan: Plan, words: Words) -> Seq<char> {
        let device = render::escaped(
            match self.device {
                Some(device) => device,
                None => ""@,
            },
        );
        match self.space {
            None => {
                "<div class=\"section\"><div class=\"section-head\"><span class=\"eyebrow\">Disk"@
                    + "</span><span class=\"caption faint\">"@
                    + device
                    + "</span></div><div class=\"caption dim\">Free space is not available here</div>"@
                    + "</div>"@
            },
            Some(space) => {
                let (number, unit) = size_parts(words.size(space.available));
                let projection = if plan.bytes > 0 {
                    "<span class=\"projection\">→ "@ + words.after(plan.bytes)
                        + " free</span>"@
                } else {
                    ""@
                };
                let left = words.left(plan.bytes);
                let back = words.back(plan.bytes);
                let used = words.used(plan.bytes);
                let total = words.size(space.total);
                let review = if self.marks.len() > 0 {
                    self.review_button(plan.bytes, words)
                } else {
                    ""@
                };
                "<div class=\"section\"><div class=\"section-head\"><span class=\"eyebrow\">Disk"@
                    + "</span><span class=\"caption faint\">"@
                    + device
                    + "</span></div><div class=\"free-row\"><span class=\"big\">"@
                    + number
                    + "</span><span class=\"unit\">"@
                    + unit
                    + " free</span><span class=\"flex-1\"></span>"@
                    + projection
                    + "</div><div class=\"meter\"><span class=\"used\" style=\"width:"@
                    + left
                    + "%\"></span><span class=\"back\" style=\"left:"@
                    + left
                    + "%;width:"@
                    + back
                    + "%\"></span></div><div class=\"caption dim spread\"><span>"@
                    + used
                    + " used</span><span>"@
                    + total
                    + " total</span></div>"@
                    + review
                    + "</div>"@
            },
        }
    }

    /// Everything a decision needs, next to the mosaic.
    #[verifier::opaque]
    pub open spec fn side_panel(
        self,
        plan: Plan,
        now: i64,
        words: Words,
        palette: Palette,
    ) -> Seq<char> {
        let width = words.panel@;
        let selection = self.selection_section(now, words, palette);
        let worth = self.worth_section(words, palette);
        let marked = self.marked_section(plan, words, palette);
        let notice = self.notice_line(words);
        let disk = self.disk_section(plan, words);
        "<div id=\"panel\" style=\"width:"@
            + width
            + "px\"><div id=\"panel-handle\" title=\"drag to resize · double-click resets\">"@
            + "</div><button id=\"panel-close\" title=\"close\">×</button>"@
            + selection
            + "<div class=\"rule\"></div><div id=\"panel-lists\">"@
            + worth
            + "<div class=\"rule\"></div>"@
            + marked
            + "</div>"@
            + notice
            + disk
            + "</div>"@
    }
}

/// A notice.
pub open spec fn notice(class: Seq<char>, message: Seq<char>) -> Seq<char> {
    let words = render::escaped(message);
    "<div class=\"notice "@
        + class
        + "\">"@
        + words
        + "</div>"@
}

fn notice_text(class: &str, message: &str) -> (r: String)
    ensures
        r@ == notice(class@, message@),
{
    let words = render::esc(message);
    "<div class=\"notice ".to_owned()
        .concat(class)
        .concat("\">")
        .concat(words.as_str())
        .concat("</div>")
}

fn name_at(app: &Web, crumbs: &[usize]) -> (r: String)
    ensures
        r@ == app@.name_at(crumbs@),
{
    match app.node_at(crumbs) {
        Some(node) => node.shown_name(),
        None => "".to_owned(),
    }
}

fn tail(app: &Web, crumbs: &[usize]) -> (r: String)
    ensures
        r@ == app@.tail(crumbs@),
{
    if crumbs.len() == 0 {
        "".to_owned()
    } else if crumbs.len() == 1 {
        name_at(app, crumbs)
    } else {
        let parent = tree::first_crumbs(crumbs, crumbs.len() - 1);
        assert(parent@ =~= crumbs@.drop_last());
        name_at(app, parent.as_slice()).concat("/").concat(name_at(app, crumbs).as_str())
    }
}

/// A finding's title, as the last two parts of its path, and why it is on the
/// list.
pub fn insight_text(app: &Web, candidate: &Candidate) -> (r: (String, String))
    ensures
        r.0@ == app@.insight_title(*candidate),
        r.1@ == insight_detail(candidate.finding),
{
    let tail = tail(app, candidate.crumbs.as_slice());
    match &candidate.finding {
        Finding::Reclaimable { reason } => (tail, reason.as_str().to_owned()),
        Finding::Worktrees { count, oldest_days } => (
            tail,
            text::decimal_text(*count).concat(" worktree").concat(
                if *count == 1 {
                    ""
                } else {
                    "s"
                },
            ).concat(" · oldest ").concat(text::decimal_text(*oldest_days).as_str()).concat(" d"),
        ),
        Finding::StaleExperiments { count, days } => (
            tail.concat(" > ").concat(text::decimal_text(*days).as_str()).concat(" days"),
            text::decimal_text(*count).concat(" experiment").concat(
                if *count == 1 {
                    ""
                } else {
                    "s"
                },
            ).concat(" untouched"),
        ),
    }
}

/// The marked ancestor of a path, if any, so the page can explain nesting.
pub fn marks_ancestor(app: &Web, path: Option<&OsPath>) -> (r: Option<String>)
    ensures
        text::opt_text(r) == app@.marks_ancestor(
            match path {
                Some(path) => Some(path@),
                None => None,
            },
        ),
{
    match path {
        Some(path) => match app.marks.first_ancestor_of(path) {
            Some(cover) => Some(render::short_name(cover)),
            None => None,
        },
        None => None,
    }
}

fn identity(app: &Web, node: &Node, path: Option<&OsPath>, words: &Words, palette: &Palette) -> (r:
    String)
    requires
        palette.full(),
        app@.path_at(app@.target()) == match path {
            Some(path) => Some(path@),
            None => None,
        },
    ensures
        r@ == app@.identity(*node, *words, *palette),
{
    let color = palette.accent_of(node.category);
    let name = render::esc(node.shown_name().as_str());
    let place = match path {
        Some(path) => render::esc(words.place_text(path)),
        None => "".to_owned(),
    };
    "<div class=\"identity\"><div class=\"name-row\"><span class=\"strip\"".to_owned()
        .concat(" style=\"background:")
        .concat(color)
        .concat("\"></span><span class=\"name\" title=\"")
        .concat(name.as_str())
        .concat("\">")
        .concat(name.as_str())
        .concat("</span></div><div class=\"caption dim ellipsis\">")
        .concat(place.as_str())
        .concat("</div></div>")
}

/// The size of the whole scan.
pub fn root_bytes(app: &Web) -> (r: u64)
    ensures
        r == app@.root_bytes(),
{
    match app.tree() {
        Some(tree) => tree.bytes,
        None => 0,
    }
}

fn measure(app: &Web, node: &Node, words: &Words) -> (r: String)
    ensures
        r@ == app@.measure(*node, *words),
{
    let (number, unit) = match app.options.metric {
        Metric::Bytes => split_size(words.size_text(node.bytes)),
        Metric::Files => (words.count_text(node.files).to_owned(), "files".to_owned()),
    };
    let share = words.exact_text(node.bytes, root_bytes(app));
    "<div class=\"measure\"><span class=\"big\">".to_owned()
        .concat(number.as_str())
        .concat("</span><span class=\"unit\">")
        .concat(unit.as_str())
        .concat("</span></div><div class=\"bar tall\"><span style=\"width:")
        .concat(share)
        .concat("%\"></span></div>")
}

fn fourth_figure(app: &Web, node: &Node, path: Option<&OsPath>, words: &Words) -> (r: String)
    requires
        app@.path_at(app@.target()) == match path {
            Some(path) => Some(path@),
            None => None,
        },
    ensures
        r@ == app@.fourth_figure(*node, *words),
{
    if node.dir && words.checkout {
        if let Some(path) = path {
            let (value, clean) = match app.git_at(path) {
                Some(Some(state)) => (state.summary.as_str(), state.clean),
                Some(None) => ("not readable", false),
                None => ("asking…", false),
            };
            return figure("Git", render::esc(value).as_str(), render::word_when(clean, "ok"));
        }
    }
    let kind = match &node.reclaim {
        Some(reason) => node.kind.as_str().to_owned().concat(" · ").concat(reason.as_str()),
        None => node.kind.as_str().to_owned(),
    };
    figure("Kind", render::esc(kind.as_str()).as_str(), "")
}

fn figures(app: &Web, node: &Node, path: Option<&OsPath>, now: i64, words: &Words) -> (r: String)
    requires
        app@.path_at(app@.target()) == match path {
            Some(path) => Some(path@),
            None => None,
        },
    ensures
        r@ == app@.figures(*node, now, *words),
{
    let share = figure("Of scan", words.percent_text(node.bytes, root_bytes(app)), "");
    let files = figure("Files", words.count_text(node.files), "");
    let written = figure("Last write", ago(now, node.modified).as_str(), "");
    let fourth = fourth_figure(app, node, path, words);
    "<div class=\"grid\">".to_owned()
        .concat(share.as_str())
        .concat(files.as_str())
        .concat(written.as_str())
        .concat(fourth.as_str())
        .concat("</div>")
}

fn mark_button(app: &Web, target: &[usize], path: Option<&OsPath>, marked: bool, covered: bool) -> (r:
    String)
    requires
        target@ == app@.target(),
        app@.path_at(app@.target()) == match path {
            Some(path) => Some(path@),
            None => None,
        },
        marked == app@.on_list(app@.target()),
        covered == app@.marks_ancestor(app@.path_at(app@.target())) is Some,
    ensures
        r@ == app@.mark_button(),
{
    let class = if !marked && !covered {
        "btn highlight flex-1"
    } else {
        "btn primary flex-1"
    };
    // Inside a marked directory there is nothing to mark on its own: it goes
    // with that directory, so the button offers to keep it by unmarking the
    // directory instead.
    let ancestor = if marked {
        None
    } else {
        match path {
            Some(path) => app.marked_ancestor(path),
            None => None,
        }
    };
    let (event, label) = match &ancestor {
        Some(ancestor) => (
            render::ev(
                json::path_json("unmark", codec::path_attr(ancestor).as_str()).as_str(),
            ),
            render::esc(
                "Unmark ".to_owned().concat(render::short_name(ancestor).as_str()).as_str(),
            ),
        ),
        None => (
            render::ev(json::crumbs_json("mark", target).as_str()),
            render::esc(
                if marked {
                    "Unmark"
                } else {
                    "Mark for removal"
                },
            ),
        ),
    };
    "<button class=\"".to_owned()
        .concat(class)
        .concat("\" ")
        .concat(event.as_str())
        .concat(">")
        .concat(label.as_str())
        .concat("</button>")
}

/// What the keys act on: its name and place, its size set large with its
/// share of the scan, when it was last written, what git says, and the two
/// things to do with it.
pub fn selection_section(app: &Web, now: i64, words: &Words, palette: &Palette) -> (r: String)
    requires
        palette.full(),
    ensures
        r@ == app@.selection_section(now, *words, *palette),
{
    proof {
        reveal(State::selection_section);
    }
    let target = app.target();
    let node = match app.node_at(target.as_slice()) {
        Some(node) => node,
        None => {
            return "<div class=\"eyebrow\">Selection</div>".to_owned().concat(
                "<div class=\"dim\">Point at a tile or select one with the arrows</div>",
            );
        },
    };
    let found = app.path_at(target.as_slice());
    let path = found.as_ref();
    let marked = app.on_list(target.as_slice());
    let covered_by = marks_ancestor(app, path);
    let is_current_root = tree::same_crumbs(target.as_slice(), app.crumbs.as_slice());
    let identity = identity(app, node, path, words, palette);
    let measure = measure(app, node, words);
    let grid = figures(app, node, path, now, words);
    // Only states that change the decision earn a badge.
    let chips = if marked || covered_by.is_some() || node.read_error {
        let goes_with = match &covered_by {
            Some(ancestor) => "<span class=\"chip chip-danger\">Goes with ".to_owned().concat(
                render::esc(ancestor.as_str()).as_str(),
            ).concat("</span>"),
            None => "".to_owned(),
        };
        let all = render::word_when(
            marked,
            "<span class=\"chip chip-danger\">Marked</span>",
        ).to_owned().concat(goes_with.as_str()).concat(
            render::word_when(
                node.read_error,
                "<span class=\"chip chip-warn\">Partly unreadable</span>",
            ),
        );
        "<div class=\"chips\">".to_owned().concat(all.as_str()).concat("</div>")
    } else {
        "".to_owned()
    };
    // Open is secondary: Enter already does it. Marking is the action this
    // tool exists for, so it takes the highlight.
    let actions = if is_current_root {
        "".to_owned()
    } else {
        let open = if node.dir {
            "<button class=\"btn outline flex-1\" ".to_owned().concat(
                render::ev(json::crumbs_json("goto", target.as_slice()).as_str()).as_str(),
            ).concat(">Open</button>")
        } else {
            "".to_owned()
        };
        let mark = mark_button(app, target.as_slice(), path, marked, covered_by.is_some());
        open.concat(mark.as_str())
    };
    "<div class=\"section\"><div class=\"eyebrow\">Selection</div>".to_owned()
        .concat(identity.as_str())
        .concat(measure.as_str())
        .concat(grid.as_str())
        .concat(chips.as_str())
        .concat("<div class=\"actions\">")
        .concat(actions.as_str())
        .concat("</div></div>")
}

fn insight_row(
    app: &Web,
    candidate: &Candidate,
    node: &Node,
    active: bool,
    largest: u64,
    words: &Words,
    palette: &Palette,
) -> (r: String)
    requires
        palette.full(),
        active == (app@.action_target() == Some(candidate.crumbs@)),
        largest == app@.insights[0].bytes,
    ensures
        r@ == app@.insight_row(*candidate, *node, *words, *palette),
{
    let active = render::word_when(active, " active");
    let event = render::ev(json::crumbs_json("reveal", candidate.crumbs.as_slice()).as_str());
    let (heading, reason) = insight_text(app, candidate);
    let title = render::esc(heading.as_str());
    let accent = palette.accent_of(node.category);
    let detail = render::esc(reason.as_str());
    let size = words.size_text(candidate.bytes);
    let width = words.width_text(candidate.bytes, largest);
    "<div class=\"insight".to_owned()
        .concat(active)
        .concat("\" ")
        .concat(event.as_str())
        .concat(" title=\"")
        .concat(title.as_str())
        .concat("\"><span class=\"strip\" style=\"background:")
        .concat(accent)
        .concat("\"></span><span class=\"insight-text\"><span class=\"name ellipsis\">")
        .concat(title.as_str())
        .concat("</span><span class=\"caption dim ellipsis\">")
        .concat(detail.as_str())
        .concat("</span></span><span class=\"insight-figures\"><span>")
        .concat(size)
        .concat("</span><span class=\"bar\"><span style=\"width:")
        .concat(width)
        .concat("%;background:")
        .concat(accent)
        .concat("\"></span></span></span></div>")
}

/// The size of everything worth a look.
pub fn worth_total(app: &Web) -> (r: u64)
    requires
        app@.worth_total() <= u64::MAX,
    ensures
        r == app@.worth_total(),
{
    let mut total: u64 = 0;
    let mut at: usize = 0;
    while at < app.insights.len()
        invariant
            at <= app.insights@.len(),
            app@.insights == app.insights@,
            app@.worth_total() <= u64::MAX,
            total == sizes(app.insights@, at as int),
        decreases app.insights@.len() - at,
    {
        proof {
            lemma_sizes(app.insights@, at + 1, app.insights@.len() as int);
        }
        total = total + app.insights[at].bytes;
        at = at + 1;
    }
    total
}

/// The biggest things that could plausibly go, with their total.
pub fn worth_section(app: &Web, words: &Words, palette: &Palette) -> (r: String)
    requires
        palette.full(),
        app@.worth_total() <= u64::MAX,
    ensures
        r@ == app@.worth_section(*words, *palette),
{
    proof {
        reveal(State::worth_section);
    }
    let sum = worth_total(app);
    let total = if sum > 0 {
        "<span class=\"caption hl\">".to_owned().concat(words.size_text(sum)).concat("</span>")
    } else {
        "".to_owned()
    };
    let body = if app.insights.len() == 0 {
        let note = if app.tree.is_some() {
            "Nothing obviously disposable"
        } else {
            "Waiting for the scan"
        };
        "<div class=\"caption dim\">".to_owned().concat(note).concat("</div>")
    } else {
        let selected = app.action_target();
        let largest = app.insights[0].bytes;
        let mut rows = "".to_owned();
        let mut at: usize = 0;
        while at < app.insights.len()
            invariant
                palette.full(),
                at <= app.insights@.len(),
                app@.insights == app.insights@,
                largest == app@.insights[0].bytes,
                tree::opt_crumbs(selected) == app@.action_target(),
                rows@ == app@.insight_rows(*words, *palette, at as int),
            decreases app.insights@.len() - at,
        {
            let candidate = &app.insights[at];
            if let Some(node) = app.node_at(candidate.crumbs.as_slice()) {
                let active = match &selected {
                    Some(crumbs) => tree::same_crumbs(
                        crumbs.as_slice(),
                        candidate.crumbs.as_slice(),
                    ),
                    None => false,
                };
                let row = insight_row(app, candidate, node, active, largest, words, palette);
                rows.append(row.as_str());
            }
            at = at + 1;
        }
        rows
    };
    "<div class=\"section-head\"><span class=\"eyebrow\">Worth a look</span>".to_owned()
        .concat(total.as_str())
        .concat("</div>")
        .concat(body.as_str())
}

fn marked_row(app: &Web, item: &Target, words: &Words, palette: &Palette) -> (r: String)
    requires
        palette.full(),
    ensures
        r@ == app@.marked_row(item@, *words, *palette),
{
    let category = match app.crumbs_for_path(&item.path) {
        Some(crumbs) => match app.node_at(crumbs.as_slice()) {
            Some(node) => node.category,
            None => Category::Other,
        },
        None => Category::Other,
    };
    let color = palette.accent_of(category);
    let full = render::esc(item.path.display().as_str());
    let place = render::esc(words.place_text(&item.path));
    let size = words.size_text(item.bytes);
    let event = render::ev(
        json::path_json("unmark", codec::path_attr(&item.path).as_str()).as_str(),
    );
    "<div class=\"marked-row\"><span class=\"dot\" style=\"background:".to_owned()
        .concat(color)
        .concat("\"></span><span class=\"ellipsis flex-1\" title=\"")
        .concat(full.as_str())
        .concat("\">")
        .concat(place.as_str())
        .concat("</span><span class=\"dim\">")
        .concat(size)
        .concat("</span><span class=\"unmark\" ")
        .concat(event.as_str())
        .concat(" title=\"unmark\">×</span></div>")
}

/// What is queued for removal, each with a way off the list.
pub fn marked_section(app: &Web, plan: &Plan, words: &Words, palette: &Palette) -> (r: String)
    requires
        palette.full(),
    ensures
        r@ == app@.marked_section(*plan, *words, *palette),
{
    proof {
        reveal(State::marked_section);
    }
    let many = app.marks.len();
    if many == 0 {
        return "<div class=\"section-head\"><span class=\"eyebrow\">Marked</span></div>".to_owned().concat(
            "<div class=\"caption dim\">Space marks the tile you point at</div>",
        );
    }
    let items = app.marks.items();
    let count = text::index_text(many);
    let size = words.size_text(plan.bytes);
    let shown: usize = if many > MARKED_ROWS {
        MARKED_ROWS
    } else {
        many
    };
    let mut rows = "".to_owned();
    let mut at: usize = 0;
    while at < shown
        invariant
            palette.full(),
            at <= shown <= items@.len(),
            marks::marks_of(items@) == app@.marks,
            rows@ == app@.marked_rows(*words, *palette, at as int),
        decreases shown - at,
    {
        assert(app@.marks[at as int] == items@[at as int]@);
        rows.append(marked_row(app, &items[at], words, palette).as_str());
        at = at + 1;
    }
    let more = if many > MARKED_ROWS {
        "<div class=\"caption dim\">+".to_owned().concat(
            text::index_text(many - MARKED_ROWS).as_str(),
        ).concat(" more on the review screen</div>")
    } else {
        "".to_owned()
    };
    let aside = if plan.covered.len() > 0 || plan.blocked.len() > 0 {
        "<div class=\"caption dim\">".to_owned().concat(
            text::index_text(plan.covered.len()).as_str(),
        ).concat(" nested · ").concat(text::index_text(plan.blocked.len()).as_str()).concat(
            " kept back</div>",
        )
    } else {
        "".to_owned()
    };
    "<div class=\"section-head\"><span class=\"eyebrow\">Marked · ".to_owned()
        .concat(count.as_str())
        .concat("</span><span class=\"caption dim\">")
        .concat(size)
        .concat("</span></div>")
        .concat(rows.as_str())
        .concat(more.as_str())
        .concat(aside.as_str())
}

fn news_text(notice: &Notice, words: &Words) -> (r: String)
    ensures
        r@ == State::news_words(crate::app::opt_news(Some(*notice))->0, *words),
{
    match notice {
        Notice::GoesWith { path, ancestor } => notice.message(
            words.place_text(path),
            words.place_text(ancestor),
        ),
        Notice::Covers { path, .. } => notice.message(words.place_text(path), ""),
        _ => notice.message("", ""),
    }
}

/// The last thing that happened, or a scan error, above the disk.
pub fn notice_line(app: &Web, words: &Words) -> (r: String)
    ensures
        r@ == app@.notice_line(*words),
{
    proof {
        reveal(State::notice_line);
    }
    if let Some(error) = &app.scan_error {
        return notice_text("danger", error.as_str());
    }
    match &app.notice {
        Some(notice) => {
            let class = match notice.status() {
                Status::Neutral => "neutral",
                Status::Warning => "warn",
            };
            notice_text(class, news_text(notice, words).as_str())
        },
        None => "".to_owned(),
    }
}

/// The way to the review screen, where the saving is: it says what is marked
/// and what it frees, so the number that matters is the thing to press.
pub fn review_button(app: &Web, reclaiming: u64, words: &Words) -> (r: String)
    ensures
        r@ == app@.review_button(reclaiming, *words),
{
    let event = render::key_ev("c");
    let count = text::index_text(app.marks.len());
    let size = words.size_text(reclaiming);
    "<button class=\"review-btn\" ".to_owned()
        .concat(event.as_str())
        .concat("><span class=\"flex-1 ellipsis\">Review ")
        .concat(count.as_str())
        .concat(" marked · frees ")
        .concat(size)
        .concat("…</span><span class=\"keycap\">c</span></button>")
}

/// Free space on the volume now, and after the marks go. Used space runs from
/// the left; the slice the marks give back is the hatched end of it, so the
/// gap it leaves is exactly what comes back.
pub fn disk_section(app: &Web, plan: &Plan, words: &Words) -> (r: String)
    ensures
        r@ == app@.disk_section(*plan, *words),
{
    proof {
        reveal(State::disk_section);
    }
    let device = match &app.device {
        Some(device) => render::esc(device.as_str()),
        None => render::esc(""),
    };
    let space = match app.space {
        Some(space) => space,
        None => {
            return "<div class=\"section\"><div class=\"section-head\"><span class=\"eyebrow\">Disk".to_owned()
                .concat("</span><span class=\"caption faint\">")
                .concat(device.as_str())
                .concat("</span></div><div class=\"caption dim\">Free space is not available here</div>")
                .concat("</div>");
        },
    };
    let (number, unit) = split_size(words.size_text(space.available));
    let projection = if plan.bytes > 0 {
        "<span class=\"projection\">→ ".to_owned().concat(
            words.after_text(plan.bytes),
        ).concat(" free</span>")
    } else {
        "".to_owned()
    };
    let left = words.left_text(plan.bytes);
    let back = words.back_text(plan.bytes);
    let used = words.used_text(plan.bytes);
    let total = words.size_text(space.total);
    let review = if !app.marks.is_empty() {
        review_button(app, plan.bytes, words)
    } else {
        "".to_owned()
    };
    "<div class=\"section\"><div class=\"section-head\"><span class=\"eyebrow\">Disk".to_owned()
        .concat("</span><span class=\"caption faint\">")
        .concat(device.as_str())
        .concat("</span></div><div class=\"free-row\"><span class=\"big\">")
        .concat(number.as_str())
        .concat("</span><span class=\"unit\">")
        .concat(unit.as_str())
        .concat(" free</span><span class=\"flex-1\"></span>")
        .concat(projection.as_str())
        .concat("</div><div class=\"meter\"><span class=\"used\" style=\"width:")
        .concat(left)
        .concat("%\"></span><span class=\"back\" style=\"left:")
        .concat(left)
        .concat("%;width:")
        .concat(back)
        .concat("%\"></span></div><div class=\"caption dim spread\"><span>")
        .concat(used)
        .concat(" used</span><span>")
        .concat(total)
        .concat(" total</span></div>")
        .concat(review.as_str())
        .concat("</div>")
}

/// Selection, worth a look, marked, and the disk: everything a decision
/// needs, next to the mosaic rather than under it.
pub fn side_panel(app: &Web, plan: &Plan, now: i64, words: &Words, palette: &Palette) -> (r: String)
    requires
        palette.full(),
        app@.worth_total() <= u64::MAX,
    ensures
        r@ == app@.side_panel(*plan, now, *words, *palette),
{
    proof {
        reveal(State::side_panel);
    }
    let width = words.panel.as_str();
    let selection = selection_section(app, now, words, palette);
    let worth = worth_section(app, words, palette);
    let marked = marked_section(app, plan, words, palette);
    let notice = notice_line(app, words);
    let disk = disk_section(app, plan, words);
    "<div id=\"panel\" style=\"width:".to_owned()
        .concat(width)
        .concat("px\"><div id=\"panel-handle\" title=\"drag to resize · double-click resets\">")
        .concat("</div><button id=\"panel-close\" title=\"close\">×</button>")
        .concat(selection.as_str())
        .concat("<div class=\"rule\"></div><div id=\"panel-lists\">")
        .concat(worth.as_str())
        .concat("<div class=\"rule\"></div>")
        .concat(marked.as_str())
        .concat("</div>")
        .concat(notice.as_str())
        .concat(disk.as_str())
        .concat("</div>")
}

} // verus!
