//! The explore screen: the bars round the mosaic, the trail and its menu, the
//! settings, the colour key and the find field.

use crate::app::{ColorMode, Crumb, Place, Sibling, State, Web};
use crate::codec;
use crate::json;
use crate::marks;
use crate::mosaic;
use crate::navigation;
use crate::palette;
use crate::palette::Palette;
use crate::paths;
use crate::paths::OsPath;
use crate::panel;
use crate::render;
use crate::text;
use crate::tree;
use crate::tree::{Category, Metric, Node};
use crate::words::{LegendRow, Words};
use vstd::prelude::*;

verus! {

/// Steps a trail shows before it folds its middle into an ellipsis.
pub const TRAIL_STEPS: usize = 7;

/// A key and what it does.
pub open spec fn hint(keys: Seq<char>, label: Seq<char>) -> Seq<char> {
    "<span class=\"hint\"><span class=\"keycap\">"@
        + keys
        + "</span> "@
        + label
        + "</span>"@
}

/// A key and what it does.
pub fn hint_text(keys: &str, label: &str) -> (r: String)
    ensures
        r@ == hint(keys@, label@),
{
    "<span class=\"hint\"><span class=\"keycap\">".to_owned()
        .concat(keys)
        .concat("</span> ")
        .concat(label)
        .concat("</span>")
}

/// The keys, most useful first.
pub open spec fn hints() -> Seq<char> {
    hint("space"@, "mark"@) + hint("enter"@, "open"@) + hint("⌫"@, "up"@) + hint(
        "c"@,
        "review"@,
    ) + hint("hjkl"@, "move"@) + hint("/"@, "filter"@) + hint("[ ]"@, "depth"@) + hint(
        "t"@,
        "mode"@,
    ) + hint("0"@, "reset"@) + hint("r"@, "rescan"@)
}

fn hints_text() -> (r: String)
    ensures
        r@ == hints(),
{
    hint_text("space", "mark").concat(hint_text("enter", "open").as_str()).concat(
        hint_text("⌫", "up").as_str(),
    ).concat(hint_text("c", "review").as_str()).concat(hint_text("hjkl", "move").as_str()).concat(
        hint_text("/", "filter").as_str(),
    ).concat(hint_text("[ ]", "depth").as_str()).concat(hint_text("t", "mode").as_str()).concat(
        hint_text("0", "reset").as_str(),
    ).concat(hint_text("r", "rescan").as_str())
}

/// A dim label above a number, for the stat strips.
pub open spec fn stat_markup(label: Seq<char>, value: Seq<char>, class: Seq<char>) -> Seq<char> {
    "<span class=\"stat "@
        + class
        + "\"><span class=\"stat-value\">"@
        + value
        + "</span><span class=\"caption dim\">"@
        + label
        + "</span></span>"@
}

/// A dim label above a number, for the stat strips.
pub fn stat(label: &str, value: &str, class: &str) -> (r: String)
    ensures
        r@ == stat_markup(label@, value@, class@),
{
    "<span class=\"stat ".to_owned()
        .concat(class)
        .concat("\"><span class=\"stat-value\">")
        .concat(value)
        .concat("</span><span class=\"caption dim\">")
        .concat(label)
        .concat("</span></span>")
}

/// A colour and what it stands for.
pub open spec fn legend_item(swatch: Seq<char>, label: Seq<char>) -> Seq<char> {
    "<span class=\"legend-item\">"@
        + swatch
        + "<span class=\"dim\">"@
        + label
        + "</span></span>"@
}

fn legend_entry(swatch: String, label: &str) -> (r: String)
    ensures
        r@ == legend_item(swatch@, label@),
{
    "<span class=\"legend-item\">".to_owned()
        .concat(swatch.as_str())
        .concat("<span class=\"dim\">")
        .concat(label)
        .concat("</span></span>")
}

/// A patch of colour.
pub open spec fn swatch(color: Seq<char>) -> Seq<char> {
    "<span class=\"swatch\" style=\"background:"@
        + color
        + "\"></span>"@
}

fn swatch_of(color: &str) -> (r: String)
    ensures
        r@ == swatch(color@),
{
    "<span class=\"swatch\" style=\"background:".to_owned()
        .concat(color)
        .concat("\"></span>")
}

/// The first `count` entries of the colour key.
pub open spec fn legend_rows(rows: Seq<LegendRow>, palette: Palette, count: int) -> Seq<char>
    decreases count,
{
    if count <= 0 {
        ""@
    } else {
        legend_rows(rows, palette, count - 1) + legend_item(
            swatch(palette.accent(rows[count - 1].category)),
            rows[count - 1].label@,
        )
    }
}

/// The first `count` steps of the age ramp.
pub open spec fn age_rows(palette: Palette, count: int) -> Seq<char>
    decreases count,
{
    if count <= 0 {
        ""@
    } else {
        age_rows(palette, count - 1) + legend_item(
            swatch(palette.age_accents@[count - 1]@),
            palette::age_name(count - 1),
        )
    }
}

/// A logo tile.
pub open spec fn logo_tile(color: Seq<char>) -> Seq<char> {
    "<span class=\"logo-tile\" style=\"background:"@
        + color
        + "\"></span>"@
}

fn logo_tile_of(color: &str) -> (r: String)
    ensures
        r@ == logo_tile(color@),
{
    "<span class=\"logo-tile\" style=\"background:".to_owned()
        .concat(color)
        .concat("\"></span>")
}

/// Four tiles in category colours, and the name.
pub open spec fn logo_markup(palette: Palette) -> Seq<char> {
    let code = logo_tile(palette.accent(Category::Code));
    let git = logo_tile(palette.accent(Category::Git));
    let media = logo_tile(palette.accent(Category::Media));
    let cache = logo_tile(palette.accent(Category::Cache));
    "<span id=\"logo\" title=\"disktree\">"@
        + code
        + git
        + media
        + cache
        + "<b>disktree</b></span>"@
}

/// Four tiles in category colours, and the name.
pub fn logo(palette: &Palette) -> (r: String)
    requires
        palette.full(),
    ensures
        r@ == logo_markup(*palette),
{
    let code = logo_tile_of(palette.accent_of(Category::Code));
    let git = logo_tile_of(palette.accent_of(Category::Git));
    let media = logo_tile_of(palette.accent_of(Category::Media));
    let cache = logo_tile_of(palette.accent_of(Category::Cache));
    "<span id=\"logo\" title=\"disktree\">".to_owned()
        .concat(code.as_str())
        .concat(git.as_str())
        .concat(media.as_str())
        .concat(cache.as_str())
        .concat("<b>disktree</b></span>")
}

/// A choice of what is measured.
pub open spec fn mode_button(index: usize, mode: usize, label: Seq<char>) -> Seq<char> {
    let on = render::when(index == mode, " on"@);
    let event = render::ev_attr(json::mode_event(index));
    "<button class=\"seg"@
        + on
        + "\" "@
        + event
        + ">"@
        + label
        + "</button>"@
}

fn mode_button_text(index: usize, mode: usize, label: &str) -> (r: String)
    ensures
        r@ == mode_button(index, mode, label@),
{
    let on = render::word_when(index == mode, " on");
    let event = render::ev(json::mode_json(index).as_str());
    "<button class=\"seg".to_owned()
        .concat(on)
        .concat("\" ")
        .concat(event.as_str())
        .concat(">")
        .concat(label)
        .concat("</button>")
}

/// The largest value of a menu's first row, for its bars.
pub open spec fn largest_of(first: Option<u64>) -> u64 {
    match first {
        Some(value) => if value < 1 {
            1
        } else {
            value
        },
        None => 1,
    }
}

/// The steps a trail of `len` folds away.
pub open spec fn folded(len: int, index: int) -> bool {
    len > TRAIL_STEPS && 2 <= index < len - (TRAIL_STEPS - 3)
}

impl State {
    /// What the keys act on: the tile, else the directory on screen.
    pub open spec fn target(self) -> Seq<usize> {
        match self.action_target() {
            Some(crumbs) => crumbs,
            None => self.crumbs,
        }
    }

    /// What crumbs lead to is on the marked list.
    pub open spec fn on_list(self, crumbs: Seq<usize>) -> bool {
        self.path_at(crumbs) matches Some(path) && marks::marked(self.marks, path)
    }

    /// The directory to ask git about: what the panel shows.
    pub open spec fn git_target(self) -> Option<Seq<u8>> {
        match self.action_target() {
            Some(crumbs) => if self.show_selection && self.is_dir(crumbs) {
                self.path_at(crumbs)
            } else {
                None
            },
            None => None,
        }
    }

    /// The actions the keys stand in for, as buttons.
    #[verifier::opaque]
    pub open spec fn touch_bar(self) -> Seq<char> {
        let target = self.target();
        let is_root = target == self.crumbs;
        let up = render::key_attr("backspace"@);
        let space = render::key_attr("space"@);
        let fixed = render::when(is_root, "disabled"@);
        let mark = if self.on_list(target) {
            "Unmark"@
        } else {
            "Mark"@
        };
        let enter = render::key_attr("enter"@);
        let closed = render::when(!self.is_dir(target) || is_root, "disabled"@);
        let slash = render::key_attr("/"@);
        let c = render::key_attr("c"@);
        let review = if self.marks.len() > 0 {
            "Review · "@
        } else {
            "Review"@
        };
        let count = if self.marks.len() > 0 {
            "<b>"@ + text::decimal(self.marks.len()) + "</b>"@
        } else {
            ""@
        };
        "<div id=\"touch-bar\"><button class=\"btn secondary\" "@
            + up
            + ">⌫ Up</button><button class=\"btn highlight\" "@
            + space
            + " "@
            + fixed
            + ">"@
            + mark
            + "</button><button class=\"btn outline\" "@
            + enter
            + " "@
            + closed
            + ">Open</button><button class=\"btn secondary\" "@
            + slash
            + ">Filter</button><button class=\"btn secondary\" id=\"sheet-toggle\">Details"@
            + "</button><button class=\"btn secondary\" "@
            + c
            + ">"@
            + review
            + count
            + "</button></div>"@
    }

    /// A scan is on its way to a directory above.
    pub open spec fn widening(self) -> bool {
        self.scanning && !paths::same_path(self.scan_root, self.root_path)
    }

    /// A crumb above the scanned root.
    pub open spec fn above_crumb(self, label: Seq<char>, path: Seq<u8>) -> Seq<char> {
        let pending = render::when(
            self.widening() && paths::same_path(self.scan_root, path),
            " pending"@,
        );
        let event = render::ev_attr(json::path_event("widen"@, codec::encoded(path)));
        let name = render::escaped(label);
        "<span class=\"crumb above"@
            + pending
            + "\" "@
            + event
            + " title=\"Scan from here · what is below is reused\">"@
            + name
            + "</span>"@
    }

    /// A crumb in the tree.
    pub open spec fn tree_crumb(
        self,
        label: Seq<char>,
        crumbs: Seq<usize>,
        current: bool,
    ) -> Seq<char> {
        let name = render::escaped(label);
        let here = render::when(current, " current"@);
        if crumbs.len() == 0 {
            let event = render::ev_attr(json::crumbs_event("goto"@, Seq::empty()));
            "<span class=\"crumb"@
                + here
                + "\" "@
                + event
                + ">"@
                + name
                + "</span>"@
        } else {
            let open = self.crumb_menu matches Some(menu) && menu.parent == crumbs.drop_last()
                && menu.current == crumbs.last();
            let lit = render::when(current || open, " lit"@);
            let menu = render::ev_attr(json::crumbs_event("menu"@, crumbs));
            let event = if current {
                menu
            } else {
                render::ev_attr(json::crumbs_event("goto"@, crumbs))
            };
            "<span class=\"crumb-group"@
                + lit
                + "\"><span class=\"crumb"@
                + here
                + "\" "@
                + event
                + ">"@
                + name
                + "</span><span class=\"crumb chevron\" title=\"siblings\" "@
                + menu
                + ">▾</span></span>"@
        }
    }

    /// One step of a trail of `len`, with what separates it from the last.
    pub open spec fn trail_step(self, steps: Seq<(Seq<char>, Place)>, index: int) -> Seq<char> {
        let (label, step) = steps[index];
        if folded(steps.len() as int, index) {
            if index == 2 {
                "<span class=\"sep\">/</span><span class=\"fold\">…</span>"@
            } else {
                ""@
            }
        } else {
            render::when(index > 1, "<span class=\"sep\">/</span>"@) + match step {
                Place::Above(path) => self.above_crumb(label, path),
                Place::Tree(crumbs) => self.tree_crumb(label, crumbs, index == steps.len() - 1),
            }
        }
    }

    /// The first `count` steps of a trail.
    pub open spec fn trail_steps(self, steps: Seq<(Seq<char>, Place)>, count: int) -> Seq<char>
        decreases count,
    {
        if count <= 0 {
            ""@
        } else {
            self.trail_steps(steps, count - 1) + self.trail_step(steps, count - 1)
        }
    }

    /// The trail, from `/`, and the open menu.
    #[verifier::opaque]
    pub open spec fn trail(self, words: Words, palette: Palette) -> Seq<char> {
        let steps = self.breadcrumbs();
        let row = self.trail_steps(steps, steps.len() as int);
        let menu = self.crumb_menu_layer(words, palette);
        "<div id=\"trail\">"@
            + row
            + "</div>"@
            + menu
    }

    /// The name over a sibling menu.
    pub open spec fn menu_title(self, parent: Seq<usize>, words: Words) -> Seq<char> {
        match self.node_at(parent) {
            Some(node) => if parent.len() == 0 {
                words.place(self.root_path)
            } else {
                node.name()
            },
            None => ""@,
        }
    }

    /// What a sibling menu says a child measures.
    pub open spec fn menu_value(self, value: u64, words: Words) -> Seq<char> {
        match self.options.metric {
            Metric::Bytes => words.size(value),
            Metric::Files => words.count(value) + " files"@,
        }
    }

    /// One row of the sibling menu of `node`.
    pub open spec fn menu_row(
        self,
        node: Node,
        position: int,
        words: Words,
        palette: Palette,
    ) -> Seq<char> {
        let menu = self.crumb_menu->0;
        let rows = navigation::listed(node, self.options.metric);
        let child = node.children@[rows[position] as int];
        let largest = largest_of(
            Some(node.children@[rows[0] as int].measure(self.options.metric)),
        );
        let measure = child.measure(self.options.metric);
        let current = render::when(rows[position] == menu.current, " current"@);
        let highlighted = render::when(position == menu.highlighted, " highlighted"@);
        let event = render::ev_attr(json::sibling_event(menu.parent, rows[position]));
        let color = palette.accent(child.category);
        let name = render::escaped(child.name());
        let width = words.width(measure, largest);
        let value = self.menu_value(measure, words);
        "<div class=\"menu-row"@
            + current
            + highlighted
            + "\" "@
            + event
            + "><span class=\"dot\" style=\"background:"@
            + color
            + "\"></span><span class=\"menu-name\">"@
            + name
            + "</span><span class=\"bar\"><span style=\"width:"@
            + width
            + "%;background:"@
            + color
            + "\"></span></span><span class=\"menu-value\">"@
            + value
            + "</span></div>"@
    }

    /// The first `count` rows of the sibling menu of `node`.
    pub open spec fn menu_rows(
        self,
        node: Node,
        words: Words,
        palette: Palette,
        count: int,
    ) -> Seq<char>
        decreases count,
    {
        if count <= 0 {
            ""@
        } else {
            self.menu_rows(node, words, palette, count - 1) + self.menu_row(
                node,
                count - 1,
                words,
                palette,
            )
        }
    }

    /// The rows of the sibling menu, and how many more there are.
    pub open spec fn menu_body(self, parent: Seq<usize>, words: Words, palette: Palette) -> Seq<char> {
        match self.node_at(parent) {
            Some(node) => {
                let rows = navigation::listed(node, self.options.metric);
                let more = node.children@.len() - rows.len();
                self.menu_rows(node, words, palette, rows.len() as int) + if more > 0 {
                    "<div class=\"menu-more\">+"@ + text::decimal(more as nat) + " more</div>"@
                } else {
                    ""@
                }
            },
            None => ""@,
        }
    }

    /// The siblings of a crumb, largest first, with a share bar in each one's
    /// colour and its size.
    #[verifier::opaque]
    pub open spec fn crumb_menu_layer(self, words: Words, palette: Palette) -> Seq<char> {
        match self.crumb_menu {
            Some(menu) => {
                let x = words.anchor.0@;
                let y = words.anchor.1@;
                let title = render::escaped(self.menu_title(menu.parent, words));
                let body = self.menu_body(menu.parent, words, palette);
                "<div id=\"crumb-menu\" style=\"left:"@
                    + x
                    + "px;top:"@
                    + y
                    + "px\"><div class=\"menu-title\">"@
                    + title
                    + "</div>"@
                    + body
                    + "</div>"@
            },
            None => ""@,
        }
    }

    /// A node's card as tooltip data attributes.
    pub open spec fn node_tip_data(self, crumbs: Seq<usize>, keys: Seq<char>, words: Words) -> Seq<char> {
        match self.node_at(crumbs) {
            Some(node) => {
                let total = self.parent_bytes(crumbs);
                let name = render::escaped(node.name());
                let place = render::escaped(self.place_at(crumbs, words));
                let size = render::escaped(words.size(node.bytes));
                let holds = render::escaped(mosaic::meta(node, words));
                let percent = words.percent(node.bytes, total);
                let bar = words.bar(node.bytes, total);
                let shortcut = render::escaped(keys);
                let dir = render::when(node.dir, " data-dir=\"1\""@);
                let hidden = render::when(mosaic::dotted(node.name()), " data-hidden=\"1\""@);
                " data-name=\""@
                    + name
                    + "\" data-tip-path=\""@
                    + place
                    + "\" data-size=\""@
                    + size
                    + "\" data-meta=\""@
                    + holds
                    + "\" data-percent=\""@
                    + percent
                    + "\" data-bar=\""@
                    + bar
                    + "\" data-keys=\""@
                    + shortcut
                    + "\""@
                    + dir
                    + hidden
            },
            None => ""@,
        }
    }

    /// What a history button says it does.
    pub open spec fn history_hint(
        self,
        target: Option<Seq<usize>>,
        name: Seq<char>,
        keys: Seq<char>,
        words: Words,
    ) -> Seq<char> {
        match target {
            Some(crumbs) => match self.path_at(crumbs) {
                Some(path) => name + " to "@ + words.place(path),
                None => ""@,
            },
            None => name + " — "@ + keys,
        }
    }

    /// A history button's tooltip.
    pub open spec fn history_tip(
        self,
        target: Option<Seq<usize>>,
        name: Seq<char>,
        keys: Seq<char>,
        words: Words,
    ) -> Seq<char> {
        match target {
            Some(crumbs) => self.node_tip_data(crumbs, keys, words),
            None => {
                let title = render::escaped(name);
                let note = render::escaped(keys);
                " data-name=\""@
                    + title
                    + "\" data-note=\""@
                    + note
                    + "\""@
            },
        }
    }

    /// A history button.
    pub open spec fn history_button(
        self,
        target: Option<Seq<usize>>,
        name: Seq<char>,
        keys: Seq<char>,
        arrow: Seq<char>,
        label: Seq<char>,
        words: Words,
    ) -> Seq<char> {
        let tip = self.history_tip(target, name, keys, words);
        let disabled = render::when(target is None, "disabled"@);
        let title = render::escaped(self.history_hint(target, name, keys, words));
        let event = render::ev_attr(json::alt_event(arrow));
        "<span class=\"has-tip\""@
            + tip
            + "><button class=\"seg\" "@
            + disabled
            + " title=\""@
            + title
            + "\" "@
            + event
            + ">"@
            + label
            + "</button></span>"@
    }

    /// What is measured, on the edge that owns it: the history, the
    /// Size | Files | Age choice, the scan's switches, and the drawn depth.
    #[verifier::opaque]
    pub open spec fn view_settings(self, words: Words) -> Seq<char> {
        let back = self.history_button(
            self.history_target(true),
            "Back"@,
            "alt ← back"@,
            "left"@,
            "‹"@,
            words,
        );
        let forward = self.history_button(
            self.history_target(false),
            "Forward"@,
            "alt → forward"@,
            "right"@,
            "›"@,
            words,
        );
        let mode = self.mode_index();
        let size = mode_button(0, mode, "Size"@);
        let files = mode_button(1, mode, "Files"@);
        let age = mode_button(2, mode, "Age"@);
        let hidden = render::when(self.options.include_hidden, " on"@);
        let i = render::key_attr("i"@);
        let apparent = render::when(self.options.apparent_size, " on"@);
        let d = render::key_attr("d"@);
        let depth = text::decimal(self.depth as nat);
        let least = render::when(self.depth <= 1, "disabled"@);
        let fewer = render::key_attr("["@);
        let most = render::when(self.depth >= 6, "disabled"@);
        let more = render::key_attr("]"@);
        "<div id=\"settings\"><span class=\"group\">"@
            + back
            + forward
            + "</span><span class=\"group\">"@
            + size
            + files
            + age
            + "</span><button class=\"check"@
            + hidden
            + "\" "@
            + i
            + " title=\"include dotfiles (i)\"><span class=\"box\"></span>Hidden files</button>"@
            + "<button class=\"check"@
            + apparent
            + "\" "@
            + d
            + " title=\"apparent length, not allocated blocks (d)\"><span class=\"box\">"@
            + "</span>Apparent size</button><span class=\"group\" title=\"Levels drawn at once"@
            + " · [ and ]\"><span class=\"depth-label\">Depth "@
            + depth
            + "</span><button class=\"seg\" "@
            + least
            + " "@
            + fewer
            + ">−</button><button class=\"seg\" "@
            + most
            + " "@
            + more
            + ">+</button></span></div>"@
    }

    /// The app, the trail and the settings.
    #[verifier::opaque]
    pub open spec fn top_bar(self, words: Words, palette: Palette) -> Seq<char> {
        let logo = logo_markup(palette);
        let trail = self.trail(words, palette);
        let settings = self.view_settings(words);
        "<div id=\"top-bar\">"@
            + logo
            + trail
            + "<div class=\"flex-1\"></div>"@
            + settings
            + "</div>"@
    }

    /// What the whole scan found: size, files, directories.
    pub open spec fn totals(self) -> (u64, u64, u64) {
        match self.tree {
            Some(node) => (node.bytes, node.files, node.dirs),
            None => (self.progress.bytes, self.progress.files, self.progress.dirs),
        }
    }

    /// What the whole scan found, as one quiet line.
    #[verifier::opaque]
    pub open spec fn scan_totals(self, words: Words) -> Seq<char> {
        let (total, many, held) = self.totals();
        let bytes = words.size(total);
        let files = words.count(many);
        let dirs = words.count(held);
        let errors = if self.progress.errors > 0 {
            " <span class=\"warn\">· "@ + words.count(self.progress.errors) + " unreadable</span>"@
        } else {
            ""@
        };
        "<span id=\"totals\"><b>"@
            + bytes
            + "</b> · "@
            + files
            + " files · "@
            + dirs
            + " dirs"@
            + errors
            + "</span>"@
    }

    /// The key to the colours: the categories, or the age ramp in age mode.
    #[verifier::opaque]
    pub open spec fn legend(self, words: Words, palette: Palette) -> Seq<char> {
        let ground = palette.fill(
            false,
            None,
            Category::Other,
            0,
            crate::app::Filtered::Shown,
        );
        let hatched = "<span class=\"swatch hatch-swatch\" style=\"background-color:"@ + ground
            + "\"></span>"@;
        let reclaimable = legend_item(hatched, "Reclaimable"@);
        let lane = if self.color_mode == ColorMode::Age {
            age_rows(palette, palette::AGES as int)
        } else {
            legend_rows(words.legend@, palette, words.legend@.len() as int)
        };
        "<span id=\"legend\">"@
            + reclaimable
            + lane
            + "</span>"@
    }

    /// What the find text matches.
    pub open spec fn find_summary(self, words: Words) -> Seq<char> {
        match self.matches {
            None => ""@,
            Some(matches) => if matches.count == 0 {
                "no matches"@
            } else {
                words.count(matches.count as u64) + (if matches.count == 1 {
                    " match · "@
                } else {
                    " matches · "@
                }) + words.size(matches.bytes)
            },
        }
    }

    /// What Enter and Escape do with the find text.
    pub open spec fn find_hint(self) -> Seq<char> {
        match self.matches {
            None => "type to filter"@,
            Some(matches) => if matches.count == 0 || self.filter_applied {
                "esc clears"@
            } else {
                "enter shows only these"@
            },
        }
    }

    /// The find field.
    #[verifier::opaque]
    pub open spec fn find_field(self, words: Words) -> Seq<char> {
        let border = if self.find_open {
            "open"@
        } else if self.filter_applied {
            "applied"@
        } else {
            ""@
        };
        let typed = render::escaped(self.find);
        let tone = if self.filter_applied {
            " hl"@
        } else {
            " dim"@
        };
        let summary = self.find_summary(words);
        let hint = self.find_hint();
        "<span id=\"find\" class=\""@
            + border
            + "\"><span class=\"dim\">/</span><input id=\"find-input\" value=\""@
            + typed
            + "\" placeholder=\"Filter by name\" autocomplete=\"off\" spellcheck=\"false\"/><span"@
            + " class=\"caption"@
            + tone
            + "\">"@
            + summary
            + "</span><span class=\"caption dim\">"@
            + hint
            + "</span></span>"@
    }

    /// The scan totals, the find field while it matters, and the colour key.
    #[verifier::opaque]
    pub open spec fn trail_and_legend(self, words: Words, palette: Palette) -> Seq<char> {
        let totals = self.scan_totals(words);
        let find = if self.find_open || self.find.len() > 0 {
            self.find_field(words)
        } else {
            ""@
        };
        let legend = self.legend(words, palette);
        "<div id=\"totals-row\">"@
            + totals
            + find
            + "<div class=\"flex-1\"></div>"@
            + legend
            + "</div>"@
    }

    /// How the scan goes, or went.
    pub open spec fn scan_line(self, words: Words) -> Seq<char> {
        let files = words.count(self.progress.files);
        if self.scanning {
            "scanning · "@ + files + " entries · "@ + words.size(self.progress.bytes)
        } else {
            "scan "@ + files + " entries"@ + match self.scan_elapsed {
                Some(time) => " · "@ + time + " s"@,
                None => ""@,
            }
        }
    }

    /// The keys, quietly.
    #[verifier::opaque]
    pub open spec fn key_bar(self, words: Words) -> Seq<char> {
        let lane = hints();
        let zoom = match words.zoom {
            Some(zoom) => zoom@,
            None => ""@,
        };
        let question = render::key_attr("?"@);
        let scan = self.scan_line(words);
        "<div id=\"key-bar\"><div class=\"hints\">"@
            + lane
            + "</div><span id=\"zoom-level\" class=\"caption dim\">"@
            + zoom
            + "</span><span class=\"hint\" "@
            + question
            + "><span class=\"keycap\">?</span> all keys</span><span class=\"caption faint\">"@
            + scan
            + "</span></div>"@
    }

    /// What the viewport shows while the first scan is running.
    #[verifier::opaque]
    pub open spec fn scanning_panel(self, words: Words) -> Seq<char> {
        let progress = self.progress;
        let place = render::escaped(words.place(self.root_path));
        let files = stat_markup("files"@, words.count(progress.files), ""@);
        let dirs = stat_markup("directories"@, words.count(progress.dirs), ""@);
        let measured = stat_markup("measured"@, words.size(progress.bytes), ""@);
        let errors = stat_markup(
            "unreadable"@,
            words.count(progress.errors),
            if progress.errors > 0 {
                "warn"@
            } else {
                "dim"@
            },
        );
        let estimate = words.estimate@;
        let failure = match self.scan_error {
            Some(error) => "<div class=\"notice danger\">"@ + render::escaped(error) + "</div>"@,
            None => ""@,
        };
        "<div id=\"scanning\"><div class=\"title\">Reading "@
            + place
            + "</div><div class=\"stats\">"@
            + files
            + dirs
            + measured
            + errors
            + "</div><div class=\"meter wide\"><span class=\"used accent\" style=\"width:"@
            + estimate
            + "%\"></span></div><div class=\"dim\">Marking, zooming and the free-space meter"@
            + " all work as soon as it lands.</div>"@
            + failure
            + "</div>"@
    }

    /// The explore screen.
    #[verifier::opaque]
    pub open spec fn explore(
        self,
        canvas: mosaic::Canvas,
        plan: marks::Plan,
        now: i64,
        words: Words,
        palette: Palette,
    ) -> Seq<char> {
        let top = self.top_bar(words, palette);
        let trail_legend = self.trail_and_legend(words, palette);
        let viewport = if self.tree is None {
            self.scanning_panel(words)
        } else {
            "<div id=\"mosaic-wrap\">"@ + self.mosaic(canvas, words, palette) + "</div>"@
        };
        let panel = if self.show_selection {
            self.side_panel(plan, now, words, palette)
        } else {
            ""@
        };
        let touch = self.touch_bar();
        let keys = self.key_bar(words);
        "<div class=\"screen\">"@
            + top
            + "<div id=\"explore-body\"><div id=\"main\">"@
            + trail_legend
            + "<div id=\"mosaic-outer\">"@
            + viewport
            + "</div></div>"@
            + panel
            + "</div>"@
            + touch
            + keys
            + "</div>"@
    }
}

impl Web {
    /// What the keys act on: the tile, else the directory on screen.
    pub fn target(&self) -> (r: Vec<usize>)
        ensures
            r@ == self@.target(),
    {
        match self.action_target() {
            Some(crumbs) => crumbs,
            None => tree::copy_crumbs(self.crumbs.as_slice()),
        }
    }

    /// Whether what crumbs lead to is on the marked list.
    pub fn on_list(&self, crumbs: &[usize]) -> (r: bool)
        ensures
            r == self@.on_list(crumbs@),
    {
        match self.path_at(crumbs) {
            Some(path) => self.marks.contains(&path),
            None => false,
        }
    }

    /// The directory to ask git about, when the panel shows one.
    pub fn git_target(&self) -> (r: Option<OsPath>)
        ensures
            paths::opt_path(r) == self@.git_target(),
    {
        match self.action_target() {
            Some(crumbs) => if self.show_selection && self.leads_to_dir(crumbs.as_slice()) {
                self.path_at(crumbs.as_slice())
            } else {
                None
            },
            None => None,
        }
    }

    /// Whether crumbs lead to a directory.
    pub fn leads_to_dir(&self, crumbs: &[usize]) -> (r: bool)
        ensures
            r == self@.is_dir(crumbs@),
    {
        match self.node_at(crumbs) {
            Some(node) => node.dir,
            None => false,
        }
    }

    /// What the whole scan found so far: size, files, directories.
    pub fn totals(&self) -> (r: (u64, u64, u64))
        ensures
            r == self@.totals(),
    {
        match self.tree() {
            Some(node) => (node.bytes, node.files, node.dirs),
            None => (self.progress.bytes, self.progress.files, self.progress.dirs),
        }
    }
}

/// The actions the keys stand in for, as buttons, on touchscreens. Rendered
/// always, shown by the stylesheet only where there is no keyboard; each one
/// sends the key it replaces, so there is exactly one behaviour.
pub fn touch_bar(app: &Web) -> (r: String)
    ensures
        r@ == app@.touch_bar(),
{
    proof {
        reveal(State::touch_bar);
    }
    let target = app.target();
    let is_root = tree::same_crumbs(target.as_slice(), app.crumbs.as_slice());
    let up = render::key_ev("backspace");
    let space = render::key_ev("space");
    let fixed = render::word_when(is_root, "disabled");
    let mark = if app.on_list(target.as_slice()) {
        "Unmark"
    } else {
        "Mark"
    };
    let enter = render::key_ev("enter");
    let closed = render::word_when(!app.leads_to_dir(target.as_slice()) || is_root, "disabled");
    let slash = render::key_ev("/");
    let c = render::key_ev("c");
    let marks = app.marks.len();
    let review = if marks > 0 {
        "Review · "
    } else {
        "Review"
    };
    let count = if marks > 0 {
        "<b>".to_owned().concat(text::index_text(marks).as_str()).concat("</b>")
    } else {
        "".to_owned()
    };
    "<div id=\"touch-bar\"><button class=\"btn secondary\" ".to_owned()
        .concat(up.as_str())
        .concat(">⌫ Up</button><button class=\"btn highlight\" ")
        .concat(space.as_str())
        .concat(" ")
        .concat(fixed)
        .concat(">")
        .concat(mark)
        .concat("</button><button class=\"btn outline\" ")
        .concat(enter.as_str())
        .concat(" ")
        .concat(closed)
        .concat(">Open</button><button class=\"btn secondary\" ")
        .concat(slash.as_str())
        .concat(">Filter</button><button class=\"btn secondary\" id=\"sheet-toggle\">Details")
        .concat("</button><button class=\"btn secondary\" ")
        .concat(c.as_str())
        .concat(">")
        .concat(review)
        .concat(count.as_str())
        .concat("</button></div>")
}

fn above_crumb(app: &Web, label: &str, path: &OsPath) -> (r: String)
    ensures
        r@ == app@.above_crumb(label@, path@),
{
    let widening = app.scanning && !app.scan_root.same(&app.root_path);
    let pending = render::word_when(widening && app.scan_root.same(path), " pending");
    let event = render::ev(json::path_json("widen", codec::path_attr(path).as_str()).as_str());
    let name = render::esc(label);
    "<span class=\"crumb above".to_owned()
        .concat(pending)
        .concat("\" ")
        .concat(event.as_str())
        .concat(" title=\"Scan from here · what is below is reused\">")
        .concat(name.as_str())
        .concat("</span>")
}

/// A crumb in the tree. Its label goes there (the current one opens the menu
/// instead, being there already); its ▾ opens the sibling menu.
pub fn tree_crumb(app: &Web, label: &str, crumbs: &[usize], current: bool) -> (r: String)
    ensures
        r@ == app@.tree_crumb(label@, crumbs@, current),
{
    let name = render::esc(label);
    let here = render::word_when(current, " current");
    if crumbs.len() == 0 {
        // The scanned root: no siblings in the tree to offer.
        let event = render::ev(json::crumbs_json("goto", crumbs).as_str());
        assert(crumbs@ =~= Seq::<usize>::empty());
        return "<span class=\"crumb".to_owned()
            .concat(here)
            .concat("\" ")
            .concat(event.as_str())
            .concat(">")
            .concat(name.as_str())
            .concat("</span>");
    }
    let last: usize = crumbs.len() - 1;
    let parent = tree::first_crumbs(crumbs, last);
    assert(parent@ =~= crumbs@.drop_last());
    let open = match &app.crumb_menu {
        Some(menu) => menu.current == crumbs[last] && tree::same_crumbs(
            menu.parent.as_slice(),
            parent.as_slice(),
        ),
        None => false,
    };
    let lit = render::word_when(current || open, " lit");
    let menu = render::ev(json::crumbs_json("menu", crumbs).as_str());
    let event = if current {
        render::ev(json::crumbs_json("menu", crumbs).as_str())
    } else {
        render::ev(json::crumbs_json("goto", crumbs).as_str())
    };
    "<span class=\"crumb-group".to_owned()
        .concat(lit)
        .concat("\"><span class=\"crumb")
        .concat(here)
        .concat("\" ")
        .concat(event.as_str())
        .concat(">")
        .concat(name.as_str())
        .concat("</span><span class=\"crumb chevron\" title=\"siblings\" ")
        .concat(menu.as_str())
        .concat(">▾</span></span>")
}

/// The trail, from `/`. Above the scanned root, a crumb widens the scan; in
/// the tree, it goes there, and its ▾ lists its siblings to jump to. A deep
/// trail keeps its first two steps and its last four.
pub fn trail(app: &Web, words: &Words, palette: &Palette) -> (r: String)
    requires
        palette.full(),
    ensures
        r@ == app@.trail(*words, *palette),
{
    proof {
        reveal(State::trail);
    }
    let steps = app.breadcrumbs();
    let ghost all = app@.breadcrumbs();
    let mut row = "".to_owned();
    let mut index: usize = 0;
    while index < steps.len()
        invariant
            index <= steps@.len(),
            all == navigation::trail_of(steps@),
            row@ == app@.trail_steps(all, index as int),
        decreases steps@.len() - index,
    {
        assert(all[index as int] == (steps@[index as int].0@, steps@[index as int].1@));
        let hidden = steps.len() > TRAIL_STEPS && 2 <= index && index < steps.len() - (TRAIL_STEPS
            - 3);
        let piece = if hidden {
            if index == 2 {
                "<span class=\"sep\">/</span><span class=\"fold\">…</span>".to_owned()
            } else {
                "".to_owned()
            }
        } else {
            let step = match &steps[index].1 {
                Crumb::Above(path) => above_crumb(app, steps[index].0.as_str(), path),
                Crumb::Tree(crumbs) => tree_crumb(
                    app,
                    steps[index].0.as_str(),
                    crumbs.as_slice(),
                    index == steps.len() - 1,
                ),
            };
            // The root is its own separator: "/" then "home", not "/ / home".
            render::word_when(index > 1, "<span class=\"sep\">/</span>").to_owned().concat(step.as_str())
        };
        row.append(piece.as_str());
        index = index + 1;
    }
    let menu = crumb_menu_layer(app, words, palette);
    "<div id=\"trail\">".to_owned()
        .concat(row.as_str())
        .concat("</div>")
        .concat(menu.as_str())
}

fn menu_row(
    app: &Web,
    menu: &crate::app::CrumbMenu,
    row: &Sibling,
    position: usize,
    largest: u64,
    words: &Words,
    palette: &Palette,
    Ghost(node): Ghost<Node>,
) -> (r: String)
    requires
        palette.full(),
        app@.crumb_menu == crate::app::opt_menu(Some(*menu)),
        position < navigation::listed(node, app@.options.metric).len(),
        row.index == navigation::listed(node, app@.options.metric)[position as int],
        row.name@ == node.children@[row.index as int].name(),
        row.value == node.children@[row.index as int].measure(app@.options.metric),
        row.category == node.children@[row.index as int].category,
        largest == largest_of(
            Some(
                node.children@[navigation::listed(node, app@.options.metric)[0] as int].measure(
                    app@.options.metric,
                ),
            ),
        ),
    ensures
        r@ == app@.menu_row(node, position as int, *words, *palette),
{
    let measure = row.value;
    let current = render::word_when(row.index == menu.current, " current");
    let highlighted = render::word_when(position == menu.highlighted, " highlighted");
    let event = render::ev(json::sibling_json(menu.parent.as_slice(), row.index).as_str());
    let color = palette.accent_of(row.category);
    let name = render::esc(row.name.as_str());
    let width = words.width_text(measure, largest);
    let value = match app.options.metric {
        Metric::Bytes => words.size_text(measure).to_owned(),
        Metric::Files => words.count_text(measure).to_owned().concat(" files"),
    };
    "<div class=\"menu-row".to_owned()
        .concat(current)
        .concat(highlighted)
        .concat("\" ")
        .concat(event.as_str())
        .concat("><span class=\"dot\" style=\"background:")
        .concat(color)
        .concat("\"></span><span class=\"menu-name\">")
        .concat(name.as_str())
        .concat("</span><span class=\"bar\"><span style=\"width:")
        .concat(width)
        .concat("%;background:")
        .concat(color)
        .concat("\"></span></span><span class=\"menu-value\">")
        .concat(value.as_str())
        .concat("</span></div>")
}

fn menu_body(
    app: &Web,
    menu: &crate::app::CrumbMenu,
    words: &Words,
    palette: &Palette,
) -> (r: String)
    requires
        palette.full(),
        app@.crumb_menu == crate::app::opt_menu(Some(*menu)),
    ensures
        r@ == app@.menu_body(menu.parent@, *words, *palette),
{
    if app.node_at(menu.parent.as_slice()).is_none() {
        return "".to_owned();
    }
    let (rows, more) = app.siblings(menu.parent.as_slice());
    let largest = if rows.len() > 0 && rows[0].value > 1 {
        rows[0].value
    } else {
        1
    };
    let ghost holder = app@.node_at(menu.parent@);
    let mut body = "".to_owned();
    let mut at: usize = 0;
    while at < rows.len()
        invariant
            palette.full(),
            app@.crumb_menu == crate::app::opt_menu(Some(*menu)),
            at <= rows@.len(),
            holder is Some,
            holder == app@.node_at(menu.parent@),
            holder matches Some(node) ==> {
                let listed = navigation::listed(node, app@.options.metric);
                &&& listed.len() == rows@.len()
                &&& forall|i: int|
                    0 <= i < rows@.len() ==> {
                        let child = node.children@[listed[i] as int];
                        &&& (#[trigger] rows@[i]).index == listed[i]
                        &&& rows@[i].name@ == child.name()
                        &&& rows@[i].value == child.measure(app@.options.metric)
                        &&& rows@[i].category == child.category
                    }
                &&& body@ == app@.menu_rows(node, *words, *palette, at as int)
                &&& rows@.len() > 0 ==> largest == largest_of(Some(rows@[0].value))
            },
        decreases rows@.len() - at,
    {
        let ghost node = holder->0;
        assert(rows@[0].value == node.children@[navigation::listed(
            node,
            app@.options.metric,
        )[0] as int].measure(app@.options.metric));
        let line = menu_row(app, menu, &rows[at], at, largest, words, palette, Ghost(node));
        body.append(line.as_str());
        at = at + 1;
    }
    if more > 0 {
        let rest = "<div class=\"menu-more\">+".to_owned().concat(
            text::index_text(more).as_str(),
        ).concat(" more</div>");
        body.concat(rest.as_str())
    } else {
        body.concat("")
    }
}

/// The siblings of a crumb, largest first, with a share bar in each one's
/// colour and its size: a sideways jump without going up first.
pub fn crumb_menu_layer(app: &Web, words: &Words, palette: &Palette) -> (r: String)
    requires
        palette.full(),
    ensures
        r@ == app@.crumb_menu_layer(*words, *palette),
{
    proof {
        reveal(State::crumb_menu_layer);
    }
    let menu = match &app.crumb_menu {
        Some(menu) => menu,
        None => {
            return "".to_owned();
        },
    };
    let x = words.anchor.0.as_str();
    let y = words.anchor.1.as_str();
    let title = match app.node_at(menu.parent.as_slice()) {
        Some(node) => if menu.parent.len() == 0 {
            render::esc(words.place_text(&app.root_path))
        } else {
            render::esc(node.shown_name().as_str())
        },
        None => render::esc(""),
    };
    let body = menu_body(app, menu, words, palette);
    "<div id=\"crumb-menu\" style=\"left:".to_owned()
        .concat(x)
        .concat("px;top:")
        .concat(y)
        .concat("px\"><div class=\"menu-title\">")
        .concat(title.as_str())
        .concat("</div>")
        .concat(body.as_str())
        .concat("</div>")
}

/// A node's card as tooltip data attributes, matching what the mosaic's tiles
/// carry. `keys` says what can be done from there.
pub fn node_tip_data(app: &Web, crumbs: &[usize], keys: &str, words: &Words) -> (r: String)
    ensures
        r@ == app@.node_tip_data(crumbs@, keys@, *words),
{
    let node = match app.node_at(crumbs) {
        Some(node) => node,
        None => {
            return "".to_owned();
        },
    };
    let total = app.parent_bytes(crumbs);
    let name = render::esc(node.shown_name().as_str());
    let place = render::esc(app.place_at(crumbs, words).as_str());
    let size = render::esc(words.size_text(node.bytes));
    let holds = render::esc(mosaic::meta_text(node, words).as_str());
    let percent = words.percent_text(node.bytes, total);
    let bar = words.bar_text(node.bytes, total);
    let shortcut = render::esc(keys);
    let dir = render::word_when(node.dir, " data-dir=\"1\"");
    let hidden = render::word_when(mosaic::is_dotted(node.shown_name().as_str()), " data-hidden=\"1\"");
    " data-name=\"".to_owned()
        .concat(name.as_str())
        .concat("\" data-tip-path=\"")
        .concat(place.as_str())
        .concat("\" data-size=\"")
        .concat(size.as_str())
        .concat("\" data-meta=\"")
        .concat(holds.as_str())
        .concat("\" data-percent=\"")
        .concat(percent)
        .concat("\" data-bar=\"")
        .concat(bar)
        .concat("\" data-keys=\"")
        .concat(shortcut.as_str())
        .concat("\"")
        .concat(dir)
        .concat(hidden)
}

fn history_button(
    app: &Web,
    target: &Option<Vec<usize>>,
    name: &str,
    keys: &str,
    arrow: &str,
    label: &str,
    words: &Words,
) -> (r: String)
    ensures
        r@ == app@.history_button(
            tree::opt_crumbs(*target),
            name@,
            keys@,
            arrow@,
            label@,
            *words,
        ),
{
    let tip = match target {
        Some(crumbs) => node_tip_data(app, crumbs.as_slice(), keys, words),
        // Nowhere to go: the button is disabled; say what it is for.
        None => {
            let title = render::esc(name);
            let note = render::esc(keys);
            " data-name=\"".to_owned()
                .concat(title.as_str())
                .concat("\" data-note=\"")
                .concat(note.as_str())
                .concat("\"")
        },
    };
    let hint = match target {
        Some(crumbs) => match app.path_at(crumbs.as_slice()) {
            Some(path) => name.to_owned().concat(" to ").concat(words.place_text(&path)),
            None => "".to_owned(),
        },
        None => name.to_owned().concat(" — ").concat(keys),
    };
    let disabled = render::word_when(target.is_none(), "disabled");
    let title = render::esc(hint.as_str());
    let event = render::ev(json::alt_json(arrow).as_str());
    "<span class=\"has-tip\"".to_owned()
        .concat(tip.as_str())
        .concat("><button class=\"seg\" ")
        .concat(disabled)
        .concat(" title=\"")
        .concat(title.as_str())
        .concat("\" ")
        .concat(event.as_str())
        .concat(">")
        .concat(label)
        .concat("</button></span>")
}

/// What is measured, on the edge that owns it: back and forward through the
/// directories visited, the Size | Files | Age choice, the scan's Hidden and
/// Apparent switches, and the drawn depth.
pub fn view_settings(app: &Web, words: &Words) -> (r: String)
    ensures
        r@ == app@.view_settings(*words),
{
    proof {
        reveal(State::view_settings);
    }
    // `<` and `>` lead the controls: the directories visited, back and
    // forward, like the browser's own but inside the tree.
    let behind = app.history_target(true);
    let ahead = app.history_target(false);
    let back = history_button(app, &behind, "Back", "alt ← back", "left", "‹", words);
    let forward = history_button(
        app,
        &ahead,
        "Forward",
        "alt → forward",
        "right",
        "›",
        words,
    );
    let mode = app.mode_index();
    let size = mode_button_text(0, mode, "Size");
    let files = mode_button_text(1, mode, "Files");
    let age = mode_button_text(2, mode, "Age");
    let hidden = render::word_when(app.options.include_hidden, " on");
    let i = render::key_ev("i");
    let apparent = render::word_when(app.options.apparent_size, " on");
    let d = render::key_ev("d");
    let depth = text::decimal_text(app.depth as u64);
    let least = render::word_when(app.depth <= 1, "disabled");
    let fewer = render::key_ev("[");
    let most = render::word_when(app.depth >= 6, "disabled");
    let more = render::key_ev("]");
    "<div id=\"settings\"><span class=\"group\">".to_owned()
        .concat(back.as_str())
        .concat(forward.as_str())
        .concat("</span><span class=\"group\">")
        .concat(size.as_str())
        .concat(files.as_str())
        .concat(age.as_str())
        .concat("</span><button class=\"check")
        .concat(hidden)
        .concat("\" ")
        .concat(i.as_str())
        .concat(" title=\"include dotfiles (i)\"><span class=\"box\"></span>Hidden files</button>")
        .concat("<button class=\"check")
        .concat(apparent)
        .concat("\" ")
        .concat(d.as_str())
        .concat(" title=\"apparent length, not allocated blocks (d)\"><span class=\"box\">")
        .concat("</span>Apparent size</button><span class=\"group\" title=\"Levels drawn at once")
        .concat(" · [ and ]\"><span class=\"depth-label\">Depth ")
        .concat(depth.as_str())
        .concat("</span><button class=\"seg\" ")
        .concat(least)
        .concat(" ")
        .concat(fewer.as_str())
        .concat(">−</button><button class=\"seg\" ")
        .concat(most)
        .concat(" ")
        .concat(more.as_str())
        .concat(">+</button></span></div>")
}

/// The app, the trail, and the controls that decide what is measured, on the
/// edge they own.
pub fn top_bar(app: &Web, words: &Words, palette: &Palette) -> (r: String)
    requires
        palette.full(),
    ensures
        r@ == app@.top_bar(*words, *palette),
{
    proof {
        reveal(State::top_bar);
    }
    let logo = logo(palette);
    let trail = trail(app, words, palette);
    let settings = view_settings(app, words);
    "<div id=\"top-bar\">".to_owned()
        .concat(logo.as_str())
        .concat(trail.as_str())
        .concat("<div class=\"flex-1\"></div>")
        .concat(settings.as_str())
        .concat("</div>")
}

/// What the whole scan found, as one quiet line; unreadable paths are flagged
/// in the warning colour when there are any.
pub fn scan_totals(app: &Web, words: &Words) -> (r: String)
    ensures
        r@ == app@.scan_totals(*words),
{
    proof {
        reveal(State::scan_totals);
    }
    let (total, many, held) = app.totals();
    let bytes = words.size_text(total);
    let files = words.count_text(many);
    let dirs = words.count_text(held);
    let errors = if app.progress.errors > 0 {
        " <span class=\"warn\">· ".to_owned().concat(
            words.count_text(app.progress.errors),
        ).concat(" unreadable</span>")
    } else {
        "".to_owned()
    };
    "<span id=\"totals\"><b>".to_owned()
        .concat(bytes)
        .concat("</b> · ")
        .concat(files)
        .concat(" files · ")
        .concat(dirs)
        .concat(" dirs")
        .concat(errors.as_str())
        .concat("</span>")
}

/// The key to the colours: the categories, or the age ramp in age mode.
pub fn legend(app: &Web, words: &Words, palette: &Palette) -> (r: String)
    requires
        palette.full(),
    ensures
        r@ == app@.legend(*words, *palette),
{
    proof {
        reveal(State::legend);
    }
    let ground = palette.fill_of(false, None, Category::Other, 0, crate::app::Filtered::Shown);
    let hatched = "<span class=\"swatch hatch-swatch\" style=\"background-color:".to_owned().concat(
        ground,
    ).concat("\"></span>");
    let reclaimable = legend_entry(hatched, "Reclaimable");
    let mut lane = "".to_owned();
    let mut at: usize = 0;
    if app.color_mode == ColorMode::Age {
        while at < palette::AGES
            invariant
                palette.full(),
                at <= palette::AGES,
                lane@ == age_rows(*palette, at as int),
            decreases palette::AGES - at,
        {
            lane.append(
                legend_entry(
                    swatch_of(palette.age_accents[at].as_str()),
                    palette::age_label(at),
                ).as_str(),
            );
            at = at + 1;
        }
    } else {
        while at < words.legend.len()
            invariant
                palette.full(),
                at <= words.legend@.len(),
                lane@ == legend_rows(words.legend@, *palette, at as int),
            decreases words.legend@.len() - at,
        {
            lane.append(
                legend_entry(
                    swatch_of(palette.accent_of(words.legend[at].category)),
                    words.legend[at].label.as_str(),
                ).as_str(),
            );
            at = at + 1;
        }
    }
    "<span id=\"legend\">".to_owned()
        .concat(reclaimable.as_str())
        .concat(lane.as_str())
        .concat("</span>")
}

/// The find field: what the text matches, said beside it as it is typed, and
/// what Enter and Escape will do with it.
pub fn find_field(app: &Web, words: &Words) -> (r: String)
    ensures
        r@ == app@.find_field(*words),
{
    proof {
        reveal(State::find_field);
    }
    let border = if app.find_open {
        "open"
    } else if app.filter_applied {
        "applied"
    } else {
        ""
    };
    let typed = render::esc(app.find.as_str());
    let tone = if app.filter_applied {
        " hl"
    } else {
        " dim"
    };
    let (summary, hint) = match &app.matches {
        None => ("".to_owned(), "type to filter"),
        Some(matches) => if matches.count == 0 {
            ("no matches".to_owned(), "esc clears")
        } else {
            (
                words.count_text(matches.count as u64).to_owned().concat(
                    if matches.count == 1 {
                        " match · "
                    } else {
                        " matches · "
                    },
                ).concat(words.size_text(matches.bytes)),
                if app.filter_applied {
                    "esc clears"
                } else {
                    "enter shows only these"
                },
            )
        },
    };
    "<span id=\"find\" class=\"".to_owned()
        .concat(border)
        .concat("\"><span class=\"dim\">/</span><input id=\"find-input\" value=\"")
        .concat(typed.as_str())
        .concat("\" placeholder=\"Filter by name\" autocomplete=\"off\" spellcheck=\"false\"/><span")
        .concat(" class=\"caption")
        .concat(tone)
        .concat("\">")
        .concat(summary.as_str())
        .concat("</span><span class=\"caption dim\">")
        .concat(hint)
        .concat("</span></span>")
}

/// The scan totals, the find field while it matters, and the colour key.
pub fn trail_and_legend(app: &Web, words: &Words, palette: &Palette) -> (r: String)
    requires
        palette.full(),
    ensures
        r@ == app@.trail_and_legend(*words, *palette),
{
    proof {
        reveal(State::trail_and_legend);
    }
    let totals = scan_totals(app, words);
    let find = if app.find_open || !text::is_empty(app.find.as_str()) {
        find_field(app, words)
    } else {
        "".to_owned()
    };
    let legend = legend(app, words, palette);
    "<div id=\"totals-row\">".to_owned()
        .concat(totals.as_str())
        .concat(find.as_str())
        .concat("<div class=\"flex-1\"></div>")
        .concat(legend.as_str())
        .concat("</div>")
}

fn scan_line(app: &Web, words: &Words) -> (r: String)
    ensures
        r@ == app@.scan_line(*words),
{
    let files = words.count_text(app.progress.files);
    if app.scanning {
        "scanning · ".to_owned().concat(files).concat(" entries · ").concat(
            words.size_text(app.progress.bytes),
        )
    } else {
        let elapsed = match &app.scan_elapsed {
            Some(time) => " · ".to_owned().concat(time.as_str()).concat(" s"),
            None => "".to_owned(),
        };
        "scan ".to_owned().concat(files).concat(" entries").concat(elapsed.as_str())
    }
}

/// The keys, quietly: outlines and light labels, there when needed. The
/// magnification is always emitted, empty at 1×, so answers that carry only a
/// mosaic can update it in place without touching the bar around it.
pub fn key_bar(app: &Web, words: &Words) -> (r: String)
    ensures
        r@ == app@.key_bar(*words),
{
    proof {
        reveal(State::key_bar);
    }
    let lane = hints_text();
    let zoom = match &words.zoom {
        Some(zoom) => zoom.as_str(),
        None => "",
    };
    let question = render::key_ev("?");
    let scan = scan_line(app, words);
    "<div id=\"key-bar\"><div class=\"hints\">".to_owned()
        .concat(lane.as_str())
        .concat("</div><span id=\"zoom-level\" class=\"caption dim\">")
        .concat(zoom)
        .concat("</span><span class=\"hint\" ")
        .concat(question.as_str())
        .concat("><span class=\"keycap\">?</span> all keys</span><span class=\"caption faint\">")
        .concat(scan.as_str())
        .concat("</span></div>")
}

/// What the viewport shows while the first scan is running.
pub fn scanning_panel(app: &Web, words: &Words) -> (r: String)
    ensures
        r@ == app@.scanning_panel(*words),
{
    proof {
        reveal(State::scanning_panel);
    }
    let progress = &app.progress;
    let place = render::esc(words.place_text(&app.root_path));
    let files = stat("files", words.count_text(progress.files), "");
    let dirs = stat("directories", words.count_text(progress.dirs), "");
    let measured = stat("measured", words.size_text(progress.bytes), "");
    let errors = stat(
        "unreadable",
        words.count_text(progress.errors),
        if progress.errors > 0 {
            "warn"
        } else {
            "dim"
        },
    );
    let estimate = words.estimate.as_str();
    let failure = match &app.scan_error {
        Some(error) => "<div class=\"notice danger\">".to_owned().concat(
            render::esc(error.as_str()).as_str(),
        ).concat("</div>"),
        None => "".to_owned(),
    };
    "<div id=\"scanning\"><div class=\"title\">Reading ".to_owned()
        .concat(place.as_str())
        .concat("</div><div class=\"stats\">")
        .concat(files.as_str())
        .concat(dirs.as_str())
        .concat(measured.as_str())
        .concat(errors.as_str())
        .concat("</div><div class=\"meter wide\"><span class=\"used accent\" style=\"width:")
        .concat(estimate)
        .concat("%\"></span></div><div class=\"dim\">Marking, zooming and the free-space meter")
        .concat(" all work as soon as it lands.</div>")
        .concat(failure.as_str())
        .concat("</div>")
}

/// The explore screen.
pub fn explore(
    app: &Web,
    canvas: &mosaic::Canvas,
    plan: &marks::Plan,
    now: i64,
    words: &Words,
    palette: &Palette,
) -> (r: String)
    requires
        palette.full(),
        app@.show_selection ==> app@.worth_total() <= u64::MAX,
        app@.laid_out(*canvas),
    ensures
        r@ == app@.explore(*canvas, *plan, now, *words, *palette),
{
    proof {
        reveal(State::explore);
    }
    let top = top_bar(app, words, palette);
    let trail_legend = trail_and_legend(app, words, palette);
    let viewport = if app.tree.is_none() {
        scanning_panel(app, words)
    } else {
        // The tooltip is the browser's own, built from the tiles' data
        // attributes: hover never crosses the wire.
        "<div id=\"mosaic-wrap\">".to_owned().concat(
            app.mosaic(canvas, words, palette).as_str(),
        ).concat("</div>")
    };
    let panel = if app.show_selection {
        panel::side_panel(app, plan, now, words, palette)
    } else {
        "".to_owned()
    };
    let touch = touch_bar(app);
    let keys = key_bar(app, words);
    "<div class=\"screen\">".to_owned()
        .concat(top.as_str())
        .concat("<div id=\"explore-body\"><div id=\"main\">")
        .concat(trail_legend.as_str())
        .concat("<div id=\"mosaic-outer\">")
        .concat(viewport.as_str())
        .concat("</div></div>")
        .concat(panel.as_str())
        .concat("</div>")
        .concat(touch.as_str())
        .concat(keys.as_str())
        .concat("</div>")
}

} // verus!
