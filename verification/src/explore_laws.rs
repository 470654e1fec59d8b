//! What the explore screen says and offers, and of what.

use crate::app::{ColorMode, Place, State};
use crate::codec;
use crate::explore::{
    age_rows, hint, hints, largest_of, legend_item, legend_rows, mode_button, stat_markup, swatch,
};
use crate::json;
use crate::marks;
use crate::marks::Plan;
use crate::mosaic;
use crate::mosaic::Canvas;
use crate::navigation;
use crate::palette;
use crate::palette::Palette;
use crate::paths;
use crate::pictures::{
    lemma_shows, lemma_tail, lemma_tail_of_five, lemma_tail_of_four, lemma_tail_of_seven,
    lemma_tail_of_six, lemma_tail_of_three, shows,
};
use crate::render;
use crate::text;
use crate::tree;
use crate::tree::{Metric, Node};
use crate::words;
use crate::words::{LegendRow, Words};
use vstd::prelude::*;

verus! {

/// A figure shows its value over its label, and a hint its key.
pub proof fn a_figure_shows_its_label(label: Seq<char>, value: Seq<char>, class: Seq<char>)
    ensures
        shows(
            stat_markup(label, value, class),
            class + "\"><span class=\"stat-value\">"@ + value
                + "</span><span class=\"caption dim\">"@ + label,
        ),
        shows(hint(label, value), label + "</span> "@ + value),
        shows(legend_item(value, label), value + "<span class=\"dim\">"@ + label),
{
    lemma_shows();
    let a = "<span class=\"stat "@;
    let told = class + "\"><span class=\"stat-value\">"@ + value
        + "</span><span class=\"caption dim\">"@ + label;
    assert(a + class + "\"><span class=\"stat-value\">"@ + value
        + "</span><span class=\"caption dim\">"@ + label =~= a + told);
    assert(shows(a + told, told));
    let b = "<span class=\"hint\"><span class=\"keycap\">"@;
    assert(b + label + "</span> "@ + value =~= b + (label + "</span> "@ + value));
    assert(shows(b + (label + "</span> "@ + value), label + "</span> "@ + value));
    let c = "<span class=\"legend-item\">"@;
    let item = value + "<span class=\"dim\">"@ + label;
    assert(c + value + "<span class=\"dim\">"@ + label =~= c + item);
    assert(shows(c + item, item));
}

/// The mode in force is lit, and each button asks for its own.
pub proof fn the_mode_in_force_is_lit(index: usize, mode: usize, label: Seq<char>)
    ensures
        index == mode ==> shows(
            mode_button(index, mode, label),
            "<button class=\"seg"@ + " on"@ + "\" "@ + render::ev_attr(json::mode_event(index))
                + ">"@ + label,
        ),
        index != mode ==> shows(
            mode_button(index, mode, label),
            "<button class=\"seg"@ + ""@ + "\" "@ + render::ev_attr(json::mode_event(index)) + ">"@
                + label,
        ),
{
    lemma_shows();
}

/// What the page acts on is what the keys act on, else what is on screen.
/// What the page acts on is what the keys act on, else what is on screen.
pub proof fn the_page_acts_on_what_the_keys_do(s: State)
    ensures
        s.action_target() is Some ==> Some(s.target()) == s.action_target(),
        s.action_target() is None ==> s.target() == s.crumbs,
{
}

/// Git is asked about the directory that the panel shows, and nothing else.
pub proof fn git_is_asked_about_what_is_shown(s: State, crumbs: Seq<usize>, node: Node)
    ensures
        s.action_target() == Some(crumbs) && s.show_selection && s.node_at(crumbs) == Some(node)
            && node.dir ==> s.git_target() == s.path_at(crumbs),
        s.action_target() is None || !s.show_selection ==> s.git_target() is None,
        s.action_target() == Some(crumbs) && s.node_at(crumbs) == Some(node) && !node.dir
            ==> s.git_target() is None,
{
}

/// The touch bar offers to mark what is not marked and unmark what is; the
/// directory on screen can be neither marked nor opened, and only a directory
/// can be opened.
pub proof fn the_touch_bar_offers_what_can_be_done(s: State, path: Seq<u8>, node: Node)
    requires
        s.path_at(s.target()) == Some(path),
        s.node_at(s.target()) == Some(node),
    ensures
        ({
            let page = s.touch_bar();
            let here = s.target() == s.crumbs;
            let listed = marks::marked(s.marks, path);
            let opening = "</button><button class=\"btn outline\" "@;
            &&& here && listed ==> shows(
                page,
                render::key_attr("space"@) + " "@ + "disabled"@ + ">"@ + "Unmark"@,
            )
            &&& here && !listed ==> shows(
                page,
                render::key_attr("space"@) + " "@ + "disabled"@ + ">"@ + "Mark"@ + opening,
            )
            &&& !here && listed ==> shows(
                page,
                render::key_attr("space"@) + " "@ + ""@ + ">"@ + "Unmark"@,
            )
            &&& !here && !listed ==> shows(
                page,
                render::key_attr("space"@) + " "@ + ""@ + ">"@ + "Mark"@ + opening,
            )
            &&& here || !node.dir ==> shows(
                page,
                render::key_attr("enter"@) + " "@ + "disabled"@
                    + ">Open</button><button class=\"btn secondary\" "@,
            )
            &&& !here && node.dir ==> shows(
                page,
                render::key_attr("enter"@) + " "@ + ""@
                    + ">Open</button><button class=\"btn secondary\" "@,
            )
            &&& s.marks.len() > 0 ==> shows(
                page,
                render::key_attr("c"@) + ">"@ + "Review · "@ + ("<b>"@ + text::decimal(s.marks.len())
                    + "</b>"@),
            )
            &&& s.marks.len() == 0 ==> shows(
                page,
                render::key_attr("c"@) + ">"@ + "Review"@ + ""@ + "</button></div>"@,
            )
            &&& shows(page, render::key_attr("backspace"@) + ">⌫ Up</button><button class=\"btn highlight\" "@)
            &&& shows(
                page,
                render::key_attr("/"@) + ">Filter</button><button class=\"btn secondary\" id=\"sheet-toggle\">Details"@,
            )
        }),
{
    reveal(State::touch_bar);
    lemma_shows();
    let target = s.target();
    let is_root = target == s.crumbs;
    let up = render::key_attr("backspace"@);
    let space = render::key_attr("space"@);
    let fixed = render::when(is_root, "disabled"@);
    let mark = if s.on_list(target) {
        "Unmark"@
    } else {
        "Mark"@
    };
    let enter = render::key_attr("enter"@);
    let closed = render::when(!s.is_dir(target) || is_root, "disabled"@);
    let slash = render::key_attr("/"@);
    let c = render::key_attr("c"@);
    let review = if s.marks.len() > 0 {
        "Review · "@
    } else {
        "Review"@
    };
    let count = if s.marks.len() > 0 {
        "<b>"@ + text::decimal(s.marks.len()) + "</b>"@
    } else {
        ""@
    };
    lemma_tail_of_five(
        "<div id=\"touch-bar\"><button class=\"btn secondary\" "@ + up
            + ">⌫ Up</button><button class=\"btn highlight\" "@,
        space,
        " "@,
        fixed,
        ">"@,
        mark,
    );
    lemma_tail_of_six(
        "<div id=\"touch-bar\"><button class=\"btn secondary\" "@ + up
            + ">⌫ Up</button><button class=\"btn highlight\" "@,
        space,
        " "@,
        fixed,
        ">"@,
        mark,
        "</button><button class=\"btn outline\" "@,
    );
    lemma_tail_of_four(
        "<div id=\"touch-bar\"><button class=\"btn secondary\" "@ + up
            + ">⌫ Up</button><button class=\"btn highlight\" "@ + space + " "@ + fixed + ">"@
            + mark + "</button><button class=\"btn outline\" "@,
        enter,
        " "@,
        closed,
        ">Open</button><button class=\"btn secondary\" "@,
    );
    lemma_tail_of_four(
        "<div id=\"touch-bar\"><button class=\"btn secondary\" "@ + up
            + ">⌫ Up</button><button class=\"btn highlight\" "@ + space + " "@ + fixed + ">"@
            + mark + "</button><button class=\"btn outline\" "@ + enter + " "@ + closed
            + ">Open</button><button class=\"btn secondary\" "@ + slash
            + ">Filter</button><button class=\"btn secondary\" id=\"sheet-toggle\">Details"@
            + "</button><button class=\"btn secondary\" "@,
        c,
        ">"@,
        review,
        count,
    );
    lemma_tail_of_five(
        "<div id=\"touch-bar\"><button class=\"btn secondary\" "@ + up
            + ">⌫ Up</button><button class=\"btn highlight\" "@ + space + " "@ + fixed + ">"@
            + mark + "</button><button class=\"btn outline\" "@ + enter + " "@ + closed
            + ">Open</button><button class=\"btn secondary\" "@ + slash
            + ">Filter</button><button class=\"btn secondary\" id=\"sheet-toggle\">Details"@
            + "</button><button class=\"btn secondary\" "@,
        c,
        ">"@,
        review,
        count,
        "</button></div>"@,
    );
    lemma_tail(
        "<div id=\"touch-bar\"><button class=\"btn secondary\" "@,
        up,
        ">⌫ Up</button><button class=\"btn highlight\" "@,
    );
    lemma_tail(
        "<div id=\"touch-bar\"><button class=\"btn secondary\" "@ + up
            + ">⌫ Up</button><button class=\"btn highlight\" "@ + space + " "@ + fixed + ">"@
            + mark + "</button><button class=\"btn outline\" "@ + enter + " "@ + closed
            + ">Open</button><button class=\"btn secondary\" "@,
        slash,
        ">Filter</button><button class=\"btn secondary\" id=\"sheet-toggle\">Details"@,
    );
}

/// A step above the tree widens the scan to its directory, and says so while
/// that scan is on its way.
pub proof fn a_step_above_widens_the_scan(s: State, label: Seq<char>, path: Seq<u8>)
    ensures
        ({
            let page = s.above_crumb(label, path);
            let event = render::ev_attr(json::path_event("widen"@, codec::encoded(path)));
            let pending = s.scanning && paths::components(s.scan_root) != paths::components(
                s.root_path,
            ) && paths::components(s.scan_root) == paths::components(path);
            &&& pending ==> shows(page, "<span class=\"crumb above"@ + " pending"@ + "\" "@ + event)
            &&& !pending ==> shows(page, "<span class=\"crumb above"@ + ""@ + "\" "@ + event)
            &&& shows(page, render::escaped(label))
        }),
{
    lemma_shows();
}

/// A step of the trail leads to its directory; the one on screen, which is lit,
/// opens its siblings instead, as every chevron does.
pub proof fn a_step_leads_to_its_directory(
    s: State,
    label: Seq<char>,
    crumbs: Seq<usize>,
    current: bool,
)
    requires
        crumbs.len() > 0,
    ensures
        ({
            let page = s.tree_crumb(label, crumbs, current);
            let menu = render::ev_attr(json::crumbs_event("menu"@, crumbs));
            let goto = render::ev_attr(json::crumbs_event("goto"@, crumbs));
            let open = s.crumb_menu is Some && s.crumb_menu->0.parent == crumbs.drop_last()
                && s.crumb_menu->0.current == crumbs.last();
            &&& current || open ==> shows(
                page,
                "<span class=\"crumb-group"@ + " lit"@ + "\"><span class=\"crumb"@,
            )
            &&& !current && !open ==> shows(
                page,
                "<span class=\"crumb-group"@ + ""@ + "\"><span class=\"crumb"@,
            )
            &&& current ==> shows(
                page,
                "\"><span class=\"crumb"@ + " current"@ + "\" "@ + menu + ">"@ + render::escaped(
                    label,
                ),
            )
            &&& !current ==> shows(
                page,
                "\"><span class=\"crumb"@ + ""@ + "\" "@ + goto + ">"@ + render::escaped(label),
            )
            &&& shows(
                page,
                "</span><span class=\"crumb chevron\" title=\"siblings\" "@ + menu,
            )
        }),
{
    let name = render::escaped(label);
    let here = render::when(current, " current"@);
    lemma_shows();
    let open = s.crumb_menu matches Some(menu) && menu.parent == crumbs.drop_last()
        && menu.current == crumbs.last();
    let lit = render::when(current || open, " lit"@);
    let menu = render::ev_attr(json::crumbs_event("menu"@, crumbs));
    let event = if current {
        menu
    } else {
        render::ev_attr(json::crumbs_event("goto"@, crumbs))
    };
    lemma_tail_of_six(
        "<span class=\"crumb-group"@ + lit,
        "\"><span class=\"crumb"@,
        here,
        "\" "@,
        event,
        ">"@,
        name,
    );
    lemma_tail(
        "<span class=\"crumb-group"@ + lit + "\"><span class=\"crumb"@ + here + "\" "@ + event
            + ">"@ + name,
        "</span><span class=\"crumb chevron\" title=\"siblings\" "@,
        menu,
    );
}

/// The root's step leads to the root.
pub proof fn the_first_step_leads_to_the_root(s: State, label: Seq<char>, current: bool)
    ensures
        shows(
            s.tree_crumb(label, Seq::empty(), current),
            render::ev_attr(json::crumbs_event("goto"@, Seq::empty())) + ">"@ + render::escaped(
                label,
            ),
        ),
{
    lemma_shows();
    let here = render::when(current, " current"@);
    let event = render::ev_attr(json::crumbs_event("goto"@, Seq::empty()));
    let name = render::escaped(label);
    let head = "<span class=\"crumb"@ + here + "\" "@;
    assert(head + event + ">"@ + name =~= head + (event + ">"@ + name));
    assert(shows(head + (event + ">"@ + name), event + ">"@ + name));
}

/// A trail of up to seven steps is shown whole; a longer one shows the first
/// two and the last four, with one ellipsis between them.
pub proof fn a_long_trail_is_folded(s: State, steps: Seq<(Seq<char>, Place)>, i: int)
    requires
        0 <= i < steps.len(),
    ensures
        ({
            let many = steps.len();
            let step = s.trail_step(steps, i);
            let shown = many <= 7 || i < 2 || i >= many - 4;
            &&& !shown && i == 2 ==> step
                == "<span class=\"sep\">/</span><span class=\"fold\">…</span>"@
            &&& !shown && i != 2 ==> step == ""@
            &&& shown && steps[i].1 is Above ==> shows(
                step,
                s.above_crumb(steps[i].0, steps[i].1->Above_0),
            )
            &&& shown && steps[i].1 is Tree ==> shows(
                step,
                s.tree_crumb(steps[i].0, steps[i].1->Tree_0, i == many - 1),
            )
            &&& shown && i > 1 ==> shows(step, "<span class=\"sep\">/</span>"@)
        }),
{
    lemma_shows();
}

proof fn lemma_step_shown(s: State, steps: Seq<(Seq<char>, Place)>, count: int, i: int)
    requires
        0 <= i < count,
    ensures
        shows(s.trail_steps(steps, count), s.trail_step(steps, i)),
    decreases count,
{
    lemma_shows();
    if i < count - 1 {
        lemma_step_shown(s, steps, count - 1, i);
    }
}

/// The trail has every step, and the menu while it is open.
pub proof fn the_trail_has_its_steps(s: State, words: Words, palette: Palette, i: int)
    ensures
        ({
            let page = s.trail(words, palette);
            &&& 0 <= i < s.breadcrumbs().len() ==> shows(page, s.trail_step(s.breadcrumbs(), i))
            &&& shows(page, s.crumb_menu_layer(words, palette))
        }),
{
    reveal(State::trail);
    lemma_shows();
    if 0 <= i < s.breadcrumbs().len() {
        lemma_step_shown(s, s.breadcrumbs(), s.breadcrumbs().len() as int, i);
    }
}

/// A bar is measured against the largest, and never against nothing.
pub proof fn a_bar_is_measured_against_the_largest(largest: u64)
    ensures
        largest > 0 ==> largest_of(Some(largest)) == largest,
        largest_of(Some(0)) == 1,
        largest_of(None) == 1,
{
}

/// A row of the menu leads to its own child, shows that child's measure, and is
/// lit where it is on screen or under the keys.
pub proof fn a_menu_row_leads_to_its_child(
    s: State,
    node: Node,
    position: int,
    words: Words,
    palette: Palette,
)
    requires
        s.crumb_menu is Some,
        0 <= position < navigation::listed(node, s.options.metric).len(),
    ensures
        ({
            let page = s.menu_row(node, position, words, palette);
            let menu = s.crumb_menu->0;
            let rows = navigation::listed(node, s.options.metric);
            let child = node.children@[rows[position] as int];
            let event = render::ev_attr(json::sibling_event(menu.parent, rows[position]));
            let current = rows[position] == menu.current;
            let lit = position == menu.highlighted;
            &&& current && lit ==> shows(
                page,
                "<div class=\"menu-row"@ + " current"@ + " highlighted"@ + "\" "@ + event,
            )
            &&& current && !lit ==> shows(
                page,
                "<div class=\"menu-row"@ + " current"@ + ""@ + "\" "@ + event,
            )
            &&& !current && lit ==> shows(
                page,
                "<div class=\"menu-row"@ + ""@ + " highlighted"@ + "\" "@ + event,
            )
            &&& !current && !lit ==> shows(
                page,
                "<div class=\"menu-row"@ + ""@ + ""@ + "\" "@ + event,
            )
            &&& shows(page, render::escaped(child.name()))
            &&& shows(page, palette.accents@[child.category.place()]@)
            &&& s.options.metric == Metric::Bytes ==> shows(
                page,
                words::worded(words.bytes@, child.bytes) + "</span></div>"@,
            )
            &&& s.options.metric == Metric::Files ==> shows(
                page,
                (words::worded(words.counts@, child.files) + " files"@) + "</span></div>"@,
            )
            &&& node.children@[rows[0] as int].measure(s.options.metric) > 0 ==> shows(
                page,
                words.width(
                    child.measure(s.options.metric),
                    node.children@[rows[0] as int].measure(s.options.metric),
                ) + "%;background:"@,
            )
        }),
{
    lemma_shows();
    let menu = s.crumb_menu->0;
    let rows = navigation::listed(node, s.options.metric);
    let child = node.children@[rows[position] as int];
    let largest = largest_of(
        Some(node.children@[rows[0] as int].measure(s.options.metric)),
    );
    let measure = child.measure(s.options.metric);
    let current = render::when(rows[position] == menu.current, " current"@);
    let highlighted = render::when(position == menu.highlighted, " highlighted"@);
    let event = render::ev_attr(json::sibling_event(menu.parent, rows[position]));
    let color = palette.accent(child.category);
    let name = render::escaped(child.name());
    let width = words.width(measure, largest);
    let value = s.menu_value(measure, words);
    lemma_tail(
        "<div class=\"menu-row"@ + current + highlighted + "\" "@ + event
            + "><span class=\"dot\" style=\"background:"@ + color
            + "\"></span><span class=\"menu-name\">"@ + name
            + "</span><span class=\"bar\"><span style=\"width:"@ + width + "%;background:"@
            + color + "\"></span></span><span class=\"menu-value\">"@,
        value,
        "</span></div>"@,
    );
    lemma_tail(
        "<div class=\"menu-row"@ + current + highlighted + "\" "@ + event
            + "><span class=\"dot\" style=\"background:"@ + color
            + "\"></span><span class=\"menu-name\">"@ + name
            + "</span><span class=\"bar\"><span style=\"width:"@,
        width,
        "%;background:"@,
    );
}

proof fn lemma_menu_shown(
    s: State,
    node: Node,
    words: Words,
    palette: Palette,
    count: int,
    i: int,
)
    requires
        0 <= i < count,
    ensures
        shows(s.menu_rows(node, words, palette, count), s.menu_row(node, i, words, palette)),
    decreases count,
{
    lemma_shows();
    if i < count - 1 {
        lemma_menu_shown(s, node, words, palette, count - 1, i);
    }
}

/// An open menu has a row for every child it ranks, under the directory's own
/// name, and says how many children it leaves out.
pub proof fn an_open_menu_has_every_row(
    s: State,
    words: Words,
    palette: Palette,
    node: Node,
    i: int,
)
    requires
        s.crumb_menu is Some,
        s.node_at(s.crumb_menu->0.parent) == Some(node),
    ensures
        ({
            let page = s.crumb_menu_layer(words, palette);
            let parent = s.crumb_menu->0.parent;
            let rows = navigation::listed(node, s.options.metric);
            let left = node.children@.len() - rows.len();
            &&& 0 <= i < rows.len() ==> shows(page, s.menu_row(node, i, words, palette))
            &&& left > 0 ==> shows(
                page,
                "<div class=\"menu-more\">+"@ + text::decimal(left as nat) + " more</div>"@,
            )
            &&& parent.len() > 0 ==> shows(page, render::escaped(node.name()))
            &&& parent.len() == 0 ==> shows(
                page,
                render::escaped(words::path_worded(words.paths@, s.root_path)),
            )
        }),
{
    reveal(State::crumb_menu_layer);
    lemma_shows();
    let rows = navigation::listed(node, s.options.metric);
    if 0 <= i < rows.len() {
        lemma_menu_shown(s, node, words, palette, rows.len() as int, i);
    }
}

/// A closed menu is not there.
pub proof fn a_closed_menu_is_not_there(s: State, words: Words, palette: Palette)
    requires
        s.crumb_menu is None,
    ensures
        s.crumb_menu_layer(words, palette) == ""@,
{
    reveal(State::crumb_menu_layer);
}

/// The tooltip of a step through the history is of where it leads.
pub proof fn a_history_tip_tells_where_it_leads(
    s: State,
    crumbs: Seq<usize>,
    keys: Seq<char>,
    words: Words,
    node: Node,
    above: Node,
)
    requires
        s.node_at(crumbs) == Some(node),
        s.node_at(tree::parent_of(crumbs)) == Some(above),
    ensures
        ({
            let tip = s.node_tip_data(crumbs, keys, words);
            &&& shows(tip, " data-name=\""@ + render::escaped(node.name()))
            &&& shows(
                tip,
                "\" data-size=\""@ + render::escaped(words::worded(words.bytes@, node.bytes))
                    + "\" data-meta=\""@ + render::escaped(mosaic::meta(node, words))
                    + "\" data-percent=\""@ + words.percent(node.bytes, above.bytes)
                    + "\" data-bar=\""@ + words.bar(node.bytes, above.bytes) + "\" data-keys=\""@
                    + render::escaped(keys),
            )
            &&& node.dir ==> shows(tip, " data-dir=\"1\""@)
        }),
{
    lemma_shows();
    let total = s.parent_bytes(crumbs);
    let name = render::escaped(node.name());
    let place = render::escaped(s.place_at(crumbs, words));
    let size = render::escaped(words.size(node.bytes));
    let holds = render::escaped(mosaic::meta(node, words));
    let percent = words.percent(node.bytes, total);
    let bar = words.bar(node.bytes, total);
    let shortcut = render::escaped(keys);
    let head = " data-name=\""@ + name + "\" data-tip-path=\""@ + place;
    let told = "\" data-size=\""@ + size + "\" data-meta=\""@ + holds + "\" data-percent=\""@
        + percent + "\" data-bar=\""@ + bar + "\" data-keys=\""@ + shortcut;
    assert(head + "\" data-size=\""@ + size + "\" data-meta=\""@ + holds + "\" data-percent=\""@
        + percent + "\" data-bar=\""@ + bar + "\" data-keys=\""@ + shortcut =~= head + told);
    assert(shows(head + told, told));
}

/// A button of the history is closed where it leads nowhere, and else says
/// where it leads.
pub proof fn a_history_button_says_where_it_leads(
    s: State,
    target: Option<Seq<usize>>,
    name: Seq<char>,
    keys: Seq<char>,
    arrow: Seq<char>,
    label: Seq<char>,
    words: Words,
    path: Seq<u8>,
)
    ensures
        ({
            let page = s.history_button(target, name, keys, arrow, label, words);
            let event = render::ev_attr(json::alt_event(arrow));
            &&& target is None ==> shows(
                page,
                "disabled"@ + " title=\""@ + render::escaped(name + " — "@ + keys) + "\" "@ + event
                    + ">"@ + label,
            )
            &&& target is Some && s.path_at(target->0) == Some(path) ==> shows(
                page,
                ""@ + " title=\""@ + render::escaped(
                    name + " to "@ + words::path_worded(words.paths@, path),
                ) + "\" "@ + event + ">"@ + label,
            )
            &&& target is Some ==> shows(page, s.node_tip_data(target->0, keys, words))
        }),
{
    lemma_shows();
    let tip = s.history_tip(target, name, keys, words);
    let disabled = render::when(target is None, "disabled"@);
    let title = render::escaped(s.history_hint(target, name, keys, words));
    let event = render::ev_attr(json::alt_event(arrow));
    lemma_tail_of_seven(
        "<span class=\"has-tip\""@ + tip + "><button class=\"seg\" "@,
        disabled,
        " title=\""@,
        title,
        "\" "@,
        event,
        ">"@,
        label,
    );
}

proof fn lemma_setting_buttons(s: State, words: Words)
    ensures
        ({
            let page = s.view_settings(words);
            let mode = s.mode_index();
            &&& shows(
                page,
                s.history_button(s.history_target(true), "Back"@, "alt ← back"@, "left"@, "‹"@, words),
            )
            &&& shows(
                page,
                s.history_button(
                    s.history_target(false),
                    "Forward"@,
                    "alt → forward"@,
                    "right"@,
                    "›"@,
                    words,
                ),
            )
            &&& shows(page, mode_button(0, mode, "Size"@))
            &&& shows(page, mode_button(1, mode, "Files"@))
            &&& shows(page, mode_button(2, mode, "Age"@))
        }),
{
    reveal(State::view_settings);
    lemma_shows();
}

proof fn lemma_setting_checks(s: State, words: Words)
    ensures
        shows(
            s.view_settings(words),
            "</span><button class=\"check"@ + render::when(s.options.include_hidden, " on"@) + "\" "@
                + render::key_attr("i"@),
        ),
        shows(
            s.view_settings(words),
            "<button class=\"check"@ + render::when(s.options.apparent_size, " on"@) + "\" "@
                + render::key_attr("d"@),
        ),
{
    reveal(State::view_settings);
    lemma_shows();
    let back = s.history_button(
        s.history_target(true),
        "Back"@,
        "alt ← back"@,
        "left"@,
        "‹"@,
        words,
    );
    let forward = s.history_button(
        s.history_target(false),
        "Forward"@,
        "alt → forward"@,
        "right"@,
        "›"@,
        words,
    );
    let mode = s.mode_index();
    let size = mode_button(0, mode, "Size"@);
    let files = mode_button(1, mode, "Files"@);
    let age = mode_button(2, mode, "Age"@);
    let hidden = render::when(s.options.include_hidden, " on"@);
    let i = render::key_attr("i"@);
    let apparent = render::when(s.options.apparent_size, " on"@);
    let d = render::key_attr("d"@);
    lemma_tail_of_four(
        "<div id=\"settings\"><span class=\"group\">"@ + back + forward
            + "</span><span class=\"group\">"@ + size + files + age,
        "</span><button class=\"check"@,
        hidden,
        "\" "@,
        i,
    );
    lemma_tail_of_four(
        "<div id=\"settings\"><span class=\"group\">"@ + back + forward
            + "</span><span class=\"group\">"@ + size + files + age
            + "</span><button class=\"check"@ + hidden + "\" "@ + i
            + " title=\"include dotfiles (i)\"><span class=\"box\"></span>Hidden files</button>"@,
        "<button class=\"check"@,
        apparent,
        "\" "@,
        d,
    );
}

proof fn lemma_setting_depth(s: State, words: Words)
    ensures
        shows(
            s.view_settings(words),
            text::decimal(s.depth as nat) + "</span><button class=\"seg\" "@ + render::when(
                s.depth <= 1,
                "disabled"@,
            ) + " "@ + render::key_attr("["@),
        ),
        shows(
            s.view_settings(words),
            ">−</button><button class=\"seg\" "@ + render::when(s.depth >= 6, "disabled"@) + " "@
                + render::key_attr("]"@),
        ),
{
    reveal(State::view_settings);
    lemma_shows();
    let back = s.history_button(
        s.history_target(true),
        "Back"@,
        "alt ← back"@,
        "left"@,
        "‹"@,
        words,
    );
    let forward = s.history_button(
        s.history_target(false),
        "Forward"@,
        "alt → forward"@,
        "right"@,
        "›"@,
        words,
    );
    let mode = s.mode_index();
    let size = mode_button(0, mode, "Size"@);
    let files = mode_button(1, mode, "Files"@);
    let age = mode_button(2, mode, "Age"@);
    let hidden = render::when(s.options.include_hidden, " on"@);
    let i = render::key_attr("i"@);
    let apparent = render::when(s.options.apparent_size, " on"@);
    let d = render::key_attr("d"@);
    let depth = text::decimal(s.depth as nat);
    let least = render::when(s.depth <= 1, "disabled"@);
    let fewer = render::key_attr("["@);
    let most = render::when(s.depth >= 6, "disabled"@);
    let more = render::key_attr("]"@);
    lemma_tail_of_five(
        "<div id=\"settings\"><span class=\"group\">"@ + back + forward
            + "</span><span class=\"group\">"@ + size + files + age
            + "</span><button class=\"check"@ + hidden + "\" "@ + i
            + " title=\"include dotfiles (i)\"><span class=\"box\"></span>Hidden files</button>"@
            + "<button class=\"check"@ + apparent + "\" "@ + d
            + " title=\"apparent length, not allocated blocks (d)\"><span class=\"box\">"@
            + "</span>Apparent size</button><span class=\"group\" title=\"Levels drawn at once"@
            + " · [ and ]\"><span class=\"depth-label\">Depth "@,
        depth,
        "</span><button class=\"seg\" "@,
        least,
        " "@,
        fewer,
    );
    lemma_tail_of_four(
        "<div id=\"settings\"><span class=\"group\">"@ + back + forward
            + "</span><span class=\"group\">"@ + size + files + age
            + "</span><button class=\"check"@ + hidden + "\" "@ + i
            + " title=\"include dotfiles (i)\"><span class=\"box\"></span>Hidden files</button>"@
            + "<button class=\"check"@ + apparent + "\" "@ + d
            + " title=\"apparent length, not allocated blocks (d)\"><span class=\"box\">"@
            + "</span>Apparent size</button><span class=\"group\" title=\"Levels drawn at once"@
            + " · [ and ]\"><span class=\"depth-label\">Depth "@ + depth
            + "</span><button class=\"seg\" "@ + least + " "@ + fewer,
        ">−</button><button class=\"seg\" "@,
        most,
        " "@,
        more,
    );
}

/// The settings lead back and forward, name the mode, and are checked as the
/// options are; depth goes no lower than one and no higher than six.
pub proof fn the_settings_show_what_is_set(s: State, words: Words)
    ensures
        ({
            let page = s.view_settings(words);
            let mode = s.mode_index();
            &&& shows(
                page,
                s.history_button(s.history_target(true), "Back"@, "alt ← back"@, "left"@, "‹"@, words),
            )
            &&& shows(
                page,
                s.history_button(
                    s.history_target(false),
                    "Forward"@,
                    "alt → forward"@,
                    "right"@,
                    "›"@,
                    words,
                ),
            )
            &&& shows(page, mode_button(0, mode, "Size"@))
            &&& shows(page, mode_button(1, mode, "Files"@))
            &&& shows(page, mode_button(2, mode, "Age"@))
            &&& s.options.include_hidden ==> shows(
                page,
                "</span><button class=\"check"@ + " on"@ + "\" "@ + render::key_attr("i"@),
            )
            &&& !s.options.include_hidden ==> shows(
                page,
                "</span><button class=\"check"@ + ""@ + "\" "@ + render::key_attr("i"@),
            )
            &&& s.options.apparent_size ==> shows(
                page,
                "<button class=\"check"@ + " on"@ + "\" "@ + render::key_attr("d"@),
            )
            &&& !s.options.apparent_size ==> shows(
                page,
                "<button class=\"check"@ + ""@ + "\" "@ + render::key_attr("d"@),
            )
            &&& s.depth <= 1 ==> shows(
                page,
                text::decimal(s.depth as nat) + "</span><button class=\"seg\" "@ + "disabled"@ + " "@
                    + render::key_attr("["@),
            )
            &&& s.depth > 1 ==> shows(
                page,
                text::decimal(s.depth as nat) + "</span><button class=\"seg\" "@ + ""@ + " "@
                    + render::key_attr("["@),
            )
            &&& s.depth >= 6 ==> shows(
                page,
                ">−</button><button class=\"seg\" "@ + "disabled"@ + " "@ + render::key_attr("]"@),
            )
            &&& s.depth < 6 ==> shows(
                page,
                ">−</button><button class=\"seg\" "@ + ""@ + " "@ + render::key_attr("]"@),
            )
        }),
{
    lemma_setting_buttons(s, words);
    lemma_setting_checks(s, words);
    lemma_setting_depth(s, words);
}

/// The totals are the tree's once there is one, and the scan's until then;
/// what could not be read is counted.
pub proof fn the_totals_are_of_the_tree(s: State, words: Words)
    ensures
        ({
            let page = s.scan_totals(words);
            &&& s.tree is Some ==> shows(
                page,
                words::worded(words.bytes@, s.tree->0.bytes) + "</b> · "@ + words::worded(
                    words.counts@,
                    s.tree->0.files,
                ) + " files · "@ + words::worded(words.counts@, s.tree->0.dirs) + " dirs"@,
            )
            &&& s.tree is None ==> shows(
                page,
                words::worded(words.bytes@, s.progress.bytes) + "</b> · "@ + words::worded(
                    words.counts@,
                    s.progress.files,
                ) + " files · "@ + words::worded(words.counts@, s.progress.dirs) + " dirs"@,
            )
            &&& s.progress.errors > 0 ==> shows(
                page,
                words::worded(words.counts@, s.progress.errors) + " unreadable</span>"@,
            )
        }),
{
    reveal(State::scan_totals);
    lemma_shows();
    let (total, many, held) = s.totals();
    let bytes = words.size(total);
    let files = words.count(many);
    let dirs = words.count(held);
    lemma_tail_of_six(
        "<span id=\"totals\"><b>"@,
        bytes,
        "</b> · "@,
        files,
        " files · "@,
        dirs,
        " dirs"@,
    );
    lemma_tail(
        " <span class=\"warn\">· "@,
        words.count(s.progress.errors),
        " unreadable</span>"@,
    );
}

proof fn lemma_legend_shown(rows: Seq<LegendRow>, palette: Palette, count: int, i: int)
    requires
        0 <= i < count,
    ensures
        shows(
            legend_rows(rows, palette, count),
            legend_item(swatch(palette.accents@[rows[i].category.place()]@), rows[i].label@),
        ),
    decreases count,
{
    lemma_shows();
    if i < count - 1 {
        lemma_legend_shown(rows, palette, count - 1, i);
    }
}

proof fn lemma_ages_shown(palette: Palette, count: int, i: int)
    requires
        0 <= i < count,
    ensures
        shows(
            age_rows(palette, count),
            legend_item(swatch(palette.age_accents@[i]@), palette::age_name(i)),
        ),
    decreases count,
{
    lemma_shows();
    if i < count - 1 {
        lemma_ages_shown(palette, count - 1, i);
    }
}

/// The colour key is of the kinds, or of the five ages in age mode.
pub proof fn the_key_is_of_what_is_coloured(s: State, words: Words, palette: Palette, i: int)
    ensures
        ({
            let page = s.legend(words, palette);
            &&& s.color_mode == ColorMode::Age && 0 <= i < 5 ==> shows(
                page,
                legend_item(swatch(palette.age_accents@[i]@), palette::age_name(i)),
            )
            &&& s.color_mode != ColorMode::Age && 0 <= i < words.legend@.len() ==> shows(
                page,
                legend_item(
                    swatch(palette.accents@[words.legend@[i].category.place()]@),
                    words.legend@[i].label@,
                ),
            )
        }),
{
    reveal(State::legend);
    lemma_shows();
    if s.color_mode == ColorMode::Age {
        if 0 <= i < 5 {
            lemma_ages_shown(palette, 5, i);
        }
    } else if 0 <= i < words.legend@.len() {
        lemma_legend_shown(words.legend@, palette, words.legend@.len() as int, i);
    }
}

/// A find counts its matches and their size, and says what enter or escape
/// does next.
pub proof fn a_find_counts_its_matches(s: State, words: Words)
    ensures
        s.matches is None ==> s.find_summary(words) == ""@ && s.find_hint() == "type to filter"@,
        s.matches is Some && s.matches->0.count == 0 ==> s.find_summary(words) == "no matches"@
            && s.find_hint() == "esc clears"@,
        s.matches is Some && s.matches->0.count == 1 ==> s.find_summary(words) == words::worded(
            words.counts@,
            1,
        ) + " match · "@ + words::worded(words.bytes@, s.matches->0.bytes),
        s.matches is Some && s.matches->0.count > 1 ==> s.find_summary(words) == words::worded(
            words.counts@,
            s.matches->0.count as u64,
        ) + " matches · "@ + words::worded(words.bytes@, s.matches->0.bytes),
        s.matches is Some && s.matches->0.count > 0 && s.filter_applied ==> s.find_hint()
            == "esc clears"@,
        s.matches is Some && s.matches->0.count > 0 && !s.filter_applied ==> s.find_hint()
            == "enter shows only these"@,
{
}

/// The find field shows the text, its matches and the hint, and whether it is
/// open or applied.
pub proof fn the_find_field_shows_the_find(s: State, words: Words)
    ensures
        ({
            let page = s.find_field(words);
            let value = "\"><span class=\"dim\">/</span><input id=\"find-input\" value=\""@;
            &&& s.find_open ==> shows(
                page,
                "<span id=\"find\" class=\""@ + "open"@ + value + render::escaped(s.find),
            )
            &&& !s.find_open && s.filter_applied ==> shows(
                page,
                "<span id=\"find\" class=\""@ + "applied"@ + value + render::escaped(s.find),
            )
            &&& !s.find_open && !s.filter_applied ==> shows(
                page,
                "<span id=\"find\" class=\""@ + ""@ + value + render::escaped(s.find),
            )
            &&& s.filter_applied ==> shows(
                page,
                " class=\"caption"@ + " hl"@ + "\">"@ + s.find_summary(words)
                    + "</span><span class=\"caption dim\">"@ + s.find_hint(),
            )
            &&& !s.filter_applied ==> shows(
                page,
                " class=\"caption"@ + " dim"@ + "\">"@ + s.find_summary(words)
                    + "</span><span class=\"caption dim\">"@ + s.find_hint(),
            )
        }),
{
    reveal(State::find_field);
    lemma_shows();
    let border = if s.find_open {
        "open"@
    } else if s.filter_applied {
        "applied"@
    } else {
        ""@
    };
    let typed = render::escaped(s.find);
    let tone = if s.filter_applied {
        " hl"@
    } else {
        " dim"@
    };
    let summary = s.find_summary(words);
    let hint = s.find_hint();
    lemma_tail_of_six(
        "<span id=\"find\" class=\""@ + border
            + "\"><span class=\"dim\">/</span><input id=\"find-input\" value=\""@ + typed
            + "\" placeholder=\"Filter by name\" autocomplete=\"off\" spellcheck=\"false\"/><span"@,
        " class=\"caption"@,
        tone,
        "\">"@,
        summary,
        "</span><span class=\"caption dim\">"@,
        hint,
    );
}

/// The row over the mosaic has the totals and the key, and the find field while
/// it is open or holds a text.
pub proof fn the_row_has_the_find_field_while_it_is_used(s: State, words: Words, palette: Palette)
    ensures
        ({
            let page = s.trail_and_legend(words, palette);
            &&& shows(page, s.scan_totals(words))
            &&& shows(page, s.legend(words, palette))
            &&& s.find_open || s.find.len() > 0 ==> shows(page, s.find_field(words))
            &&& !s.find_open && s.find.len() == 0 ==> shows(
                page,
                s.scan_totals(words) + ""@ + "<div class=\"flex-1\"></div>"@,
            )
        }),
{
    reveal(State::trail_and_legend);
    lemma_shows();
    let totals = s.scan_totals(words);
    let find = if s.find_open || s.find.len() > 0 {
        s.find_field(words)
    } else {
        ""@
    };
    lemma_tail_of_three(
        "<div id=\"totals-row\">"@,
        totals,
        find,
        "<div class=\"flex-1\"></div>"@,
    );
}

/// The scan's line tells a running scan from a finished one, and how long that
/// took.
pub proof fn the_scan_is_told_by_its_line(s: State, words: Words)
    ensures
        s.scanning ==> s.scan_line(words) == "scanning · "@ + words::worded(
            words.counts@,
            s.progress.files,
        ) + " entries · "@ + words::worded(words.bytes@, s.progress.bytes),
        !s.scanning && s.scan_elapsed is None ==> s.scan_line(words) == "scan "@ + words::worded(
            words.counts@,
            s.progress.files,
        ) + " entries"@ + ""@,
        !s.scanning && s.scan_elapsed is Some ==> s.scan_line(words) == "scan "@ + words::worded(
            words.counts@,
            s.progress.files,
        ) + " entries"@ + (" · "@ + s.scan_elapsed->0 + " s"@),
{
}

/// The key bar has the hints, the magnification, the way to all keys and the
/// scan's line.
pub proof fn the_key_bar_has_its_parts(s: State, words: Words)
    ensures
        ({
            let page = s.key_bar(words);
            &&& shows(page, hints())
            &&& words.zoom is Some ==> shows(page, words.zoom->0@)
            &&& shows(page, render::key_attr("?"@))
            &&& shows(page, s.scan_line(words))
        }),
{
    reveal(State::key_bar);
    lemma_shows();
}

/// Until the first tree lands the page counts what was read so far, and says
/// what went wrong.
pub proof fn the_first_scan_is_counted(s: State, words: Words)
    ensures
        ({
            let page = s.scanning_panel(words);
            &&& shows(page, render::escaped(words::path_worded(words.paths@, s.root_path)))
            &&& shows(
                page,
                stat_markup("files"@, words::worded(words.counts@, s.progress.files), ""@),
            )
            &&& shows(
                page,
                stat_markup("directories"@, words::worded(words.counts@, s.progress.dirs), ""@),
            )
            &&& shows(
                page,
                stat_markup("measured"@, words::worded(words.bytes@, s.progress.bytes), ""@),
            )
            &&& s.progress.errors > 0 ==> shows(
                page,
                stat_markup("unreadable"@, words::worded(words.counts@, s.progress.errors), "warn"@),
            )
            &&& s.progress.errors == 0 ==> shows(
                page,
                stat_markup("unreadable"@, words::worded(words.counts@, s.progress.errors), "dim"@),
            )
            &&& s.scan_error is Some ==> shows(
                page,
                "<div class=\"notice danger\">"@ + render::escaped(s.scan_error->0) + "</div>"@,
            )
        }),
{
    reveal(State::scanning_panel);
    lemma_shows();
}

/// The explore screen has its bars, the mosaic once there is a tree, and the
/// panel while the selection is shown.
pub proof fn the_explore_screen_has_its_parts(
    s: State,
    canvas: Canvas,
    plan: Plan,
    now: i64,
    words: Words,
    palette: Palette,
)
    ensures
        ({
            let page = s.explore(canvas, plan, now, words, palette);
            &&& shows(page, s.top_bar(words, palette))
            &&& shows(page, s.trail_and_legend(words, palette))
            &&& s.tree is Some ==> shows(page, s.mosaic(canvas, words, palette))
            &&& s.tree is None ==> shows(page, s.scanning_panel(words))
            &&& s.show_selection ==> shows(page, s.side_panel(plan, now, words, palette))
            &&& shows(page, s.touch_bar())
            &&& shows(page, s.key_bar(words))
        }),
{
    reveal(State::explore);
    lemma_shows();
}

/// The bar on top has the trail and the settings.
pub proof fn the_top_bar_has_its_parts(s: State, words: Words, palette: Palette)
    ensures
        ({
            let page = s.top_bar(words, palette);
            &&& shows(page, s.trail(words, palette))
            &&& shows(page, s.view_settings(words))
        }),
{
    reveal(State::top_bar);
    lemma_shows();
}

} // verus!
