//! Exact values, edge cases and errors, function by function.

use disktree_web::app::{
    Candidate, CrumbMenu, Filtered, Finding, GitState, LayoutCache, LayoutKey, LogEntry, Notice, Rect,
    ScanOptions, Screen, SpaceInfo, Status, Tile, TrashBackend, Volume, Web,
};
use disktree_web::args::{
    checked_root, exposure_warning, page_url, parse_args, parse_number, root_or_home, usage, Arg,
    Parsed,
};
use disktree_web::codec::{decode_path, path_attr};
use disktree_web::explore::{
    crumb_menu_layer, find_field, key_bar, legend, logo, node_tip_data, scan_totals, stat, trail,
    tree_crumb, view_settings,
};
use disktree_web::json::{
    alt_json, bare_json, crumbs_json, key_json, mode_json, mosaic_json, path_json, removal_json,
    sibling_json,
};
use disktree_web::keys::Key;
use disktree_web::marks::{Blocked, Marks, Plan, RemovalMode, Target};
use disktree_web::mosaic::{
    dirs_in, is_dotted, meta_text, paint_labels, short_value, Canvas, Drawn, Keep, Label, Lettering,
    Spot,
};
use disktree_web::navigation::crumb_label;
use disktree_web::palette::{age_bucket, age_label, Appearance, Palette, Shades};
use disktree_web::panel::{
    ago, disk_section, figure, insight_text, marked_section, marks_ancestor, notice_line,
    selection_section, split_size, worth_section, worth_total,
};
use disktree_web::paths::OsPath;
use disktree_web::render::{esc, ev, short_name};
use disktree_web::review::{
    commit_controls, delete_dialog, done, help_overlay, mark_row, review, review_summary, row,
    running, screen_header, space_meter, volume_delta,
};
use disktree_web::scanning::{now_seconds, Machine};
use disktree_web::server::{
    admits, bad_request, body_response, export_list, export_prompt, handle, internal_error,
    not_found, pack,
    params_from, refused_input, respond, token_eq, unauthorized, Answer, Assets, Head, HeaderField, Method, Reply,
    Step, Token,
};
use disktree_web::single::Single;
use disktree_web::spelling::Figure;
use disktree_web::tasks::{clippy, display, fmt, jobs, outcome, Job, Task};
use disktree_web::text;
use disktree_web::tree::{Category, Metric, Node};
use disktree_web::words::{LegendRow, Meter, PathText, Share, Words, Worded};

fn single(value: f32) -> Single {
    Single::from_bits(value.to_bits())
}

fn path(text: &str) -> OsPath {
    OsPath::from_bytes(text.as_bytes().to_vec())
}

fn file(name: &str, bytes: u64) -> Node {
    Node {
        os_name: name.as_bytes().to_vec(),
        bytes,
        files: 1,
        dirs: 0,
        own_bytes: bytes,
        modified: 0,
        category: Category::Code,
        kind: "Code".to_string(),
        reclaim: None,
        read_error: false,
        dir: false,
        largest: None,
        children: Vec::new(),
    }
}

fn dir(name: &str, children: Vec<Node>) -> Node {
    Node {
        bytes: children.iter().map(|child| child.bytes).sum(),
        files: children.iter().map(|child| child.files).sum(),
        dirs: 1 + children.iter().map(|child| child.dirs).sum::<u64>(),
        own_bytes: 0,
        dir: true,
        largest: if children.is_empty() { None } else { Some(0) },
        children,
        ..file(name, 0)
    }
}

fn options() -> ScanOptions {
    ScanOptions {
        metric: Metric::Bytes,
        apparent_size: false,
        follow_links: false,
        include_hidden: true,
        one_filesystem: true,
    }
}

fn machine() -> Machine {
    Machine {
        home: None,
        volume: Volume {
            space: Some(SpaceInfo { total: 1000, available: 400 }),
            device: Some("/dev/<sda>".to_string()),
        },
        trash: TrashBackend { available: true, label: "gio trash".to_string() },
        disk_root: None,
        now: 100,
    }
}

/// `/r` with `a/` (holding `one` and `.two`) and the file `b`.
fn web() -> Web {
    let tree = dir("r", vec![dir("a", vec![file("one", 6), file(".two", 2)]), file("b", 3)]);
    Web::with_tree(path("/r"), tree, options(), 3, machine(), Vec::new())
}

fn words() -> Words {
    let numbers = |unit: &str| -> Vec<Worded> {
        (0..1000).map(|value| Worded { value, text: format!("{value}{unit}") }).collect()
    };
    let mut shares = Vec::new();
    for part in 0..20 {
        for total in 0..20 {
            shares.push(Share {
                part,
                total,
                percent: format!("{part}:{total}%"),
                bar: "##".to_string(),
                lane: "#".to_string(),
                width: format!("w{part}-{total}"),
                exact: format!("x{part}-{total}"),
            });
        }
    }
    let place = |text: &str| PathText { path: path(text), text: format!("~{text}") };
    Words {
        bytes: numbers(" B"),
        short: numbers("B"),
        counts: numbers("#"),
        paths: vec![place("/r"), place("/r/a"), place("/r/a/one"), place("/r/b")],
        shares,
        meters: vec![Meter {
            reclaiming: 8,
            used: "600 B".to_string(),
            after: "408 B".to_string(),
            left: "59.2".to_string(),
            back: "0.8".to_string(),
        }],
        legend: vec![
            LegendRow { category: Category::Code, label: "Code".to_string() },
            LegendRow { category: Category::Git, label: "Git".to_string() },
        ],
        metric: "bytes".to_string(),
        estimate: "6".to_string(),
        progress: "50".to_string(),
        zoom: None,
        panel: "368".to_string(),
        anchor: ("10".to_string(), "20".to_string()),
        checkout: false,
    }
}

fn palette() -> Palette {
    let shades = |what: &str, index: usize| -> Vec<Shades> {
        (0..5)
            .map(|depth| Shades {
                shown: format!("{what}{index}/{depth}"),
                holds: format!("{what}{index}/{depth}h"),
                out: format!("{what}{index}/{depth}o"),
            })
            .collect()
    };
    Palette {
        categories: (0..9).map(|index| shades("c", index)).collect(),
        ages: (0..5).map(|index| shades("g", index)).collect(),
        accents: (0..9).map(|index| format!("A{index}")).collect(),
        age_accents: (0..5).map(|index| format!("G{index}")).collect(),
        marked: "M".to_string(),
        hatch: "H".to_string(),
        highlight: "HL".to_string(),
        danger: "D".to_string(),
        warning: "W".to_string(),
        label_top: "LT".to_string(),
        label: "L".to_string(),
        label_dim: "LD".to_string(),
    }
}

fn no_plan() -> Plan {
    Plan { targets: Vec::new(), covered: Vec::new(), blocked: Vec::new(), bytes: 0 }
}

fn target(text: &str, bytes: u64) -> Target {
    Target { path: path(text), bytes, is_dir: false }
}

fn key(name: &str) -> String {
    format!("data-ev=\"{{&quot;key&quot;:&quot;{name}&quot;,&quot;type&quot;:&quot;key&quot;}}\"")
}

// ── ages and colours ───────────────────────────────────────────────────

#[test]
fn age_buckets_cover_every_age_in_order() {
    assert_eq!(age_bucket(0), 0);
    assert_eq!(age_bucket(8), 1);
    assert_eq!(age_bucket(100), 2);
    assert_eq!(age_bucket(300), 3);
    assert_eq!(age_bucket(5000), 4);
    assert_eq!(age_bucket(i64::MIN), 0);
    assert_eq!(age_bucket(i64::MAX), 4);
    assert_eq!([7, 30, 182, 365].map(age_bucket), [0, 1, 2, 3]);
    let labels: Vec<&str> = (0..5).map(age_label).collect();
    assert_eq!(labels, ["This week", "This month", "Six months", "This year", "Older"]);
}

#[test]
fn each_appearance_has_its_constants() {
    assert_eq!(Appearance::default(), Appearance::Dark);
    assert_eq!(Appearance::Dark.accent(), 0x7a_a2f7);
    assert_eq!(Appearance::Light.accent(), 0x20_5ea6);
    assert_eq!(Appearance::Dark.danger(), 0xf7_768e);
    assert_eq!(Appearance::Light.warning(), 0x85_5b00);
    assert_eq!(Appearance::Dark.inset(), 0x13_141c);
    assert_eq!(Appearance::Light.inset(), 0xe6_e4d9);
    assert_eq!(Appearance::Dark.foreground(), Appearance::Dark.bright());
    assert_eq!(Appearance::Light.foreground(), 0x10_0f0f);
    assert_eq!(Appearance::Light.pick(1, 2), 2);
}

#[test]
fn a_fill_clamps_its_depth_and_marks_win() {
    let p = palette();
    assert_eq!(p.fill_of(false, None, Category::Git, 2, Filtered::Shown), "c4/2");
    assert_eq!(p.fill_of(false, None, Category::Git, 99, Filtered::Holds), "c4/4h");
    assert_eq!(p.fill_of(false, Some(3), Category::Git, 0, Filtered::Out), "g3/0o");
    assert_eq!(p.fill_of(true, Some(3), Category::Git, 0, Filtered::Out), "M");
    assert_eq!(p.accent_of(Category::Other), "A8");
}

// ── text, numbers and paths ────────────────────────────────────────────

#[test]
fn escaping_leaves_nothing_that_ends_an_attribute() {
    assert_eq!(esc("a<b>&\"c'd"), "a&lt;b&gt;&amp;&quot;c&#39;d");
    assert_eq!(esc(""), "");
    assert_eq!(ev("{\"a\":1}"), "data-ev=\"{&quot;a&quot;:1}\"");
}

#[test]
fn paths_travel_percent_encoded() {
    assert_eq!(path_attr(&path("/a b/ü-._~")), "/a%20b/%C3%BC-._~");
    let odd = OsPath::from_bytes(vec![0, 0x2f, 0xff, 0x25]);
    assert_eq!(path_attr(&odd), "%00/%FF%25");
    assert_eq!(decode_path("%00/%FF%25").map(|p| p.bytes), Some(odd.bytes));
    assert_eq!(decode_path("%ff").map(|p| p.bytes), Some(vec![0xff]));
    assert_eq!(decode_path("").map(|p| p.bytes), Some(Vec::new()));
    for wrong in ["%", "%4", "a%4", "%g0", "%0g", "%é"] {
        assert!(decode_path(wrong).is_none(), "{wrong}");
    }
}

#[test]
fn names_are_shown_as_well_as_they_can_be() {
    assert_eq!(short_name(&path("/a/b")), "b");
    assert_eq!(short_name(&path("/")), "/");
    assert_eq!(short_name(&path("/a/..")), "/a/..");
    let odd = OsPath::from_bytes(b"/a/odd\xff".to_vec());
    assert_eq!(short_name(&odd), "odd\u{fffd}");
    for bytes in [&b"/"[..], b"//", b"/..", b".", b"\xff", b"/\xff\xfe", b"a/"] {
        let path = OsPath::from_bytes(bytes.to_vec());
        assert!(!short_name(&path).is_empty());
        assert_eq!(short_name(&path), crumb_label(&path));
    }
    assert_eq!(crumb_label(&path("/")), "/");
    assert_eq!(crumb_label(&path("/home/me")), "me");
}

#[test]
fn paths_compare_by_component() {
    assert!(path("/a//b/").same(&path("/a/b")));
    assert!(path("/a/./b").same(&path("/a/b")));
    assert!(!path("/a/b").same(&path("a/b")));
    assert!(path("/a/b").starts_with(&path("/a")));
    assert!(!path("/ab").starts_with(&path("/a")));
    assert_eq!(path("/a").join(&b"b".to_vec()).bytes, b"/a/b");
    assert_eq!(path("/").join(&b"b".to_vec()).bytes, b"/b");
    assert_eq!(path("/a").join(&b"/b".to_vec()).bytes, b"/b");
}

#[test]
fn texts_split_and_fold() {
    assert_eq!(text::split("a&b&&", '&'), ["a", "b", "", ""]);
    assert_eq!(text::split("", '&'), [""]);
    assert_eq!(text::after("token=x", "token="), Some("x".to_string()));
    assert_eq!(text::after("toke", "token="), None);
    assert!(text::same_folded("AccEpt-Encoding", "accept-encoding"));
    assert!(!text::same_folded("É", "é"), "capitals beyond ASCII differ");
    assert!(text::contains("br, gzip", "gzip"));
    assert!(!text::contains("gzi", "gzip"));
    assert_eq!(text::decimal_text(0), "0");
    assert_eq!(text::decimal_text(u64::MAX), "18446744073709551615");
    assert!(text::is_blank(" \t\u{3000}"));
    assert!(text::is_blank("\u{9}\u{d}\u{85}\u{a0}\u{1680}\u{2000}\u{200a}\u{2028}\u{2029}\u{202f}\u{205f}"));
    for other in ['\u{8}', '\u{e}', '\u{180e}', '\u{200b}', '\u{feff}'] {
        assert!(!text::is_blank(&other.to_string()));
    }
    assert!(!text::is_blank(" x "));
}

#[test]
fn numbers_compare_as_floats_do() {
    let values = [f32::NEG_INFINITY, -2.5, -0.0, 0.0, 1.0e-40, 1.0, f32::INFINITY, f32::NAN];
    for a in values {
        for b in values {
            assert_eq!(single(a).lt(single(b)), a < b, "{a} {b}");
            assert_eq!(single(a).le(single(b)), a <= b, "{a} {b}");
            assert_eq!(
                single(a).place_value() < single(b).place_value(),
                a.total_cmp(&b).is_lt(),
                "{a} {b}",
            );
        }
        assert_eq!(single(a).is_finite(), a.is_finite());
        assert_eq!(single(a).is_nan(), a.is_nan());
        assert_eq!(single(a).abs().bits, a.abs().to_bits());
    }
}

#[test]
fn the_clock_is_past_the_epoch() {
    assert!(now_seconds() > 1_500_000_000);
}

#[test]
fn keys_have_names() {
    assert_eq!(Key::named("enter"), Key::Enter);
    assert_eq!(Key::named("["), Key::OpenBracket);
    assert_eq!(Key::named("?"), Key::Question);
    assert_eq!(Key::named("Enter"), Key::named("no such key"));
}

// ── events ─────────────────────────────────────────────────────────────

#[test]
fn events_are_compact_json_with_sorted_keys() {
    assert_eq!(bare_json("commit"), "{\"type\":\"commit\"}");
    assert_eq!(key_json("backspace"), "{\"key\":\"backspace\",\"type\":\"key\"}");
    assert_eq!(alt_json("left"), "{\"alt\":true,\"key\":\"left\",\"type\":\"key\"}");
    assert_eq!(crumbs_json("goto", &[]), "{\"crumbs\":[],\"type\":\"goto\"}");
    assert_eq!(crumbs_json("mark", &[1, 20]), "{\"crumbs\":[1,20],\"type\":\"mark\"}");
    assert_eq!(path_json("widen", "/a"), "{\"path\":\"/a\",\"type\":\"widen\"}");
    assert_eq!(
        sibling_json(&[7], 2),
        "{\"index\":2,\"parent\":[7],\"type\":\"sibling\"}",
    );
    assert_eq!(mode_json(2), "{\"index\":2,\"type\":\"mode\"}");
    assert_eq!(removal_json("trash"), "{\"mode\":\"trash\",\"type\":\"removal\"}");
    assert_eq!(
        mosaic_json("<\"\\\n\t\u{8}\u{c}\r\u{1}\u{7f}é", ""),
        "{\"mosaic\":\"<\\\"\\\\\\n\\t\\b\\f\\r\\u0001\u{7f}é\",\"zoom\":\"\"}",
    );
}

// ── words ──────────────────────────────────────────────────────────────

#[test]
fn words_are_looked_up_or_left_blank() {
    let w = words();
    assert_eq!(w.size_text(12), "12 B");
    assert_eq!(w.brief_text(12), "12B");
    assert_eq!(w.count_text(12), "12#");
    assert_eq!(w.size_text(5000), "");
    assert_eq!(w.place_text(&path("/r/b")), "~/r/b");
    assert_eq!(w.place_text(&path("/elsewhere")), "");
    assert_eq!(w.percent_text(3, 11), "3:11%");
    assert_eq!(w.width_text(3, 99), "");
    assert_eq!(w.after_text(8), "408 B");
    assert_eq!(w.after_text(9), "");
    assert_eq!(w.left_text(8), "59.2");
}

#[test]
fn a_size_splits_into_number_and_unit() {
    let parts = |a: &str, b: &str| (a.to_string(), b.to_string());
    assert_eq!(split_size("90.1 GiB"), parts("90.1", "GiB"));
    assert_eq!(split_size("90.1"), parts("90.1", ""));
    assert_eq!(split_size("1 2 3"), parts("1", "2 3"));
}

#[test]
fn times_are_told_in_the_unit_a_person_would_use() {
    let now = 100_000_000;
    assert_eq!(ago(now, 0), "unknown");
    assert_eq!(ago(now, -5), "unknown");
    assert_eq!(ago(now, now + 1000), "just now");
    assert_eq!(ago(now, now - 59), "just now");
    assert_eq!(ago(now, now - 60), "1 minute ago");
    assert_eq!(ago(now, now - 7_199), "1 hour ago");
    assert_eq!(ago(now, now - 7_200), "2 hours ago");
    assert_eq!(ago(now, now - 86_400), "1 day ago");
    assert_eq!(ago(now, now - 2_592_000), "1 month ago");
    assert_eq!(ago(now, now - 31_535_999), "12 months ago");
    assert_eq!(ago(now, now - 31_536_000), "1 year ago");
    assert_eq!(ago(i64::MIN, i64::MAX), "just now");
}

#[test]
fn small_pieces_have_their_exact_markup() {
    assert_eq!(
        figure("Files", "3", "ok"),
        "<span class=\"figure\"><span class=\"caption dim\">Files</span><span class=\"figure-value ok\">3</span></span>",
    );
    assert_eq!(
        stat("files", "3", "dim"),
        "<span class=\"stat dim\"><span class=\"stat-value\">3</span><span class=\"caption dim\">files</span></span>",
    );
    assert_eq!(row("Marked", "3"), "<div class=\"row\"><span class=\"dim\">Marked</span><span>3</span></div>");
    assert_eq!(
        screen_header("Done", "<finished>"),
        "<div class=\"screen-header\"><span class=\"title\">Done</span><span class=\"caption dim\">&lt;finished&gt;</span></div>",
    );
}

// ── the tree's figures ─────────────────────────────────────────────────

#[test]
fn a_node_says_what_it_holds() {
    let w = words();
    let a = dir("a", vec![dir("sub", Vec::new()), file("x", 5)]);
    assert_eq!(dirs_in(&a), 1);
    assert_eq!(meta_text(&a, &w), "1# files · 1# dirs · 0 B direct");
    assert_eq!(short_value(&a, Metric::Bytes, &w), "5B");
    assert_eq!(short_value(&a, Metric::Files, &w), "1#");
    assert!(is_dotted(".git"));
    assert!(!is_dotted("git"));
    assert!(!is_dotted(""));
}

#[test]
fn a_card_says_where_a_button_leads() {
    let mut app = web();
    let w = words();
    assert_eq!(
        node_tip_data(&app, &[0], "alt ← back", &w),
        " data-name=\"a\" data-tip-path=\"~/r/a\" data-size=\"8 B\" data-meta=\"2# files · 0# dirs · 0 B direct\" \
         data-percent=\"8:11%\" data-bar=\"##\" data-keys=\"alt ← back\" data-dir=\"1\"",
    );
    assert_eq!(node_tip_data(&app, &[9], "", &w), "");
    app.go_to(vec![0]);
    app.go_to(Vec::new());
    let html = view_settings(&app, &w);
    assert!(html.contains("title=\"Back to ~/r/a\""), "{html}");
    assert!(html.contains("disabled title=\"Forward — alt → forward\""), "{html}");
    assert!(html.contains("&quot;alt&quot;:true"));
    assert!(html.contains("<button class=\"seg on\" data-ev=\"{&quot;index&quot;:0"));
    assert!(html.contains("Depth 3"));
}

#[test]
fn the_trail_folds_its_middle() {
    let w = words();
    let p = palette();
    let deep = Web::with_tree(
        path("/1/2/3/4/5/6/7/8"),
        dir("8", Vec::new()),
        options(),
        3,
        machine(),
        Vec::new(),
    );
    let html = trail(&deep, &w, &p);
    assert_eq!(html.matches("class=\"fold\"").count(), 1);
    for shown in [">/<", ">1<", ">5<", ">6<", ">7<", ">8<"] {
        assert!(html.contains(shown), "{shown} {html}");
    }
    for folded in [">2<", ">3<", ">4<"] {
        assert!(!html.contains(folded), "{folded} {html}");
    }
    let short = trail(&web(), &w, &p);
    assert!(!short.contains("class=\"fold\""));
    assert_eq!(
        tree_crumb(&web(), "<r>", &[], true),
        "<span class=\"crumb current\" data-ev=\"{&quot;crumbs&quot;:[],&quot;type&quot;:&quot;goto&quot;}\">&lt;r&gt;</span>",
    );
    let crumb = tree_crumb(&web(), "a", &[0], false);
    assert!(crumb.contains("&quot;type&quot;:&quot;goto&quot;"));
    assert!(crumb.contains("&quot;type&quot;:&quot;menu&quot;"));
}

#[test]
fn the_sibling_menu_lists_the_largest_first() {
    let mut app = web();
    app.crumb_menu = Some(CrumbMenu {
        parent: Vec::new(),
        current: 1,
        highlighted: 0,
        anchor: (single(1.0), single(2.0)),
    });
    let html = crumb_menu_layer(&app, &words(), &palette());
    assert!(html.starts_with("<div id=\"crumb-menu\" style=\"left:10px;top:20px\"><div class=\"menu-title\">~/r</div>"));
    assert!(html.contains("<div class=\"menu-row highlighted\""));
    assert!(html.contains("<div class=\"menu-row current\""));
    assert!(html.find(">a<").unwrap() < html.find(">b<").unwrap());
    assert!(html.contains("width:w3-8%;background:A0"));
    assert!(!html.contains("menu-more"));

    let many = dir("r", (0..30).map(|n| file(&format!("f{n}"), n)).collect());
    app.tree = Some(many);
    let html = crumb_menu_layer(&app, &words(), &palette());
    assert_eq!(html.matches("menu-name").count(), 24);
    assert!(html.contains("+6 more"));
    assert!(html.find(">f29<").unwrap() < html.find(">f28<").unwrap());
}

#[test]
fn the_bars_say_how_the_scan_goes() {
    let mut app = web();
    let w = words();
    assert_eq!(
        scan_totals(&app, &w),
        "<span id=\"totals\"><b>11 B</b> · 3# files · 2# dirs</span>",
    );
    app.progress.errors = 4;
    assert!(scan_totals(&app, &w).contains("<span class=\"warn\">· 4# unreadable</span>"));
    app.scan_elapsed = Some("1.5".to_string());
    app.progress.files = 7;
    assert!(key_bar(&app, &w).contains("scan 7# entries · 1.5 s"));
    app.scanning = true;
    assert!(key_bar(&app, &w).contains("scanning · 7# entries · 0 B"));
    assert!(logo(&palette()).contains("background:A0\"></span>"));
    let kinds = legend(&app, &w, &palette());
    assert!(kinds.contains("background-color:c8/0"));
    assert!(kinds.contains(">Git</span>"));
    app.set_mode(2);
    let ages = legend(&app, &w, &palette());
    assert!(ages.contains("background:G4"));
    assert!(ages.contains(">Older</span>"));
    assert!(find_field(&app, &w).contains("type to filter"));
}

// ── the panel ──────────────────────────────────────────────────────────

#[test]
fn the_selection_says_what_can_be_done() {
    let mut app = web();
    let (w, p) = (words(), palette());
    let html = selection_section(&app, 1000, &w, &p);
    assert!(html.contains("<span class=\"big\">8</span><span class=\"unit\">B</span>"), "{html}");
    assert!(html.contains("width:x8-11%"));
    assert!(html.contains(">Open</button>"));
    assert!(html.contains("Mark for removal"));
    assert!(html.contains("Last write</span><span class=\"figure-value \">unknown"));

    // Inside a marked directory the button offers to keep it.
    app.toggle_mark(&[0]);
    app.select(Some(vec![0, 0]));
    let html = selection_section(&app, 1000, &w, &p);
    assert!(html.contains("Goes with a"));
    assert!(html.contains(">Unmark a</button>"));
    assert!(html.contains("&quot;path&quot;:&quot;/r/a&quot;,&quot;type&quot;:&quot;unmark&quot;"));
    assert_eq!(marks_ancestor(&app, Some(&path("/r/a/one"))), Some("a".to_string()));
    assert_eq!(marks_ancestor(&app, Some(&path("/r/a"))), None);
    assert_eq!(marks_ancestor(&app, None), None);

    // The directory on screen has nothing to press.
    app.select(Some(Vec::new()));
    let html = selection_section(&app, 1000, &w, &p);
    assert!(html.contains("<div class=\"actions\"></div>"));

    app.select(Some(vec![9]));
    assert!(selection_section(&app, 1000, &w, &p).contains("Point at a tile"));
}

#[test]
fn git_is_asked_once_about_what_the_panel_shows() {
    let mut app = web();
    let asked = app.git_target().expect("a directory is selected");
    assert_eq!(asked.bytes, b"/r/a");
    let mut w = words();
    w.checkout = true;
    let html = selection_section(&app, 0, &w, &palette());
    assert!(html.contains("asking…"));
    let clean = GitState { summary: "clean".to_string(), clean: true };
    app.ensure_git(path("/r/a"), Some(clean));
    let dirty = GitState { summary: "3 changed".to_string(), clean: false };
    app.ensure_git(path("/r/a"), Some(dirty));
    let html = selection_section(&app, 0, &w, &palette());
    assert!(html.contains("<span class=\"figure-value ok\">clean</span>"), "{html}");
    app.select(Some(vec![1]));
    assert!(app.git_target().is_none(), "a file is no checkout");
}

#[test]
fn what_is_worth_a_look_is_added_up() {
    let mut app = web();
    let (w, p) = (words(), palette());
    assert!(worth_section(&app, &w, &p).contains("Nothing obviously disposable"));
    app.insights = vec![
        Candidate {
            crumbs: vec![0],
            bytes: 8,
            finding: Finding::Worktrees { count: 1, oldest_days: 40 },
        },
        Candidate {
            crumbs: vec![0, 0],
            bytes: 6,
            finding: Finding::StaleExperiments { count: 2, days: 90 },
        },
        Candidate {
            crumbs: vec![7],
            bytes: 1,
            finding: Finding::Reclaimable { reason: "gone".to_string() },
        },
    ];
    assert_eq!(worth_total(&app), 15);
    let both = |a: &str, b: &str| (a.to_string(), b.to_string());
    assert_eq!(insight_text(&app, &app.insights[0]), both("a", "1 worktree · oldest 40 d"));
    assert_eq!(
        insight_text(&app, &app.insights[1]),
        both("a/one > 90 days", "2 experiments untouched"),
    );
    assert_eq!(insight_text(&app, &app.insights[2]).1, "gone");
    let html = worth_section(&app, &w, &p);
    assert!(html.contains("<span class=\"caption hl\">15 B</span>"));
    assert!(html.contains("<div class=\"insight active\""));
    assert!(html.contains("width:w6-8%"));
    assert_eq!(html.matches("class=\"insight").count() - html.matches("class=\"insight-").count(), 2);
    app.start_scan();
    assert!(worth_section(&app, &w, &p).contains("Waiting for the scan"));
}

#[test]
fn the_marked_list_points_at_the_review() {
    let mut app = web();
    let (w, p) = (words(), palette());
    assert!(marked_section(&app, &no_plan(), &w, &p).contains("Space marks the tile you point at"));
    app.marks = Marks { items: (0..8).map(|n| target(&format!("/r/{n}"), n)).collect() };
    let plan = Plan {
        targets: vec![target("/r/a", 8)],
        covered: vec![target("/r/a/one", 6)],
        blocked: Vec::new(),
        bytes: 8,
    };
    let html = marked_section(&app, &plan, &w, &p);
    assert!(html.contains("Marked · 8"));
    assert_eq!(html.matches("class=\"marked-row\"").count(), 6);
    assert!(html.contains("+2 more on the review screen"));
    assert!(html.contains("1 nested · 0 kept back"));
    assert!(html.contains("title=\"/r/5\""));
}

#[test]
fn the_notice_line_prefers_a_scan_error() {
    let mut app = web();
    let w = words();
    assert_eq!(notice_line(&app, &w), "");
    app.notice = Some(Notice::GoesWith { path: path("/r/a/one"), ancestor: path("/r/a") });
    assert_eq!(
        notice_line(&app, &w),
        "<div class=\"notice warn\">~/r/a/one goes with the marked ~/r/a; unmark that to keep it</div>",
    );
    let covers = Notice::Covers { path: path("/r/a"), count: 2 };
    assert_eq!(covers.status(), Status::Neutral);
    app.notice = Some(covers);
    assert_eq!(
        notice_line(&app, &w),
        "<div class=\"notice neutral\">~/r/a now covers 2 marks inside it</div>",
    );
    app.scan_error = Some("no <entry>".to_string());
    assert_eq!(notice_line(&app, &w), "<div class=\"notice danger\">no &lt;entry&gt;</div>");
}

#[test]
fn the_disk_shows_what_comes_back() {
    let mut app = web();
    let w = words();
    let plan = Plan { bytes: 8, ..no_plan() };
    let html = disk_section(&app, &plan, &w);
    assert!(html.contains("/dev/&lt;sda&gt;"));
    assert!(html.contains("<span class=\"big\">400</span><span class=\"unit\">B free</span>"));
    assert!(html.contains("→ 408 B free"));
    assert!(html.contains("left:59.2%;width:0.8%"));
    assert!(html.contains("<span>600 B used</span>"));
    assert!(!html.contains("review-btn"));
    app.toggle_mark(&[0]);
    assert!(disk_section(&app, &plan, &w).contains("Review 1 marked · frees 8 B…"));
    app.space = None;
    assert!(disk_section(&app, &plan, &w).contains("Free space is not available here"));
}

// ── review, running, done ──────────────────────────────────────────────

#[test]
fn the_review_lists_every_mark_up_to_a_limit() {
    let mut app = web();
    let w = words();
    assert!(review(&app, &no_plan(), &w).contains("Nothing is marked."));
    app.marks = Marks { items: (0..203).map(|n| target(&format!("/r/{n}"), 1)).collect() };
    let plan = Plan {
        targets: vec![target("/r/0", 8)],
        covered: vec![target("/r/1", 1)],
        blocked: vec![
            Blocked { path: path("/r/2"), reason: "first <reason>".to_string() },
            Blocked { path: path("/r/2"), reason: "second".to_string() },
        ],
        bytes: 8,
    };
    let html = review(&app, &plan, &w);
    assert_eq!(html.matches("class=\"mark-row").count(), 200);
    assert!(html.contains("3 more are marked and will be removed too."));
    assert_eq!(html.matches("Inside a marked directory").count(), 1);
    assert!(html.contains("<span class=\"chip chip-warn\">first &lt;reason&gt;</span>"));
    assert!(html.contains("203 marked · 8 B to free"));
    assert!(html.contains("<div class=\"caption warn\">2: second</div>"));
    let dirs = Target { path: path("/r/a"), bytes: 8, is_dir: true };
    assert!(mark_row(&app, &dirs, false, None, &w).contains("▣"));
    assert!(mark_row(&app, &dirs, true, None, &w).contains("mark-row quiet"));
}

#[test]
fn the_commitment_follows_the_mode() {
    let mut app = web();
    let one = Plan { targets: vec![target("/r/b", 3)], bytes: 3, ..no_plan() };
    assert!(commit_controls(&app, &one).contains("btn primary"));
    assert!(commit_controls(&app, &one).contains("Move 1 item to trash"));
    assert!(commit_controls(&app, &no_plan()).contains("disabled>Move 0 items to trash"));
    app.removal_mode = RemovalMode::Permanent;
    assert!(commit_controls(&app, &one).contains("btn danger"));
    assert!(commit_controls(&app, &one).contains("Delete 1 item…"));
    let html = review_summary(&app, &one, &words());
    assert!(html.contains("Deleted at once, like rm -rf."));
    assert!(html.contains("class=\"seg on\"  data-ev=\"{&quot;mode&quot;:&quot;permanent&quot;"));
    assert!(html.contains("btn secondary flex-1\" id=\"export-list\""));
    app.removal_mode = RemovalMode::Trash;
    app.trash.available = false;
    assert!(commit_controls(&app, &one).contains("disabled>Move"));
    let html = review_summary(&app, &no_plan(), &words());
    assert!(html.contains("Uses gio trash."));
    assert!(html.contains("flex-1 disabled"));
}

#[test]
fn the_dialog_names_what_goes() {
    let w = words();
    let one = Plan { targets: vec![target("/r/<b>", 3)], bytes: 3, ..no_plan() };
    let html = delete_dialog(&one, &w);
    assert!(html.contains("Delete “&lt;b&gt;” permanently?"));
    assert!(html.contains("This frees 3 B."));
    let two = Plan { targets: vec![target("/r/a", 1), target("/r/b", 1)], bytes: 2, ..no_plan() };
    assert!(delete_dialog(&two, &w).contains("Delete 2 items permanently?"));
}

#[test]
fn a_running_removal_shows_its_newest_lines() {
    let mut app = web();
    app.screen = Screen::Running;
    app.run_summary.total = 3;
    app.run_summary.removed = 1;
    app.run_summary.failed = 1;
    app.run_log = vec![
        LogEntry { path: path("/r/first"), error: None },
        LogEntry { path: path("/r/second"), error: Some("denied".to_string()) },
    ];
    let html = running(&app, &words());
    assert!(html.contains("2 of 3 done"));
    assert!(html.find("second").unwrap() < html.find("first").unwrap());
    assert!(html.contains("<span class=\"caption warn\">denied</span>"));
    assert!(html.contains("class=\"used accent\" style=\"width:50%\""));
    let html = done(&app, &words());
    assert!(html.contains("1 items"));
    assert!(html.contains("what could not be removed"));
    assert!(html.contains("<span class=\"danger\">second</span> <span class=\"dim\">denied</span>"));
    assert!(!html.contains("volume freed"));
    app.space_baseline = Some(SpaceInfo { total: 1000, available: 300 });
    assert!(done(&app, &words()).contains("+100 B"));
    app.space_baseline = Some(SpaceInfo { total: 1000, available: 500 });
    assert!(done(&app, &words()).contains("-100 B"));
}

#[test]
fn what_a_volume_gained_is_signed() {
    let space = |available: u64| SpaceInfo { total: u64::MAX, available };
    assert_eq!(volume_delta(space(5), space(9)), (true, 4));
    assert_eq!(volume_delta(space(9), space(5)), (false, 4));
    assert_eq!(volume_delta(space(0), space(u64::MAX)), (true, u64::MAX));
    assert_eq!(volume_delta(space(u64::MAX), space(1)), (false, u64::MAX - 1));
}

#[test]
fn a_meter_shows_what_the_marks_free() {
    let space = SpaceInfo { total: 900, available: 400 };
    let html = space_meter(space, 8, &words());
    assert!(html.contains("<span>400 B free · → 408 B after</span><span>900 B total</span>"));
    assert!(space_meter(space, 0, &words()).contains("<span>400 B free</span>"));
}

#[test]
fn help_names_every_key_and_the_root() {
    let html = help_overlay(&web(), &words());
    assert_eq!(html.matches("class=\"help-row\"").count(), 23);
    assert!(html.contains("? or esc closes · /r · bytes"));
    assert!(html.contains("A permanent deletion always asks first"));
    assert!(html.starts_with(&format!("<div class=\"overlay\" {}>", key("?"))));
}

// ── the mosaic ─────────────────────────────────────────────────────────

fn spot(x: &str) -> Spot {
    Spot { x: x.to_string(), y: "1".to_string(), w: "2".to_string(), h: "3".to_string() }
}

fn drawn(x: &str, area: f32) -> Drawn {
    Drawn {
        near: true,
        large: true,
        roomy: true,
        labelled: true,
        spot: spot(x),
        strip: "2.0".to_string(),
        corner: ("cx".to_string(), "cy".to_string()),
        ring: spot(&format!("r{x}")),
        area: single(area),
        keep: Keep::Whole,
        label: Lettering {
            fits: true,
            spot: spot(&format!("l{x}")),
            x: "tx".to_string(),
            baseline: "ty".to_string(),
            tall: true,
            below: "by".to_string(),
            end: "ex".to_string(),
            room: true,
            after: "ax".to_string(),
        },
    }
}

fn tile(crumbs: &[usize], depth: u32) -> Tile {
    let none = single(0.0);
    Tile {
        crumbs: crumbs.to_vec(),
        others: None,
        rect: Rect { x: none, y: none, w: none, h: none },
        header: None,
        depth,
    }
}

fn drawn_web(tiles: Vec<Tile>) -> Web {
    let mut app = web();
    app.cache = Some(LayoutCache {
        key: LayoutKey {
            crumbs: Vec::new(),
            width: single(10.0),
            height: single(10.0),
            depth: 3,
            filter: 0,
        },
        tiles,
    });
    app
}

fn canvas(tiles: Vec<Drawn>) -> Canvas {
    Canvas { width: "10".to_string(), height: "20".to_string(), tiles }
}

#[test]
fn a_tile_is_painted_exactly() {
    let app = drawn_web(vec![tile(&[1], 0)]);
    let html = app.mosaic(&canvas(vec![drawn("0", 1.0)]), &words(), &palette());
    assert_eq!(
        html,
        "<svg id=\"mosaic\" width=\"10\" height=\"20\" viewBox=\"0 0 10 20\"><defs><pattern id=\"hatch\" \
         width=\"6\" height=\"6\" patternUnits=\"userSpaceOnUse\" patternTransform=\"rotate(45)\">\
         <rect width=\"1.5\" height=\"6\" fill=\"H\"/></pattern></defs>\
         <g class=\"g-tile\" data-name=\"b\" data-tip-path=\"~/r/b\" data-size=\"3 B\" \
         data-meta=\"1# files · 0# dirs · 3 B direct\" data-percent=\"3:11%\" data-bar=\"##\">\
         <rect class=\"tile-body\" x=\"0\" y=\"1\" width=\"2\" height=\"3\" fill=\"c0/0\"/>\
         <rect class=\"overlay\" x=\"0\" y=\"1\" width=\"2\" height=\"2.0\" fill=\"A0\"/></g>\
         <clipPath id=\"clip-0\"><rect x=\"l0\" y=\"1\" width=\"2\" height=\"3\"/></clipPath>\
         <g clip-path=\"url(#clip-0)\"><text x=\"tx\" y=\"ty\" font-size=\"12\" fill=\"LT\">b</text>\
         <text x=\"tx\" y=\"by\" font-size=\"11\" fill=\"LD\">3B</text></g></svg>",
    );
}

#[test]
fn rings_come_last_and_the_selection_on_top() {
    let mut app = drawn_web(vec![tile(&[0], 0), tile(&[0, 0], 1), tile(&[1], 0)]);
    app.toggle_mark(&[1]);
    let three = canvas(vec![drawn("0", 1.0), drawn("1", 2.0), drawn("2", 3.0)]);
    let html = app.mosaic(&three, &words(), &palette());
    let ring = |x: &str| html.find(&format!("x=\"{x}\"")).unwrap();
    assert!(html.rfind("</g><rect").unwrap() < ring("r2"));
    assert!(ring("r2") < ring("r0"), "the selection's ring is painted last");
    assert!(html.contains("stroke=\"HL\" stroke-width=\"2\""));
    assert!(html.contains("class=\"g-tile sel\""));
    assert!(html.contains("class=\"g-tile marked\""));
    // Labels: the largest tile first.
    assert!(html.find(">b</text>").unwrap() < html.find(">one</text>").unwrap());

    // Everything inside a marked directory is drawn marked too.
    app.unmark(&path("/r/b"));
    app.toggle_mark(&[0]);
    let html = app.mosaic(&three, &words(), &palette());
    assert!(html.contains("data-covered=\"a\""));
    assert_eq!(html.matches("fill=\"M\"").count(), 2);
}

#[test]
fn what_is_off_screen_is_not_emitted() {
    let app = drawn_web(vec![tile(&[0], 0), tile(&[1], 0)]);
    let mut far = drawn("0", 1.0);
    far.near = false;
    let mut tiny = drawn("1", 1.0);
    tiny.large = false;
    tiny.labelled = false;
    let html = app.mosaic(&canvas(vec![far, tiny]), &words(), &palette());
    assert!(!html.contains("g-tile"));
    assert!(!html.contains("<text"));
    assert_eq!(web().mosaic(&canvas(Vec::new()), &words(), &palette()), "");
}

#[test]
fn overlays_say_reclaimable_and_unreadable() {
    let mut app = drawn_web(vec![tile(&[1], 1)]);
    if let Some(tree) = &mut app.tree {
        tree.children[1].reclaim = Some("cache".to_string());
        tree.children[1].read_error = true;
    }
    let one = canvas(vec![drawn("0", 1.0)]);
    let html = app.mosaic(&one, &words(), &palette());
    assert!(html.contains("fill=\"url(#hatch)\""));
    assert!(html.contains("x=\"cx\" y=\"cy\" width=\"4\" height=\"4\" fill=\"W\""));
    app.toggle_mark(&[1]);
    let html = app.mosaic(&one, &words(), &palette());
    assert!(!html.contains("url(#hatch)"), "a marked tile is not hatched");
}

#[test]
fn ages_colour_what_has_a_date() {
    let mut app = drawn_web(vec![tile(&[1], 0), tile(&[0], 0)]);
    if let Some(tree) = &mut app.tree {
        tree.children[1].modified = 50;
    }
    app.set_mode(2);
    app.scanned_at = 50 + 31 * 86_400;
    let two = canvas(vec![drawn("0", 1.0), drawn("1", 1.0)]);
    let html = app.mosaic(&two, &words(), &palette());
    assert!(html.contains("fill=\"g2/0\""), "31 days: {html}");
    assert!(html.contains("fill=\"c0/0\""), "no date, no age");
    app.scanned_at = -86_400 * 400;
    let html = app.mosaic(&two, &words(), &palette());
    assert!(html.contains("fill=\"g0/0\""), "from the future counts as new");
}

#[test]
fn labels_are_few_and_largest_first() {
    let label = |tile: usize| Label {
        text: format!("t{tile}"),
        tile,
        area: single((tile / 2) as f32),
        banded: tile % 2 == 0,
        depth: 0,
        dim: false,
        marked: tile == 1,
        size_text: String::new(),
    };
    let labels: Vec<Label> = (0..200).map(label).collect();
    let places: Vec<Drawn> = (0..200).map(|_| drawn("0", 0.0)).collect();
    let html = paint_labels(&labels, &places, &palette());
    assert_eq!(html.matches("<clipPath").count(), 150);
    let at = |text: &str| html.find(text).unwrap();
    assert!(at(">t198<") < at(">t199<"), "equals keep their order");
    assert!(at(">t199<") < at(">t196<"));
    assert!(!html.contains(">t49<"));
    assert!(html.contains("fill=\"LT\" font-weight=\"bold\">t198<"));
    let few = paint_labels(&vec![label(0), label(1)], &places, &palette());
    assert!(few.contains("fill=\"D\">t1<"));
}

#[test]
fn a_size_sits_where_there_is_room() {
    let label = |banded: bool, depth: u32| Label {
        text: "n".to_string(),
        tile: 0,
        area: single(1.0),
        banded,
        depth,
        dim: true,
        marked: false,
        size_text: "9<".to_string(),
    };
    let painted = |banded: bool, depth: u32, tall: bool, room: bool| {
        let places = vec![Drawn {
            label: Lettering {
                fits: true,
                spot: spot("s"),
                x: "tx".to_string(),
                baseline: "ty".to_string(),
                tall,
                below: "by".to_string(),
                end: "ex".to_string(),
                room,
                after: "ax".to_string(),
            },
            ..drawn("0", 1.0)
        }];
        paint_labels(&vec![label(banded, depth)], &places, &palette())
    };
    assert!(painted(false, 1, true, false).contains("<text x=\"tx\" y=\"by\""));
    assert!(painted(true, 0, true, false).contains("x=\"ex\" y=\"ty\" font-size=\"11\" fill=\"LD\" text-anchor=\"end\">9&lt;<"));
    assert!(painted(true, 1, true, true).contains("<text x=\"ax\" y=\"ty\""));
    assert!(!painted(true, 1, true, false).contains("9&lt;"));
}

// ── marks and navigation ───────────────────────────────────────────────

#[test]
fn marks_cover_what_is_inside() {
    let mut marks = Marks::new();
    assert!(marks.toggle(target("/r/a/one", 6)));
    assert!(marks.toggle(target("/r/b", 3)));
    assert!(marks.contains(&path("/r//b/")));
    assert_eq!(marks.absorb(&path("/r/a")), 1);
    assert_eq!(marks.len(), 1);
    assert!(marks.ancestor_of(&path("/r/b")).is_none());
    assert_eq!(marks.ancestor_of(&path("/r/b/c")).map(|p| p.bytes), Some(b"/r/b".to_vec()));
    assert!(!marks.toggle(target("/r/b", 3)), "a second toggle unmarks");
    assert!(marks.is_empty());
}

#[test]
fn marking_twice_leaves_the_marks_as_they_were() {
    let mut app = web();
    app.toggle_mark(&[1]);
    app.toggle_mark(&[0, 0]);
    app.toggle_mark(&[0, 0]);
    assert_eq!(app.marks.len(), 1);
    assert!(app.marks.contains(&path("/r/b")));
    app.toggle_mark(&[5]);
    assert_eq!(app.marks.len(), 1, "crumbs that lead nowhere mark nothing");
}

#[test]
fn a_path_leads_back_to_its_tile() {
    let app = web();
    for crumbs in [vec![], vec![0], vec![0, 1], vec![1]] {
        let path = app.path_at(&crumbs).unwrap();
        assert_eq!(app.crumbs_for_path(&path), Some(crumbs));
    }
    assert_eq!(app.crumbs_for_path(&path("/elsewhere")), None);
    assert_eq!(app.crumbs_for_path(&path("/r/nope")), None);
}

// ── requests and replies ───────────────────────────────────────────────

fn head(method: Method, url: &str, headers: &[(&str, &str)]) -> Head {
    Head {
        method,
        url: url.to_string(),
        headers: headers
            .iter()
            .map(|(name, value)| HeaderField { name: name.to_string(), value: value.to_string() })
            .collect(),
    }
}

fn assets() -> Assets {
    Assets { index: b"index".to_vec(), script: b"script".to_vec(), style: b"style".to_vec() }
}

fn pairs(reply: &Reply) -> Vec<(String, String)> {
    reply.headers.iter().map(|h| (h.name.clone(), h.value.clone())).collect()
}

fn value(reply: &Reply, name: &str) -> Option<String> {
    reply.headers.iter().find(|h| h.name == name).map(|h| h.value.clone())
}

#[test]
fn secrets_compare_whole() {
    assert!(token_eq("", ""));
    assert!(token_eq("geheim—", "geheim—"));
    assert!(!token_eq("a", "b"));
    assert!(!token_eq("a", "ab"));
    assert!(!token_eq("ab", "a"));
}

#[test]
fn routes_are_exact() {
    let step = |method, url: &str| handle(&head(method, url, &[]), &assets(), None);
    let body = |step: Step| match step {
        Step::Reply(reply) => reply.body,
        other => panic!("{other:?}"),
    };
    assert_eq!(body(step(Method::Get, "/")), b"index");
    assert_eq!(body(step(Method::Get, "/static/app.js?v=1")), b"script");
    assert_eq!(body(step(Method::Get, "/static/style.css")), b"style");
    assert!(matches!(step(Method::Get, "/api/export/list"), Step::ExportList));
    assert!(matches!(step(Method::Get, "/api/export/prompt"), Step::ExportPrompt));
    assert!(matches!(step(Method::Post, "/api/input"), Step::ReadInput));
    match step(Method::Get, "/api/frame?w=5&h=x&dark=1&w=6") {
        Step::Frame(params) => {
            assert_eq!(params.w, Some("6".to_string()), "the last word counts");
            assert_eq!(params.h, Some("x".to_string()));
            assert_eq!(params.dark, Some(true));
        }
        other => panic!("{other:?}"),
    }
    for (method, url) in [
        (Method::Post, "/"),
        (Method::Get, "/api/input"),
        (Method::Other, "/api/input"),
        (Method::Get, "/api/frame/"),
        (Method::Get, ""),
    ] {
        match step(method, url) {
            Step::Reply(reply) => assert_eq!(reply.status, 404, "{url}"),
            other => panic!("{other:?}"),
        }
    }
}

#[test]
fn everything_but_the_assets_is_behind_the_gate() {
    let token = Token::new("t");
    let step = |url: &str| handle(&head(Method::Get, url, &[]), &assets(), Some(&token));
    for url in ["/", "/api/frame", "/api/export/list", "/api/export/prompt", "/nope", "/?token=", "/?token=tt", "/?xtoken=t"] {
        match step(url) {
            Step::Reply(reply) => assert_eq!(reply.status, 401, "{url}"),
            other => panic!("{url}: {other:?}"),
        }
    }
    assert!(matches!(step("/api/export/list?a=b&token=t"), Step::ExportList));
    let bearer = head(Method::Get, "/api/frame", &[("authorization", "Bearer t")]);
    assert!(matches!(handle(&bearer, &assets(), Some(&token)), Step::Frame(_)));
}

#[test]
fn queries_are_read_piece_by_piece() {
    let params = params_from("");
    assert_eq!((params.w, params.h, params.dark), (None, None, None));
    let params = params_from("dark=0&h=&other=1");
    assert_eq!((params.w, params.h, params.dark), (None, Some(String::new()), Some(false)));
}

#[test]
fn every_reply_is_fenced_in() {
    let replies = [unauthorized(), bad_request(), not_found(), internal_error()];
    assert_eq!(replies.each_ref().map(|r| r.status), [401, 400, 404, 500]);
    for reply in &replies {
        let all = pairs(reply);
        assert_eq!(all.len(), 5);
        assert_eq!(all[0], ("X-Content-Type-Options".to_string(), "nosniff".to_string()));
        assert_eq!(
            all[1].1,
            "default-src 'self'; style-src 'self' 'unsafe-inline'; script-src 'self'; \
             img-src 'self' data:; frame-ancestors 'none'",
        );
        assert_eq!(all[2].1, "no-referrer");
        assert_eq!(all[3].1, "no-store");
        assert_eq!(all[4], ("Content-Type".to_string(), "text/plain".to_string()));
    }
    assert_eq!(
        String::from_utf8(replies[0].body.clone()).unwrap(),
        "disktree-web: this server was started with --token; open it with ?token=… on the URL",
    );
    assert_eq!(replies[1].body, b"disktree-web: unreadable input");
    assert_eq!(replies[2].body, b"disktree-web: not found");
    assert_eq!(replies[3].body, b"disktree-web: internal error");
}

#[test]
fn bodies_are_compressed_when_it_pays() {
    let gzip = head(Method::Get, "/", &[("Accept-Encoding", "br, gzip")]);
    let plain = head(Method::Get, "/", &[("Accept", "gzip")]);
    let long = vec![b'x'; 5000];
    let reply = body_response(&gzip, long.clone(), "t", 200, "c");
    assert_eq!(value(&reply, "Content-Encoding"), Some("gzip".to_string()));
    assert!(reply.body.len() < 200);
    assert_eq!(reply.body[..3], [0x1f, 0x8b, 8]);
    let mut back = Vec::new();
    std::io::Read::read_to_end(&mut flate2::read::GzDecoder::new(reply.body.as_slice()), &mut back)
        .unwrap();
    assert_eq!(back, long);
    assert_eq!(body_response(&plain, long.clone(), "t", 200, "c").body, long);
    let short = vec![b'x'; 1024];
    let reply = body_response(&gzip, short.clone(), "t", 200, "c");
    assert_eq!(reply.body, short);
    assert_eq!(value(&reply, "Content-Encoding"), None);
    // A body that could not be compressed goes out as it is.
    assert_eq!(pack(short.clone(), None, "t", 200, "c").body, short);
    assert_eq!(pack(short, Some(vec![1]), "t", 200, "c").body, [1]);
}

#[test]
fn answers_go_out_as_they_were_earned() {
    let request = head(Method::Post, "/api/input", &[]);
    let reply = respond(&request, &Answer::Ack, None);
    assert_eq!((reply.status, reply.body.len()), (204, 0));
    let mosaic = Answer::Mosaic { mosaic: "<svg>".to_string(), zoom: "1.4×".to_string() };
    let reply = respond(&request, &mosaic, None);
    assert_eq!(reply.status, 200);
    assert_eq!(
        String::from_utf8(reply.body).unwrap(),
        "{\"mosaic\":\"<svg>\",\"zoom\":\"1.4×\"}",
    );
    assert_eq!(reply.headers[4].value, "application/json");
    let list = export_list(&request, "/r/a\n".to_string());
    assert_eq!(list.body, b"/r/a\n");
    assert_eq!(
        value(&list, "Content-Disposition"),
        Some("attachment; filename=disktree-delete-list.txt".to_string()),
    );
    let prompt = export_prompt(&request, "please".to_string());
    assert_eq!(value(&prompt, "Content-Disposition"), None);
    assert_eq!(value(&prompt, "Content-Type"), Some("text/plain; charset=utf-8".to_string()));
    assert!(admits(127));
    assert!(!admits(128));
}

// ── the command line ───────────────────────────────────────────────────

fn parsed(args: &[&str], token: Option<&str>) -> Parsed {
    let args: Vec<Arg> = args
        .iter()
        .map(|text| Arg { text: text.to_string(), is_address: text.contains(':') })
        .collect();
    parse_args(&args, token.map(str::to_string), options())
}

fn refused(args: &[&str]) -> String {
    match parsed(args, None) {
        Parsed::Refused(why) => why,
        other => panic!("{other:?}"),
    }
}

#[test]
fn a_command_line_is_read_in_full() {
    let all = [
        "-a", "-l", "-H", "-X", "-d", "5", "--metric", "files", "--listen", "0.0.0.0:80", "--token",
        "t", "/data",
    ];
    match parsed(&all, Some("env")) {
        Parsed::Run(wanted) => {
            assert!(wanted.options.apparent_size);
            assert!(wanted.options.follow_links);
            assert!(!wanted.options.include_hidden);
            assert!(!wanted.options.one_filesystem);
            assert_eq!(wanted.options.metric, Metric::Files);
            assert_eq!(wanted.depth, 5);
            assert_eq!(wanted.listen, "0.0.0.0:80");
            assert_eq!(wanted.token, Some("t".to_string()));
            assert_eq!(wanted.root, Some("/data".to_string()));
        }
        other => panic!("{other:?}"),
    }
    match parsed(&[], Some("env")) {
        Parsed::Run(wanted) => {
            assert_eq!(wanted.token, Some("env".to_string()));
            assert_eq!((wanted.depth, wanted.root), (3, None));
            assert_eq!(wanted.listen, "127.0.0.1:8737", "localhost unless it is said");
        }
        other => panic!("{other:?}"),
    }
    match parsed(&[], Some("")) {
        Parsed::Run(wanted) => assert_eq!(wanted.token, None),
        other => panic!("{other:?}"),
    }
    assert!(matches!(parsed(&["-a", "--help", "--nonsense"], None), Parsed::Help));
}

#[test]
fn a_command_line_says_what_is_wrong() {
    assert_eq!(refused(&["--depth"]), "--depth wants a number");
    assert_eq!(refused(&["-d", "x"]), "--depth: not a number: x");
    assert_eq!(refused(&["-d", "7"]), "--depth must be between 1 and 6, got 7");
    assert_eq!(refused(&["-d", "0"]), "--depth must be between 1 and 6, got 0");
    assert_eq!(refused(&["--metric"]), "--metric wants size|files");
    assert_eq!(refused(&["--metric", "age"]), "--metric must be size or files, got age");
    assert_eq!(refused(&["--listen"]), "--listen wants host:port");
    assert_eq!(refused(&["--listen", "nowhere"]), "--listen: not host:port: nowhere");
    assert_eq!(refused(&["--token"]), "--token wants a value");
    assert_eq!(refused(&["--token", ""]), "--token must not be empty");
    assert_eq!(refused(&["-q"]), format!("unknown option: -q\n\n{}", usage()));
    assert_eq!(refused(&["a", "b"]), format!("one PATH at a time: b\n\n{}", usage()));
    assert!(usage().starts_with("disktree-web — the disktree treemap"));
    assert!(usage().ends_with("show this help\n"));
}

#[test]
fn numbers_are_read_as_the_standard_library_reads_them() {
    for text in ["", "+", "-1", "0", "+7", "007", "4294967295", "4294967296", "99999999999", "1 ", "١"] {
        assert_eq!(parse_number(text), text.parse::<u32>().ok(), "{text}");
    }
}

#[test]
fn the_root_has_to_be_a_directory() {
    let found = |r: Result<OsPath, String>| r.map(|p| p.bytes);
    assert_eq!(found(root_or_home(Some(path("/a")), Some(path("/h")))), Ok(b"/a".to_vec()));
    assert_eq!(found(root_or_home(None, Some(path("/h")))), Ok(b"/h".to_vec()));
    assert_eq!(found(root_or_home(None, None)), Err("no PATH and no HOME to scan".to_string()));
    let asked = path("/a");
    assert_eq!(found(checked_root(&asked, Some((path("/b"), true)))), Ok(b"/b".to_vec()));
    assert_eq!(
        found(checked_root(&asked, Some((path("/b"), false)))),
        Err("not a directory: /b".to_string()),
    );
    assert_eq!(found(checked_root(&asked, None)), Err("cannot read /a".to_string()));
}

#[test]
fn an_exposed_server_without_a_token_is_warned_about() {
    let root = path("/data");
    assert_eq!(
        exposure_warning("0.0.0.0:80", &root, false, false),
        Some(
            "disktree-web: warning: 0.0.0.0:80 is reachable by other machines and this page can \
             remove files under /data. Restart with --token."
                .to_string()
        ),
    );
    assert_eq!(exposure_warning("0.0.0.0:80", &root, false, true), None);
    assert_eq!(exposure_warning("127.0.0.1:80", &root, true, false), None);
    assert_eq!(page_url("h:1", None), "http://h:1");
    assert_eq!(page_url("h:1", Some("t")), "http://h:1/?token=t");
}

// ── tasks ──────────────────────────────────────────────────────────────

#[test]
fn tasks_run_their_commands_in_order() {
    assert_eq!(Task::named(None), Task::Lint);
    assert_eq!(Task::named(Some("ci")), Task::Ci);
    assert_eq!(Task::named(Some("-h")), Task::Help);
    assert_eq!(Task::named(Some("nope")), Task::Unknown);
    assert_eq!(fmt(false), ["fmt", "--all", "--check"]);
    assert_eq!(fmt(true), ["fmt", "--all"]);
    assert_eq!(display("cargo", &clippy()), "cargo clippy --workspace --all-targets -- -D warnings");
    let shown = |task: Task| -> Vec<String> {
        jobs(task)
            .into_iter()
            .map(|job| match job {
                Job::Cargo(args) => display("cargo", &args),
                Job::Shim => "shim".to_string(),
                Job::Bundle => "bundle".to_string(),
            })
            .collect()
    };
    assert_eq!(
        shown(Task::Ci),
        [
            "cargo fmt --all --check",
            "cargo clippy --workspace --all-targets -- -D warnings",
            "cargo test --workspace",
            "shim",
        ],
    );
    assert_eq!(shown(Task::FmtFix), ["cargo fmt --all"]);
    assert_eq!(shown(Task::Bundle), ["bundle"]);
    assert!(shown(Task::Help).is_empty());
    assert_eq!(outcome("x", Ok(true)), Ok(()));
    assert_eq!(outcome("x", Ok(false)), Err("`x` failed".to_string()));
    assert_eq!(
        outcome("x", Err("gone".to_string())),
        Err("could not start `x`: gone".to_string()),
    );
}

#[test]
fn input_is_refused_where_it_cannot_be_read() {
    assert!(refused_input(true, true).is_none());
    for (read, parsed) in [(false, true), (true, false), (false, false)] {
        let reply = refused_input(read, parsed).expect("a refusal");
        assert_eq!(reply.status, 400);
        assert_eq!(reply.body, b"disktree-web: unreadable input");
    }
}

// ── what a page spells ─────────────────────────────────────────────────

#[test]
fn a_page_lists_what_it_spells() {
    let mut app = drawn_web(vec![tile(&[0], 0), tile(&[0, 0], 1)]);
    app.toggle_mark(&[1]);
    let plan = Plan { targets: vec![target("/r/b", 3)], bytes: 3, ..no_plan() };
    let all = app.spellings(&plan);
    let number = |n: u64| all.iter().any(|f| matches!(f, Figure::Number(value) if *value == n));
    let shown = |text: &str| {
        all.iter().any(|f| matches!(f, Figure::Path(p) if p.bytes == text.as_bytes()))
    };
    let share = |a: u64, b: u64| {
        all.iter().any(|f| matches!(f, Figure::Share(part, total) if (*part, *total) == (a, b)))
    };
    for n in [11, 8, 6, 3, 400, 1000] {
        assert!(number(n), "{n}");
    }
    for text in ["/r", "/r/a", "/r/a/one", "/r/b"] {
        assert!(shown(text), "{text}");
    }
    assert!(share(6, 8), "a tile of its directory");
    assert!(share(8, 11), "the selection of the scan");
    assert!(share(3, 11), "a mark of the scan");
    for bytes in [3, 0] {
        assert!(all.iter().any(|f| matches!(f, Figure::Meter(n) if *n == bytes)));
    }

    // A menu and a way back add theirs.
    app.go_to(vec![0]);
    app.crumb_menu = Some(CrumbMenu {
        parent: Vec::new(),
        current: 0,
        highlighted: 0,
        anchor: (single(1.0), single(2.0)),
    });
    let all = app.spellings(&plan);
    assert!(all.iter().any(|f| matches!(f, Figure::Share(3, 8))), "a row of the menu");
    assert!(all.iter().any(|f| matches!(f, Figure::Path(p) if p.bytes == b"/r")));
}
