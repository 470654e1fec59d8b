//! The application driven from outside: keys, gestures and requests against a
//! tree in memory, with the geometry and the disk played by the test.

use disktree_web::app::{
    Camera, Effect, LayoutKey, Matches, Notice, Rect, ScanOptions, ScanSnapshot, Screen, SpaceInfo,
    Tile, TrashBackend, Volume, Web,
};
use disktree_web::codec::{decode_path, path_attr};
use disktree_web::finding::Layout;
use disktree_web::input::{Around, Event};
use disktree_web::marks::{Plan, Target};
use disktree_web::mosaic::{Canvas, Drawn, Keep, Lettering, Spot};
use disktree_web::navigation::ScoredTile;
use disktree_web::palette::{Palette, Shades};
use disktree_web::paths::OsPath;
use disktree_web::removal::RemovalEvent;
use disktree_web::render::{frame, Frame, Page};
use disktree_web::scanning::{Landing, Machine, Outcome};
use disktree_web::server::{
    bad_request, handle, respond, traffic_of, Answer, Assets, Head, HeaderField, Method, Reply,
    Step, Token,
};
use disktree_web::single::Single;
use disktree_web::tree::{Category, Metric, Node};
use disktree_web::words::{LegendRow, Meter, PathText, Share, Words, Worded};
use serde_json::Value;

// ── the machine the application runs on ────────────────────────────────

fn single(value: f32) -> Single {
    Single::from_bits(value.to_bits())
}

fn float(value: Single) -> f32 {
    f32::from_bits(value.bits)
}

fn path(text: &str) -> OsPath {
    OsPath::from_bytes(text.as_bytes().to_vec())
}

fn node(name: &[u8], bytes: u64, children: Vec<Node>, dir: bool) -> Node {
    let files = if dir { children.iter().map(|c| c.files).sum() } else { 1 };
    let dirs = children.iter().map(|c| c.dirs).sum::<u64>() + u64::from(dir);
    Node {
        os_name: name.to_vec(),
        bytes: bytes + children.iter().map(|c| c.bytes).sum::<u64>(),
        files,
        dirs,
        own_bytes: bytes,
        modified: 1_000_000,
        category: Category::Other,
        kind: "Other".to_string(),
        reclaim: None,
        read_error: false,
        dir,
        largest: if children.is_empty() { None } else { Some(0) },
        children,
    }
}

fn file(name: &[u8], bytes: u64) -> Node {
    node(name, bytes, Vec::new(), false)
}

const ROOT: &str = "/tmp/fixture";

/// `junk/` is the biggest, then `standalone.bin`, then `keep/`.
fn tree_of(disk: &[&str]) -> Node {
    let mut children = Vec::new();
    if disk.contains(&"junk") {
        children.push(node(
            b"junk",
            0,
            vec![file(b"big.bin", 100_000), file(b"note.txt", 4)],
            true,
        ));
    }
    if disk.contains(&"standalone.bin") {
        children.push(file(b"standalone.bin", 50_000));
    }
    if disk.contains(&"keep") {
        children.push(node(b"keep", 0, vec![file(b"notes.txt", 10_000)], true));
    }
    node(b"fixture", 0, children, true)
}

fn options() -> ScanOptions {
    ScanOptions {
        metric: Metric::Bytes,
        apparent_size: false,
        follow_links: false,
        include_hidden: true,
        one_filesystem: true,
    }
}

fn volume() -> Volume {
    Volume {
        space: Some(SpaceInfo { total: 1_000_000, available: 400_000 }),
        device: Some("/dev/sda1".to_string()),
    }
}

fn machine(trash: bool) -> Machine {
    Machine {
        home: Some(path("/tmp")),
        volume: volume(),
        trash: TrashBackend { available: trash, label: "gio trash".to_string() },
        disk_root: Some(path("/")),
        now: 2_000_000,
    }
}

/// The application, and the disk it looks at.
struct Host {
    web: Web,
    disk: Vec<&'static str>,
    token: Option<Token>,
}

fn host() -> Host {
    let disk = vec!["junk", "standalone.bin", "keep"];
    let mut web = Web::with_tree(path(ROOT), tree_of(&disk), options(), 3, machine(true), Vec::new());
    web.mosaic_size = (single(1200.0), single(700.0));
    Host { web, disk, token: None }
}

// ── geometry ───────────────────────────────────────────────────────────

#[derive(Clone, Copy, Debug)]
struct Area {
    x: f32,
    y: f32,
    w: f32,
    h: f32,
}

fn area(rect: Rect) -> Area {
    Area { x: float(rect.x), y: float(rect.y), w: float(rect.w), h: float(rect.h) }
}

fn rect(area: Area) -> Rect {
    Rect { x: single(area.x), y: single(area.y), w: single(area.w), h: single(area.h) }
}

fn project(camera: Camera, rect: Rect) -> Area {
    let base = area(rect);
    let scale = float(camera.scale);
    Area {
        x: (base.x - float(camera.origin_x)) * scale,
        y: (base.y - float(camera.origin_y)) * scale,
        w: base.w * scale,
        h: base.h * scale,
    }
}

fn clamped(scale: f32, x: f32, y: f32, width: f32, height: f32) -> Camera {
    let max_x = (width - width / scale).max(0.0);
    let max_y = (height - height / scale).max(0.0);
    Camera {
        scale: single(scale),
        origin_x: single(x.clamp(0.0, max_x)),
        origin_y: single(y.clamp(0.0, max_y)),
    }
}

/// Entries side by side, sized by what they hold; the contents of a directory
/// one above the other under its name.
fn lay(
    node: &Node,
    crumbs: &[usize],
    into: Area,
    depth: u32,
    max: u32,
    keep: &dyn Fn(&[usize]) -> bool,
    tiles: &mut Vec<Tile>,
) {
    let total: u64 = node.children.iter().map(|child| child.bytes).sum::<u64>().max(1);
    let mut at = 0.0;
    for (index, child) in node.children.iter().enumerate() {
        let mut way = crumbs.to_vec();
        way.push(index);
        let share = child.bytes as f32 / total as f32;
        let place = if depth % 2 == 0 {
            Area { x: into.x + at * into.w, y: into.y, w: share * into.w, h: into.h }
        } else {
            Area { x: into.x, y: into.y + at * into.h, w: into.w, h: share * into.h }
        };
        at += share;
        if !keep(&way) {
            continue;
        }
        let band = child.dir && depth + 1 < max && place.h > 40.0;
        let header = band.then_some(Area { h: 22.0, ..place });
        tiles.push(Tile {
            crumbs: way.clone(),
            others: None,
            rect: rect(place),
            header: header.map(rect),
            depth,
        });
        if band {
            let inner = Area { y: place.y + 22.0, h: place.h - 22.0, ..place };
            lay(child, &way, inner, depth + 1, max, keep, tiles);
        }
    }
}

impl Host {
    fn size(&self) -> (f32, f32) {
        (float(self.web.mosaic_size.0), float(self.web.mosaic_size.1))
    }

    fn layout(&mut self) {
        let (w, h) = self.size();
        let asked = (single(w.round()), single(h.round()));
        if let Layout::Stale(key) = self.web.layout(asked) {
            let kept: Option<Vec<Vec<usize>>> = match &self.web.matches {
                Some(matches) if self.web.filter_applied => Some(matches.whole.clone()),
                _ => None,
            };
            let keep = |way: &[usize]| match &kept {
                Some(whole) => whole
                    .iter()
                    .any(|found| found.starts_with(way) || way.starts_with(found)),
                None => true,
            };
            let mut tiles = Vec::new();
            let into = Area { x: 0.0, y: 0.0, w: w.round(), h: h.round() };
            let node = self.web.current().unwrap();
            lay(node, &key.crumbs, into, 0, key.depth, &keep, &mut tiles);
            let key = LayoutKey { ..key };
            self.web.store_layout(key, tiles);
        }
    }

    fn tile_at(&mut self, x: f32, y: f32) -> Option<Vec<usize>> {
        self.layout();
        let camera = self.web.camera;
        let bx = x / float(camera.scale) + float(camera.origin_x);
        let by = y / float(camera.scale) + float(camera.origin_y);
        let tiles = &self.web.cache.as_ref()?.tiles;
        tiles
            .iter()
            .filter(|tile| {
                let a = area(tile.rect);
                bx >= a.x && bx < a.x + a.w && by >= a.y && by < a.y + a.h
            })
            .next_back()
            .map(|tile| tile.crumbs.clone())
    }

    fn tile_body(&self, crumbs: &[usize]) -> Option<Area> {
        let tile = &self.web.cache.as_ref()?.tiles[self.web.tile_index(crumbs)?];
        let whole = area(tile.rect);
        Some(match tile.header {
            Some(header) => {
                let band = area(header);
                Area { y: band.y + band.h, h: whole.y + whole.h - band.y - band.h, ..whole }
            }
            None => whole,
        })
    }

    fn scored(&mut self, key: &str) -> Option<Vec<ScoredTile>> {
        self.layout();
        let camera = self.web.camera;
        let cache = self.web.cache.as_ref()?;
        let from = self
            .web
            .action_target()
            .and_then(|crumbs| self.web.tile_rect(&crumbs))
            .map(|rect| project(camera, rect));
        Some(
            cache
                .tiles
                .iter()
                .map(|tile| {
                    let to = project(camera, tile.rect);
                    let gap = from.and_then(|from| {
                        let gap = match key {
                            "right" => to.x - (from.x + from.w),
                            "left" => from.x - (to.x + to.w),
                            "down" => to.y - (from.y + from.h),
                            _ => from.y - (to.y + to.h),
                        };
                        (gap >= -0.5).then_some(gap.max(0.0))
                    });
                    ScoredTile { crumbs: tile.crumbs.clone(), score: gap.map(single) }
                })
                .collect(),
        )
    }

    fn plan(&self) -> Plan {
        let targets: Vec<Target> = self
            .web
            .marks
            .items()
            .iter()
            .map(|item| Target { path: item.path.copy(), bytes: item.bytes, is_dir: item.is_dir })
            .collect();
        let bytes = targets.iter().map(|target| target.bytes).sum();
        Plan { targets, covered: Vec::new(), blocked: Vec::new(), bytes }
    }

    fn found(&self, needle: &str) -> Option<Matches> {
        fn walk(node: &Node, way: &[usize], needle: &str, whole: &mut Vec<Vec<usize>>, bytes: &mut u64) {
            for (index, child) in node.children.iter().enumerate() {
                let mut crumbs = way.to_vec();
                crumbs.push(index);
                if child.shown_name().contains(needle) {
                    *bytes += child.bytes;
                    whole.push(crumbs);
                } else {
                    walk(child, &crumbs, needle, whole, bytes);
                }
            }
        }
        let base = self.web.crumbs.clone();
        let mut whole = Vec::new();
        let mut bytes = 0;
        walk(self.web.current()?, &base, needle, &mut whole, &mut bytes);
        Some(Matches { base, needle: needle.to_string(), count: whole.len(), bytes, whole })
    }

    /// What the machine answers about an event at a point.
    fn around(&mut self, x: f32, y: f32, factor: f32, drag: (f32, f32), key: &str) -> Around {
        let (width, height) = self.size();
        let under = self.tile_at(x, y);
        let descend = key.is_empty();
        let target = if descend { self.web.zoom_target(under.as_ref()) } else { None };
        let camera = self.web.camera;
        let scale = float(camera.scale);
        let ceiling = target
            .and_then(|crumbs| self.tile_body(&crumbs))
            .map_or(5.0, |body| (width / body.w).min(height / body.h))
            .clamp(1.0, 5.0);
        let zoomed = (scale * factor).clamp(1.0, ceiling);
        let (bx, by) = (x / scale + float(camera.origin_x), y / scale + float(camera.origin_y));
        let find = self.web.find.clone();
        Around {
            plan: self.plan(),
            volume: volume(),
            tiles: self.scored(key),
            under,
            limit: single(ceiling - f32::EPSILON),
            zoomed: clamped(zoomed, bx - x / zoomed, by - y / zoomed, width, height),
            panned: clamped(
                scale,
                float(camera.origin_x) - drag.0 / scale,
                float(camera.origin_y) - drag.1 / scale,
                width,
                height,
            ),
            panel: single(400.0),
            found: self.found(&find),
        }
    }

    fn key(&mut self, key: &str) {
        let (w, h) = self.size();
        let factor = if key == "-" { 0.8 } else { 1.25 };
        let around = self.around(w / 2.0, h / 2.0, factor, (0.0, 0.0), key);
        self.web.on_key(key, false, false, around);
    }

    fn zoom(&mut self, x: f32, y: f32, factor: f32) {
        let around = self.around(x, y, factor, (0.0, 0.0), "");
        self.web.zoom_at(single(factor), true, &around);
    }

    fn wheel(&mut self, x: f32, y: f32, lines: f32) {
        let factor = if lines > 0.0 { 1.15 } else { 1.0 / 1.15 };
        let around = self.around(x, y, factor, (0.0, 0.0), "");
        self.web.on_scroll_wheel(single(lines), false, &around);
    }

    fn pan(&mut self, dx: f32, dy: f32) {
        let around = self.around(0.0, 0.0, 1.0, (dx, dy), "");
        self.web.apply(Event::Pan { dx: single(dx), dy: single(dy) }, around);
    }

    fn select(&mut self, crumbs: &[usize]) {
        self.web.select(Some(crumbs.to_vec()));
    }

    /// Let the running removal and the scan behind it finish.
    fn settle(&mut self) {
        if self.web.removing {
            let plan = self.plan();
            let mut events = vec![RemovalEvent::Start { total: plan.targets.len() }];
            let removed = plan.targets.len() as u64;
            for target in plan.targets {
                let name = target.path.label();
                self.disk.retain(|entry| *entry != name);
                events.push(RemovalEvent::Item {
                    path: target.path,
                    bytes: target.bytes,
                    error: None,
                });
            }
            events.push(RemovalEvent::Done { removed, bytes: plan.bytes, failed: 0 });
            let effect = self.web.poll_removal_once(events);
            assert!(matches!(effect, Effect::Scan { .. }));
        }
        if self.web.scanning {
            let landing = Landing {
                tree: tree_of(&self.disk),
                marks: Vec::new(),
                volume: volume(),
                insights: Vec::new(),
                now: 3_000_000,
                elapsed: "0.1".to_string(),
            };
            let snapshot =
                ScanSnapshot { files: 3, dirs: 2, bytes: 60_000, errors: 0, finished: false };
            self.web.poll_scan_once(snapshot, Some(Outcome::Landed(landing)));
        }
    }

    // ── pages ──────────────────────────────────────────────────────────

    fn words(&self) -> Words {
        fn numbers(node: &Node, all: &mut Vec<u64>) {
            for n in [node.bytes, node.own_bytes, node.files, node.dirs, node.dirs.saturating_sub(1)] {
                all.push(n);
            }
            for child in &node.children {
                numbers(child, all);
            }
        }
        let mut all = vec![0];
        let mut paths = vec![self.web.root_path.copy(), self.web.current_path()];
        if let Some(tree) = self.web.tree() {
            numbers(tree, &mut all);
        }
        for item in self.web.marks.items() {
            paths.push(item.path.copy());
        }
        let plan = self.plan();
        all.push(plan.bytes);
        let spell = |unit: &str| -> Vec<Worded> {
            all.iter().map(|n| Worded { value: *n, text: format!("{n}{unit}") }).collect()
        };
        let total = self.web.tree().map_or(0, |tree| tree.bytes);
        Words {
            bytes: spell(" B"),
            short: spell("B"),
            counts: spell(""),
            paths: paths
                .into_iter()
                .map(|path| PathText { text: path.display(), path })
                .collect(),
            shares: all
                .iter()
                .map(|n| Share {
                    part: *n,
                    total,
                    percent: format!("{n}/{total}"),
                    bar: "##".to_string(),
                    lane: "#".to_string(),
                    width: "50".to_string(),
                    exact: "50.0".to_string(),
                })
                .collect(),
            meters: vec![Meter {
                reclaiming: plan.bytes,
                used: "600000 B".to_string(),
                after: format!("{} B", 400_000 + plan.bytes),
                left: "60.0".to_string(),
                back: "0.0".to_string(),
            }],
            legend: vec![LegendRow { category: Category::Code, label: "Code".to_string() }],
            metric: "bytes".to_string(),
            estimate: "6".to_string(),
            progress: "0".to_string(),
            zoom: if (float(self.web.camera.scale) - 1.0).abs() > 0.01 {
                Some(format!("{:.1}×", float(self.web.camera.scale)))
            } else {
                None
            },
            panel: "368".to_string(),
            anchor: ("100".to_string(), "30".to_string()),
            checkout: false,
        }
    }

    fn canvas(&self) -> Canvas {
        fn spot(area: Area) -> Spot {
            Spot {
                x: format!("{:.1}", area.x),
                y: format!("{:.1}", area.y),
                w: format!("{:.1}", area.w),
                h: format!("{:.1}", area.h),
            }
        }
        let (width, height) = self.size();
        let camera = self.web.camera;
        let tiles = self.web.cache.as_ref().map_or_else(Vec::new, |cache| {
            cache
                .tiles
                .iter()
                .map(|tile| {
                    let on = project(camera, tile.rect);
                    let owned = project(camera, tile.header.unwrap_or(tile.rect));
                    let base = area(tile.rect);
                    Drawn {
                        near: on.x < width && on.x + on.w > 0.0 && on.y < height && on.y + on.h > 0.0,
                        large: on.w > 0.5 && on.h > 0.5,
                        roomy: on.w > 12.0 && on.h > 12.0,
                        labelled: owned.w >= 54.0 && owned.h >= 15.0,
                        spot: spot(on),
                        strip: "2.0".to_string(),
                        corner: (format!("{:.1}", on.x), format!("{:.1}", on.y)),
                        ring: spot(on),
                        area: single(base.w * base.h),
                        keep: Keep::Whole,
                        label: Lettering {
                            fits: owned.w >= 39.6 && owned.h >= 12.0,
                            spot: spot(owned),
                            x: format!("{:.1}", owned.x + 5.04),
                            baseline: format!("{:.1}", owned.y + 12.84),
                            tall: owned.h >= 35.4,
                            below: format!("{:.1}", owned.y + 27.7),
                            end: format!("{:.1}", owned.x + owned.w - 5.04),
                            room: false,
                            after: format!("{:.1}", owned.x),
                        },
                    }
                })
                .collect()
        });
        Canvas { width: format!("{width:.0}"), height: format!("{height:.0}"), tiles }
    }

    fn page(&mut self) -> Page {
        self.layout();
        Page {
            canvas: self.canvas(),
            plan: self.plan(),
            now: 3_000_000,
            words: self.words(),
            palette: palette(),
        }
    }

    fn frame(&mut self) -> Frame {
        let page = self.page();
        frame(&self.web, &page)
    }

    fn mosaic(&mut self) -> String {
        let page = self.page();
        self.web.mosaic(&page.canvas, &page.words, &page.palette)
    }

    // ── requests ───────────────────────────────────────────────────────

    fn event(value: &Value) -> Option<Event> {
        let number = |name: &str| value[name].as_f64().map(|n| single(n as f32));
        let text = |name: &str| value[name].as_str().map(str::to_string);
        let crumbs = |name: &str| -> Option<Vec<usize>> {
            value[name].as_array()?.iter().map(|n| n.as_u64().map(|n| n as usize)).collect()
        };
        Some(match value["type"].as_str()? {
            "key" => Event::Key {
                key: text("key")?,
                ctrl: false,
                shift: false,
                alt: value["alt"].as_bool().unwrap_or(false),
            },
            "move" => Event::Move { x: number("x")?, y: number("y")? },
            "leave" => Event::Leave,
            "zoom" => Event::Zoom { x: number("x")?, y: number("y")?, factor: number("factor")? },
            "pan" => Event::Pan { dx: number("dx")?, dy: number("dy")? },
            "mark" => Event::Mark { crumbs: crumbs("crumbs")? },
            "unmark" => Event::Unmark { path: text("path")? },
            "removal" => Event::Removal { mode: text("mode")? },
            "commit" => Event::Commit,
            "confirm_delete" => Event::ConfirmDelete,
            _ => return None,
        })
    }

    fn answer(&mut self, w: f32, h: f32, events: Vec<Event>) -> Answer {
        self.web.begin_batch(single(w), single(h), None);
        let traffic = traffic_of(&events);
        let before = (self.web.crumbs.clone(), self.web.screen);
        for event in events {
            let (w, h) = self.size();
            let (x, y, factor, drag, key) = match &event {
                Event::Move { x, y } => (float(*x), float(*y), 1.0, (0.0, 0.0), String::new()),
                Event::Zoom { x, y, factor } => {
                    (float(*x), float(*y), float(*factor), (0.0, 0.0), String::new())
                }
                Event::Pan { dx, dy } => (0.0, 0.0, 1.0, (float(*dx), float(*dy)), String::new()),
                Event::Key { key, .. } => (w / 2.0, h / 2.0, 1.25, (0.0, 0.0), key.clone()),
                _ => (0.0, 0.0, 1.0, (0.0, 0.0), String::new()),
            };
            let around = self.around(x, y, factor, drag, &key);
            self.web.apply(event, around);
        }
        let earned = self.web.earned(traffic, &before.0, before.1);
        let page = self.page();
        self.web.answer(earned, &page)
    }

    fn request(&mut self, method: Method, url: &str, headers: &[(&str, &str)], body: &str) -> Reply {
        let head = Head {
            method,
            url: url.to_string(),
            headers: headers
                .iter()
                .map(|(name, value)| HeaderField { name: name.to_string(), value: value.to_string() })
                .collect(),
        };
        let assets = Assets {
            index: b"<title>disktree</title>".to_vec(),
            script: b"fetch('api/input')".to_vec(),
            style: b"body{}".to_vec(),
        };
        let answer = match handle(&head, &assets, self.token.as_ref()) {
            Step::Reply(reply) => return reply,
            Step::Frame(params) => {
                let side = |text: Option<String>| text.and_then(|t| t.parse().ok()).unwrap_or(0.0);
                self.answer(side(params.w), side(params.h), Vec::new())
            }
            Step::ReadInput => {
                let Ok(input) = serde_json::from_str::<Value>(body) else {
                    return bad_request();
                };
                let Some(events) = input["events"].as_array() else {
                    return bad_request();
                };
                let Some(events) = events.iter().map(Self::event).collect() else {
                    return bad_request();
                };
                let side = |name: &str| input[name].as_f64().unwrap_or(0.0) as f32;
                self.answer(side("w"), side("h"), events)
            }
            Step::ExportList | Step::ExportPrompt => panic!("not asked for here"),
        };
        let written = match &answer {
            Answer::Frame(frame) => Some(format!(
                "{{\"html\":{},\"title\":{},\"busy\":{}}}",
                Value::from(frame.html.as_str()),
                Value::from(frame.title.as_str()),
                frame.busy,
            )),
            _ => None,
        };
        respond(&head, &answer, written)
    }

    fn http(&mut self, method: &str, url: &str, body: Option<&str>) -> (u16, String) {
        let method = if method == "GET" { Method::Get } else { Method::Post };
        let reply = self.request(method, url, &[], body.unwrap_or(""));
        (reply.status, String::from_utf8(reply.body).unwrap())
    }
}

fn palette() -> Palette {
    let shades = |what: &str, index: usize| -> Vec<Shades> {
        (0..5)
            .map(|depth| Shades {
                shown: format!("{what}-{index}-{depth}"),
                holds: format!("{what}-{index}-{depth}-holds"),
                out: format!("{what}-{index}-{depth}-out"),
            })
            .collect()
    };
    Palette {
        categories: (0..9).map(|index| shades("category", index)).collect(),
        ages: (0..5).map(|index| shades("age", index)).collect(),
        accents: (0..9).map(|index| format!("accent-{index}")).collect(),
        age_accents: (0..5).map(|index| format!("age-accent-{index}")).collect(),
        marked: "#marked".to_string(),
        hatch: "#hatch".to_string(),
        highlight: "#highlight".to_string(),
        danger: "#danger".to_string(),
        warning: "#warning".to_string(),
        label_top: "#label-top".to_string(),
        label: "#label".to_string(),
        label_dim: "#label-dim".to_string(),
    }
}

fn is_marked(host: &Host, index: usize, wanted: &str) -> bool {
    host.web.marks.items()[index].path.bytes == path(wanted).bytes
}

fn notice(host: &Host) -> String {
    let notice: &Notice = host.web.notice.as_ref().expect("a notice");
    notice.message("the path", "the ancestor")
}

// ── the state machine ──────────────────────────────────────────────────

#[test]
fn the_full_removal_flow_over_the_state_machine() {
    let mut app = host();
    assert_eq!(app.web.tree().map(|t| t.children.len()), Some(3));
    // The largest entry is selected from the first frame: junk.
    assert_eq!(app.web.selected, Some(vec![0]));

    app.key("space");
    assert_eq!(app.web.marks.len(), 1);
    assert!(is_marked(&app, 0, "/tmp/fixture/junk"));

    app.key("c");
    assert_eq!(app.web.screen, Screen::Review);
    let frame = app.frame();
    assert!(frame.html.contains("Review"), "the review screen renders");
    assert!(frame.html.contains("junk"), "the marked row is named");

    // The permanent path always asks first.
    app.key("p");
    app.key("enter");
    assert!(app.web.confirm_open, "permanent deletion asks first");
    let frame = app.frame();
    assert!(frame.html.contains("permanently?"), "the dialog names it");

    app.key("enter");
    assert!(!app.web.confirm_open);
    assert_eq!(app.web.screen, Screen::Running);
    app.settle();

    assert_eq!(app.web.screen, Screen::Done);
    assert_eq!(app.web.run_summary.removed, 1);
    assert!(!app.disk.contains(&"junk"), "the marked directory is gone");
    assert!(app.disk.contains(&"keep"), "its neighbour is untouched");
    assert!(app.disk.contains(&"standalone.bin"), "and so is the loose file");
    assert!(app.web.marks.is_empty(), "the run clears the marks");

    app.key("enter");
    assert_eq!(app.web.screen, Screen::Explore);
    app.settle();
    let tree = app.web.tree().expect("the rescan landed");
    assert_eq!(tree.children.len(), 2, "the tree matches the disk again");
}

#[test]
fn trash_mode_is_offered_only_with_a_backend() {
    let mut app = host();
    app.key("space");
    app.key("c");
    let frame = app.frame();
    if app.web.trash.available {
        assert!(frame.html.contains("Move to trash"));
    } else {
        assert!(frame.html.contains("Delete permanently"));
    }

    let mut bare = host();
    bare.web = Web::with_tree(
        path(ROOT),
        tree_of(&bare.disk),
        options(),
        3,
        machine(false),
        Vec::new(),
    );
    bare.key("space");
    bare.key("c");
    let frame = bare.frame();
    assert!(frame.html.contains("Delete permanently"));
    assert!(frame.html.contains("<button class=\"seg\" disabled"), "no trash to move to");
}

#[test]
fn the_root_itself_cannot_be_marked() {
    let mut app = host();
    app.web.selected = Some(Vec::new());
    app.key("space");
    assert!(app.web.marks.is_empty());
    let message = notice(&app);
    assert!(message.contains("cannot be removed"), "{message}");
}

#[test]
fn marking_a_parent_absorbs_the_marks_inside_it() {
    let mut app = host();
    // Mark big.bin inside junk, then junk itself: the inner mark is absorbed.
    app.web.go_to(vec![0]);
    app.select(&[0, 0]);
    app.key("space");
    assert_eq!(app.web.marks.len(), 1);
    assert!(is_marked(&app, 0, "/tmp/fixture/junk/big.bin"));

    app.web.ascend();
    app.select(&[0]);
    app.key("space");
    assert_eq!(app.web.marks.len(), 1, "the parent absorbs the child mark");
    assert!(is_marked(&app, 0, "/tmp/fixture/junk"));
    assert_eq!(notice(&app), "the path now covers 1 mark inside it");

    // And inside the marked directory there is nothing to mark on its own.
    app.web.go_to(vec![0]);
    app.select(&[0, 0]);
    app.key("space");
    let message = notice(&app);
    assert!(message.contains("goes with the marked"), "{message}");
    assert_eq!(app.web.marks.len(), 1);
}

#[test]
fn the_filter_narrows_the_layout_to_matches() {
    let mut app = host();
    app.web.find = "big".to_string();
    assert!(app.web.wants_matches());
    let found = app.found("big");
    app.web.refresh_matches(found);
    assert_eq!(app.web.matches.as_ref().expect("a match set").count, 1);

    app.web.apply_filter();
    assert!(app.web.filter_applied);
    app.layout();
    let tiles = &app.web.cache.as_ref().expect("tiles").tiles;
    assert!(!tiles.is_empty());
    for tile in tiles {
        assert!(
            tile.crumbs.starts_with(&[0]),
            "an unrelated tile survived the filter: {:?}",
            tile.crumbs,
        );
    }
    app.web.clear_filter();
    assert!(!app.web.filter_applied);
}

#[test]
fn the_wheel_zooms_then_descends_and_zooms_back_out() {
    let mut app = host();
    // Over the middle of the biggest tile, so the gesture has a target.
    app.layout();
    let rect = area(app.web.tile_rect(&[0]).expect("the largest tile is drawn"));
    let (x, y) = (rect.x + rect.w / 2.0, rect.y + rect.h / 2.0);

    for _ in 0..40 {
        app.wheel(x, y, 1.0);
        if !app.web.crumbs.is_empty() {
            break;
        }
    }
    assert!(!app.web.crumbs.is_empty(), "zooming far enough goes inside: {:?}", app.web.crumbs);
    assert!(
        (float(app.web.camera.scale) - 1.0).abs() < f32::EPSILON,
        "the new level resets zoom",
    );

    for _ in 0..40 {
        app.wheel(x, y, -1.0);
    }
    assert!(app.web.crumbs.is_empty(), "zooming out comes back to the root");
}

#[test]
fn arrow_keys_move_the_selection_between_siblings() {
    let mut app = host();
    assert_eq!(app.web.selected, Some(vec![0]));
    app.key("right");
    assert_eq!(app.web.selected, Some(vec![1]));
    app.key("left");
    assert_eq!(app.web.selected, Some(vec![0]));
}

#[test]
fn the_sibling_menu_jumps_sideways() {
    let mut app = host();
    app.web.go_to(vec![0]);
    assert!(!app.web.crumbs.is_empty());
    app.web.open_crumb_menu(&[0], (single(100.0), single(30.0)));
    assert!(app.web.crumb_menu.is_some());
    app.key("down");
    assert_eq!(app.web.crumb_menu.as_ref().map(|menu| menu.highlighted), Some(1));
    app.key("enter");
    assert!(app.web.crumb_menu.is_none(), "choosing closes the menu");
    // The second largest is a file: it is shown in its directory.
    assert_eq!(app.web.selected, Some(vec![1]));
    assert!(app.web.crumbs.is_empty());
}

#[test]
fn the_frame_names_every_screen_and_the_tiles() {
    let mut app = host();
    let frame = app.frame();
    assert!(frame.html.contains("<svg"), "the mosaic is painted");
    assert!(frame.html.contains("junk"), "tile labels are emitted");
    assert!(frame.html.contains("id=\"hatch\""), "the reclaimable pattern exists");
    assert!(!frame.busy, "with_tree needs no scan");
    assert!(frame.title.contains("disktree"));

    // A marked tile takes the danger fill, and everything inside it.
    assert!(!frame.html.contains("#marked"));
    app.key("space");
    let frame = app.frame();
    assert!(frame.html.contains("#marked"), "the marked fill is on the mosaic");
    assert!(frame.html.contains("data-covered=\"junk\""), "what is inside goes along");
}

#[test]
fn panning_drags_the_view_and_stays_inside() {
    let mut app = host();
    // Zoom in so there is somewhere to pan.
    let around = app.around(600.0, 350.0, 2.0, (0.0, 0.0), "=");
    app.web.zoom_at(single(2.0), false, &around);
    let before = app.web.camera;
    app.pan(60.0, 30.0);
    assert!(
        float(app.web.camera.origin_x) < float(before.origin_x),
        "dragging pans the view",
    );
    assert!(float(app.web.camera.origin_y) < float(before.origin_y));
    // Far past the edge: clamped, no empty margin, ever.
    for _ in 0..50 {
        app.pan(-4000.0, -4000.0);
    }
    assert!(float(app.web.camera.origin_x) >= 0.0);
    assert!(float(app.web.camera.origin_y) >= 0.0);
}

#[test]
fn the_touch_bar_offers_the_key_actions() {
    let mut app = host();
    let frame = app.frame();
    assert!(frame.html.contains("id=\"touch-bar\""));
    assert!(frame.html.contains("Mark"));
    // The largest entry is selected, so Mark is live and Open is offered.
    app.key("space");
    let frame = app.frame();
    assert!(frame.html.contains("Unmark"), "the bar follows the mark");
    assert!(frame.html.contains("Review · <b>1</b>"));
}

#[test]
fn zooming_culls_the_tiles_off_screen() {
    let mut app = host();
    let identity = app.mosaic();
    // Deep into the biggest tile: most of the tree is off-screen now.
    let around = app.around(600.0, 350.0, 4.0, (0.0, 0.0), "=");
    app.web.zoom_at(single(4.0), false, &around);
    let zoomed = app.mosaic();
    let count = |svg: &str| svg.matches("g-tile").count();
    assert!(
        count(&zoomed) < count(&identity),
        "culled: {} -> {}",
        count(&identity),
        count(&zoomed),
    );
    assert!(zoomed.contains("junk"), "what is on screen stays painted");
}

// ── requests ───────────────────────────────────────────────────────────

#[test]
fn the_token_gate_holds() {
    let mut app = host();
    app.token = Some(Token::new("s3cret"));

    let (status, _) = app.http("GET", "/", None);
    assert_eq!(status, 401, "no token, no page");
    let (status, _) = app.http("GET", "/api/frame?w=1200&h=700", None);
    assert_eq!(status, 401, "no token, no frames either");

    // The script and style tags cannot carry a token, and carry no data:
    // they are the only exemption.
    let (status, body) = app.http("GET", "/static/app.js", None);
    assert_eq!(status, 200, "the shim loads without a token");
    assert!(body.contains("api/input"));
    let (status, _) = app.http("GET", "/static/style.css", None);
    assert_eq!(status, 200);

    let (status, body) = app.http("GET", "/?token=s3cret", None);
    assert_eq!(status, 200);
    assert!(body.contains("disktree"), "the shell ships: {body}");
    let (status, body) = app.http("GET", "/api/frame?w=1200&h=700&token=s3cret", None);
    assert_eq!(status, 200);
    assert!(body.contains("\"html\""), "a frame is JSON: {body:.200}");

    // The header form, under any capitals; and nothing that is nearly it.
    let bearer = [("AUTHORIZATION", "Bearer s3cret")];
    assert_eq!(app.request(Method::Get, "/", &bearer, "").status, 200);
    let wrong = [("Authorization", "Bearer s3cre")];
    assert_eq!(app.request(Method::Get, "/", &wrong, "").status, 401);
    let (status, _) = app.http("GET", "/static/app.js/../../api/frame", None);
    assert_eq!(status, 401, "the exemption is exact, never a prefix");
}

#[test]
fn input_over_http_marks_and_the_frame_admits_it() {
    let mut app = host();

    let mark = "{\"w\":1200,\"h\":700,\"events\":[{\"type\":\"mark\",\"crumbs\":[0]}]}";
    let (status, body) = app.http("POST", "/api/input", Some(mark));
    assert_eq!(status, 200);
    assert!(body.contains("Marked"), "the panel's marked section shows it: {body:.400}");

    let review = "{\"w\":1200,\"h\":700,\"events\":[{\"type\":\"key\",\"key\":\"c\"}]}";
    let (_, body) = app.http("POST", "/api/input", Some(review));
    assert!(body.contains("Review"), "the key drove the screen");
    assert!(body.contains("junk"), "the row names the mark");
}

#[test]
fn removal_over_http_deletes_and_rescans() {
    let mut app = host();

    // Mark junk, choose permanent, commit, confirm: the whole destructive
    // path, through the requests it will really come in.
    let batch = "{\"w\":1200,\"h\":700,\"events\":[\
        {\"type\":\"mark\",\"crumbs\":[0]},\
        {\"type\":\"key\",\"key\":\"c\"},\
        {\"type\":\"removal\",\"mode\":\"permanent\"},\
        {\"type\":\"commit\"},\
        {\"type\":\"confirm_delete\"}\
        ]}";
    let (status, body) = app.http("POST", "/api/input", Some(batch));
    assert_eq!(status, 200);
    assert!(body.contains("Removing"), "the run starts at once: {body:.200}");

    app.settle();
    let (_, body) = app.http("GET", "/api/frame?w=1200&h=700", None);
    assert!(body.contains("\"busy\":false"));
    assert!(!body.contains("Removing"));
    assert!(!app.disk.contains(&"junk"), "the marked directory is gone");
    assert!(app.disk.contains(&"keep"));
    assert!(app.disk.contains(&"standalone.bin"));
}

#[test]
fn zoom_and_pan_events_drive_the_view() {
    let mut app = host();
    let (_, before) = app.http("GET", "/api/frame?w=1200&h=700", None);
    let batch = "{\"w\":1200,\"h\":700,\"events\":[\
        {\"type\":\"zoom\",\"x\":600,\"y\":350,\"factor\":2.0},\
        {\"type\":\"pan\",\"dx\":40,\"dy\":10}\
        ]}";
    let (status, body) = app.http("POST", "/api/input", Some(batch));
    assert_eq!(status, 200);
    // A camera-only gesture gets the mosaic alone, never the whole page.
    assert!(body.contains("\"mosaic\""), "a mosaic answer: {body:.120}");
    assert!(!body.contains("\"html\""), "not a full frame: {body:.120}");
    let mosaic_of = |html: &str| html.split_once("<svg").map(|(_, rest)| rest.to_string());
    assert_ne!(mosaic_of(&before), mosaic_of(&body), "zoom and pan repaint the mosaic");
}

#[test]
fn pointer_traffic_is_acknowledged_without_a_frame() {
    let mut app = host();
    let batch = "{\"w\":1200,\"h\":700,\"events\":[\
        {\"type\":\"move\",\"x\":100,\"y\":100},\
        {\"type\":\"move\",\"x\":120,\"y\":110},\
        {\"type\":\"leave\"}\
        ]}";
    let (status, body) = app.http("POST", "/api/input", Some(batch));
    assert_eq!(status, 204, "moves are acknowledged, not rendered");
    assert!(body.is_empty());

    // But the server still tracks the pointer: space then acts on the tile
    // last under it, the pointer-first rule.
    let batch = "{\"w\":1200,\"h\":700,\"events\":[\
        {\"type\":\"move\",\"x\":100,\"y\":100}\
        ]}";
    app.http("POST", "/api/input", Some(batch));
    let (_, body) = app.http(
        "POST",
        "/api/input",
        Some("{\"w\":1200,\"h\":700,\"events\":[{\"type\":\"key\",\"key\":\"space\"}]}"),
    );
    assert!(body.contains("Marked"), "space marked the hovered tile");
    assert_eq!(app.web.marks.len(), 1);
}

#[test]
fn a_gesture_that_enters_a_directory_answers_a_full_frame() {
    let mut app = host();
    // Zooming far into the biggest tile descends; the breadcrumbs and panel
    // change with the directory, so the answer is the whole page. Two events,
    // because the first clamps at the tile's fill-the-viewport ceiling and
    // the second goes inside.
    let batch = "{\"w\":1200,\"h\":700,\"events\":[\
        {\"type\":\"zoom\",\"x\":600,\"y\":350,\"factor\":40.0},\
        {\"type\":\"zoom\",\"x\":600,\"y\":350,\"factor\":40.0}\
        ]}";
    let (status, body) = app.http("POST", "/api/input", Some(batch));
    assert_eq!(status, 200);
    assert!(body.contains("\"html\""), "descending repaints all: {body:.120}");
    assert_eq!(app.web.crumbs, vec![0]);
}

#[test]
fn frames_come_gzipped_when_accepted() {
    let mut app = host();
    let payload = "{\"w\":1200,\"h\":700,\"events\":[{\"type\":\"key\",\"key\":\"0\"}]}";
    let gzip = [("Accept-Encoding", "gzip")];
    let reply = app.request(Method::Post, "/api/input", &gzip, payload);
    let headers: Vec<String> =
        reply.headers.iter().map(|header| format!("{}: {}", header.name, header.value)).collect();
    assert!(headers.contains(&"Content-Encoding: gzip".to_string()), "{headers:?}");
    assert!(headers.contains(&"Vary: Accept-Encoding".to_string()), "{headers:?}");
    let mut decoded = String::new();
    std::io::Read::read_to_string(
        &mut flate2::read::GzDecoder::new(reply.body.as_slice()),
        &mut decoded,
    )
    .expect("valid gzip");
    assert!(decoded.contains("\"html\""), "{decoded:.120}");

    // The same JSON, as it is, for a client that does not ask.
    let plain = app.request(Method::Post, "/api/input", &[], payload);
    assert_eq!(String::from_utf8(plain.body).unwrap(), decoded);
    assert!(plain.headers.iter().all(|header| header.name != "Content-Encoding"));
}

#[test]
fn a_garbage_removal_mode_never_arms_permanent_deletion() {
    let mut app = host();
    let batch = "{\"w\":1200,\"h\":700,\"events\":[\
        {\"type\":\"mark\",\"crumbs\":[0]},\
        {\"type\":\"key\",\"key\":\"c\"},\
        {\"type\":\"removal\",\"mode\":\"delete_everything_forever\"}\
        ]}";
    let (status, body) = app.http("POST", "/api/input", Some(batch));
    assert_eq!(status, 200);
    assert!(
        body.contains("Move to trash"),
        "an unknown mode keeps the recoverable one: {body:.200}",
    );
    assert!(!body.contains("btn danger\\\""), "no armed danger button");
    assert!(!body.contains("btn danger\""), "no armed danger button");
}

/// A name that is not UTF-8 must not wedge the renderer: every frame while it
/// is marked carries its path in `data-ev`.
#[test]
fn non_utf8_names_survive_marking_and_unmarking() {
    let tree = node(b"root", 0, vec![file(b"odd\xffname.bin", 3)], true);
    let mut app = host();
    app.web = Web::with_tree(path("/tmp/odd"), tree, options(), 3, machine(true), Vec::new());
    app.web.mosaic_size = (single(1200.0), single(700.0));
    let odd = OsPath::from_bytes(b"/tmp/odd/odd\xffname.bin".to_vec());

    // Mark it (largest = only child) and render the review screen: the mark
    // row's Unmark button carries the path.
    app.key("space");
    assert_eq!(app.web.marks.len(), 1);
    app.key("c");
    let frame = app.frame();
    assert!(frame.html.contains("odd"), "the row renders");

    // Round-trip the exact bytes through the codec the wire uses.
    let encoded = path_attr(&odd);
    assert!(encoded.contains("%FF"), "{encoded}");
    assert!(frame.html.contains(&encoded));
    let body = format!(
        "{{\"w\":1200,\"h\":700,\"events\":[{{\"type\":\"unmark\",\"path\":\"{encoded}\"}}]}}"
    );
    let decoded: Value = serde_json::from_str(&body).unwrap();
    let events = decoded["events"].as_array().unwrap();
    let coded = events[0]["path"].as_str().unwrap();
    let path = decode_path(coded).expect("decodes");
    assert_eq!(path.bytes, odd.bytes, "byte-exact round trip");

    let (status, _) = app.http("POST", "/api/input", Some(&body));
    assert_eq!(status, 200);
    assert!(app.web.marks.is_empty());
}

#[test]
fn unknown_routes_are_404_and_bad_bodies_400() {
    let mut app = host();
    let (status, _) = app.http("GET", "/nope", None);
    assert_eq!(status, 404);
    let (status, _) = app.http("POST", "/api/input", Some("not json"));
    assert_eq!(status, 400);
}

#[test]
fn the_dialog_keeps_keys_from_the_screen_behind_it() {
    let mut app = host();
    app.key("space");
    app.key("c");
    app.key("p");
    app.key("enter");
    assert!(app.web.confirm_open);
    app.key("!");
    assert_eq!(app.web.marks.len(), 1, "the review's own keys wait");
    app.key("escape");
    assert!(!app.web.confirm_open);
    assert_eq!(app.web.screen, Screen::Review);
}

#[test]
fn tab_goes_round_the_siblings_and_back() {
    let mut app = host();
    app.key("tab");
    assert_eq!(app.web.selected, Some(vec![1]));
    app.key("tab");
    app.key("tab");
    assert_eq!(app.web.selected, Some(vec![0]), "round the end");
    app.web.cycle_sibling(-1);
    assert_eq!(app.web.selected, Some(vec![2]));
    app.web.cycle_sibling(1);
    assert_eq!(app.web.selected, Some(vec![0]));
}

#[test]
fn clicks_select_then_open_and_the_middle_button_marks() {
    let mut app = host();
    app.layout();
    let click = |app: &mut Host, x: f32, button: u8, count: u32| {
        let around = app.around(x, 10.0, 1.0, (0.0, 0.0), "");
        let event = Event::Click { x: single(x), y: single(10.0), button, ctrl: false, count };
        app.web.apply(event, around);
    };
    // The right button does nothing.
    click(&mut app, 900.0, 2, 1);
    assert_eq!(app.web.selected, Some(vec![0]));
    click(&mut app, 900.0, 0, 1);
    assert_eq!(app.web.selected, Some(vec![1]));
    click(&mut app, 900.0, 1, 1);
    assert!(is_marked(&app, 0, "/tmp/fixture/standalone.bin"));
    // A second click on the selected directory opens it.
    click(&mut app, 5.0, 0, 1);
    assert_eq!(app.web.selected, Some(vec![0]));
    click(&mut app, 5.0, 0, 1);
    assert_eq!(app.web.crumbs, vec![0]);
    // And going up comes back, with the directory it came from selected.
    app.web.ascend();
    assert!(app.web.crumbs.is_empty());
    assert_eq!(app.web.selected, Some(vec![0]));
}

#[test]
fn a_double_click_opens_what_it_points_at() {
    let mut app = host();
    let around = app.around(5.0, 10.0, 1.0, (0.0, 0.0), "");
    let event = Event::Click { x: single(5.0), y: single(10.0), button: 0, ctrl: false, count: 2 };
    app.web.apply(event, around);
    assert_eq!(app.web.crumbs, vec![0]);
    assert_eq!(app.web.camera, Camera::identity());
}

#[test]
fn find_opens_applies_and_lapses() {
    let mut app = host();
    app.key("/");
    assert!(app.web.find_open);
    app.web.go_to(vec![0]);
    app.web.find = "big".to_string();
    let found = app.found("big");
    app.web.refresh_matches(found);
    app.web.apply_filter();
    assert_eq!(app.web.selected, Some(vec![0, 0]), "the largest match is selected");
    // Above the directory it was typed in, a filter lapses.
    app.web.ascend();
    app.layout();
    assert!(app.web.matches.is_none());
    assert!(!app.web.filter_applied);
}

#[test]
fn a_filter_that_matches_nothing_says_so() {
    let mut app = host();
    app.web.find = "zzz".to_string();
    let found = app.found("zzz");
    app.web.refresh_matches(found);
    app.web.apply_filter();
    assert!(!app.web.filter_applied);
    assert_eq!(notice(&app), "nothing here matches zzz");
    let frame = app.frame();
    assert!(frame.html.contains("no matches"));
}

#[test]
fn the_review_wants_something_marked() {
    let mut app = host();
    app.key("c");
    assert_eq!(app.web.screen, Screen::Explore);
    assert_eq!(notice(&app), "mark something first: space marks the selected tile");
}

#[test]
fn escape_stops_a_running_removal() {
    let mut app = host();
    app.key("space");
    app.key("c");
    app.key("enter");
    assert_eq!(app.web.screen, Screen::Running, "the trash needs no dialog");
    let around = app.around(0.0, 0.0, 1.0, (0.0, 0.0), "escape");
    let effect = app.web.on_key("escape", false, false, around);
    assert!(matches!(effect, Effect::StopRemoval));
    assert_eq!(notice(&app), "stopping after the current item");
}

#[test]
fn a_first_batch_without_a_size_gets_a_real_one() {
    let mut app = host();
    app.web.mosaic_size = (single(0.0), single(0.0));
    app.web.begin_batch(single(0.0), single(f32::INFINITY), Some(false));
    assert_eq!(app.size(), (1280.0, 800.0));
    app.web.begin_batch(single(f32::NAN), single(5.0), None);
    assert_eq!(app.size(), (1280.0, 800.0), "a bad size changes nothing");
    app.web.begin_batch(single(640.0), single(480.0), Some(true));
    assert_eq!(app.size(), (640.0, 480.0));
}

#[test]
fn the_modes_go_round_and_ask_for_a_ranking() {
    let mut app = host();
    assert_eq!(app.web.mode_index(), 0);
    for wanted in [1, 2, 0] {
        let around = app.around(0.0, 0.0, 1.0, (0.0, 0.0), "t");
        let effect = app.web.on_key("t", false, false, around);
        assert_eq!(app.web.mode_index(), wanted);
        // Size to Files and Files to Age change what is measured.
        assert_eq!(matches!(effect, Effect::Remeasure { .. }), wanted != 0);
    }
}

#[test]
fn the_depth_stays_between_its_limits() {
    let mut app = host();
    for _ in 0..9 {
        app.key("]");
    }
    assert_eq!(app.web.depth, 6);
    for _ in 0..9 {
        app.key("[");
    }
    assert_eq!(app.web.depth, 1);
    let frame = app.frame();
    assert!(frame.html.contains("Depth 1"));
}

#[test]
fn widening_reuses_what_is_measured() {
    let mut app = host();
    let around = app.around(0.0, 0.0, 1.0, (0.0, 0.0), "");
    let event = Event::Widen { path: "/tmp".to_string() };
    match app.web.apply(event, around) {
        Effect::Widen { root, known, .. } => {
            assert_eq!(root.bytes, b"/tmp");
            assert_eq!(known.bytes, ROOT.as_bytes());
        }
        other => panic!("not a widening: {other:?}"),
    }
    assert!(app.web.tree().is_some(), "the view stays until the wider tree lands");
    let frame = app.frame();
    assert!(frame.html.contains("crumb above pending"));
    assert!(frame.busy);

    // Below the root there is nothing to widen to, and a bad path is dropped.
    for wrong in ["/tmp/fixture/junk", "/tmp/fixture", "%zz"] {
        let around = app.around(0.0, 0.0, 1.0, (0.0, 0.0), "");
        let event = Event::Widen { path: wrong.to_string() };
        assert!(matches!(app.web.apply(event, around), Effect::Nothing));
    }
}

#[test]
fn alt_and_the_arrows_go_through_the_directories_visited() {
    let mut app = host();
    let press = |app: &mut Host, key: &str| {
        let body = format!(
            "{{\"w\":1200,\"h\":700,\"events\":[{{\"type\":\"key\",\"key\":\"{key}\",\"alt\":true}}]}}"
        );
        app.http("POST", "/api/input", Some(&body)).1
    };
    // Nowhere to go yet: both buttons are off, and the keys do nothing.
    let frame = app.frame();
    assert_eq!(frame.html.matches("<button class=\"seg\" disabled title=").count(), 2);
    press(&mut app, "left");
    assert!(app.web.crumbs.is_empty());
    assert_eq!(app.web.selected, Some(vec![0]), "alt and an arrow never moves the selection");

    app.web.go_to(vec![0]);
    app.web.go_to(vec![2]);
    app.web.go_to(vec![2]);
    assert_eq!(app.web.past, vec![vec![], vec![0]], "staying is no visit");
    press(&mut app, "left");
    assert_eq!(app.web.crumbs, vec![0]);
    let body = press(&mut app, "left");
    assert!(app.web.crumbs.is_empty());
    assert!(body.contains("Forward to "), "the button says where it leads");
    press(&mut app, "left");
    assert!(app.web.crumbs.is_empty(), "the first directory is the end of it");
    press(&mut app, "right");
    assert_eq!(app.web.crumbs, vec![0]);
    assert_eq!(app.web.history_target(true), Some(vec![]));
    assert_eq!(app.web.history_target(false), Some(vec![2]));

    // A new move gives the way forward up.
    app.web.ascend();
    assert_eq!(app.web.history_target(true), Some(vec![0]));
    assert_eq!(app.web.history_target(false), None);

    // The dialog and the other screens keep their keys.
    app.web.confirm_open = true;
    press(&mut app, "left");
    assert!(app.web.crumbs.is_empty());
    app.web.confirm_open = false;
    app.web.screen = Screen::Review;
    press(&mut app, "left");
    assert!(app.web.crumbs.is_empty());

    // Another tree has other directories.
    app.web.screen = Screen::Explore;
    app.web.start_scan();
    assert_eq!(app.web.history_target(true), None);
}

#[test]
fn what_was_reviewed_is_what_is_removed() {
    let mut app = host();
    app.key("space");
    app.key("c");
    let plan = app.plan();
    let around = app.around(0.0, 0.0, 1.0, (0.0, 0.0), "enter");
    match app.web.on_key("enter", false, false, around) {
        Effect::Remove { targets, .. } => {
            let paths = |list: &[Target]| -> Vec<Vec<u8>> {
                list.iter().map(|target| target.path.bytes.clone()).collect()
            };
            assert_eq!(paths(&targets), paths(&plan.targets));
            assert_eq!(targets[0].bytes, 100_004);
        }
        other => panic!("not a removal: {other:?}"),
    }
}
