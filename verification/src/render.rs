//! Markup that every screen shares.

use crate::app::{Screen, State, Web};
use crate::explore;
use crate::json;
use crate::marks::Plan;
use crate::mosaic::Canvas;
use crate::palette::Palette;
use crate::paths;
use crate::paths::OsPath;
use crate::review;
use crate::words::Words;
use vstd::prelude::*;

verus! {

/// A character in text or an attribute.
pub open spec fn escaped_char(c: char) -> Seq<char> {
    if c == '&' {
        "&amp;"@
    } else if c == '<' {
        "&lt;"@
    } else if c == '>' {
        "&gt;"@
    } else if c == '"' {
        "&quot;"@
    } else if c == '\'' {
        "&#39;"@
    } else {
        seq![c]
    }
}

/// Text as markup shows it.
pub open spec fn escaped(text: Seq<char>) -> Seq<char>
    decreases text.len(),
{
    if text.len() == 0 {
        Seq::empty()
    } else {
        escaped(text.drop_last()) + escaped_char(text.last())
    }
}

/// HTML-escape text and attribute content.
pub fn esc(text: &str) -> (r: String)
    ensures
        r@ == escaped(text@),
{
    let mut out = String::new();
    for ch in it: text.chars()
        invariant
            it.seq() == text@,
            out@ == escaped(text@.take(it.index())),
    {
        proof {
            let grown = text@.take(it.index() + 1);
            assert(grown.drop_last() =~= text@.take(it.index()));
            assert(grown.last() == ch);
        }
        let ghost before = out@;
        if ch == '&' {
            out.append("&amp;");
        } else if ch == '<' {
            out.append("&lt;");
        } else if ch == '>' {
            out.append("&gt;");
        } else if ch == '"' {
            out.append("&quot;");
        } else if ch == '\'' {
            out.append("&#39;");
        } else {
            out.push(ch);
            assert(out@ =~= before + seq![ch]);
        }
    }
    assert(text@.take(text@.len() as int) =~= text@);
    out
}

/// A word where a condition holds.
pub open spec fn when(holds: bool, word: Seq<char>) -> Seq<char> {
    if holds {
        word
    } else {
        ""@
    }
}

/// A word where a condition holds.
pub fn word_when(holds: bool, word: &'static str) -> (r: &'static str)
    ensures
        r@ == when(holds, word@),
{
    if holds {
        word
    } else {
        ""
    }
}

/// An event attribute.
pub open spec fn ev_attr(json: Seq<char>) -> Seq<char> {
    "data-ev=\""@ + escaped(json) + "\""@
}

/// An event attribute: JSON the browser shim posts back on click.
pub fn ev(json: &str) -> (r: String)
    ensures
        r@ == ev_attr(json@),
{
    "data-ev=\"".to_owned().concat(esc(json).as_str()).concat("\"")
}

/// The event attribute of a key press.
pub open spec fn key_attr(name: Seq<char>) -> Seq<char> {
    ev_attr(json::key_event(name))
}

/// The event attribute of a key press.
pub fn key_ev(name: &str) -> (r: String)
    ensures
        r@ == key_attr(name@),
{
    ev(json::key_json(name).as_str())
}

/// A path's last name, or the path itself where it has none.
pub open spec fn short(path: Seq<u8>) -> Seq<char> {
    paths::label(path)
}

/// A path's last name, or the path itself where it has none; never empty
/// where the path is not.
pub fn short_name(path: &OsPath) -> (r: String)
    ensures
        r@ == short(path@),
        path@.len() > 0 ==> r@.len() > 0,
{
    path.label()
}

/// What a page is drawn from besides the application's own state.
#[derive(Debug)]
pub struct Page {
    pub canvas: Canvas,
    /// The plan for the marks as they are.
    pub plan: Plan,
    /// Unix seconds now.
    pub now: i64,
    pub words: Words,
    pub palette: Palette,
}

/// What the browser swaps into the page after any input.
#[derive(Debug)]
pub struct Frame {
    /// The `#app` element's new content.
    pub html: String,
    /// The window title: the directory on screen.
    pub title: String,
    /// Scan or removal in flight: the browser polls faster while true.
    pub busy: bool,
    /// The find field's state, so the shim can keep its focus and text.
    pub find_open: bool,
    pub find: String,
    /// Which screen this is, so the shim can route the review screen's own
    /// keys (downloads and the clipboard are client-side things).
    pub screen: &'static str,
}

/// A frame, as contracts speak of it.
pub struct Picture {
    pub html: Seq<char>,
    pub title: Seq<char>,
    pub busy: bool,
    pub find_open: bool,
    pub find: Seq<char>,
    pub screen: Seq<char>,
}

impl View for Frame {
    type V = Picture;

    open spec fn view(&self) -> Picture {
        Picture {
            html: self.html@,
            title: self.title@,
            busy: self.busy,
            find_open: self.find_open,
            find: self.find@,
            screen: self.screen@,
        }
    }
}

/// What the shim calls a screen.
pub open spec fn screen_word(screen: Screen) -> Seq<char> {
    match screen {
        Screen::Explore => "explore"@,
        Screen::Review => "review"@,
        Screen::Running => "running"@,
        Screen::Done => "done"@,
    }
}

impl State {
    /// A page's tables have a row for everything it spells.
    pub open spec fn spelled(self, page: Page) -> bool {
        page.words.spells_all(self.spellings(page.plan))
    }

    /// A page has what the mosaic is painted with.
    pub open spec fn paintable(self, page: Page) -> bool {
        &&& page.palette.full()
        &&& self.laid_out(page.canvas)
        &&& self.spelled(page)
    }

    /// A page has what the screen is drawn with, and its totals fit.
    pub open spec fn drawable(self, page: Page) -> bool {
        &&& self.spelled(page)
        &&& self.screen == Screen::Explore ==> self.paintable(page)
        &&& self.screen == Screen::Explore && self.show_selection ==> self.worth_total()
            <= u64::MAX
        &&& self.screen == Screen::Running ==> review::done_count(self.run_summary) <= u64::MAX
    }

    /// The screen.
    pub open spec fn screen_markup(self, page: Page) -> Seq<char> {
        match self.screen {
            Screen::Explore => self.explore(
                page.canvas,
                page.plan,
                page.now,
                page.words,
                page.palette,
            ),
            Screen::Review => self.review(page.plan, page.words),
            Screen::Running => self.running(page.words),
            Screen::Done => self.done(page.words),
        }
    }

    /// One frame of the whole application: the screen, with a dialog over it
    /// where one is open.
    #[verifier::opaque]
    pub open spec fn frame(self, page: Page) -> Picture {
        Picture {
            html: self.screen_markup(page) + (if self.confirm_open {
                review::delete_markup(page.plan, page.words)
            } else {
                ""@
            }) + (if self.show_help {
                self.help_overlay(page.words)
            } else {
                ""@
            }),
            title: "disktree · "@ + page.words.place(self.current_path()),
            busy: self.scanning || self.removing,
            find_open: self.find_open,
            find: self.find,
            screen: screen_word(self.screen),
        }
    }
}

/// One frame of the whole application.
pub fn frame(app: &Web, page: &Page) -> (r: Frame)
    requires
        app@.drawable(*page),
    ensures
        r@ == app@.frame(*page),
{
    proof {
        reveal(State::frame);
    }
    let words = &page.words;
    let (body, screen) = match app.screen {
        Screen::Explore => (
            explore::explore(
                app,
                &page.canvas,
                &page.plan,
                page.now,
                words,
                &page.palette,
            ),
            "explore",
        ),
        Screen::Review => (review::review(app, &page.plan, words), "review"),
        Screen::Running => (review::running(app, words), "running"),
        Screen::Done => (review::done(app, words), "done"),
    };
    let dialog = if app.confirm_open {
        review::delete_dialog(&page.plan, words)
    } else {
        "".to_owned()
    };
    let help = if app.show_help {
        review::help_overlay(app, words)
    } else {
        "".to_owned()
    };
    Frame {
        html: body.concat(dialog.as_str()).concat(help.as_str()),
        title: "disktree · ".to_owned().concat(words.place_text(&app.current_path())),
        busy: app.busy(),
        find_open: app.find_open,
        find: app.find.as_str().to_owned(),
        screen,
    }
}

/// Escaped text holds nothing that could end an attribute or open a tag.
pub proof fn escaped_text_is_inert(text: Seq<char>)
    ensures
        forall|i: int|
            0 <= i < escaped(text).len() ==> {
                let c = #[trigger] escaped(text)[i];
                c != '<' && c != '>' && c != '"' && c != '\''
            },
    decreases text.len(),
{
    if text.len() > 0 {
        reveal_strlit("&amp;");
        reveal_strlit("&lt;");
        reveal_strlit("&gt;");
        reveal_strlit("&quot;");
        reveal_strlit("&#39;");
        let before = escaped(text.drop_last());
        let piece = escaped_char(text.last());
        escaped_text_is_inert(text.drop_last());
        assert forall|i: int| 0 <= i < escaped(text).len() implies {
            let c = #[trigger] escaped(text)[i];
            c != '<' && c != '>' && c != '"' && c != '\''
        } by {
            if i < before.len() {
                assert(escaped(text)[i] == before[i]);
            } else {
                assert(escaped(text)[i] == piece[i - before.len()]);
            }
        }
    }
}

} // verus!
