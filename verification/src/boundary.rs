//! What holds at the edges: text, paths, requests, replies and the command
//! line.

use crate::app::{ScanOptions, State};
use crate::args;
use crate::args::{Choice, Meaning, Word};
use crate::palette::Appearance;
use crate::paths;
use crate::render;
use crate::render::Page;
use crate::server;
use crate::server::{Answered, Assets, Asked, Earned, Head, Message, Method, Route};
use crate::single;
use crate::single::Single;
use crate::text;
use crate::tree::Metric;
use vstd::prelude::*;

verus! {

// ── text ───────────────────────────────────────────────────────────────

/// A character is found where it first is, and nowhere else.
pub proof fn a_character_is_found_where_it_first_is(line: Seq<char>, wanted: char, from: int)
    requires
        0 <= from <= line.len(),
    ensures
        match text::found(line, wanted, from) {
            Some(at) => {
                &&& from <= at < line.len()
                &&& line[at] == wanted
                &&& forall|i: int| from <= i < at ==> line[i] != wanted
            },
            None => forall|i: int| from <= i < line.len() ==> line[i] != wanted,
        },
    decreases line.len() - from,
{
    if from < line.len() && line[from] != wanted {
        a_character_is_found_where_it_first_is(line, wanted, from + 1);
    }
}

/// Pieces with separators between them.
pub open spec fn woven(pieces: Seq<Seq<char>>, separator: char) -> Seq<char>
    decreases pieces.len(),
{
    if pieces.len() == 0 {
        Seq::empty()
    } else if pieces.len() == 1 {
        pieces[0]
    } else {
        woven(pieces.drop_last(), separator).push(separator) + pieces.last()
    }
}

/// Splitting a text loses nothing: woven together again the pieces are the
/// text, and no piece has a separator in it.
pub proof fn pieces_make_the_text_again(line: Seq<char>, separator: char)
    ensures
        text::pieces(line, separator).len() > 0,
        woven(text::pieces(line, separator), separator) == line,
        forall|i: int|
            0 <= i < text::pieces(line, separator).len() ==> !(#[trigger] text::pieces(
                line,
                separator,
            )[i]).contains(separator),
    decreases line.len(),
{
    let all = text::pieces(line, separator);
    if line.len() == 0 {
        assert(all[0] =~= line);
        assert(all =~= seq![Seq::<char>::empty()]);
    } else {
        let short = line.drop_last();
        let before = text::pieces(short, separator);
        pieces_make_the_text_again(short, separator);
        assert(line =~= short.push(line.last()));
        if line.last() == separator {
            assert(all.drop_last() =~= before);
            assert(woven(all, separator) =~= short.push(separator));
        } else {
            assert(all.drop_last() =~= before.drop_last());
            assert(all.last() == before.last().push(line.last()));
            assert(!before[before.len() - 1].contains(separator));
            assert forall|i: int| 0 <= i < all.len() implies !(#[trigger] all[i]).contains(
                separator,
            ) by {
                if i < all.len() - 1 {
                    assert(all[i] == before[i]);
                } else if all[i].contains(separator) {
                    let k = choose|k: int| 0 <= k < all[i].len() && all[i][k] == separator;
                    assert(k < before.last().len());
                    assert(before.last()[k] == separator);
                }
            }
            if all.len() == 1 {
                assert(all[0] == all.last());
                assert(before[0] == before.last());
            } else {
                assert(woven(all, separator) =~= woven(before, separator).push(line.last()));
            }
        }
    }
}

/// A piece is a part of its text.
proof fn lemma_piece_is_part(pieces: Seq<Seq<char>>, separator: char, i: int)
    requires
        0 <= i < pieces.len(),
    ensures
        text::has(woven(pieces, separator), pieces[i]),
    decreases pieces.len(),
{
    let piece = pieces[i];
    if pieces.len() == 1 {
        assert(piece =~= Seq::empty() + piece + Seq::empty());
        crate::promises::lemma_part(Seq::empty(), piece, Seq::empty());
    } else {
        let head = woven(pieces.drop_last(), separator).push(separator);
        if i < pieces.len() - 1 {
            lemma_piece_is_part(pieces.drop_last(), separator, i);
            assert(head =~= woven(pieces.drop_last(), separator) + seq![separator]);
            crate::promises::lemma_part_within(
                woven(pieces.drop_last(), separator),
                seq![separator],
                piece,
            );
            crate::promises::lemma_part_within(head, pieces.last(), piece);
        } else {
            assert(head + piece =~= head + piece + Seq::empty());
            crate::promises::lemma_part(head, piece, Seq::empty());
        }
    }
}

/// A text without a separator is its own only piece.
proof fn lemma_one_piece(line: Seq<char>, separator: char)
    requires
        !line.contains(separator),
    ensures
        text::pieces(line, separator) == seq![line],
    decreases line.len(),
{
    if line.len() > 0 {
        let short = line.drop_last();
        assert(!short.contains(separator)) by {
            if short.contains(separator) {
                let k = choose|k: int| 0 <= k < short.len() && short[k] == separator;
                assert(line[k] == separator);
            }
        }
        lemma_one_piece(short, separator);
        assert(line.last() != separator) by {
            if line.last() == separator {
                assert(line[line.len() - 1] == separator);
            }
        }
        assert(line =~= short.push(line.last()));
        assert(text::pieces(line, separator) =~= seq![line]);
    } else {
        assert(line =~= Seq::empty());
        assert(text::pieces(line, separator) =~= seq![line]);
    }
}

/// A number reads back from its digits, and has none to spare.
pub proof fn a_number_reads_back(n: nat)
    ensures
        args::digits_value(text::decimal(n)) == Some(n),
        text::decimal(n).len() > 0,
        n > 0 ==> text::decimal(n)[0] != '0',
        n <= u32::MAX ==> args::number(text::decimal(n)) == Some(n as u32),
        n <= u32::MAX ==> args::number(seq!['+'] + text::decimal(n)) == Some(n as u32),
    decreases n,
{
    let all = text::decimal(n);
    if n < 10 {
        assert(all.drop_last() =~= Seq::empty());
        assert(all.last() == text::digit(n));
        lemma_digit(n);
        assert(args::digits_value(all.drop_last()) == Some(0nat));
        assert(args::digits_value(all) == Some(n));
    } else {
        a_number_reads_back(n / 10);
        assert(all.drop_last() =~= text::decimal(n / 10));
        assert(all.last() == text::digit(n % 10));
        lemma_digit(n % 10);
        assert(all[0] == text::decimal(n / 10)[0]);
        assert((n / 10) * 10 + n % 10 == n);
    }
    lemma_first_digit(n);
    assert((seq!['+'] + all).skip(1) =~= all);
}

proof fn lemma_digit(d: nat)
    requires
        d < 10,
    ensures
        text::digit(d) as u32 == 48 + d,
        '0' <= text::digit(d) && text::digit(d) <= '9',
{
}

proof fn lemma_first_digit(n: nat)
    ensures
        text::decimal(n).len() > 0,
        '0' <= text::decimal(n)[0] && text::decimal(n)[0] <= '9',
    decreases n,
{
    if n >= 10 {
        lemma_first_digit(n / 10);
        assert(text::decimal(n)[0] == text::decimal(n / 10)[0]);
    }
}

/// Escaping goes character by character: what is around a character does not
/// change how it is written.
pub proof fn escaping_goes_by_character(a: Seq<char>, b: Seq<char>)
    ensures
        render::escaped(a + b) == render::escaped(a) + render::escaped(b),
    decreases b.len(),
{
    if b.len() == 0 {
        assert(a + b =~= a);
        assert(render::escaped(a) + Seq::<char>::empty() =~= render::escaped(a));
    } else {
        let short = b.drop_last();
        escaping_goes_by_character(a, short);
        assert((a + b).drop_last() =~= a + short);
        assert((a + b).last() == b.last());
        assert(render::escaped(a) + (render::escaped(short) + render::escaped_char(b.last()))
            =~= (render::escaped(a) + render::escaped(short)) + render::escaped_char(b.last()));
    }
}

/// The five characters with a meaning in markup are written as their names.
pub proof fn what_has_a_meaning_is_named(c: char)
    ensures
        c == '&' ==> render::escaped(seq![c]) == "&amp;"@,
        c == '<' ==> render::escaped(seq![c]) == "&lt;"@,
        c == '>' ==> render::escaped(seq![c]) == "&gt;"@,
        c == '"' ==> render::escaped(seq![c]) == "&quot;"@,
        c == '\'' ==> render::escaped(seq![c]) == "&#39;"@,
{
    let one = seq![c];
    assert(one.drop_last() =~= Seq::empty());
    assert(render::escaped(one.drop_last()) =~= Seq::empty());
    assert(render::escaped(one) =~= render::escaped_char(c));
}

/// A text with nothing to escape is shown as it is.
pub proof fn plain_text_is_shown_as_it_is(line: Seq<char>)
    requires
        forall|i: int|
            0 <= i < line.len() ==> {
                let c = #[trigger] line[i];
                c != '&' && c != '<' && c != '>' && c != '"' && c != '\''
            },
    ensures
        render::escaped(line) == line,
    decreases line.len(),
{
    if line.len() > 0 {
        let short = line.drop_last();
        assert forall|i: int| 0 <= i < short.len() implies {
            let c = #[trigger] short[i];
            c != '&' && c != '<' && c != '>' && c != '"' && c != '\''
        } by {
            assert(short[i] == line[i]);
        }
        plain_text_is_shown_as_it_is(short);
        let last = line[line.len() - 1];
        assert(short + seq![last] =~= line);
    } else {
        assert(render::escaped(line) =~= line);
    }
}

/// Header names are alike whatever their capitals, and no two others are.
pub proof fn names_are_alike_but_for_capitals(a: Seq<char>, b: Seq<char>)
    ensures
        text::alike(a, b) <==> a.len() == b.len() && forall|i: int|
            0 <= i < a.len() ==> {
                let x = (#[trigger] a[i]) as u32;
                let y = b[i] as u32;
                ||| x == y
                ||| 0x41 <= x <= 0x5a && y == x + 32
                ||| 0x41 <= y <= 0x5a && x == y + 32
            },
{
    assert forall|i: int| 0 <= i < a.len() && a.len() == b.len() implies (text::small(#[trigger] a[i])
        == text::small(b[i]) <==> {
        let x = a[i] as u32;
        let y = b[i] as u32;
        ||| x == y
        ||| 0x41 <= x <= 0x5a && y == x + 32
        ||| 0x41 <= y <= 0x5a && x == y + 32
    }) by {
        lemma_small(a[i], b[i]);
    }
}

proof fn lemma_small(a: char, b: char)
    ensures
        text::small(a) == text::small(b) <==> {
            let x = a as u32;
            let y = b as u32;
            ||| x == y
            ||| 0x41 <= x <= 0x5a && y == x + 32
            ||| 0x41 <= y <= 0x5a && x == y + 32
        },
{
    let x = a as u32;
    let y = b as u32;
    assert(text::small(a) as u32 == if 0x41 <= x <= 0x5a {
        (x + 32) as u32
    } else {
        x
    });
    assert(text::small(b) as u32 == if 0x41 <= y <= 0x5a {
        (y + 32) as u32
    } else {
        y
    });
}

// ── paths ──────────────────────────────────────────────────────────────

/// What is joined to a directory is in it, under its own name.
pub proof fn what_is_joined_is_inside(path: Seq<u8>, name: Seq<u8>)
    requires
        paths::entry_name(name),
    ensures
        paths::starts_with(paths::join(path, name), path),
        paths::components(paths::join(path, name)) != paths::components(path),
        paths::components(paths::join(path, name)).last() == name,
        name != seq![0x2eu8, 0x2eu8] ==> paths::file_name(paths::join(path, name)) == Some(name)
            && paths::label(paths::join(path, name)) == text::lossy_text(name),
{
    paths::lemma_join(path, name);
    let whole = paths::join(path, name);
    let all = paths::components(whole);
    assert(all.take(paths::components(path).len() as int) =~= paths::components(path));
    assert(all.last() == name);
    if paths::rooted(whole) {
        assert(paths::parts(whole) =~= all.skip(1));
        assert(name != seq![0x2fu8]) by {
            if name == seq![0x2fu8] {
                assert(name.contains(name[0]));
            }
        }
        assert(all.len() > 1) by {
            if all.len() == 1 {
                assert(all[0] == seq![0x2fu8]);
            }
        }
        assert(paths::parts(whole).last() == name);
    }
}

/// The directories above a path are its own beginnings: the one `k` steps down
/// has the path's first `k` components.
pub proof fn what_is_above_is_a_beginning(path: Seq<u8>, k: int)
    requires
        0 <= k <= paths::parts(path).len(),
    ensures
        paths::parts(paths::ancestor(path, k)) == paths::parts(path).take(k),
        paths::rooted(path) ==> paths::rooted(paths::ancestor(path, k)),
    decreases path.len(),
{
    paths::lemma_part_ends(path);
    paths::lemma_last_slash(path);
    let cut = paths::last_slash(path);
    if k == 0 {
        let top = paths::ancestor(path, 0);
        paths::lemma_last_slash(top);
        if paths::rooted(path) {
            assert(top.len() == 1 && top[0] == path[0]);
            paths::lemma_last_slash_at(top, 0);
            assert(top.take(0) =~= Seq::empty());
            assert(paths::parts(Seq::<u8>::empty()) =~= Seq::empty()) by {
                paths::lemma_last_slash(Seq::<u8>::empty());
            }
            assert(paths::parts(top) =~= Seq::empty());
        } else {
            assert(top =~= Seq::empty());
            assert(paths::parts(top) =~= Seq::empty());
        }
        assert(paths::parts(path).take(0) =~= Seq::empty());
    } else {
        let end = paths::part_ends(path)[k - 1];
        if paths::counts(path, cut + 1, path.len() as int) && k == paths::parts(path).len() {
            assert(end == path.len());
            assert(path.take(end) =~= path);
            assert(paths::parts(path).take(k) =~= paths::parts(path));
        } else {
            assert(cut >= 0);
            let head = path.take(cut);
            paths::lemma_part_ends(head);
            assert(end == paths::part_ends(head)[k - 1]);
            assert(head.take(end) =~= path.take(end));
            what_is_above_is_a_beginning(head, k);
            assert(paths::parts(head).take(k) =~= paths::parts(path).take(k));
            if paths::rooted(path) {
                assert(path.take(end)[0] == path[0]);
            }
        }
    }
}

// ── requests ───────────────────────────────────────────────────────────

/// The secret opens the door: as the URL's only parameter, or behind `Bearer`
/// in an authorization header.
pub proof fn the_secret_opens_the_door(
    head: Head,
    assets: Assets,
    path: Seq<char>,
    secret: Seq<char>,
)
    requires
        !path.contains('?'),
        !secret.contains('&'),
        head.url@ == path + "?"@ + "token="@ + secret,
    ensures
        server::handled(head, assets, Some(secret)) == server::handled(head, assets, None),
{
    reveal_strlit("?");
    reveal_strlit("token=");
    let url = head.url@;
    let at = path.len() as int;
    a_character_is_found_where_it_first_is(url, '?', 0);
    assert(url[at] == '?');
    assert forall|i: int| 0 <= i < at implies url[i] != '?' by {
        if url[i] == '?' {
            assert(path[i] == '?');
        }
    }
    let query = "token="@ + secret;
    assert(url.skip(at + 1) =~= query);
    assert(server::url_query(url) == Some(query));
    assert(!query.contains('&')) by {
        if query.contains('&') {
            let k = choose|k: int| 0 <= k < query.len() && query[k] == '&';
            if k >= 6 {
                assert(secret[k - 6] == '&');
            }
        }
    }
    lemma_one_piece(query, '&');
    assert(text::pieces(query, '&')[0] == "token="@ + secret);
    assert(server::query_has_token(query, secret));
}

/// A header opens the door too, under any capitals.
pub proof fn a_bearer_opens_the_door(head: Head, assets: Assets, secret: Seq<char>, i: int)
    requires
        0 <= i < head.headers@.len(),
        text::alike(head.headers@[i].name@, "authorization"@),
        head.headers@[i].value@ == "Bearer "@ + secret,
    ensures
        server::handled(head, assets, Some(secret)) == server::handled(head, assets, None),
{
    assert(server::headers_have_token(head.headers@, secret));
}

/// Nothing else opens it: whoever is let in to anything but the constant files
/// has the whole secret in the URL or behind `Bearer` in a header.
pub proof fn nothing_else_opens_the_door(head: Head, assets: Assets, secret: Seq<char>)
    requires
        server::url_path(head.url@) != "/static/app.js"@,
        server::url_path(head.url@) != "/static/style.css"@,
        !text::has(head.url@, "token="@ + secret),
        forall|i: int|
            0 <= i < head.headers@.len() ==> !(text::alike(
                (#[trigger] head.headers@[i]).name@,
                "authorization"@,
            ) && head.headers@[i].value@ == "Bearer "@ + secret),
    ensures
        server::handled(head, assets, Some(secret)) matches Route::Reply(reply) && reply.status
            == 401,
{
    let url = head.url@;
    if let Some(query) = server::url_query(url) {
        if server::query_has_token(query, secret) {
            let pieces = text::pieces(query, '&');
            let i = choose|i: int|
                0 <= i < pieces.len() && #[trigger] pieces[i] == "token="@ + secret;
            pieces_make_the_text_again(query, '&');
            lemma_piece_is_part(pieces, '&', i);
            a_character_is_found_where_it_first_is(url, '?', 0);
            let at = text::found(url, '?', 0)->0;
            assert(url =~= url.take(at + 1) + query);
            crate::promises::lemma_part_within(url.take(at + 1), query, "token="@ + secret);
        }
    }
}

/// A path is what stands before the first question mark.
pub proof fn a_path_ends_at_the_question_mark(path: Seq<char>, query: Seq<char>)
    requires
        !path.contains('?'),
    ensures
        server::url_path(path + "?"@ + query) == path,
        server::url_query(path + "?"@ + query) == Some(query),
        server::url_path(path) == path,
        server::url_query(path) is None,
{
    reveal_strlit("?");
    let url = path + "?"@ + query;
    let at = path.len() as int;
    a_character_is_found_where_it_first_is(url, '?', 0);
    a_character_is_found_where_it_first_is(path, '?', 0);
    assert(url[at] == '?');
    assert forall|i: int| 0 <= i < at implies url[i] != '?' by {
        if url[i] == '?' {
            assert(path[i] == '?');
        }
    }
    assert(url.take(at) =~= path);
    assert(url.skip(at + 1) =~= query);
    if text::found(path, '?', 0) is Some {
        assert(path.contains('?'));
    }
}

/// Where each request goes, once it is let in.
pub proof fn every_request_has_its_place(head: Head, assets: Assets)
    ensures
        ({
            let path = server::url_path(head.url@);
            let got = server::handled(head, assets, None);
            let get = head.method == Method::Get;
            &&& get && path == "/"@ ==> (got matches Route::Reply(reply) && reply.status == 200
                && carries(head, reply, assets.index@) && typed(
                reply,
                "text/html; charset=utf-8"@,
            ))
            &&& get && path == "/static/app.js"@ ==> (got matches Route::Reply(reply)
                && reply.status == 200 && carries(head, reply, assets.script@) && typed(
                reply,
                "application/javascript"@,
            ))
            &&& get && path == "/static/style.css"@ ==> (got matches Route::Reply(reply)
                && reply.status == 200 && carries(head, reply, assets.style@) && typed(
                reply,
                "text/css"@,
            ))
            &&& get && path == "/api/frame"@ ==> got is Frame
            &&& get && path == "/api/export/list"@ ==> got is ExportList
            &&& get && path == "/api/export/prompt"@ ==> got is ExportPrompt
            &&& head.method == Method::Post && path == "/api/input"@ ==> got is ReadInput
            &&& got is ReadInput ==> head.method == Method::Post && path == "/api/input"@
            &&& got is Frame ==> get && path == "/api/frame"@
            &&& got is ExportList ==> get && path == "/api/export/list"@
            &&& got is ExportPrompt ==> get && path == "/api/export/prompt"@
            &&& (got matches Route::Reply(reply) && reply.status == 200) ==> get && (path == "/"@
                || path == "/static/app.js"@ || path == "/static/style.css"@)
            &&& (got matches Route::Reply(reply) && reply.status != 200) ==> got
                == Route::Reply(server::nowhere())
        }),
{
    lemma_places();
    let path = server::url_path(head.url@);
    lemma_carried(head, assets.index@, "text/html; charset=utf-8"@, 200, "no-cache"@);
    lemma_carried(head, assets.script@, "application/javascript"@, 200, "no-cache"@);
    lemma_carried(head, assets.style@, "text/css"@, 200, "no-cache"@);
}

/// The routes' names differ.
proof fn lemma_places()
    ensures
        "/"@.len() == 1,
        "/static/app.js"@.len() == 14,
        "/static/style.css"@.len() == 17,
        "/api/frame"@.len() == 10,
        "/api/export/list"@.len() == 16,
        "/api/export/prompt"@.len() == 18,
        "/api/input"@.len() == 10,
        "/api/input"@[5] != "/api/frame"@[5],
{
    reveal_strlit("/");
    reveal_strlit("/static/app.js");
    reveal_strlit("/static/style.css");
    reveal_strlit("/api/frame");
    reveal_strlit("/api/export/list");
    reveal_strlit("/api/export/prompt");
    reveal_strlit("/api/input");
}

/// A reply carries a body: as it is, or as the gzip stream it says it is, and
/// that only to a client that takes gzip and for a body worth it.
pub open spec fn carries(head: Head, reply: Message, body: Seq<u8>) -> bool {
    ||| reply.body == body && !reply.headers.contains(("Content-Encoding"@, "gzip"@))
    ||| {
        &&& Some(reply.body) == server::gzip_bytes(body, 6)
        &&& reply.headers.contains(("Content-Encoding"@, "gzip"@))
        &&& reply.headers.contains(("Vary"@, "Accept-Encoding"@))
        &&& body.len() > 1024
        &&& exists|i: int|
            0 <= i < head.headers@.len() && text::alike(
                (#[trigger] head.headers@[i]).name@,
                "accept-encoding"@,
            ) && text::has(head.headers@[i].value@, "gzip"@)
    }
}

/// A reply says what it holds.
pub open spec fn typed(reply: Message, kind: Seq<char>) -> bool {
    reply.headers.contains(("Content-Type"@, kind))
}

proof fn lemma_header_names()
    ensures
        "Content-Encoding"@ != "X-Content-Type-Options"@,
        "Content-Encoding"@ != "Content-Security-Policy"@,
        "Content-Encoding"@ != "Referrer-Policy"@,
        "Content-Encoding"@ != "Cache-Control"@,
        "Content-Encoding"@ != "Content-Type"@,
{
    reveal_strlit("Content-Encoding");
    reveal_strlit("X-Content-Type-Options");
    reveal_strlit("Content-Security-Policy");
    reveal_strlit("Referrer-Policy");
    reveal_strlit("Cache-Control");
    reveal_strlit("Content-Type");
    assert("Content-Encoding"@.len() == 16);
    assert("X-Content-Type-Options"@.len() == 22);
    assert("Content-Security-Policy"@.len() == 23);
    assert("Referrer-Policy"@.len() == 15);
    assert("Cache-Control"@.len() == 13);
    assert("Content-Type"@.len() == 12);
}

proof fn lemma_carried(head: Head, body: Seq<u8>, kind: Seq<char>, status: u16, cache: Seq<char>)
    ensures
        carries(head, server::bodied(head, body, kind, status, cache), body),
        typed(server::bodied(head, body, kind, status, cache), kind),
        server::bodied(head, body, kind, status, cache).status == status,
{
    lemma_header_names();
    let reply = server::bodied(head, body, kind, status, cache);
    assert(reply.headers[4] == ("Content-Type"@, kind));
    match server::compressed(head, body) {
        Some(small) => {
            assert(reply.headers[5] == ("Content-Encoding"@, "gzip"@));
            assert(reply.headers[6] == ("Vary"@, "Accept-Encoding"@));
        },
        None => {
            let name = ("Content-Encoding"@, "gzip"@);
            if reply.headers.contains(name) {
                let i = choose|i: int| 0 <= i < reply.headers.len() && reply.headers[i] == name;
                assert(reply.headers.len() == 5);
                assert(reply.headers[0].0 == "X-Content-Type-Options"@);
                assert(reply.headers[1].0 == "Content-Security-Policy"@);
                assert(reply.headers[2].0 == "Referrer-Policy"@);
                assert(reply.headers[3].0 == "Cache-Control"@);
            }
        },
    }
}

/// Every reply with a body, whatever it holds, carries that body and says what
/// it is.
pub proof fn a_reply_carries_its_body(
    head: Head,
    body: Seq<u8>,
    kind: Seq<char>,
    status: u16,
    cache: Seq<char>,
)
    ensures
        ({
            let reply = server::bodied(head, body, kind, status, cache);
            &&& carries(head, reply, body)
            &&& typed(reply, kind)
            &&& reply.status == status
            &&& reply.headers.contains(("Cache-Control"@, cache))
            &&& body.len() <= 1024 ==> reply.body == body
        }),
{
    lemma_carried(head, body, kind, status, cache);
    let reply = server::bodied(head, body, kind, status, cache);
    assert(reply.headers[3] == ("Cache-Control"@, cache));
}

/// A client that takes gzip gets a large body compressed, where it could be.
pub proof fn a_large_body_is_compressed(
    head: Head,
    body: Seq<u8>,
    kind: Seq<char>,
    status: u16,
    cache: Seq<char>,
    i: int,
)
    requires
        0 <= i < head.headers@.len(),
        text::alike(head.headers@[i].name@, "accept-encoding"@),
        text::has(head.headers@[i].value@, "gzip"@),
        body.len() > 1024,
        server::gzip_bytes(body, 6) is Some,
    ensures
        Some(server::bodied(head, body, kind, status, cache).body) == server::gzip_bytes(body, 6),
{
    assert(server::accepts_gzip(head.headers@));
}

/// In a frame query the last word on each thing counts, and words on other
/// things leave it alone.
pub proof fn the_last_word_counts(pairs: Seq<Seq<char>>, value: Seq<char>)
    ensures
        ({
            let before = server::asked(pairs);
            &&& server::asked(pairs.push("w="@ + value)) == Asked { w: Some(value), ..before }
            &&& server::asked(pairs.push("h="@ + value)) == Asked { h: Some(value), ..before }
            &&& server::asked(pairs.push("dark="@ + value)) == Asked {
                dark: Some(value == "1"@),
                ..before
            }
        }),
        server::asked(Seq::empty()) == (Asked { w: None, h: None, dark: None }),
{
    reveal_strlit("w=");
    reveal_strlit("h=");
    reveal_strlit("dark=");
    assert("w="@.len() == 2 && "w="@[0] == 'w');
    assert("h="@.len() == 2 && "h="@[0] == 'h');
    assert("dark="@.len() == 5 && "dark="@[0] == 'd');
    let w = "w="@ + value;
    let h = "h="@ + value;
    let dark = "dark="@ + value;
    assert(pairs.push(w).drop_last() =~= pairs);
    assert(pairs.push(h).drop_last() =~= pairs);
    assert(pairs.push(dark).drop_last() =~= pairs);
    assert(w.take(2) =~= "w="@ && w.skip(2) =~= value);
    assert(h.take(2) =~= "h="@ && h.skip(2) =~= value);
    assert(dark.take(5) =~= "dark="@ && dark.skip(5) =~= value);
    assert(h.take(2)[0] != "w="@[0]);
    assert(dark.take(2)[0] == 'd');
}

/// A batch sets the appearance it names and the size it can be drawn in; with
/// no size yet it gets a real one.
pub proof fn a_batch_sets_the_stage(s: State, w: Single, h: Single, dark: Option<bool>)
    ensures
        ({
            let after = s.begin_batch(w, h, dark);
            let one = Single { bits: single::ONE };
            let usable = one.at_most(w) && one.at_most(h) && w.finite() && h.finite();
            &&& dark == Some(true) ==> after.appearance == Appearance::Dark
            &&& dark == Some(false) ==> after.appearance == Appearance::Light
            &&& dark is None ==> after.appearance == s.appearance
            &&& usable ==> after.mosaic_size == (w, h)
            &&& !usable && s.mosaic_size.0.below(one) ==> after.mosaic_size.0.bits == 0x44a0_0000
                && after.mosaic_size.1.bits == 0x4448_0000
            &&& !usable && !s.mosaic_size.0.below(one) ==> after.mosaic_size == s.mosaic_size
            &&& after == State {
                appearance: after.appearance,
                mosaic_size: after.mosaic_size,
                ..s
            }
        }),
{
}

/// An answer goes out as what it is: an acknowledgement is empty, a mosaic is
/// JSON with the markup and the magnification, and a frame is its JSON.
pub proof fn an_answer_goes_out_as_it_is(
    head: Head,
    mosaic: Seq<char>,
    zoom: Seq<char>,
    picture: render::Picture,
    written: Seq<char>,
)
    ensures
        ({
            let ack = server::answered(head, Answered::Ack, None);
            let part = server::answered(head, Answered::Mosaic { mosaic, zoom }, None);
            let whole = server::answered(head, Answered::Frame(picture), Some(written));
            &&& ack.status == 204 && ack.body.len() == 0
            &&& part.status == 200 && typed(part, "application/json"@) && carries(
                head,
                part,
                vstd::utf8::encode_utf8(crate::json::mosaic_answer(mosaic, zoom)),
            )
            &&& whole.status == 200 && typed(whole, "application/json"@) && carries(
                head,
                whole,
                vstd::utf8::encode_utf8(written),
            )
        }),
{
    reveal_strlit("");
    lemma_carried(
        head,
        vstd::utf8::encode_utf8(crate::json::mosaic_answer(mosaic, zoom)),
        "application/json"@,
        200,
        "no-store"@,
    );
    lemma_carried(
        head,
        vstd::utf8::encode_utf8(written),
        "application/json"@,
        200,
        "no-store"@,
    );
    assert(vstd::utf8::is_ascii_chars(""@));
    vstd::utf8::is_ascii_chars_encode_utf8(""@);
}

/// What is answered is what is drawn: the mosaic of the state, or its frame.
pub proof fn an_answer_shows_the_state(s: State, page: Page)
    ensures
        s.answer(Earned::Ack, page) == Answered::Ack,
        s.tree is Some ==> (s.answer(Earned::Mosaic, page) matches Answered::Mosaic {
            mosaic,
            zoom,
        } && mosaic == s.mosaic(page.canvas, page.words, page.palette)),
        s.answer(Earned::Frame, page) == Answered::Frame(s.frame(page)),
{
}

/// The limits of what is taken in.
pub proof fn what_is_taken_in_is_limited(inflight: usize)
    ensures
        server::MAX_BODY == 64 * 1024,
        inflight < server::MAX_INFLIGHT <==> inflight < 128,
{
}

// ── the command line ───────────────────────────────────────────────────

proof fn lemma_switches()
    ensures
        args::switch("-a"@) is Apparent,
        args::switch("--apparent-size"@) is Apparent,
        args::switch("-l"@) is Follow,
        args::switch("--follow-links"@) is Follow,
        args::switch("-H"@) is Hidden,
        args::switch("--no-hidden"@) is Hidden,
        args::switch("-X"@) is Cross,
        args::switch("--cross-filesystems"@) is Cross,
        args::switch("-d"@) is Depth,
        args::switch("--depth"@) is Depth,
        args::switch("--metric"@) is Measure,
        args::switch("--listen"@) is Listen,
        args::switch("--token"@) is Token,
        args::switch("-h"@) is Help,
        args::switch("--help"@) is Help,
{
    reveal_strlit("-a");
    reveal_strlit("--apparent-size");
    reveal_strlit("-l");
    reveal_strlit("--follow-links");
    reveal_strlit("-H");
    reveal_strlit("--no-hidden");
    reveal_strlit("-X");
    reveal_strlit("--cross-filesystems");
    reveal_strlit("-d");
    reveal_strlit("--depth");
    reveal_strlit("--metric");
    reveal_strlit("--listen");
    reveal_strlit("--token");
    reveal_strlit("-h");
    reveal_strlit("--help");
    assert("-a"@.len() == 2 && "-a"@[1] == 'a');
    assert("-l"@.len() == 2 && "-l"@[1] == 'l');
    assert("-H"@.len() == 2 && "-H"@[1] == 'H');
    assert("-X"@.len() == 2 && "-X"@[1] == 'X');
    assert("-d"@.len() == 2 && "-d"@[1] == 'd');
    assert("-h"@.len() == 2 && "-h"@[1] == 'h');
    assert("--apparent-size"@[2] == 'a');
    assert("--follow-links"@[2] == 'f');
    assert("--no-hidden"@[2] == 'n');
    assert("--cross-filesystems"@[2] == 'c');
    assert("--depth"@[2] == 'd');
    assert("--metric"@[2] == 'm');
    assert("--listen"@[2] == 'l');
    assert("--token"@[2] == 't');
    assert("--help"@[2] == 'h');
    assert("--apparent-size"@.len() == 15 && "--follow-links"@.len() == 14 && "--no-hidden"@.len()
        == 11 && "--cross-filesystems"@.len() == 19 && "--depth"@.len() == 7 && "--metric"@.len()
        == 8 && "--listen"@.len() == 8 && "--token"@.len() == 7 && "--help"@.len() == 6);
}

/// Each switch sets the option it names, and the rest of the line goes on from
/// there.
pub proof fn each_switch_sets_its_option(choice: Choice, words: Seq<Word>, at: int)
    requires
        0 <= at < words.len(),
    ensures
        ({
            let word = words[at].text;
            let got = args::meaning(choice, words, at);
            let o = choice.options;
            &&& word == "-a"@ || word == "--apparent-size"@ ==> got == args::meaning(
                Choice { options: ScanOptions { apparent_size: true, ..o }, ..choice },
                words,
                at + 1,
            )
            &&& word == "-l"@ || word == "--follow-links"@ ==> got == args::meaning(
                Choice { options: ScanOptions { follow_links: true, ..o }, ..choice },
                words,
                at + 1,
            )
            &&& word == "-H"@ || word == "--no-hidden"@ ==> got == args::meaning(
                Choice { options: ScanOptions { include_hidden: false, ..o }, ..choice },
                words,
                at + 1,
            )
            &&& word == "-X"@ || word == "--cross-filesystems"@ ==> got == args::meaning(
                Choice { options: ScanOptions { one_filesystem: false, ..o }, ..choice },
                words,
                at + 1,
            )
            &&& word == "-h"@ || word == "--help"@ ==> got is Help
        }),
{
    lemma_switches();
}

/// Each option takes the value behind it, or says what is wrong with it.
pub proof fn each_option_takes_its_value(choice: Choice, words: Seq<Word>, at: int, depth: nat)
    requires
        0 <= at < words.len() - 1,
    ensures
        ({
            let word = words[at].text;
            let value = words[at + 1];
            let got = args::meaning(choice, words, at);
            let o = choice.options;
            &&& (word == "-d"@ || word == "--depth"@) && value.text == text::decimal(depth) && 1
                <= depth <= 6 ==> got == args::meaning(
                Choice { depth: depth as u32, ..choice },
                words,
                at + 2,
            )
            &&& (word == "-d"@ || word == "--depth"@) && value.text == text::decimal(depth)
                && !(1 <= depth <= 6) ==> got is Refused
            &&& word == "--metric"@ && value.text == "size"@ ==> got == args::meaning(
                Choice { options: ScanOptions { metric: Metric::Bytes, ..o }, ..choice },
                words,
                at + 2,
            )
            &&& word == "--metric"@ && value.text == "files"@ ==> got == args::meaning(
                Choice { options: ScanOptions { metric: Metric::Files, ..o }, ..choice },
                words,
                at + 2,
            )
            &&& word == "--metric"@ && value.text != "size"@ && value.text != "files"@
                ==> got is Refused
            &&& word == "--listen"@ && value.is_address ==> got == args::meaning(
                Choice { listen: value.text, ..choice },
                words,
                at + 2,
            )
            &&& word == "--listen"@ && !value.is_address ==> got is Refused
            &&& word == "--token"@ && value.text.len() > 0 ==> got == args::meaning(
                Choice { token: Some(value.text), ..choice },
                words,
                at + 2,
            )
            &&& word == "--token"@ && value.text.len() == 0 ==> got is Refused
        }),
{
    lemma_switches();
    a_number_reads_back(depth);
    reveal_strlit("size");
    reveal_strlit("files");
    assert("size"@.len() == 4 && "files"@.len() == 5);
    if depth > u32::MAX {
        lemma_first_digit(depth);
        assert(args::unsigned(text::decimal(depth)) == text::decimal(depth));
    }
}

/// A word that is no option is the directory to scan, and there is one at most.
pub proof fn a_plain_word_is_the_directory(choice: Choice, words: Seq<Word>, at: int)
    requires
        0 <= at < words.len(),
        words[at].text.len() == 0 || words[at].text[0] != '-',
    ensures
        choice.root is None ==> args::meaning(choice, words, at) == args::meaning(
            Choice { root: Some(words[at].text), ..choice },
            words,
            at + 1,
        ),
        choice.root is Some ==> args::meaning(choice, words, at) is Refused,
{
    reveal_strlit("-a");
    reveal_strlit("--apparent-size");
    reveal_strlit("-l");
    reveal_strlit("--follow-links");
    reveal_strlit("-H");
    reveal_strlit("--no-hidden");
    reveal_strlit("-X");
    reveal_strlit("--cross-filesystems");
    reveal_strlit("-d");
    reveal_strlit("--depth");
    reveal_strlit("--metric");
    reveal_strlit("--listen");
    reveal_strlit("--token");
    reveal_strlit("-h");
    reveal_strlit("--help");
    assert("-a"@[0] == '-' && "--apparent-size"@[0] == '-' && "-l"@[0] == '-' && "--follow-links"@[0]
        == '-' && "-H"@[0] == '-' && "--no-hidden"@[0] == '-' && "-X"@[0] == '-'
        && "--cross-filesystems"@[0] == '-' && "-d"@[0] == '-' && "--depth"@[0] == '-'
        && "--metric"@[0] == '-' && "--listen"@[0] == '-' && "--token"@[0] == '-' && "-h"@[0] == '-'
        && "--help"@[0] == '-');
}

/// With nothing said, three levels of the usual options are served to this
/// machine alone, under the environment's secret where it is one.
pub proof fn what_is_not_said_stays_usual(token: Option<Seq<char>>, options: ScanOptions)
    ensures
        args::meaning(args::unsaid(token, options), Seq::empty(), 0) matches Meaning::Run(run) && {
            &&& run.root is None
            &&& run.listen == "127.0.0.1:8737"@
            &&& run.options == options
            &&& run.depth == 3
            &&& token is None ==> run.token is None
            &&& token is Some && token->0.len() > 0 ==> run.token == token
            &&& token is Some && token->0.len() == 0 ==> run.token is None
        },
{
}

} // verus!
