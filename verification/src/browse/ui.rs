//! The text and arithmetic of the browser's screen; the drawing itself is
//! the caller's.
use vstd::prelude::*;
use vstd::utf8::{decode_utf8, encode_utf8, is_char_boundary};

use crate::browse::app::{FileAction, SortField, actions_view, file_actions_for, file_actions_spec};
use crate::put::files::{File, byte_size_text, folder_type};
use crate::text::{chars_of, first_occurrence, find_bytes, lowercase, push_char, same_text, string_from_chars, to_lowercase, owned};

verus! {

/// The ellipsis that marks where text was cut.
pub open spec fn ellipsis() -> char {
    '\u{2026}'
}

/// The position of the last '.' in the text, if any.
pub open spec fn last_dot(s: Seq<char>) -> Option<int> {
    if exists|k: int| 0 <= k < s.len() && s[k] == '.' && forall|j: int| k < j < s.len() ==> s[j] != '.' {
        Some(choose|k: int| 0 <= k < s.len() && s[k] == '.' && forall|j: int| k < j < s.len() ==> s[j] != '.')
    } else {
        None
    }
}

/// The text cut to at most `max` characters, with an ellipsis where it
/// was cut. Where the text has an extension (a last '.' that neither starts
/// nor ends it) shorter than `max`, the extension is kept and the name
/// before it is cut; otherwise the end is cut.
pub open spec fn truncated(s: Seq<char>, max: int) -> Seq<char> {
    let n = s.len() as int;
    if n <= max {
        s
    } else if max == 0 {
        seq![]
    } else if max == 1 {
        seq![ellipsis()]
    } else {
        match last_dot(s) {
            Some(k) if 0 < k && k < n - 1 && n - k < max =>
                s.take(max - (n - k) - 1) + seq![ellipsis()] + s.skip(k),
            _ => s.take(max - 1) + seq![ellipsis()],
        }
    }
}

/// Shortens `s` to at most `max_chars` characters for display.
pub fn truncate(s: &str, max_chars: usize) -> (res: String)
    ensures
        res@ == truncated(s@, max_chars as int),
{
    let cs = chars_of(s);
    let n = cs.len();
    if n <= max_chars {
        return owned(s);
    }
    if max_chars == 0 {
        return String::new();
    }
    if max_chars == 1 {
        let mut r = String::new();
        push_char(&mut r, '\u{2026}');
        return r;
    }
    // Find the last '.'.
    let mut i: usize = n;
    while i > 0 && cs[i - 1] != '.'
        invariant
            i <= n,
            n == cs@.len(),
            forall|j: int| i <= j < n ==> cs@[j] != '.',
        decreases i,
    {
        i = i - 1;
    }
    let dot: Option<usize> = if i > 0 { Some(i - 1) } else { None };
    proof {
        match dot {
            Some(k) => {
                assert(cs@[k as int] == '.' && forall|j: int| k < j < n ==> cs@[j] != '.');
                let c = choose|c: int| 0 <= c < cs@.len() && cs@[c] == '.' && forall|j: int| c < j < cs@.len() ==> cs@[j] != '.';
                assert(0 <= c < cs@.len() && cs@[c] == '.' && forall|j: int| c < j < cs@.len() ==> cs@[j] != '.');
                if c < k {
                } else if c > k {
                }
                assert(last_dot(s@) == Some(k as int));
            },
            None => {
                assert(last_dot(s@) is None);
            },
        }
    }
    match dot {
        Some(k) => {
            if k > 0 && k < n - 1 && n - k < max_chars {
                let ext_chars = n - k;
                let base_chars = max_chars - ext_chars - 1;
                let mut out: Vec<char> = Vec::new();
                let mut j: usize = 0;
                while j < base_chars
                    invariant
                        base_chars < k < n,
                        n == cs@.len(),
                        j <= base_chars,
                        out@ == cs@.take(j as int),
                    decreases base_chars - j,
                {
                    out.push(cs[j]);
                    proof {
                        assert(cs@.take(j + 1) =~= cs@.take(j as int).push(cs@[j as int]));
                    }
                    j = j + 1;
                }
                out.push('\u{2026}');
                let mut j: usize = k;
                let ghost head = out@;
                while j < n
                    invariant
                        k <= j <= n,
                        n == cs@.len(),
                        out@ == head + cs@.subrange(k as int, j as int),
                    decreases n - j,
                {
                    out.push(cs[j]);
                    proof {
                        assert(cs@.subrange(k as int, j + 1) =~= cs@.subrange(k as int, j as int).push(cs@[j as int]));
                    }
                    j = j + 1;
                }
                proof {
                    assert(cs@.subrange(k as int, n as int) =~= cs@.skip(k as int));
                    assert(out@ =~= cs@.take(base_chars as int) + seq!['\u{2026}'] + cs@.skip(k as int));
                }
                return string_from_chars(out.as_slice());
            }
        },
        None => {},
    }
    let keep = max_chars - 1;
    let mut out: Vec<char> = Vec::new();
    let mut j: usize = 0;
    while j < keep
        invariant
            keep < n,
            n == cs@.len(),
            j <= keep,
            out@ == cs@.take(j as int),
        decreases keep - j,
    {
        out.push(cs[j]);
        proof {
            assert(cs@.take(j + 1) =~= cs@.take(j as int).push(cs@[j as int]));
        }
        j = j + 1;
    }
    out.push('\u{2026}');
    string_from_chars(out.as_slice())
}

/// Shortening never gives more than `max` characters: a text that fits is
/// left as it is, and a longer one comes out exactly `max` characters long,
/// ending in the ellipsis or keeping its extension after it.
pub proof fn law_truncated_fits(s: Seq<char>, max: int)
    requires
        0 <= max,
    ensures
        truncated(s, max).len() <= max,
        s.len() <= max ==> truncated(s, max) == s,
        s.len() > max ==> truncated(s, max).len() == max,
        s.len() > max && max > 0 ==> truncated(s, max).contains(ellipsis()),
{
    let n = s.len() as int;
    if n > max && max > 1 {
        match last_dot(s) {
            Some(k) => {
                if 0 < k && k < n - 1 && n - k < max {
                    let r = s.take(max - (n - k) - 1) + seq![ellipsis()] + s.skip(k);
                    assert(r[max - (n - k) - 1] == ellipsis());
                } else {
                    let r = s.take(max - 1) + seq![ellipsis()];
                    assert(r[max - 1] == ellipsis());
                }
            },
            None => {
                let r = s.take(max - 1) + seq![ellipsis()];
                assert(r[max - 1] == ellipsis());
            },
        }
    } else if n > max && max == 1 {
        assert(truncated(s, max)[0] == ellipsis());
    }
}

/// Where the query shows in a name, as byte positions of the name: found
/// by looking for the lower-cased query in the lower-cased name, and kept
/// only when both ends fall on character boundaries of the name itself.
pub open spec fn highlight_spec(name: Seq<char>, query: Seq<char>) -> Option<(int, int)> {
    let lower_query = encode_utf8(lowercase(query));
    if query.len() == 0 {
        None
    } else {
        match first_occurrence(encode_utf8(lowercase(name)), lower_query) {
            Some(start) => {
                let end = start + lower_query.len();
                if is_char_boundary(encode_utf8(name), start) && is_char_boundary(encode_utf8(name), end) {
                    Some((start, end))
                } else {
                    None
                }
            },
            None => None,
        }
    }
}

/// The byte range of `name` to highlight as a match of `query`, if any:
/// the name is then shown as the text before, the match, and the text
/// after (each part only when not empty).
pub fn highlight_span(name: &str, query: &str) -> (res: Option<(usize, usize)>)
    ensures
        match highlight_spec(name@, query@) {
            Some((s, e)) => res == Some((s as usize, e as usize)),
            None => res is None,
        },
        res matches Some((s, e)) ==> highlight_spec(name@, query@) == Some((s as int, e as int)),
{
    if query.is_empty() {
        return None;
    }
    let lower_name = to_lowercase(name);
    let lower_query = to_lowercase(query);
    let hay = lower_name.as_str().as_bytes();
    let needle = lower_query.as_str().as_bytes();
    let hay_len = hay.len();
    match find_bytes(hay, needle) {
        Some(start) => {
            let end = start + needle.len();
            if name.is_char_boundary(start) && name.is_char_boundary(end) {
                Some((start, end))
            } else {
                None
            }
        },
        None => None,
    }
}

/// The text of `name` between two byte positions of its UTF-8 encoding.
pub open spec fn byte_slice(name: Seq<char>, from: int, to: int) -> Seq<char> {
    decode_utf8(encode_utf8(name).subrange(from, to))
}

/// The pieces in which a name is shown, each with whether it is the match:
/// with a match, the text before it (when not empty), the match, and the
/// text after it (when not empty); without one, the whole name.
pub open spec fn highlight_pieces(name: Seq<char>, query: Seq<char>) -> Seq<(Seq<char>, bool)> {
    match highlight_spec(name, query) {
        Some((s, e)) => {
            let n = encode_utf8(name).len() as int;
            (if s > 0 { seq![(byte_slice(name, 0, s), false)] } else { seq![] })
                + seq![(byte_slice(name, s, e), true)]
                + (if e < n { seq![(byte_slice(name, e, n), false)] } else { seq![] })
        },
        None => seq![(name, false)],
    }
}

/// Pieces as text and mark pairs.
pub open spec fn pieces_view(p: Seq<(String, bool)>) -> Seq<(Seq<char>, bool)> {
    p.map_values(|x: (String, bool)| (x.0@, x.1))
}

/// The texts of the pieces, one after the other.
pub open spec fn joined_pieces(p: Seq<(Seq<char>, bool)>) -> Seq<char>
    decreases p.len(),
{
    if p.len() == 0 { seq![] } else { joined_pieces(p.drop_last()) + p.last().0 }
}

proof fn lemma_boundary_in_rest(bytes: Seq<u8>, s: int, e: int)
    requires
        vstd::utf8::valid_utf8(bytes),
        is_char_boundary(bytes, s),
        is_char_boundary(bytes, e),
        0 <= s <= e <= bytes.len(),
    ensures
        vstd::utf8::valid_utf8(bytes.subrange(s, bytes.len() as int)),
        is_char_boundary(bytes.subrange(s, bytes.len() as int), e - s),
{
    let rest = bytes.subrange(s, bytes.len() as int);
    vstd::utf8::valid_utf8_split(bytes, s);
    vstd::utf8::is_char_boundary_start_end_of_seq(rest);
    if e < bytes.len() {
        vstd::utf8::is_char_boundary_iff_not_is_continuation_byte(bytes, e);
        vstd::utf8::is_char_boundary_iff_not_is_continuation_byte(rest, e - s);
        assert(rest[e - s] == bytes[e]);
    } else {
        assert(rest.len() == e - s);
    }
}

/// The pieces in which a name is shown make up the name: put together they
/// give it back, there are one to three of them, and with a match exactly
/// one is marked, the text between the match's byte positions; without one
/// the name is a single unmarked piece.
pub proof fn law_highlight_pieces_make_the_name(name: Seq<char>, query: Seq<char>)
    ensures
        joined_pieces(highlight_pieces(name, query)) == name,
        1 <= highlight_pieces(name, query).len() <= 3,
        highlight_spec(name, query) is None ==> highlight_pieces(name, query) == seq![(name, false)],
        highlight_spec(name, query) matches Some((s, e)) ==> exists|i: int|
            0 <= i < highlight_pieces(name, query).len()
            && #[trigger] highlight_pieces(name, query)[i] == (byte_slice(name, s, e), true)
            && forall|j: int| 0 <= j < highlight_pieces(name, query).len() && j != i
                ==> !(#[trigger] highlight_pieces(name, query)[j]).1,
{
    let p = highlight_pieces(name, query);
    match highlight_spec(name, query) {
        None => {
            assert(p.drop_last() =~= Seq::<(Seq<char>, bool)>::empty());
            assert(joined_pieces(p.drop_last()) =~= Seq::<char>::empty());
            assert(joined_pieces(p) =~= name);
        },
        Some((s, e)) => {
            let bytes = encode_utf8(name);
            let n = bytes.len() as int;
            vstd::utf8::encode_utf8_valid_utf8(name);
            vstd::utf8::encode_utf8_decode_utf8(name);
            if s > n {
                assert(!is_char_boundary(bytes, s));
            }
            if e > n {
                assert(!is_char_boundary(bytes, e));
            }
            lemma_boundary_in_rest(bytes, s, e);
            let rest = bytes.subrange(s, n);
            vstd::utf8::decode_utf8_split(bytes, s);
            vstd::utf8::decode_utf8_split(rest, e - s);
            assert(bytes.subrange(0, n) =~= bytes);
            assert(rest.subrange(0, e - s) =~= bytes.subrange(s, e));
            assert(rest.subrange(e - s, rest.len() as int) =~= bytes.subrange(e, n));
            let a = byte_slice(name, 0, s);
            let b = byte_slice(name, s, e);
            let c = byte_slice(name, e, n);
            assert(name =~= a + b + c);
            if s == 0 {
                assert(bytes.subrange(0, 0) =~= Seq::<u8>::empty());
                assert(a =~= Seq::<char>::empty());
            }
            if e == n {
                assert(bytes.subrange(n, n) =~= Seq::<u8>::empty());
                assert(c =~= Seq::<char>::empty());
            }
            let head: Seq<(Seq<char>, bool)> = if s > 0 { seq![(a, false)] } else { seq![] };
            let tail: Seq<(Seq<char>, bool)> = if e < n { seq![(c, false)] } else { seq![] };
            assert(p == head + seq![(b, true)] + tail);
            let mid = head + seq![(b, true)];
            assert(mid.drop_last() =~= head);
            if s > 0 {
                assert(head.drop_last() =~= Seq::<(Seq<char>, bool)>::empty());
                assert(joined_pieces(head.drop_last()) =~= Seq::<char>::empty());
                assert(joined_pieces(head) =~= a);
            } else {
                assert(joined_pieces(head) =~= a);
            }
            assert(joined_pieces(mid) =~= a + b);
            if e < n {
                assert(p.drop_last() =~= mid);
                assert(joined_pieces(p) =~= a + b + c);
            } else {
                assert(p =~= mid);
                assert(a + b + c =~= a + b);
            }
            let i = head.len() as int;
            assert(p[i] == (b, true));
            assert forall|j: int| 0 <= j < p.len() && j != i implies !(#[trigger] p[j]).1 by {
                if j < i {
                    assert(p[j] == head[j]);
                } else {
                    assert(p[j] == tail[j - i - 1]);
                }
            }
        },
    }
}

/// Cuts a name into the pieces in which it is shown: the match of the query
/// (see `highlight_span`) and the text around it.
pub fn highlight_parts(name: &str, query: &str) -> (res: Vec<(String, bool)>)
    ensures
        pieces_view(res@) == highlight_pieces(name@, query@),
{
    match highlight_span(name, query) {
        None => {
            let mut res: Vec<(String, bool)> = Vec::new();
            res.push((owned(name), false));
            proof {
                assert(pieces_view(res@) =~= seq![(name@, false)]);
            }
            res
        },
        Some((s, e)) => {
            let ghost bytes = encode_utf8(name@);
            proof {
                vstd::utf8::encode_utf8_valid_utf8(name@);
                if s > bytes.len() {
                    assert(!is_char_boundary(bytes, s as int));
                }
                if e > bytes.len() {
                    assert(!is_char_boundary(bytes, e as int));
                }
                lemma_boundary_in_rest(bytes, s as int, e as int);
            }
            let (before, rest) = name.split_at(s);
            let (mid, after) = rest.split_at(e - s);
            proof {
                let rb = bytes.subrange(s as int, bytes.len() as int);
                assert(rb.subrange(0, (e - s) as int) =~= bytes.subrange(s as int, e as int));
                assert(rb.subrange((e - s) as int, rb.len() as int) =~= bytes.subrange(e as int, bytes.len() as int));
                vstd::utf8::encode_utf8_decode_utf8(before@);
                vstd::utf8::encode_utf8_decode_utf8(mid@);
                vstd::utf8::encode_utf8_decode_utf8(after@);
                assert(before@ == byte_slice(name@, 0, s as int));
                assert(mid@ == byte_slice(name@, s as int, e as int));
                assert(after@ == byte_slice(name@, e as int, bytes.len() as int));
            }
            let ghost n = bytes.len() as int;
            let ghost head: Seq<(Seq<char>, bool)> = if s > 0 { seq![(byte_slice(name@, 0, s as int), false)] } else { seq![] };
            let ghost tail: Seq<(Seq<char>, bool)> = if e < n { seq![(byte_slice(name@, e as int, n), false)] } else { seq![] };
            let mut res: Vec<(String, bool)> = Vec::new();
            if s > 0 {
                res.push((owned(before), false));
            }
            proof {
                assert(pieces_view(res@) =~= head);
            }
            res.push((owned(mid), true));
            proof {
                assert(pieces_view(res@) =~= head + seq![(byte_slice(name@, s as int, e as int), true)]);
            }
            let total = name.as_bytes().len();
            if e < total {
                res.push((owned(after), false));
            }
            proof {
                assert(pieces_view(res@) =~= head + seq![(byte_slice(name@, s as int, e as int), true)] + tail);
                assert(highlight_spec(name@, query@) == Some((s as int, e as int)));
            }
            res
        },
    }
}

/// A rectangle of terminal cells.
#[derive(Clone, Copy)]
pub struct Rect {
    pub x: u16,
    pub y: u16,
    pub width: u16,
    pub height: u16,
}

/// A rectangle `percent_x` percent as wide as `r` (rounded down) and
/// `height` rows high, centred in `r` and clipped to it.
pub fn centered_rect(percent_x: u16, height: u16, r: Rect) -> (res: Rect)
    requires
        r.width * percent_x <= u16::MAX,
        r.x + r.width <= u16::MAX,
        r.y + r.height <= u16::MAX,
    ensures
        ({
            let w = (r.width * percent_x / 100) as int;
            &&& res.x == r.x + (if r.width >= w { r.width - w } else { 0 }) / 2
            &&& res.y == r.y + (if r.height >= height { r.height - height } else { 0 }) / 2
            &&& res.width == vstd::math::min(w, r.width as int)
            &&& res.height == vstd::math::min(height as int, r.height as int)
        }),
        r.x <= res.x,
        res.x + res.width <= r.x + r.width,
        r.y <= res.y,
        res.y + res.height <= r.y + r.height,
{
    let popup_width = r.width * percent_x / 100;
    let x = r.x + (if r.width >= popup_width { r.width - popup_width } else { 0 }) / 2;
    let y = r.y + (if r.height >= height { r.height - height } else { 0 }) / 2;
    Rect {
        x,
        y,
        width: if popup_width < r.width { popup_width } else { r.width },
        height: if height < r.height { height } else { r.height },
    }
}

/// One row of a file's action menu.
pub struct MenuRow {
    /// A space, the pointer and a space on the highlighted row, else three
    /// spaces.
    pub cursor: String,
    /// The action's key in brackets, then a space.
    pub key: String,
    /// The action's label.
    pub label: String,
    /// How many spaces fill the rest of the row.
    pub padding: usize,
    /// Whether this is the highlighted row.
    pub selected: bool,
}

/// A file's action menu: its height in rows (the actions, the borders and
/// a row of padding above and below) and its rows.
pub struct ActionMenu {
    pub height: u16,
    pub rows: Vec<MenuRow>,
}

/// The row for the action `label` run by `key`, highlighted or not, in a
/// menu `width` cells wide inside its borders: the cursor, the key and the
/// label, then spaces to the end of the row (none when they do not fit).
pub open spec fn menu_row_spec(row: MenuRow, label: Seq<char>, key: char, selected: bool, width: u16) -> bool {
    &&& row.cursor@ == if selected { seq![' ', '\u{25b6}', ' '] } else { seq![' ', ' ', ' '] }
    &&& row.key@ == seq!['[', key, ']', ' ']
    &&& row.label@ == label
    &&& row.padding == if width >= 7 + label.len() { width - 7 - label.len() } else { 0 }
    &&& row.selected == selected
}

fn menu_row(action: &FileAction, selected: bool, width: u16) -> (row: MenuRow)
    ensures
        menu_row_spec(row, action.label@, action.key, selected, width),
{
    let mut cursor = String::new();
    push_char(&mut cursor, ' ');
    push_char(&mut cursor, if selected { '\u{25b6}' } else { ' ' });
    push_char(&mut cursor, ' ');
    let mut key = String::new();
    push_char(&mut key, '[');
    push_char(&mut key, action.key);
    push_char(&mut key, ']');
    push_char(&mut key, ' ');
    let label_chars = action.label.unicode_len();
    let padding: usize = if label_chars <= 65535 && (width as usize) >= 7 + label_chars {
        (width as usize) - 7 - label_chars
    } else {
        0
    };
    proof {
        assert(cursor@ =~= if selected { seq![' ', '\u{25b6}', ' '] } else { seq![' ', ' ', ' '] });
        assert(key@ =~= seq!['[', action.key, ']', ' ']);
    }
    MenuRow { cursor, key, label: owned(action.label), padding, selected }
}

/// The action menu for a file of type `file_type` with row `selected`
/// highlighted, `width` cells wide inside its borders.
pub fn action_menu(file_type: &str, in_search_results: bool, selected: usize, width: u16) -> (menu: ActionMenu)
    ensures
        menu.height == file_actions_spec(file_type@, in_search_results).len() + 4,
        menu.rows@.len() == file_actions_spec(file_type@, in_search_results).len(),
        forall|i: int| 0 <= i < menu.rows@.len() ==> menu_row_spec(#[trigger] menu.rows@[i],
            file_actions_spec(file_type@, in_search_results)[i].0,
            file_actions_spec(file_type@, in_search_results)[i].1,
            i == selected, width),
{
    let actions = file_actions_for(file_type, in_search_results);
    let ghost spec = file_actions_spec(file_type@, in_search_results);
    proof {
        assert(actions@.len() == spec.len());
        assert(spec.len() <= 7);
    }
    let mut rows: Vec<MenuRow> = Vec::new();
    let mut i: usize = 0;
    while i < actions.len()
        invariant
            i <= actions@.len(),
            actions_view(actions@) == spec,
            rows@.len() == i,
            forall|k: int| 0 <= k < i ==> menu_row_spec(#[trigger] rows@[k], spec[k].0, spec[k].1, k == selected, width),
        decreases actions@.len() - i,
    {
        let row = menu_row(&actions[i], i == selected, width);
        proof {
            assert(actions_view(actions@)[i as int] == (actions@[i as int].label@, actions@[i as int].key));
        }
        rows.push(row);
        i = i + 1;
    }
    let height = (actions.len() as u16) + 4;
    ActionMenu { height, rows }
}

/// The frames of the spinner's animation.
pub open spec fn spinner_frames() -> Seq<char> {
    seq!['\u{280b}', '\u{2819}', '\u{2839}', '\u{2838}', '\u{283c}', '\u{2834}', '\u{2826}', '\u{2827}', '\u{2807}', '\u{280f}']
}

/// The spinner's text at animation step `tick`: a frame, a space, the label.
pub fn spinner_text(tick: u8, label: &str) -> (res: String)
    ensures
        res@ == seq![spinner_frames()[tick as int % 10], ' '] + label@,
{
    let frames: [char; 10] = ['\u{280b}', '\u{2819}', '\u{2839}', '\u{2838}', '\u{283c}', '\u{2834}', '\u{2826}', '\u{2827}', '\u{2807}', '\u{280f}'];
    proof {
        assert(frames@ =~= spinner_frames());
    }
    let ch = frames[(tick % 10) as usize];
    let mut r = String::new();
    push_char(&mut r, ch);
    push_char(&mut r, ' ');
    crate::text::push_str(&mut r, label);
    r
}

/// The colour in which an entry of each type is listed.
#[derive(Clone, Copy, PartialEq, Eq, Structural)]
pub enum TypeColor {
    LightYellow,
    Green,
    Magenta,
    Cyan,
    Red,
    Gray,
}

/// Folders stand out in light yellow; videos are green, audio magenta,
/// images cyan, archives and PDFs red, anything else grey.
pub open spec fn type_color_spec(file_type: Seq<char>) -> TypeColor {
    if file_type == "FOLDER"@ {
        TypeColor::LightYellow
    } else if file_type == "VIDEO"@ {
        TypeColor::Green
    } else if file_type == "AUDIO"@ {
        TypeColor::Magenta
    } else if file_type == "IMAGE"@ {
        TypeColor::Cyan
    } else if file_type == "ARCHIVE"@ || file_type == "PDF"@ {
        TypeColor::Red
    } else {
        TypeColor::Gray
    }
}

/// The colour in which an entry of the given type is listed.
pub fn file_type_color(file_type: &str) -> (res: TypeColor)
    ensures
        res == type_color_spec(file_type@),
{
    if same_text(file_type, "FOLDER") {
        TypeColor::LightYellow
    } else if same_text(file_type, "VIDEO") {
        TypeColor::Green
    } else if same_text(file_type, "AUDIO") {
        TypeColor::Magenta
    } else if same_text(file_type, "IMAGE") {
        TypeColor::Cyan
    } else if same_text(file_type, "ARCHIVE") || same_text(file_type, "PDF") {
        TypeColor::Red
    } else {
        TypeColor::Gray
    }
}

/// The help bar's name for the sort field, padded to eight characters.
pub fn sort_label(field: SortField) -> (res: &'static str)
    ensures
        res@ == match field {
            SortField::Name => "Name    "@,
            SortField::Size => "Size    "@,
            SortField::Date => "Date    "@,
            SortField::Modified => "Modified"@,
        },
{
    match field {
        SortField::Name => "Name    ",
        SortField::Size => "Size    ",
        SortField::Date => "Date    ",
        SortField::Modified => "Modified",
    }
}

/// The parts of a row of the file list.
pub struct FileRow {
    /// ">>" on the cursor's row, else two spaces.
    pub cursor: &'static str,
    /// The name, cut to 64 characters.
    pub name: String,
    /// How many spaces follow the name: enough to reach column 64, plus one.
    pub padding: usize,
    /// "—" for a folder, else the size as text.
    pub size: String,
}

/// The text of the file list's row for `file`.
pub fn file_row(file: &File, is_cursor: bool) -> (res: FileRow)
    ensures
        res.cursor@ == if is_cursor { ">>"@ } else { "  "@ },
        res.name@ == truncated(file.name@, 64),
        res.padding == (if res.name@.len() < 64 { 64 - res.name@.len() } else { 0 }) + 1,
        file.file_type@ == folder_type() ==> res.size@ == seq!['\u{2014}'],
        file.file_type@ != folder_type() ==> res.size@ == byte_size_text(file.size.0),
{
    let cursor = if is_cursor { ">>" } else { "  " };
    let name = truncate(file.name.as_str(), 64);
    let count = name.as_str().unicode_len();
    let padding = (if count < 64 { 64 - count } else { 0 }) + 1;
    let size = if file.is_folder() {
        let mut r = String::new();
        push_char(&mut r, '\u{2014}');
        r
    } else {
        file.size.to_string()
    };
    FileRow { cursor, name, padding, size }
}

/// Where the terminal cursor stands in the bar for finding in the listing:
/// after the slash and the query, but within the screen's width.
pub fn find_cursor_x(query_chars: usize, screen_width: u16) -> (res: u16)
    requires
        1 + query_chars % 65536 <= u16::MAX,
    ensures
        res == vstd::math::min(1 + query_chars % 65536, if screen_width >= 1 { screen_width - 1 } else { 0 }),
{
    let typed = (query_chars % 65536) as u16;
    let end = 1 + typed;
    let last = if screen_width >= 1 { screen_width - 1 } else { 0 };
    if end < last { end } else { last }
}

/// Where the terminal cursor stands in the search box: after the query,
/// but within the box.
pub fn search_cursor_x(inner: Rect, query_chars: usize) -> (res: u16)
    requires
        inner.x + query_chars % 65536 <= u16::MAX,
        inner.x + inner.width <= u16::MAX,
    ensures
        res == vstd::math::min(inner.x + query_chars % 65536, inner.x + if inner.width >= 1 { inner.width - 1 } else { 0 }),
{
    let typed = (query_chars % 65536) as u16;
    let end = inner.x + typed;
    let last = inner.x + if inner.width >= 1 { inner.width - 1 } else { 0 };
    if end < last { end } else { last }
}

} // verus!
