//! The line formatter: the fixed order of the segments of a log line.

use crate::color::{colored_tag, styled_tag};
use crate::level::LogLevel;
use crate::text::{append_decimal, decimal_text, lemma_decimal_digits};
use vstd::prelude::*;
use vstd::string::*;

verus! {

/// The view of an optional text.
pub open spec fn text_of(o: Option<&str>) -> Option<Seq<char>> {
    match o {
        Some(s) => Some(s@),
        None => None,
    }
}

/// The view of an optional source location: the file name and the line.
pub open spec fn place_of(o: Option<(&str, u32)>) -> Option<(Seq<char>, nat)> {
    match o {
        Some(p) => Some((p.0@, p.1 as nat)),
        None => None,
    }
}

/// The timestamp segment: the timestamp and one space, or nothing.
pub open spec fn timestamp_part(timestamp: Option<Seq<char>>) -> Seq<char> {
    match timestamp {
        Some(ts) => ts + seq![' '],
        None => Seq::empty(),
    }
}

/// The thread segment: the thread's name in parentheses and one space, or
/// nothing.
pub open spec fn thread_part(thread: Option<Seq<char>>) -> Seq<char> {
    match thread {
        Some(info) => seq!['('] + info + seq![')', ' '],
        None => Seq::empty(),
    }
}

/// The bracketed source location, `[file:line]`.
pub open spec fn place_text(file: Seq<char>, line: nat) -> Seq<char> {
    seq!['['] + file + seq![':'] + decimal_text(line) + seq![']']
}

/// The location segment: the bracketed location and one space, or nothing.
pub open spec fn place_part(place: Option<(Seq<char>, nat)>) -> Seq<char> {
    match place {
        Some(p) => place_text(p.0, p.1) + seq![' '],
        None => Seq::empty(),
    }
}

/// A whole log line around a given tag: timestamp, thread, tag, one space,
/// location, message, newline. An absent segment leaves no trace.
pub open spec fn line_text(
    tag: Seq<char>,
    message: Seq<char>,
    timestamp: Option<Seq<char>>,
    place: Option<(Seq<char>, nat)>,
    thread: Option<Seq<char>>,
) -> Seq<char> {
    timestamp_part(timestamp) + thread_part(thread) + tag + seq![' '] + place_part(place)
        + message + seq!['\n']
}

/// Builds a log line around an already rendered tag.
pub fn compose_line(
    tag: &str,
    message: &str,
    timestamp: Option<&str>,
    source_loc: Option<(&str, u32)>,
    thread_info: Option<&str>,
) -> (r: String)
    ensures
        r@ == line_text(
            tag@,
            message@,
            text_of(timestamp),
            place_of(source_loc),
            text_of(thread_info),
        ),
{
    proof {
        reveal_strlit(" ");
        reveal_strlit("(");
        reveal_strlit(") ");
        reveal_strlit("[");
        reveal_strlit(":");
        reveal_strlit("] ");
        reveal_strlit("\n");
    }
    let mut out = String::new();
    match timestamp {
        Some(ts) => {
            out.append(ts);
            out.append(" ");
        },
        None => {},
    }
    assert(out@ =~= timestamp_part(text_of(timestamp)));
    match thread_info {
        Some(info) => {
            out.append("(");
            out.append(info);
            out.append(") ");
        },
        None => {},
    }
    assert(out@ =~= timestamp_part(text_of(timestamp)) + thread_part(text_of(thread_info)));
    out.append(tag);
    out.append(" ");
    let ghost head = out@;
    match source_loc {
        Some(place) => {
            out.append("[");
            out.append(place.0);
            out.append(":");
            append_decimal(&mut out, place.1);
            out.append("] ");
        },
        None => {},
    }
    assert(out@ =~= head + place_part(place_of(source_loc)));
    out.append(message);
    out.append("\n");
    assert(out@ =~= line_text(
        tag@,
        message@,
        text_of(timestamp),
        place_of(source_loc),
        text_of(thread_info),
    ));
    out
}

/// Formats one log line. Without color the tag is the level's plain tag;
/// with color it is the tag as the color engine renders it.
pub fn format_message_full(
    level: LogLevel,
    message: &str,
    use_color: bool,
    timestamp: Option<&str>,
    source_loc: Option<(&str, u32)>,
    thread_info: Option<&str>,
) -> (r: String)
    ensures
        !use_color ==> r@ == line_text(
            level.tag_text(),
            message@,
            text_of(timestamp),
            place_of(source_loc),
            text_of(thread_info),
        ),
        use_color ==> r@ == line_text(
            level.tag_text(),
            message@,
            text_of(timestamp),
            place_of(source_loc),
            text_of(thread_info),
        ) || r@ == line_text(
            colored_tag(level),
            message@,
            text_of(timestamp),
            place_of(source_loc),
            text_of(thread_info),
        ),
{
    if use_color {
        let styled = styled_tag(level);
        compose_line(styled.as_str(), message, timestamp, source_loc, thread_info)
    } else {
        let tag = level.tag();
        compose_line(tag.as_str(), message, timestamp, source_loc, thread_info)
    }
}

/// Formats a line that holds the tag and the message only.
pub fn format_message(level: LogLevel, message: &str, use_color: bool) -> (r: String)
    ensures
        !use_color ==> r@ == level.tag_text() + seq![' '] + message@ + seq!['\n'],
        use_color ==> r@ == line_text(level.tag_text(), message@, None, None, None) || r@
            == line_text(colored_tag(level), message@, None, None, None),
{
    let r = format_message_full(level, message, use_color, None, None, None);
    proof {
        if !use_color {
            assert(r@ =~= level.tag_text() + seq![' '] + message@ + seq!['\n']);
        }
    }
    r
}

/// Formats a line that holds an optional timestamp, the tag and the message.
pub fn format_message_with_timestamp(
    level: LogLevel,
    message: &str,
    use_color: bool,
    timestamp: Option<&str>,
) -> (r: String)
    ensures
        !use_color ==> r@ == timestamp_part(text_of(timestamp)) + level.tag_text() + seq![' ']
            + message@ + seq!['\n'],
        use_color ==> r@ == line_text(
            level.tag_text(),
            message@,
            text_of(timestamp),
            None,
            None,
        ) || r@ == line_text(colored_tag(level), message@, text_of(timestamp), None, None),
{
    let r = format_message_full(level, message, use_color, timestamp, None, None);
    proof {
        if !use_color {
            assert(r@ =~= timestamp_part(text_of(timestamp)) + level.tag_text() + seq![' ']
                + message@ + seq!['\n']);
        }
    }
    r
}

/// The character that opens an escape sequence.
pub open spec fn escape_char() -> char {
    '\x1b'
}

/// The text holds the two characters that open a color escape sequence, the
/// escape character and `[`, one after the other.
pub open spec fn has_escape(s: Seq<char>) -> bool {
    exists|i: int| 0 <= i && i + 1 < s.len() && #[trigger] s[i] == escape_char() && s[i + 1] == '['
}

/// Two texts free of escape sequences join to one free of them, unless the
/// first ends in the escape character and the second begins with `[`.
pub proof fn lemma_join_without_escape(a: Seq<char>, b: Seq<char>)
    requires
        !has_escape(a),
        !has_escape(b),
        a.len() == 0 || b.len() == 0 || a.last() != escape_char() || b[0] != '[',
    ensures
        !has_escape(a + b),
{
    let ab = a + b;
    if has_escape(ab) {
        let i = choose|i: int|
            0 <= i && i + 1 < ab.len() && #[trigger] ab[i] == escape_char() && ab[i + 1] == '[';
        if i + 1 < a.len() {
            assert(a[i] == escape_char() && a[i + 1] == '[');
        } else if i >= a.len() {
            assert(b[i - a.len()] == escape_char() && b[i - a.len() + 1] == '[');
        } else {
            assert(a.last() == ab[i]);
            assert(b[0] == ab[i + 1]);
        }
    }
}

/// A line formatted without color holds no color escape sequence, provided
/// that the message and the context segments that are present hold none.
pub proof fn lemma_plain_line_without_escape(
    level: LogLevel,
    message: Seq<char>,
    timestamp: Option<Seq<char>>,
    place: Option<(Seq<char>, nat)>,
    thread: Option<Seq<char>>,
)
    requires
        !has_escape(message),
        timestamp is Some ==> !has_escape(timestamp->Some_0),
        place is Some ==> !has_escape(place->Some_0.0),
        thread is Some ==> !has_escape(thread->Some_0),
    ensures
        !has_escape(line_text(level.tag_text(), message, timestamp, place, thread)),
{
    reveal_strlit("[ERROR]");
    reveal_strlit("[WARN] ");
    reveal_strlit("[INFO] ");
    reveal_strlit("[DEBUG]");
    reveal_strlit("[TRACE]");
    let tag = level.tag_text();
    let sp = seq![' '];
    let a1 = timestamp_part(timestamp);
    match timestamp {
        Some(ts) => {
            lemma_join_without_escape(ts, sp);
        },
        None => {},
    }
    let a2 = thread_part(thread);
    match thread {
        Some(info) => {
            lemma_join_without_escape(seq!['('], info);
            lemma_join_without_escape(seq!['('] + info, seq![')', ' ']);
        },
        None => {},
    }
    let a3 = place_part(place);
    match place {
        Some(p) => {
            lemma_decimal_digits(p.1);
            let d = decimal_text(p.1);
            assert(!has_escape(d)) by {
                if has_escape(d) {
                    let i = choose|i: int|
                        0 <= i && i + 1 < d.len() && #[trigger] d[i] == escape_char() && d[i + 1]
                            == '[';
                    assert('0' <= d[i]);
                }
            }
            lemma_join_without_escape(seq!['['], p.0);
            lemma_join_without_escape(seq!['['] + p.0, seq![':']);
            lemma_join_without_escape(seq!['['] + p.0 + seq![':'], d);
            lemma_join_without_escape(seq!['['] + p.0 + seq![':'] + d, seq![']']);
            lemma_join_without_escape(place_text(p.0, p.1), sp);
        },
        None => {},
    }
    assert(!has_escape(tag));
    lemma_join_without_escape(a1, a2);
    lemma_join_without_escape(a1 + a2, tag);
    lemma_join_without_escape(a1 + a2 + tag, sp);
    lemma_join_without_escape(a1 + a2 + tag + sp, a3);
    lemma_join_without_escape(a1 + a2 + tag + sp + a3, message);
    lemma_join_without_escape(a1 + a2 + tag + sp + a3 + message, seq!['\n']);
}

/// The colored tag is what sets a colored line apart: it opens a color
/// escape sequence, so a line around it holds one.
pub proof fn lemma_colored_tag_has_escape(level: LogLevel)
    ensures
        has_escape(colored_tag(level)),
{
    reveal_strlit("\x1b[1;");
    let tag = colored_tag(level);
    assert(tag[0] == escape_char());
    assert(tag[1] == '[');
}

/// The segments of a line stand in a fixed order. With timestamp, thread and
/// location all present, the line holds, at strictly growing offsets: the
/// timestamp, the thread in parentheses, the tag, the bracketed location and
/// the message; one space closes each of the first four, and a newline the
/// line.
pub proof fn lemma_segment_order(
    tag: Seq<char>,
    message: Seq<char>,
    timestamp: Seq<char>,
    file: Seq<char>,
    line: nat,
    thread: Seq<char>,
)
    ensures
        ({
            let text = line_text(tag, message, Some(timestamp), Some((file, line)), Some(thread));
            let shown_thread = seq!['('] + thread + seq![')'];
            let shown_place = place_text(file, line);
            let at_thread: int = timestamp.len() as int + 1;
            let at_tag: int = at_thread + shown_thread.len() + 1;
            let at_place: int = at_tag + tag.len() + 1;
            let at_message: int = at_place + shown_place.len() + 1;
            &&& 0 < at_thread < at_tag < at_place < at_message
            &&& text.len() == at_message + message.len() + 1
            &&& text.subrange(0, timestamp.len() as int) == timestamp
            &&& text[at_thread - 1] == ' '
            &&& text.subrange(at_thread, at_thread + shown_thread.len()) == shown_thread
            &&& text[at_tag - 1] == ' '
            &&& text.subrange(at_tag, at_tag + tag.len()) == tag
            &&& text[at_place - 1] == ' '
            &&& text.subrange(at_place, at_place + shown_place.len()) == shown_place
            &&& text[at_message - 1] == ' '
            &&& text.subrange(at_message, at_message + message.len()) == message
            &&& text.last() == '\n'
        }),
{
    let text = line_text(tag, message, Some(timestamp), Some((file, line)), Some(thread));
    let shown_thread = seq!['('] + thread + seq![')'];
    let shown_place = place_text(file, line);
    let at_thread: int = timestamp.len() as int + 1;
    let at_tag: int = at_thread + shown_thread.len() + 1;
    let at_place: int = at_tag + tag.len() + 1;
    let at_message: int = at_place + shown_place.len() + 1;
    assert(text =~= timestamp + seq![' '] + shown_thread + seq![' '] + tag + seq![' ']
        + shown_place + seq![' '] + message + seq!['\n']);
    assert(text.subrange(0, timestamp.len() as int) =~= timestamp);
    assert(text.subrange(at_thread, at_thread + shown_thread.len()) =~= shown_thread);
    assert(text.subrange(at_tag, at_tag + tag.len()) =~= tag);
    assert(text.subrange(at_place, at_place + shown_place.len()) =~= shown_place);
    assert(text.subrange(at_message, at_message + message.len()) =~= message);
}

} // verus!
