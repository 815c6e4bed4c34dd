use nannou::text::font::{from_bytes, Error, FontMap};
use nannou::text::line::{infos, infos_wrapped_by, next_newline_break, Break, Info};
use nannou::text::{lines, Wrap};

// Walks the whole text, finding each line's break with the newline rule and taking its char
// count as the width.
fn newline_infos(text: &str) -> Vec<Info<usize>> {
    let font = ();
    let mut it = infos::<(), usize>(text, &font, 12);
    let mut out = vec![];
    loop {
        let rest = it.remaining_text();
        let found = next_newline_break(rest);
        let width = found.char_index();
        match it.next_with_break(found, width) {
            Some(info) => out.push(info),
            None => break,
        }
        assert!(out.len() <= text.len() + 1);
    }
    out
}

#[test]
fn break_indices() {
    let b = Break::Newline { byte: 4, char: 3, len_bytes: 1 };
    assert_eq!(b.byte_index(), 4);
    assert_eq!(b.char_index(), 3);
    let e = Break::End { byte: 9, char: 7 };
    assert_eq!(e.byte_index(), 9);
    assert_eq!(e.char_index(), 7);
    let w = Break::Wrap { byte: 2, char: 2, len_bytes: 1 };
    let info = Info { start_byte: 1, start_char: 1, end_break: w, width: 0.5f32 };
    assert_eq!(info.end_byte(), 2);
    assert_eq!(info.end_char(), 2);
    assert_eq!(info.byte_range(), 1..2);
    assert_eq!(info.char_range(), 1..2);
}

#[test]
fn newline_break_finds_first_newline() {
    assert_eq!(next_newline_break("ab\ncd"), Break::Newline { byte: 2, char: 2, len_bytes: 1 });
    assert_eq!(next_newline_break("ab\r\ncd"), Break::Newline { byte: 2, char: 2, len_bytes: 2 });
    assert_eq!(next_newline_break("a\rb\nc"), Break::Newline { byte: 3, char: 3, len_bytes: 1 });
    assert_eq!(next_newline_break("abc"), Break::End { byte: 3, char: 3 });
    assert_eq!(next_newline_break(""), Break::End { byte: 0, char: 0 });
    // Multi-byte characters count once as chars and by their encoding as bytes.
    assert_eq!(next_newline_break("é€\nx"), Break::Newline { byte: 5, char: 2, len_bytes: 1 });
    assert_eq!(next_newline_break("é€"), Break::End { byte: 5, char: 2 });
}

#[test]
fn infos_walk_every_line() {
    let text = "hello\nworld\r\n!";
    let infos = newline_infos(text);
    assert_eq!(infos.len(), 3);
    assert_eq!(infos[0].byte_range(), 0..5);
    assert_eq!(infos[1].byte_range(), 6..11);
    assert_eq!(infos[1].end_break, Break::Newline { byte: 11, char: 11, len_bytes: 2 });
    assert_eq!(infos[2].byte_range(), 13..14);
    assert_eq!(infos[2].end_break, Break::End { byte: 14, char: 14 });
    assert_eq!(infos[2].char_range(), 13..14);
    assert_eq!(&text[infos[1].byte_range()], "world");
}

#[test]
fn infos_yield_empty_lines() {
    // The empty text has one empty line.
    let infos = newline_infos("");
    assert_eq!(infos.len(), 1);
    assert_eq!(infos[0].byte_range(), 0..0);
    // A text that ends in a newline ends with an empty line.
    let infos = newline_infos("a\n");
    assert_eq!(infos.len(), 2);
    assert_eq!(infos[1].byte_range(), 2..2);
    assert_eq!(infos[1].end_break, Break::End { byte: 2, char: 2 });
    // Otherwise no line follows the last one.
    let infos = newline_infos("a");
    assert_eq!(infos.len(), 1);
}

#[test]
fn lines_start_where_previous_breaks_end() {
    let text = "one\ntwo\n\nthree";
    let infos = newline_infos(text);
    for pair in infos.windows(2) {
        let skip = match pair[0].end_break {
            Break::Newline { len_bytes, .. } | Break::Wrap { len_bytes, .. } => len_bytes,
            Break::End { .. } => 0,
        };
        assert_eq!(pair[1].start_byte, pair[0].end_byte() + skip);
    }
}

#[test]
fn wrapped_infos_record_rule() {
    let font = ();
    let it = infos_wrapped_by::<(), u32>("abc", &font, 10, 50, Wrap::Whitespace);
    assert_eq!(it.wrap(), Some(Wrap::Whitespace));
    assert_eq!(*it.max_width(), Some(50));
    let it = it.wrap_by_character(20);
    assert_eq!(it.wrap(), Some(Wrap::Character));
    assert_eq!(*it.max_width(), Some(20));
    assert_eq!(it.font_size(), 10);
}

#[test]
fn wrap_break_advances_past_skipped_bytes() {
    let font = ();
    let mut it = infos::<(), u32>("ab cd", &font, 10);
    let first = it.next_with_break(Break::Wrap { byte: 2, char: 2, len_bytes: 1 }, 7);
    assert_eq!(
        first,
        Some(Info {
            start_byte: 0,
            start_char: 0,
            end_break: Break::Wrap { byte: 2, char: 2, len_bytes: 1 },
            width: 7
        })
    );
    assert_eq!(it.remaining_text(), "cd");
    let second = it.next_with_break(Break::End { byte: 2, char: 2 }, 5).unwrap();
    assert_eq!(second.start_byte, 3);
    assert_eq!(second.start_char, 3);
    assert_eq!(second.end_break, Break::End { byte: 5, char: 5 });
    assert_eq!(it.next_with_break(Break::End { byte: 0, char: 0 }, 0), None);
}

#[test]
fn lines_slice_text() {
    let text = "héllo wörld";
    let mut ls = lines(text, vec![0..6, 7..13, 3..3]);
    assert_eq!(ls.next(), Some("héllo"));
    assert_eq!(ls.next(), Some("wörld"));
    assert_eq!(ls.next(), Some(""));
    assert_eq!(ls.next(), None);
}

#[test]
fn empty_font_map() {
    let map = FontMap::new();
    let mut ids = map.ids();
    assert_eq!(ids.next(), None);
}

#[test]
fn lines_after_crlf_start_at_their_first_char() {
    let text = "a\r\nb";
    let infos = newline_infos(text);
    assert_eq!(infos.len(), 2);
    assert_eq!(infos[1].char_range(), 3..4);
    assert_eq!(text.chars().nth(infos[1].start_char), Some('b'));
}

#[test]
fn zero_length_wrap_keeps_the_overflowing_char() {
    let font = ();
    let mut it = infos::<(), u32>("abcd", &font, 10);
    let first = it.next_with_break(Break::Wrap { byte: 2, char: 2, len_bytes: 0 }, 9).unwrap();
    let second = it.next_with_break(Break::End { byte: 2, char: 2 }, 9).unwrap();
    assert_eq!(second.start_byte, first.end_byte());
    assert_eq!(second.start_char, first.end_char());
    assert_eq!(second.char_range(), 2..4);
}

#[test]
fn font_from_bytes_refuses_non_fonts() {
    assert!(matches!(from_bytes(vec![1, 2, 3]), Err(Error::IO(_))));
    let two_fonts = b"ttcf\x00\x01\x00\x00\x00\x00\x00\x02".to_vec();
    assert!(matches!(from_bytes(two_fonts.clone()), Err(Error::NoFont)));
    let one_bad_font = b"ttcf\x00\x01\x00\x00\x00\x00\x00\x01".to_vec();
    assert!(matches!(from_bytes(one_bad_font), Err(Error::NoFont)));
    let mut map = FontMap::new();
    assert!(matches!(map.insert_from_bytes(vec![0; 16]), Err(Error::IO(_))));
    assert!(matches!(map.insert_from_bytes(two_fonts), Err(Error::NoFont)));
    let mut ids = map.ids();
    assert_eq!(ids.next(), None);
}

#[test]
fn newline_lines_are_the_text_between_breaks() {
    let text = "a\r\nb\n\nc";
    let ranges: Vec<_> = newline_infos(text).iter().map(|i| i.char_range()).collect();
    assert_eq!(ranges, vec![0..1, 3..4, 5..5, 6..7]);
    let ranges: Vec<_> = newline_infos("x\n").iter().map(|i| i.char_range()).collect();
    assert_eq!(ranges, vec![0..1, 2..2]);
}
