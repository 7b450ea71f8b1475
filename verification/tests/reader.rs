use std::collections::VecDeque;

use termreader::reader::book_text::BookText;
use termreader::reader::local_buffer::LocalBuffer;
use termreader::reader::portion::{
    BookPortion, BookProgress, BookProgressData, BufferType, DisplayLineIndex, LineReturnData,
    Linebreaks, NextDisplay, ReadError,
};
use termreader::reader::reader_data::ReaderData;
use termreader::reader::wrap::{cut_backward, cut_forward};
use termreader::sources::chapter::Chapter;
use termreader::sources::novel::{Novel, NovelStatus};
use termreader::sources::source::SourceID;
use termreader::state::book_info::{BookInfo, BookSource};

fn chars(s: &str) -> Vec<char> {
    s.chars().collect()
}

fn text(v: &[char]) -> String {
    v.iter().collect()
}

fn global_portion(lines: &[&str], width: usize) -> BookPortion {
    let buffer: VecDeque<String> = lines.iter().map(|l| l.to_string()).collect();
    let mut p = BookPortion::with_buffer(BufferType::Global(buffer), (0, 0));
    p.term_width = width;
    p
}

fn line_of(r: LineReturnData) -> (String, usize, usize) {
    match r {
        LineReturnData::LineExists(d) => (d.line, d.line_no, d.line_char),
        other => panic!("expected a line, got {other:?}"),
    }
}

fn backwards(r: LineReturnData) -> (String, usize, usize, usize) {
    match r {
        LineReturnData::BackwardsLineExists { line, last_char_idx } => {
            (line.line, line.line_no, line.line_char, last_char_idx)
        }
        other => panic!("expected a line going backwards, got {other:?}"),
    }
}

#[test]
fn forward_cut_keeps_a_short_line_whole() {
    let c = chars("hello world");
    let cut = cut_forward(&c, 0, 20);
    assert_eq!(cut.kind, 2);
    assert!(cut.ok);
    assert!(!cut.short);
    assert_eq!(text(&cut.text), "hello world");
    assert_eq!(cut.last_char, 10);
}

#[test]
fn forward_cut_breaks_before_the_last_word() {
    let c = chars("hello world");
    let cut = cut_forward(&c, 0, 8);
    assert!(cut.ok && cut.short);
    assert_eq!(text(&cut.text), "hello");
    assert_eq!(cut.last_char, 4);
}

#[test]
fn forward_cut_hyphenates_a_long_word() {
    let c = chars("abcdefghij");
    let cut = cut_forward(&c, 0, 4);
    assert!(cut.ok && cut.short);
    assert_eq!(text(&cut.text), "abc-");
    assert_eq!(cut.last_char, 3);
}

#[test]
fn forward_cut_at_a_space_just_past_the_width() {
    let c = chars("hello world");
    let cut = cut_forward(&c, 0, 5);
    assert_eq!(text(&cut.text), "hello");
    assert_eq!(cut.last_char, 4);
}

#[test]
fn forward_cut_of_blank_rest() {
    let c = chars("   ");
    assert_eq!(cut_forward(&c, 0, 10).kind, 0);
    let c = chars("ab  ");
    assert_eq!(cut_forward(&c, 2, 10).kind, 1);
    assert_eq!(cut_forward(&c, 9, 10).kind, 1);
}

#[test]
fn forward_cut_that_would_end_before_the_line() {
    let c = chars(" abcdefgh");
    let cut = cut_forward(&c, 0, 5);
    assert_eq!(cut.kind, 2);
    assert!(!cut.ok);
}

#[test]
fn backward_cut_keeps_a_short_piece() {
    let c = chars("hello world");
    let cut = cut_backward(&c, 10, None, 20);
    assert_eq!(text(&cut.text), "hello world");
    assert_eq!(cut.first_char, 0);
}

#[test]
fn backward_cut_keeps_the_last_words() {
    let c = chars("hello world");
    let cut = cut_backward(&c, 10, None, 8);
    assert_eq!(text(&cut.text), "world");
    assert_eq!(cut.first_char, 5);
    let cut = cut_backward(&c, 10, None, 5);
    assert_eq!(text(&cut.text), "world");
    assert_eq!(cut.first_char, 5);
}

#[test]
fn backward_cut_hyphenates_a_long_word() {
    let c = chars("abcdefghij");
    let cut = cut_backward(&c, 9, None, 4);
    assert_eq!(text(&cut.text), "fgh-");
    assert_eq!(cut.first_char, 6);
}

#[test]
fn backward_cut_starts_after_a_break() {
    let c = chars("hello world");
    let cut = cut_backward(&c, 10, Some(4), 20);
    assert_eq!(text(&cut.text), "world");
    assert_eq!(cut.first_char, 6);
}

#[test]
fn linebreaks_find_the_greatest_earlier_break() {
    let mut b = Linebreaks::new();
    assert_eq!(b.get_previous_break((3, 50)), None);
    b.insert(3, 10);
    b.insert(3, 30);
    b.insert(3, 20);
    b.insert(4, 5);
    assert_eq!(b.get_line(3).unwrap(), &vec![10, 30, 20]);
    assert_eq!(b.get_previous_break((3, 50)), Some(30));
    assert_eq!(b.get_previous_break((3, 31)), Some(20));
    assert_eq!(b.get_previous_break((3, 11)), None);
    assert_eq!(b.get_previous_break((4, 7)), Some(5));
    assert!(b.get_line(5).is_none());
}

#[test]
fn recorded_break_is_found_going_backwards() {
    let mut b = Linebreaks::default();
    b.insert(0, 12);
    let found = b.get_previous_break((0, 40)).unwrap();
    assert!(found >= 12);
}

#[test]
fn display_line_index_pairs() {
    let i = DisplayLineIndex::from_pairs((1, 2), (3, 4));
    assert_eq!(i.get_start(), (1, 2));
    assert_eq!(i.get_end(), (3, 4));
    let e = DisplayLineIndex::empty_line(7);
    assert_eq!(e.get_start(), (7, 0));
    assert_eq!(e.get_end(), (7, 0));
}

#[test]
fn portion_gets_lines_forwards() {
    let mut p = global_portion(&["hello world", "", "abcdefghij"], 8);
    assert_eq!(line_of(p.get_line((0, 0)).unwrap()), ("hello".to_string(), 0, 4));
    assert_eq!(p.breaks.get_line(0).unwrap(), &vec![4]);
    assert_eq!(line_of(p.get_line((0, 6)).unwrap()), ("world".to_string(), 0, 10));
    assert!(matches!(p.get_line((0, 12)).unwrap(), LineReturnData::LineEnd));
    assert!(matches!(p.get_line((1, 0)).unwrap(), LineReturnData::LineEmpty));
    assert!(matches!(p.get_line((5, 0)).unwrap(), LineReturnData::NonExistent));
    assert_eq!(line_of(p.get_line_unchecked((2, 0))), ("abcdefg-".to_string(), 2, 7));
}

#[test]
fn portion_refuses_a_cut_before_the_line() {
    let mut p = global_portion(&[" abcdefgh"], 5);
    assert_eq!(p.get_line((0, 0)).unwrap_err(), ReadError::CutBeforeLineStart);
}

#[test]
fn portion_gets_lines_backwards() {
    let mut p = global_portion(&["hello world", ""], 8);
    p.breaks.insert(0, 4);
    assert_eq!(
        backwards(p.get_line_backwards((0, isize::MAX as usize))),
        ("world".to_string(), 0, 6, 10)
    );
    assert!(matches!(p.get_line_backwards((0, 0)), LineReturnData::LineEnd));
    assert!(matches!(p.get_line_backwards((1, 5)), LineReturnData::LineEmpty));
    assert!(matches!(p.get_line_backwards((9, 5)), LineReturnData::NonExistent));
    assert_eq!(
        backwards(p.get_line_backwards_unchecked((0, 5))),
        ("hello ".to_string(), 0, 0, 10)
    );
}

#[test]
fn layout_fills_the_screen_and_fits_the_width() {
    let mut p = global_portion(&["hello world", "", "abcdefghij"], 0);
    let t = BookText::from_portion(&mut p, 8, 10).unwrap();
    let lines: Vec<String> = t.lines.iter().cloned().collect();
    assert_eq!(lines, vec!["hello", "world", "", "abcdefg-", "j"]);
    assert!(lines.iter().all(|l| l.chars().count() <= 8));
    assert_eq!(p.display_line_idxs.len(), 5);
    assert_eq!(p.term_width, 8);
    assert_eq!(p.term_height, 10);
    assert_eq!(p.display_end, (2, 9));
}

#[test]
fn scrolling_moves_one_display_line() {
    let mut p = global_portion(&["hello world", "", "abcdefghij"], 0);
    let mut t = BookText::from_portion(&mut p, 8, 2).unwrap();
    assert_eq!(t.lines.iter().cloned().collect::<Vec<_>>(), vec!["hello", "world"]);
    t.scroll_down(&mut p, 1).unwrap();
    assert_eq!(t.lines.iter().cloned().collect::<Vec<_>>(), vec!["world", ""]);
    assert_eq!(p.display_start, (0, 6));
    assert_eq!(p.display_end, (1, 0));
    t.scroll_up(&mut p, 1).unwrap();
    assert_eq!(t.lines.iter().cloned().collect::<Vec<_>>(), vec!["hello ", "world"]);
    assert_eq!(p.display_start, (0, 0));
    assert_eq!(p.display_end, (0, 10));
}

#[test]
fn scrolling_past_the_end_keeps_the_display() {
    let mut p = global_portion(&["one", "two"], 0);
    let mut t = BookText::from_portion(&mut p, 10, 2).unwrap();
    let (again, eof) = BookText::portion_scroll_down(&mut p).unwrap();
    assert!(eof);
    assert_eq!(again.lines, t.lines);
    let (_, bof) = BookText::portion_scroll_up(&mut p).unwrap();
    assert!(bof);
    t.no_op(&p);
    assert_eq!(t.lines.iter().cloned().collect::<Vec<_>>(), vec!["one", "two"]);
    assert_eq!(BookText::from_copy(&p).lines, t.lines);
    assert!(BookText::new().lines.is_empty());
}

#[test]
fn jump_lays_out_again() {
    let mut p = global_portion(&["hello world"], 0);
    let mut t = BookText::new();
    t.jump(&mut p, 20, 5).unwrap();
    assert_eq!(t.lines.iter().cloned().collect::<Vec<_>>(), vec!["hello world"]);
}

#[test]
fn empty_portion_shows_loading() {
    let p = BookPortion::empty();
    match &p.buffer {
        BufferType::Global(lines) => assert_eq!(lines[0], "Loading... please wait..."),
        _ => panic!("expected a chapter buffer"),
    }
    assert!(matches!(p.display_next, NextDisplay::Jump));
}

#[test]
fn progress_of_a_chapter() {
    let mut p = global_portion(&["first", "last line"], 5);
    let prog = p.get_progress();
    assert_eq!(prog.total_lines, 2);
    assert_eq!(prog.progress, BookProgress::Location((0, 0)));
    p.display_end = (1, 8);
    assert_eq!(p.get_progress().progress, BookProgress::Finished);
    p.display_end = (1, 70);
    assert_eq!(p.get_progress().progress, BookProgress::Location((0, 0)));
}

#[test]
fn progress_data_counts_lines() {
    assert_eq!(BookProgressData::from_file("a\nb\n").total_lines, 2);
    assert_eq!(BookProgressData::from_file("a\nb").total_lines, 2);
    assert_eq!(BookProgressData::from_file("").total_lines, 0);
    assert_eq!(BookProgressData::from_file("\n\n").total_lines, 2);
    let d = BookProgressData::from_file("a");
    assert_eq!(d.total_lines, 1);
    assert_eq!(d.progress, BookProgress::Location((0, 0)));
    let f = BookProgressData::new(10, BookProgress::FINISHED);
    assert_eq!(f.get_line(), 9);
    assert_eq!(f.get_total_lines(), 10);
    assert_eq!(BookProgressData::new(10, BookProgress::Location((4, 2))).get_line(), 4);
}

fn file(n: usize) -> Vec<String> {
    (0..n).map(|i| format!("line {i}")).collect()
}

#[test]
fn local_buffer_holds_a_window_of_the_file() {
    let b = LocalBuffer::new("book.txt".into(), file(10), 2, 5);
    assert_eq!(b.buffer_start_line, 2);
    assert_eq!(b.buffer_end_line, 5);
    assert_eq!(b.buffer.iter().cloned().collect::<Vec<_>>(), vec!["line 2", "line 3", "line 4", "line 5"]);
    assert_eq!(b.get_buffer_line(4), Some(2));
    assert_eq!(b.get_buffer_line(6), None);
    let past = LocalBuffer::new("book.txt".into(), file(10), 20, 25);
    assert!(past.is_empty());
    let short = LocalBuffer::new("book.txt".into(), file(10), 8, 30);
    assert_eq!(short.buffer_end_line, 9);
}

#[test]
fn surrounding_a_line_holds_it() {
    let mut b = LocalBuffer::empty("book.txt".into(), file(300));
    assert!(b.is_empty());
    b.surround_line(100);
    assert_eq!(b.buffer_start_line, 50);
    assert_eq!(b.buffer_end_line, 250);
    assert_eq!(b.get_buffer_line(100), Some(50));
    assert_eq!(b.buffer[50], "line 100");
    b.surround_line(110);
    assert!(b.get_buffer_line(110).is_some());
    assert_eq!(b.buffer_start_line, 60);
}

#[test]
fn shifting_moves_the_window() {
    let mut b = LocalBuffer::new("book.txt".into(), file(500), 0, 200);
    assert!(b.shift_down());
    assert_eq!(b.buffer_start_line, 100);
    assert_eq!(b.buffer_end_line, 300);
    assert!(b.shift_up());
    assert_eq!(b.buffer_start_line, 0);
    assert_eq!(b.buffer_end_line, 200);
    // The window holds the file's lines in the file's order.
    for l in 0..=200 {
        assert_eq!(b.buffer[b.get_buffer_line(l).unwrap()], format!("line {l}"));
    }
    b.surround_line(300);
    b.surround_line(280);
    for l in b.buffer_start_line..=b.buffer_end_line {
        assert_eq!(b.buffer[b.get_buffer_line(l).unwrap()], format!("line {l}"));
    }
}

#[test]
fn local_portion_reads_through_its_buffer() {
    let mut buffer = LocalBuffer::empty("book.txt".into(), file(3));
    buffer.surround_line(0);
    let mut p = BookPortion::with_buffer(BufferType::Local(buffer), (0, 0));
    p.term_width = 20;
    assert_eq!(line_of(p.get_line((1, 0)).unwrap()), ("line 1".to_string(), 1, 5));
    assert!(matches!(p.get_line((7, 0)).unwrap(), LineReturnData::NonExistent));
    assert_eq!(p.get_progress().total_lines, 3);
}

fn novel() -> Novel {
    Novel {
        source: SourceID::new(1),
        source_name: "Source".into(),
        full_url: "https://example.com/novel/a-novel/".into(),
        novel_url: "a-novel".into(),
        name: "A Novel".into(),
        author: "Someone".into(),
        status: NovelStatus::Ongoing,
        genres: "Fantasy".into(),
        summary: "A story.".into(),
        chapters: vec![],
        alias: None,
    }
}

fn chapter(contents: &str) -> Chapter {
    Chapter {
        source: SourceID::new(1),
        novel_url: "a-novel".into(),
        chapter_url: "chapter-1".into(),
        chapter_name: "Chapter 1".into(),
        chapter_contents: contents.into(),
    }
}

#[test]
fn reader_opens_a_chapter_and_records_progress() {
    let book = BookInfo::from_novel_temp(novel(), 1);
    let mut r = ReaderData::create(book, Some(1), Some(chapter("line one\r\nline two\n")), vec![]);
    assert!(!r.is_local_source());
    assert_eq!(r.global_chapter, 1);
    match &r.portion.buffer {
        BufferType::Global(lines) => {
            assert_eq!(lines.iter().cloned().collect::<Vec<_>>(), vec!["line one", "line two"])
        }
        _ => panic!("expected a chapter buffer"),
    }
    assert_eq!(r.get_progress().progress, BookProgress::Location((0, 0)));
    r.set_progress();
    match r.book_info.get_source_data() {
        BookSource::Global(d) => {
            assert_eq!(d.chapter_progress[&1].progress, BookProgress::Location((0, 0)));
            assert!(!d.read_chapters.contains(&1));
        }
        _ => panic!("expected a book from a site"),
    }
    r.portion.display_end = (1, 7);
    r.set_progress();
    match r.book_info.get_source_data() {
        BookSource::Global(d) => {
            assert_eq!(d.chapter_progress[&1].progress, BookProgress::Finished);
            assert!(d.read_chapters.contains(&1));
        }
        _ => panic!("expected a book from a site"),
    }
    r.scroll_down(3);
    assert!(matches!(r.portion.display_next, NextDisplay::ScrollDown(3)));
    r.scroll_up(2);
    assert!(matches!(r.portion.display_next, NextDisplay::ScrollUp(2)));
}

#[test]
fn laying_out_fails_where_a_reached_line_cannot_be_cut() {
    // The bad line is reached: the layout fails.
    let mut p = global_portion(&["ok", " abcdefgh"], 5);
    p.display_next = NextDisplay::Jump;
    let mut t = BookText::new();
    assert_eq!(t.render_step(&mut p, 5, 4), Err(ReadError::CutBeforeLineStart));
    // The page is full before the bad line: no failure.
    let mut q = global_portion(&["ok", " abcdefgh"], 5);
    q.display_next = NextDisplay::Jump;
    assert_eq!(t.render_step(&mut q, 5, 1), Ok(()));
    assert_eq!(t.lines, vec!["ok".to_string()]);
    // Scrolling down onto the bad line fails; scrolling up never does.
    q.display_next = NextDisplay::ScrollDown(1);
    assert_eq!(t.render_step(&mut q, 5, 1), Err(ReadError::CutBeforeLineStart));
    let mut u = global_portion(&["ok", "fine"], 5);
    u.display_next = NextDisplay::Jump;
    t.render_step(&mut u, 5, 1).unwrap();
    u.display_next = NextDisplay::ScrollUp(3);
    assert_eq!(t.render_step(&mut u, 5, 1), Ok(()));
    assert_eq!(t.lines, vec!["ok".to_string()]);
}

#[test]
fn backward_cuts_keep_the_forward_breaks() {
    let mut p = global_portion(&["hello world"], 5);
    assert_eq!(backwards(p.get_line_backwards_unchecked((0, 100))), ("world".to_string(), 0, 5, 10));
    p.breaks.insert(0, 4);
    assert_eq!(backwards(p.get_line_backwards_unchecked((0, 100))), ("world".to_string(), 0, 6, 10));
    let mut q = global_portion(&["hello world"], 5);
    assert_eq!(line_of(q.get_line_unchecked((0, 0))), ("hello".to_string(), 0, 4));
    assert_eq!(q.breaks.get_line(0), Some(&vec![4]));
    assert_eq!(line_of(q.get_line_unchecked((0, 6))), ("world".to_string(), 0, 10));
    assert_eq!(q.breaks.get_line(0), Some(&vec![4]));
}

#[test]
fn a_fresh_layout_records_its_breaks_and_end() {
    let mut p = global_portion(&["hello world", "ab"], 5);
    p.display_next = NextDisplay::Jump;
    let mut t = BookText::new();
    t.render_step(&mut p, 5, 2).unwrap();
    assert_eq!(t.lines, vec!["hello".to_string(), "world".to_string()]);
    assert_eq!(p.breaks.get_line(0), Some(&vec![4]));
    assert_eq!(p.display_end, (0, 10));
}
