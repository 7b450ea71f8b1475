use termreader::catalog::book::{Book, TRError};
use termreader::catalog::books_context::BookRef;
use termreader::catalog::context::Context;
use termreader::sources::chapter::ChapterPreview;
use termreader::sources::novel::{Novel, NovelStatus};
use termreader::sources::source::SourceID;

fn chapters(n: usize) -> Vec<ChapterPreview> {
    (1..=n)
        .map(|i| ChapterPreview {
            chapter_no: i,
            release_date: String::new(),
            name: format!("Chapter {i}"),
            url: format!("chapter-{i}"),
        })
        .collect()
}

fn novel(name: &str, url: &str, n: usize) -> Novel {
    Novel {
        source: SourceID::new(1),
        source_name: "BoxNovel".into(),
        full_url: format!("https://boxnovel.com/novel/{url}/"),
        novel_url: url.into(),
        name: name.into(),
        author: "Someone".into(),
        status: NovelStatus::Ongoing,
        genres: "Fantasy".into(),
        summary: "A story.".into(),
        chapters: chapters(n),
        alias: None,
    }
}

fn snapshot(ctx: &Context) -> (Vec<(String, Vec<BookRef>)>, Vec<String>) {
    (ctx.get_library_books().clone(), ctx.get_library_categories().clone())
}

fn context_with_book() -> (Context, BookRef) {
    let mut ctx = Context::new("data".into());
    let book = Book::from_novel(novel("A Novel", "a-novel", 3));
    let id = book.get_id();
    ctx.add_book(book);
    let r = ctx.get_book(id).unwrap();
    (ctx, r)
}

#[test]
fn a_new_context_has_the_default_category() {
    let ctx = Context::new("data".into());
    assert_eq!(ctx.get_library_categories(), &vec!["Default".to_string()]);
    assert_eq!(ctx.get_library_books().len(), 1);
    assert!(ctx.get_library_books()[0].1.is_empty());
    assert_eq!(ctx.get_save_dir(), "data");
    assert_eq!(ctx.get_history_entry_count(), 0);
}

#[test]
fn reordering_forwards_then_backwards_gives_back_the_order() {
    let mut ctx = Context::new("data".into());
    ctx.create_library_category("A".into()).unwrap();
    ctx.create_library_category("B".into()).unwrap();
    let before = snapshot(&ctx);
    assert_eq!(ctx.reorder_category_forwards(2), Some(1));
    assert_eq!(ctx.get_library_categories(), &vec!["Default".to_string(), "B".into(), "A".into()]);
    assert_eq!(ctx.reorder_category_backwards(1), Some(2));
    assert_eq!(snapshot(&ctx), before);
    assert_eq!(ctx.reorder_category_forwards(0), Some(0));
    assert_eq!(ctx.reorder_category_forwards(7), None);
    assert_eq!(ctx.reorder_category_backwards(2), Some(2));
}

#[test]
fn renaming_and_renaming_back_gives_back_the_library() {
    let mut ctx = Context::new("data".into());
    ctx.create_library_category("A".into()).unwrap();
    let before = snapshot(&ctx);
    ctx.rename_library_category("A".into(), "Z".into()).unwrap();
    assert_eq!(ctx.get_library_categories(), &vec!["Default".to_string(), "Z".into()]);
    ctx.rename_library_category("Z".into(), "A".into()).unwrap();
    assert_eq!(snapshot(&ctx), before);
    assert_eq!(ctx.rename_library_category("A".into(), "Default".into()), Err(TRError::Duplicate));
}

#[test]
fn creating_and_deleting_a_category_gives_back_the_library() {
    let (mut ctx, book) = context_with_book();
    ctx.add_to_lib(book.id, None).unwrap();
    let before = snapshot(&ctx);
    ctx.create_library_category("New".into()).unwrap();
    assert_eq!(ctx.create_library_category("New".into()), Err(TRError::Duplicate));
    ctx.delete_library_category("New".into()).unwrap();
    assert_eq!(snapshot(&ctx), before);
}

#[test]
fn the_default_category_cannot_be_deleted() {
    let mut ctx = Context::new("data".into());
    assert_eq!(
        ctx.delete_library_category("Default".into()),
        Err(TRError::InvalidChoice("the default category cannot be deleted".into()))
    );
}

#[test]
fn deleting_a_category_moves_its_books_to_the_default() {
    let (mut ctx, book) = context_with_book();
    ctx.create_library_category("Later".into()).unwrap();
    ctx.add_to_lib(book.id, Some("Later")).unwrap();
    ctx.delete_library_category("Later".into()).unwrap();
    assert_eq!(ctx.get_library_books()[0].1, vec![book]);
}

#[test]
fn adding_to_and_removing_from_the_library_gives_back_the_library() {
    let (mut ctx, book) = context_with_book();
    let before = snapshot(&ctx);
    ctx.add_to_lib(book.id, None).unwrap();
    assert!(book.in_library(&ctx));
    assert_eq!(ctx.get_library_books()[0].1, vec![book]);
    assert_eq!(ctx.add_to_lib(book.id, None), Err(TRError::Redundant));
    ctx.remove_from_lib(book.id);
    assert_eq!(snapshot(&ctx), before);
    // The handle still reaches the book, now out of the library.
    assert!(ctx.book_exists(book.id));
    assert!(!book.in_library(&ctx));
}

#[test]
fn errors_of_library_moves() {
    let (mut ctx, book) = context_with_book();
    let missing = Book::from_novel(novel("Other", "other", 1)).get_id();
    assert_eq!(ctx.add_to_lib(missing, None), Err(TRError::BookMissing));
    assert_eq!(
        ctx.move_book_category(book.id, None),
        Err(TRError::BadUse("the book is not in the library".into()))
    );
    ctx.create_library_category("Elsewhere".into()).unwrap();
    ctx.add_to_lib(book.id, None).unwrap();
    ctx.move_book_category(book.id, Some("Elsewhere")).unwrap();
    assert_eq!(ctx.get_library_books()[1].1, vec![book]);
    assert!(ctx.get_library_books()[0].1.is_empty());
}

#[test]
fn chapters_outside_the_novel_are_refused() {
    let (mut ctx, book) = context_with_book();
    assert_eq!(
        book.global_set_chapter(&mut ctx, 9),
        Err(TRError::InvalidArgument("chapter outside of range".into()))
    );
    assert_eq!(
        book.global_set_chapter(&mut ctx, 0),
        Err(TRError::InvalidArgument("chapter outside of range".into()))
    );
    assert_eq!(book.get_current_ch(&ctx), Some(1));
    book.global_set_chapter(&mut ctx, 2).unwrap();
    assert_eq!(book.get_current_ch(&ctx), Some(2));
    assert_eq!(book.get_total_ch_count(&ctx), Some(3));
    assert_eq!(book.get_chapter_url(&ctx, 2), Some("chapter-2".to_string()));
}

#[test]
fn history_keeps_the_newest_first() {
    let (mut ctx, book) = context_with_book();
    let other = Book::from_novel(novel("Other", "other", 1));
    let other_id = other.get_id();
    ctx.add_book(other);
    ctx.add_history_entry(book.id);
    ctx.add_history_entry(other_id);
    assert_eq!(ctx.get_history_entry_count(), 2);
    assert_eq!(ctx.get_history()[0].book.id, other_id);
    ctx.remove_history_entry(other_id);
    assert_eq!(ctx.get_history_entry_count(), 1);
    assert_eq!(ctx.get_history()[0].book.id, book.id);
    ctx.clear_history();
    assert_eq!(ctx.get_history_entry_count(), 0);
}

#[test]
fn books_are_found_by_url() {
    let (ctx, book) = context_with_book();
    assert!(ctx.book_exists(book.id));
    let url = "https://boxnovel.com/novel/a-novel/".to_string();
    assert!(ctx.book_exists_by_url(url.clone()));
    assert!(!ctx.book_exists_by_url("a-novel".into()));
    assert_eq!(ctx.get_book_url(url), Some(book));
    assert_eq!(book.get_name(&ctx), "A Novel");
}

#[test]
fn saving_and_loading_gives_back_the_state() {
    let (mut ctx, r) = context_with_book();
    ctx.create_library_category("Later".into()).unwrap();
    ctx.add_to_lib(r.get_id(&ctx), Some("Later")).unwrap();
    ctx.add_history_entry(r.get_id(&ctx));
    let library = snapshot(&ctx);
    let history: Vec<_> = ctx.get_history().iter().map(|e| (e.book, e.timestamp, e.chapter)).collect();
    let saved = ctx.save();
    assert_eq!(saved.library.default_category_name, "Default");
    let back = Context::from_saved(saved);
    assert_eq!(snapshot(&back), library);
    let again: Vec<_> = back.get_history().iter().map(|e| (e.book, e.timestamp, e.chapter)).collect();
    assert_eq!(again, history);
    assert_eq!(back.get_save_dir(), "data");
    assert_eq!(back.get_updates_entry_count(), 0);
}

#[test]
fn what_is_saved_can_be_loaded_unless_a_book_is_missing() {
    let (mut ctx, r) = context_with_book();
    let id = r.get_id(&ctx);
    ctx.add_to_lib(id, None).unwrap();
    ctx.add_history_entry(id);
    assert!(ctx.books.is_wf());
    assert!(ctx.library.is_wf());
    let mut saved = ctx.save();
    assert!(saved.library.is_wf());
    assert!(saved.library.names_only(&saved.books));
    assert!(saved.is_loadable());
    saved.books.books.clear();
    assert!(saved.books.is_wf());
    assert!(!saved.library.names_only(&saved.books));
    assert!(!saved.is_loadable());
    saved.library.category_order.push("Default".into());
    assert!(!saved.library.is_wf());
}

#[test]
fn a_missing_category_adds_to_the_default() {
    let (mut ctx, book) = context_with_book();
    ctx.add_to_lib(book.id, Some("Nowhere")).unwrap();
    assert_eq!(ctx.get_library_books()[0].1, vec![book]);
    assert!(book.in_library(&ctx));
}

#[test]
fn book_sources() {
    let (mut ctx, r) = context_with_book();
    let id = r.get_id(&ctx);
    let source = ctx.get_book_source(id).unwrap();
    assert_eq!(source.get_id(), SourceID::new(1));
    let book = Book::from_novel(novel("Again", "again", 1));
    assert_eq!(book.get_source(&ctx).get_id(), SourceID::new(1));
    let local = Book::from_local_source_checked("books/story.txt".into(), &b"once\nupon".to_vec()).unwrap();
    let local_id = local.get_id();
    ctx.add_book(local);
    assert!(ctx.get_book_source(local_id).is_none());
    let missing = Book::from_novel(novel("Gone", "gone", 1)).get_id();
    assert!(ctx.get_book_source(missing).is_none());
}
