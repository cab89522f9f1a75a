use hackernews_tui::story::Story;
use hackernews_tui::story_view::{ListItem, StatusMessage, StoryAction, StoryCommand, StoryView};

fn story(id: u32, url: &str) -> Story {
    Story {
        id,
        title: format!("story {id}"),
        url: url.to_string(),
        author: "a".to_string(),
        points: 600,
        num_comments: 1,
        time: 0,
    }
}

fn stories(n: u32) -> Vec<Story> {
    (0..n).map(|i| story(100 + i, "https://example.com")).collect()
}

fn type_number(view: &mut StoryView, number: &str) {
    for c in number.chars() {
        assert_eq!(view.handle_key(Some(c), None, 0), StoryAction::Ignored);
    }
}

#[test]
fn new_numbers_stories_after_starting_id() {
    let view = StoryView::new(stories(3), 20);
    assert_eq!(view.len(), 3);
    assert_eq!(view.item(0), ListItem::StoryEntry { number: 21, id_width: 2 });
    assert_eq!(view.item(2), ListItem::StoryEntry { number: 23, id_width: 2 });
    assert_eq!(view.starting_id(), 20);
    assert!(!view.is_receiving());
    assert!(!view.has_placeholder());
    assert_eq!(view.raw_command(), "");
}

#[test]
fn construct_story_view_entries() {
    let list = stories(2);
    let items = StoryView::construct_story_view(&list, 980);
    assert_eq!(
        items,
        vec![
            ListItem::StoryEntry { number: 981, id_width: 4 },
            ListItem::StoryEntry { number: 982, id_width: 4 },
        ]
    );
    assert!(StoryView::construct_story_view(&[], 0).is_empty());
}

#[test]
fn streaming_view_starts_with_placeholder() {
    let view = StoryView::new_streaming(40);
    assert_eq!(view.len(), 1);
    assert_eq!(view.item(0), ListItem::Status(StatusMessage::Scanning));
    assert_eq!(StatusMessage::Scanning.text(), "Scanning for stories with 500+ points…");
    assert!(view.is_receiving());
    assert!(view.has_placeholder());
    assert!(view.stories.is_empty());
}

#[test]
fn appending_replaces_placeholder() {
    let mut view = StoryView::new_streaming(40);
    view.try_append_story(stories(2), false);
    assert!(!view.has_placeholder());
    assert!(view.is_receiving());
    assert_eq!(view.len(), 2);
    assert_eq!(view.item(0), ListItem::StoryEntry { number: 41, id_width: 2 });
    assert_eq!(view.item(1), ListItem::StoryEntry { number: 42, id_width: 2 });
    view.try_append_story(vec![story(7, "")], true);
    assert!(!view.is_receiving());
    assert_eq!(view.len(), 3);
    assert_eq!(view.item(2), ListItem::StoryEntry { number: 43, id_width: 2 });
    assert_eq!(view.stories[2].id, 7);
}

#[test]
fn nothing_new_changes_nothing() {
    let mut view = StoryView::new_streaming(0);
    view.try_append_story(vec![], false);
    assert!(view.has_placeholder());
    assert!(view.is_receiving());
    assert_eq!(view.item(0), ListItem::Status(StatusMessage::Scanning));
}

#[test]
fn empty_stream_says_no_stories() {
    let mut view = StoryView::new_streaming(0);
    view.try_append_story(vec![], true);
    assert!(!view.is_receiving());
    assert!(view.has_placeholder());
    assert_eq!(view.len(), 1);
    assert_eq!(view.item(0), ListItem::Status(StatusMessage::NoStories));
    assert_eq!(StatusMessage::NoStories.text(), "No stories with 500+ points on this page.");
}

#[test]
fn end_of_stream_after_stories_keeps_them() {
    let mut view = StoryView::new_streaming(0);
    view.try_append_story(stories(1), false);
    view.try_append_story(vec![], true);
    assert!(!view.is_receiving());
    assert_eq!(view.len(), 1);
    assert_eq!(view.item(0), ListItem::StoryEntry { number: 1, id_width: 2 });
}

#[test]
fn batches_equal_one_append() {
    let mut a = StoryView::new_streaming(20);
    a.try_append_story(stories(2), false);
    a.try_append_story(stories(3), true);
    let mut b = StoryView::new_streaming(20);
    let mut all = stories(2);
    all.extend(stories(3));
    b.try_append_story(all, true);
    assert_eq!(a.len(), b.len());
    for i in 0..a.len() {
        assert_eq!(a.item(i), b.item(i));
    }
    assert_eq!(a.stories, b.stories);
    assert_eq!(a.is_receiving(), b.is_receiving());
    assert_eq!(a.has_placeholder(), b.has_placeholder());
}

#[test]
fn digits_build_the_number_and_other_keys_clear_it() {
    let mut view = StoryView::new(stories(5), 0);
    type_number(&mut view, "12");
    assert_eq!(view.raw_command(), "12");
    assert_eq!(view.handle_key(Some('x'), None, 0), StoryAction::Ignored);
    assert_eq!(view.raw_command(), "");
    type_number(&mut view, "3");
    assert_eq!(view.handle_key(None, Some(StoryCommand::NextStory), 0), StoryAction::Focus(1));
    assert_eq!(view.raw_command(), "");
}

#[test]
fn goto_focuses_shown_number() {
    let mut view = StoryView::new(stories(5), 20);
    type_number(&mut view, "23");
    assert_eq!(view.handle_key(None, Some(StoryCommand::GotoStory), 4), StoryAction::Focus(2));
    assert_eq!(view.raw_command(), "");
}

#[test]
fn goto_out_of_page_is_ignored_and_clears() {
    let mut view = StoryView::new(stories(5), 20);
    type_number(&mut view, "20");
    assert_eq!(view.handle_key(None, Some(StoryCommand::GotoStory), 0), StoryAction::Ignored);
    assert_eq!(view.raw_command(), "");
    type_number(&mut view, "26");
    assert_eq!(view.handle_key(None, Some(StoryCommand::GotoStory), 0), StoryAction::Ignored);
    assert_eq!(view.raw_command(), "");
}

#[test]
fn goto_without_number_keeps_nothing() {
    let mut view = StoryView::new(stories(5), 0);
    assert_eq!(view.handle_key(None, Some(StoryCommand::GotoStory), 0), StoryAction::Ignored);
    assert_eq!(view.raw_command(), "");
}

#[test]
fn goto_with_overflowing_number_keeps_it() {
    let mut view = StoryView::new(stories(5), 0);
    let huge = format!("{}9", usize::MAX);
    type_number(&mut view, &huge);
    assert_eq!(view.handle_key(None, Some(StoryCommand::GotoStory), 0), StoryAction::Ignored);
    assert_eq!(view.raw_command(), huge);
}

#[test]
fn prev_and_next_story() {
    let mut view = StoryView::new(stories(3), 0);
    assert_eq!(view.handle_key(None, Some(StoryCommand::PrevStory), 0), StoryAction::Ignored);
    assert_eq!(view.handle_key(None, Some(StoryCommand::PrevStory), 2), StoryAction::Focus(1));
    assert_eq!(view.handle_key(None, Some(StoryCommand::NextStory), 1), StoryAction::Focus(2));
    assert_eq!(view.handle_key(None, Some(StoryCommand::NextStory), 2), StoryAction::Ignored);
    let mut empty = StoryView::new(vec![], 0);
    assert_eq!(empty.handle_key(None, Some(StoryCommand::NextStory), 0), StoryAction::Ignored);
}

#[test]
fn next_then_prev_returns() {
    let mut view = StoryView::new(stories(4), 0);
    assert_eq!(view.handle_key(None, Some(StoryCommand::NextStory), 1), StoryAction::Focus(2));
    assert_eq!(view.handle_key(None, Some(StoryCommand::PrevStory), 2), StoryAction::Focus(1));
}

#[test]
fn open_commands_act_on_focused_story() {
    let mut list = stories(2);
    list.push(story(555, ""));
    let mut view = StoryView::new(list, 0);
    assert_eq!(
        view.handle_key(None, Some(StoryCommand::GotoStoryCommentView), 1),
        StoryAction::OpenCommentView(101)
    );
    assert_eq!(
        view.handle_key(None, Some(StoryCommand::OpenArticleInBrowser), 0),
        StoryAction::OpenArticleInBrowser(0)
    );
    assert_eq!(
        view.handle_key(None, Some(StoryCommand::OpenArticleInArticleView), 1),
        StoryAction::OpenArticleInView(1)
    );
    assert_eq!(
        view.handle_key(None, Some(StoryCommand::OpenArticleInArticleView), 2),
        StoryAction::Consumed
    );
    assert_eq!(
        view.handle_key(None, Some(StoryCommand::OpenStoryInBrowser), 2),
        StoryAction::OpenStoryInBrowser(2)
    );
    assert_eq!(
        view.handle_key(None, Some(StoryCommand::OpenStoryInBrowser), 3),
        StoryAction::Ignored
    );
}

#[test]
fn goto_on_placeholder_focuses_it() {
    let mut view = StoryView::new_streaming(0);
    type_number(&mut view, "1");
    assert_eq!(view.handle_key(None, Some(StoryCommand::GotoStory), 0), StoryAction::Focus(0));
    assert_eq!(
        view.handle_key(None, Some(StoryCommand::GotoStoryCommentView), 0),
        StoryAction::Ignored
    );
}

#[test]
fn scroll_direction() {
    assert!(StoryView::on_set_focus_index(1, 2));
    assert!(StoryView::on_set_focus_index(2, 2));
    assert!(!StoryView::on_set_focus_index(3, 2));
}
