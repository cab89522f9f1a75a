use hackernews_tui::story::Story;
use hackernews_tui::story_page::{
    construct_and_add_new_story_view, construct_story_main_view, construct_story_view,
    get_story_view_title_bar, starting_id_for_page, story_tag, story_tag_position, FilterRequest,
    PageAction, PageCommand, PageRequest, SortRequest, StorySortMode, TitleStyle,
};
use hackernews_tui::story_view::{ListItem, StatusMessage};

fn stories(n: u32) -> Vec<Story> {
    (0..n)
        .map(|i| Story {
            id: i,
            title: "t".to_string(),
            url: String::new(),
            author: "a".to_string(),
            points: 500,
            num_comments: 0,
            time: 0,
        })
        .collect()
}

fn texts(tag: &str, mode: StorySortMode) -> Vec<(String, TitleStyle)> {
    get_story_view_title_bar(tag, mode)
        .spans
        .into_iter()
        .map(|s| (s.text, s.style))
        .collect()
}

#[test]
fn tags_and_positions() {
    let names = ["front_page", "story", "ask_hn", "show_hn", "job"];
    for (i, name) in names.iter().enumerate() {
        assert_eq!(story_tag(i), *name);
        assert_eq!(story_tag_position(name), Some(i));
    }
    assert_eq!(story_tag_position("jobs"), None);
    assert_eq!(story_tag_position(""), None);
}

#[test]
fn title_bar_marks_current_tag() {
    let spans = texts("ask_hn", StorySortMode::Points);
    let expected: Vec<(String, TitleStyle)> = vec![
        ("[Y]".into(), TitleStyle::Logo),
        (" Hacker News (500+ points)".into(), TitleStyle::Title),
        (" | ".into(), TitleStyle::Title),
        ("1.front_page".into(), TitleStyle::Title),
        (" | ".into(), TitleStyle::Title),
        ("2.story".into(), TitleStyle::Title),
        (" | ".into(), TitleStyle::Title),
        ("3.ask_hn (by_point)".into(), TitleStyle::CurrentTag),
        (" | ".into(), TitleStyle::Title),
        ("4.show_hn".into(), TitleStyle::Title),
        (" | ".into(), TitleStyle::Title),
        ("5.job".into(), TitleStyle::Title),
        (" | ".into(), TitleStyle::Title),
    ];
    assert_eq!(spans, expected);
}

#[test]
fn title_bar_sort_descriptions() {
    assert_eq!(texts("story", StorySortMode::Date)[5].0, "2.story (by_date)");
    assert_eq!(texts("front_page", StorySortMode::Unsorted)[3], ("1.front_page".to_string(), TitleStyle::CurrentTag));
    let unknown = texts("nothing", StorySortMode::Date);
    assert!(unknown.iter().all(|(_, style)| *style != TitleStyle::CurrentTag));
}

#[test]
fn starting_ids() {
    assert_eq!(starting_id_for_page(0), 0);
    assert_eq!(starting_id_for_page(3), 60);
}

#[test]
fn story_page_construction() {
    let page = construct_story_view(stories(2), "show_hn", StorySortMode::Date, 2);
    assert_eq!(page.tag_index, 3);
    assert_eq!(page.page, 2);
    assert_eq!(page.sort_mode, StorySortMode::Date);
    assert_eq!(page.view.starting_id(), 40);
    assert_eq!(page.view.item(1), ListItem::StoryEntry { number: 42, id_width: 2 });
    let main = construct_story_main_view(stories(1), 7);
    assert_eq!(main.item(0), ListItem::StoryEntry { number: 8, id_width: 2 });
}

#[test]
fn streaming_page_construction() {
    let page = construct_and_add_new_story_view("job", StorySortMode::Unsorted, 1);
    assert_eq!(page.tag_index, 4);
    assert_eq!(page.view.starting_id(), 20);
    assert_eq!(page.view.item(0), ListItem::Status(StatusMessage::Scanning));
    assert!(page.view.is_receiving());
}

#[test]
fn tag_navigation_wraps() {
    let page = construct_and_add_new_story_view("job", StorySortMode::Points, 3);
    assert_eq!(
        page.handle_page_command(PageCommand::NextStoryTag),
        PageAction::Open(PageRequest {
            tag_index: 0,
            sort: SortRequest::Exactly(StorySortMode::Unsorted),
            page: 0,
            filters: FilterRequest::Reset,
            pop_layer: false,
        })
    );
    assert_eq!(
        page.handle_page_command(PageCommand::PrevStoryTag),
        PageAction::Open(PageRequest {
            tag_index: 3,
            sort: SortRequest::Exactly(StorySortMode::Unsorted),
            page: 0,
            filters: FilterRequest::Reset,
            pop_layer: false,
        })
    );
    let front = construct_and_add_new_story_view("front_page", StorySortMode::Unsorted, 0);
    assert_eq!(
        front.handle_page_command(PageCommand::PrevStoryTag),
        PageAction::Open(PageRequest {
            tag_index: 4,
            sort: SortRequest::Exactly(StorySortMode::Date),
            page: 0,
            filters: FilterRequest::Reset,
            pop_layer: false,
        })
    );
    assert_eq!(
        front.handle_page_command(PageCommand::NextStoryTag),
        PageAction::Open(PageRequest {
            tag_index: 1,
            sort: SortRequest::Exactly(StorySortMode::Date),
            page: 0,
            filters: FilterRequest::Reset,
            pop_layer: false,
        })
    );
}

#[test]
fn five_next_tags_return() {
    let mut tag = 2;
    for _ in 0..5 {
        let page = construct_and_add_new_story_view(story_tag(tag), StorySortMode::Unsorted, 0);
        match page.handle_page_command(PageCommand::NextStoryTag) {
            PageAction::Open(req) => tag = req.tag_index,
            other => panic!("unexpected {other:?}"),
        }
    }
    assert_eq!(tag, 2);
}

#[test]
fn sort_mode_cycling() {
    let front = construct_and_add_new_story_view("front_page", StorySortMode::Unsorted, 2);
    assert_eq!(front.handle_page_command(PageCommand::CycleSortMode), PageAction::Ignored);
    let story = construct_and_add_new_story_view("story", StorySortMode::Date, 2);
    assert_eq!(
        story.handle_page_command(PageCommand::CycleSortMode),
        PageAction::Open(PageRequest {
            tag_index: 1,
            sort: SortRequest::NextAfter(StorySortMode::Date),
            page: 0,
            filters: FilterRequest::Keep,
            pop_layer: true,
        })
    );
}

#[test]
fn paging() {
    let first = construct_and_add_new_story_view("ask_hn", StorySortMode::Points, 0);
    assert_eq!(first.handle_page_command(PageCommand::PrevPage), PageAction::Ignored);
    let next = PageRequest {
        tag_index: 2,
        sort: SortRequest::Exactly(StorySortMode::Points),
        page: 1,
        filters: FilterRequest::Keep,
        pop_layer: true,
    };
    assert_eq!(first.handle_page_command(PageCommand::NextPage), PageAction::Open(next));
    let second = construct_and_add_new_story_view("ask_hn", StorySortMode::Points, 1);
    assert_eq!(
        second.handle_page_command(PageCommand::PrevPage),
        PageAction::Open(PageRequest { page: 0, ..next })
    );
    assert_eq!(second.handle_page_command(PageCommand::OpenHelp), PageAction::ShowHelp);
}

#[test]
fn title_bar_layout() {
    let bar = get_story_view_title_bar("story", StorySortMode::Date);
    assert_eq!(bar.layer, TitleStyle::Title);
    assert_eq!((bar.padding_left, bar.padding_right, bar.padding_top, bar.padding_bottom), (0, 0, 0, 1));
}
