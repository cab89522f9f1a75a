//! A page of stories: the story tags, the title bar that shows them, and the
//! keys that move between tags, sort modes and pages.

use vstd::prelude::*;

use crate::decimal::{decimal, decimal_string};
use crate::story::Story;
use crate::story_view::{StoryView, StoryViewState};
use crate::STORY_LIMIT;

verus! {

/// How many story tags there are.
pub const STORY_TAG_COUNT: usize = 5;

/// The name of the `i`-th story tag.
pub open spec fn story_tag_name(i: nat) -> Seq<char> {
    if i == 0 {
        "front_page"@
    } else if i == 1 {
        "story"@
    } else if i == 2 {
        "ask_hn"@
    } else if i == 3 {
        "show_hn"@
    } else {
        "job"@
    }
}

/// The place of `tag` among the story tags, if it is one.
pub open spec fn story_tag_position_of(tag: Seq<char>) -> Option<nat> {
    if tag == story_tag_name(0) {
        Some(0)
    } else if tag == story_tag_name(1) {
        Some(1)
    } else if tag == story_tag_name(2) {
        Some(2)
    } else if tag == story_tag_name(3) {
        Some(3)
    } else if tag == story_tag_name(4) {
        Some(4)
    } else {
        None
    }
}

/// The tag after the `i`-th, the last one followed by the first.
pub open spec fn next_tag_index(i: nat) -> nat {
    (i + 1) % (STORY_TAG_COUNT as nat)
}

/// The tag before the `i`-th, the first one preceded by the last.
pub open spec fn prev_tag_index(i: nat) -> nat {
    ((i + STORY_TAG_COUNT) - 1) as nat % (STORY_TAG_COUNT as nat)
}

/// The order in which the stories of a page are sorted.
#[derive(Clone, Copy, Debug, PartialEq, Eq, Structural)]
pub enum StorySortMode {
    Unsorted,
    Date,
    Points,
}

/// What the title bar adds to the current tag to show its sort mode.
pub open spec fn sort_mode_desc(mode: StorySortMode) -> Seq<char> {
    match mode {
        StorySortMode::Unsorted => ""@,
        StorySortMode::Date => " (by_date)"@,
        StorySortMode::Points => " (by_point)"@,
    }
}

/// The sort mode a tag opens with: by date for `story` and `job`.
pub open spec fn default_sort_for(i: nat) -> StorySortMode {
    if story_tag_name(i) == "story"@ || story_tag_name(i) == "job"@ {
        StorySortMode::Date
    } else {
        StorySortMode::Unsorted
    }
}

/// The look of a piece of the title bar.
#[derive(Clone, Copy, Debug, PartialEq, Eq, Structural)]
pub enum TitleStyle {
    /// The `[Y]` logo.
    Logo,
    /// The plain title bar.
    Title,
    /// The tag of the page shown.
    CurrentTag,
}

/// A piece of the title bar.
#[derive(Debug, PartialEq, Eq)]
pub struct TitleSpan {
    pub text: String,
    pub style: TitleStyle,
}

/// The label of the `i`-th tag in the title bar: its number from 1 and its
/// name, and the sort mode when it is the tag shown.
pub open spec fn tag_label(tag: Seq<char>, sort_mode: StorySortMode, i: nat) -> (Seq<char>, TitleStyle) {
    if story_tag_name(i) == tag {
        (decimal(i + 1) + "."@ + story_tag_name(i) + sort_mode_desc(sort_mode), TitleStyle::CurrentTag)
    } else {
        (decimal(i + 1) + "."@ + story_tag_name(i), TitleStyle::Title)
    }
}

/// The separators and labels of the first `n` tags.
pub open spec fn tag_spans(tag: Seq<char>, sort_mode: StorySortMode, n: nat) -> Seq<(Seq<char>, TitleStyle)>
    decreases n,
{
    if n == 0 {
        Seq::empty()
    } else {
        tag_spans(tag, sort_mode, (n - 1) as nat) + seq![
            (" | "@, TitleStyle::Title),
            tag_label(tag, sort_mode, (n - 1) as nat),
        ]
    }
}

/// The title bar of a page of `tag` sorted by `sort_mode`: the logo, the
/// title, then every tag between separators.
pub open spec fn title_bar(tag: Seq<char>, sort_mode: StorySortMode) -> Seq<(Seq<char>, TitleStyle)> {
    seq![("[Y]"@, TitleStyle::Logo), (" Hacker News (500+ points)"@, TitleStyle::Title)]
        + tag_spans(tag, sort_mode, STORY_TAG_COUNT as nat) + seq![(" | "@, TitleStyle::Title)]
}

/// A command of the page around the story list.
#[derive(Clone, Copy, Debug, PartialEq, Eq, Structural)]
pub enum PageCommand {
    OpenHelp,
    CycleSortMode,
    NextStoryTag,
    PrevStoryTag,
    PrevPage,
    NextPage,
}

/// The sort mode of a page to open.
#[derive(Clone, Copy, Debug, PartialEq, Eq, Structural)]
pub enum SortRequest {
    /// This sort mode.
    Exactly(StorySortMode),
    /// The sort mode that comes after this one for the tag.
    NextAfter(StorySortMode),
}

/// The numeric filters of a page to open.
#[derive(Clone, Copy, Debug, PartialEq, Eq, Structural)]
pub enum FilterRequest {
    /// Those of the page shown.
    Keep,
    /// The default ones.
    Reset,
}

/// A page of stories to open in place of the one shown (`pop_layer`) or on
/// top of it.
#[derive(Clone, Copy, Debug, PartialEq, Eq, Structural)]
pub struct PageRequest {
    pub tag_index: usize,
    pub sort: SortRequest,
    pub page: usize,
    pub filters: FilterRequest,
    pub pop_layer: bool,
}

/// What the page asks for after a command.
#[derive(Clone, Copy, Debug, PartialEq, Eq, Structural)]
pub enum PageAction {
    Ignored,
    ShowHelp,
    Open(PageRequest),
}

/// What `command` asks for on the page `page` of the `tag_index`-th tag,
/// sorted by `sort_mode`. The front page has one sort mode only; a new tag
/// opens on its first page with its own sort mode and the default filters;
/// paging keeps tag, sort mode and filters.
pub open spec fn page_action(tag_index: nat, sort_mode: StorySortMode, page: nat, command: PageCommand) -> PageAction {
    match command {
        PageCommand::OpenHelp => PageAction::ShowHelp,
        PageCommand::CycleSortMode => if story_tag_name(tag_index) == "front_page"@ {
            PageAction::Ignored
        } else {
            PageAction::Open(
                PageRequest {
                    tag_index: tag_index as usize,
                    sort: SortRequest::NextAfter(sort_mode),
                    page: 0,
                    filters: FilterRequest::Keep,
                    pop_layer: true,
                },
            )
        },
        PageCommand::NextStoryTag => PageAction::Open(
            PageRequest {
                tag_index: next_tag_index(tag_index) as usize,
                sort: SortRequest::Exactly(default_sort_for(next_tag_index(tag_index))),
                page: 0,
                filters: FilterRequest::Reset,
                pop_layer: false,
            },
        ),
        PageCommand::PrevStoryTag => PageAction::Open(
            PageRequest {
                tag_index: prev_tag_index(tag_index) as usize,
                sort: SortRequest::Exactly(default_sort_for(prev_tag_index(tag_index))),
                page: 0,
                filters: FilterRequest::Reset,
                pop_layer: false,
            },
        ),
        PageCommand::PrevPage => if page > 0 {
            PageAction::Open(
                PageRequest {
                    tag_index: tag_index as usize,
                    sort: SortRequest::Exactly(sort_mode),
                    page: (page - 1) as usize,
                    filters: FilterRequest::Keep,
                    pop_layer: true,
                },
            )
        } else {
            PageAction::Ignored
        },
        PageCommand::NextPage => PageAction::Open(
            PageRequest {
                tag_index: tag_index as usize,
                sort: SortRequest::Exactly(sort_mode),
                page: (page + 1) as usize,
                filters: FilterRequest::Keep,
                pop_layer: true,
            },
        ),
    }
}

/// Whether two strings are equal.
fn str_equal(a: &str, b: &str) -> (equal: bool)
    ensures
        equal == (a@ == b@),
{
    let a = String::from_str(a);
    let b = String::from_str(b);
    a == b
}

/// The name of the `i`-th story tag.
pub fn story_tag(i: usize) -> (tag: &'static str)
    requires
        i < STORY_TAG_COUNT,
    ensures
        tag@ == story_tag_name(i as nat),
{
    if i == 0 {
        "front_page"
    } else if i == 1 {
        "story"
    } else if i == 2 {
        "ask_hn"
    } else if i == 3 {
        "show_hn"
    } else {
        "job"
    }
}

/// The place of `tag` among the story tags, if it is one.
pub fn story_tag_position(tag: &str) -> (position: Option<usize>)
    ensures
        match position {
            Some(i) => story_tag_position_of(tag@) == Some(i as nat),
            None => story_tag_position_of(tag@) is None,
        },
{
    if str_equal(tag, story_tag(0)) {
        Some(0)
    } else if str_equal(tag, story_tag(1)) {
        Some(1)
    } else if str_equal(tag, story_tag(2)) {
        Some(2)
    } else if str_equal(tag, story_tag(3)) {
        Some(3)
    } else if str_equal(tag, story_tag(4)) {
        Some(4)
    } else {
        None
    }
}

/// What the title bar adds to the current tag to show `mode`.
fn sort_mode_description(mode: StorySortMode) -> (desc: &'static str)
    ensures
        desc@ == sort_mode_desc(mode),
{
    match mode {
        StorySortMode::Unsorted => "",
        StorySortMode::Date => " (by_date)",
        StorySortMode::Points => " (by_point)",
    }
}

/// Whether a span list holds exactly the pieces of `spec`.
pub open spec fn spans_match(spans: Seq<TitleSpan>, spec: Seq<(Seq<char>, TitleStyle)>) -> bool {
    &&& spans.len() == spec.len()
    &&& forall|k: int|
        0 <= k < spans.len() ==> (#[trigger] spans[k]).text@ == spec[k].0 && spans[k].style == spec[k].1
}

/// The title bar of a page: its pieces of text, on a layer coloured in the
/// title bar's style, padded by the given number of lines and columns.
pub struct TitleBar {
    pub spans: Vec<TitleSpan>,
    pub layer: TitleStyle,
    pub padding_left: usize,
    pub padding_right: usize,
    pub padding_top: usize,
    pub padding_bottom: usize,
}

/// The title bar of a page of `tag` sorted by `sort_mode`: its text on a
/// layer in the title style, with one blank line below it.
pub fn get_story_view_title_bar(tag: &str, sort_mode: StorySortMode) -> (bar: TitleBar)
    ensures
        spans_match(bar.spans@, title_bar(tag@, sort_mode)),
        bar.layer == TitleStyle::Title,
        bar.padding_left == 0,
        bar.padding_right == 0,
        bar.padding_top == 0,
        bar.padding_bottom == 1,
{
    let spans = title_bar_spans(tag, sort_mode);
    TitleBar { spans, layer: TitleStyle::Title, padding_left: 0, padding_right: 0, padding_top: 0, padding_bottom: 1 }
}

/// The pieces of text of the title bar of a page of `tag` sorted by
/// `sort_mode`.
fn title_bar_spans(tag: &str, sort_mode: StorySortMode) -> (spans: Vec<TitleSpan>)
    ensures
        spans_match(spans@, title_bar(tag@, sort_mode)),
{
    let mut spans: Vec<TitleSpan> = Vec::new();
    spans.push(TitleSpan { text: String::from_str("[Y]"), style: TitleStyle::Logo });
    spans.push(TitleSpan { text: String::from_str(" Hacker News (500+ points)"), style: TitleStyle::Title });
    let ghost head = seq![("[Y]"@, TitleStyle::Logo), (" Hacker News (500+ points)"@, TitleStyle::Title)];
    assert(head + tag_spans(tag@, sort_mode, 0) =~= head);
    for i in 0..STORY_TAG_COUNT
        invariant
            spans_match(spans@, head + tag_spans(tag@, sort_mode, i as nat)),
    {
        spans.push(TitleSpan { text: String::from_str(" | "), style: TitleStyle::Title });
        let item = story_tag(i);
        let mut label = decimal_string(i + 1);
        label.append(".");
        label.append(item);
        let style = if str_equal(item, tag) {
            label.append(sort_mode_description(sort_mode));
            TitleStyle::CurrentTag
        } else {
            TitleStyle::Title
        };
        spans.push(TitleSpan { text: label, style });
        assert(head + tag_spans(tag@, sort_mode, (i + 1) as nat) =~= (head + tag_spans(
            tag@,
            sort_mode,
            i as nat,
        )).push((" | "@, TitleStyle::Title)).push(tag_label(tag@, sort_mode, i as nat)));
    }
    spans.push(TitleSpan { text: String::from_str(" | "), style: TitleStyle::Title });
    spans
}

/// The first story of page `page` is shown as number `starting_id + 1`.
pub fn starting_id_for_page(page: usize) -> (starting_id: usize)
    requires
        STORY_LIMIT * page <= usize::MAX,
    ensures
        starting_id == STORY_LIMIT * page,
{
    STORY_LIMIT * page
}

/// A page of stories: the list, and the tag, sort mode and page number it
/// shows.
pub struct StoryPage {
    pub view: StoryView,
    pub tag_index: usize,
    pub sort_mode: StorySortMode,
    pub page: usize,
}

/// The story list of `stories`, numbered from `starting_id + 1`.
pub fn construct_story_main_view(stories: Vec<Story>, starting_id: usize) -> (view: StoryView)
    requires
        starting_id + STORY_LIMIT <= usize::MAX,
        starting_id + stories@.len() <= usize::MAX,
    ensures
        view@ == StoryViewState::of_stories(stories@, starting_id as nat),
        view@.wf(),
{
    StoryView::new(stories, starting_id)
}

/// The page `page` of `tag`, sorted by `sort_mode`, showing `stories`.
pub fn construct_story_view(stories: Vec<Story>, tag: &str, sort_mode: StorySortMode, page: usize) -> (result: StoryPage)
    requires
        story_tag_position_of(tag@) is Some,
        STORY_LIMIT * page + STORY_LIMIT <= usize::MAX,
        STORY_LIMIT * page + stories@.len() <= usize::MAX,
    ensures
        result.view@ == StoryViewState::of_stories(stories@, (STORY_LIMIT * page) as nat),
        result.view@.wf(),
        Some(result.tag_index as nat) == story_tag_position_of(tag@),
        result.sort_mode == sort_mode,
        result.page == page,
{
    let starting_id = starting_id_for_page(page);
    let view = construct_story_main_view(stories, starting_id);
    let tag_index = match story_tag_position(tag) {
        Some(i) => i,
        None => 0,
    };
    StoryPage { view, tag_index, sort_mode, page }
}

/// The page `page` of `tag`, sorted by `sort_mode`, whose stories are still
/// to come in.
pub fn construct_and_add_new_story_view(tag: &str, sort_mode: StorySortMode, page: usize) -> (result: StoryPage)
    requires
        story_tag_position_of(tag@) is Some,
        STORY_LIMIT * page + STORY_LIMIT <= usize::MAX,
    ensures
        result.view@ == StoryViewState::streaming((STORY_LIMIT * page) as nat),
        result.view@.wf(),
        Some(result.tag_index as nat) == story_tag_position_of(tag@),
        result.sort_mode == sort_mode,
        result.page == page,
{
    let starting_id = starting_id_for_page(page);
    let view = StoryView::new_streaming(starting_id);
    let tag_index = match story_tag_position(tag) {
        Some(i) => i,
        None => 0,
    };
    StoryPage { view, tag_index, sort_mode, page }
}

impl StoryPage {
    /// What `command` asks for on this page.
    pub fn handle_page_command(&self, command: PageCommand) -> (action: PageAction)
        requires
            self.tag_index < STORY_TAG_COUNT,
            command == PageCommand::NextPage ==> self.page < usize::MAX,
        ensures
            action == page_action(self.tag_index as nat, self.sort_mode, self.page as nat, command),
    {
        let tag_index = self.tag_index;
        let sort_mode = self.sort_mode;
        let page = self.page;
        match command {
            PageCommand::OpenHelp => PageAction::ShowHelp,
            PageCommand::CycleSortMode => {
                if str_equal(story_tag(tag_index), "front_page") {
                    PageAction::Ignored
                } else {
                    PageAction::Open(
                        PageRequest {
                            tag_index,
                            sort: SortRequest::NextAfter(sort_mode),
                            page: 0,
                            filters: FilterRequest::Keep,
                            pop_layer: true,
                        },
                    )
                }
            },
            PageCommand::NextStoryTag => {
                let next = (tag_index + 1) % STORY_TAG_COUNT;
                PageAction::Open(
                    PageRequest {
                        tag_index: next,
                        sort: SortRequest::Exactly(Self::tag_sort_mode(next)),
                        page: 0,
                        filters: FilterRequest::Reset,
                        pop_layer: false,
                    },
                )
            },
            PageCommand::PrevStoryTag => {
                let prev = (tag_index + STORY_TAG_COUNT - 1) % STORY_TAG_COUNT;
                PageAction::Open(
                    PageRequest {
                        tag_index: prev,
                        sort: SortRequest::Exactly(Self::tag_sort_mode(prev)),
                        page: 0,
                        filters: FilterRequest::Reset,
                        pop_layer: false,
                    },
                )
            },
            PageCommand::PrevPage => {
                if page > 0 {
                    PageAction::Open(
                        PageRequest {
                            tag_index,
                            sort: SortRequest::Exactly(sort_mode),
                            page: page - 1,
                            filters: FilterRequest::Keep,
                            pop_layer: true,
                        },
                    )
                } else {
                    PageAction::Ignored
                }
            },
            PageCommand::NextPage => PageAction::Open(
                PageRequest {
                    tag_index,
                    sort: SortRequest::Exactly(sort_mode),
                    page: page + 1,
                    filters: FilterRequest::Keep,
                    pop_layer: true,
                },
            ),
        }
    }

    /// The sort mode the `i`-th tag opens with.
    fn tag_sort_mode(i: usize) -> (mode: StorySortMode)
        requires
            i < STORY_TAG_COUNT,
        ensures
            mode == default_sort_for(i as nat),
    {
        let tag = story_tag(i);
        if str_equal(tag, "story") || str_equal(tag, "job") {
            StorySortMode::Date
        } else {
            StorySortMode::Unsorted
        }
    }
}

/// Moving to the next tag and then to the previous one comes back to the
/// same tag, and so does the other order.
pub proof fn lemma_tag_navigation_round_trip(i: nat)
    requires
        i < STORY_TAG_COUNT,
    ensures
        prev_tag_index(next_tag_index(i)) == i,
        next_tag_index(prev_tag_index(i)) == i,
        next_tag_index(i) < STORY_TAG_COUNT,
        prev_tag_index(i) < STORY_TAG_COUNT,
{
}

/// Moving to the next tag as many times as there are tags comes back to the
/// same tag.
pub proof fn lemma_tag_cycle(i: nat)
    requires
        i < STORY_TAG_COUNT,
    ensures
        next_tag_index(next_tag_index(next_tag_index(next_tag_index(next_tag_index(i))))) == i,
{
}

/// Opening the next page and then its previous page asks for the page one
/// started from, with the same tag, sort mode and filters.
pub proof fn lemma_page_round_trip(tag_index: nat, sort_mode: StorySortMode, page: nat)
    requires
        tag_index < STORY_TAG_COUNT,
        page < usize::MAX,
    ensures
        ({
            let forward = page_action(tag_index, sort_mode, page, PageCommand::NextPage);
            &&& forward is Open
            &&& forward->Open_0.page == page + 1
            &&& page_action(
                forward->Open_0.tag_index as nat,
                sort_mode,
                forward->Open_0.page as nat,
                PageCommand::PrevPage,
            ) == PageAction::Open(
                PageRequest {
                    tag_index: tag_index as usize,
                    sort: SortRequest::Exactly(sort_mode),
                    page: page as usize,
                    filters: FilterRequest::Keep,
                    pop_layer: true,
                },
            )
        }),
{
}

/// The names of the story tags are told apart by their lengths and first
/// letters: `front_page`, `story`, `ask_hn`, `show_hn`, `job`.
proof fn lemma_story_tag_names()
    ensures
        story_tag_name(0) == seq!['f', 'r', 'o', 'n', 't', '_', 'p', 'a', 'g', 'e'],
        story_tag_name(1) == seq!['s', 't', 'o', 'r', 'y'],
        story_tag_name(2) == seq!['a', 's', 'k', '_', 'h', 'n'],
        story_tag_name(3) == seq!['s', 'h', 'o', 'w', '_', 'h', 'n'],
        story_tag_name(4) == seq!['j', 'o', 'b'],
{
    reveal_strlit("front_page");
    reveal_strlit("story");
    reveal_strlit("ask_hn");
    reveal_strlit("show_hn");
    reveal_strlit("job");
    assert("front_page"@ =~= seq!['f', 'r', 'o', 'n', 't', '_', 'p', 'a', 'g', 'e']);
    assert("story"@ =~= seq!['s', 't', 'o', 'r', 'y']);
    assert("ask_hn"@ =~= seq!['a', 's', 'k', '_', 'h', 'n']);
    assert("show_hn"@ =~= seq!['s', 'h', 'o', 'w', '_', 'h', 'n']);
    assert("job"@ =~= seq!['j', 'o', 'b']);
}

/// No two story tags have the same name.
pub proof fn lemma_story_tags_distinct(i: nat, j: nat)
    requires
        i < STORY_TAG_COUNT,
        j < STORY_TAG_COUNT,
        i != j,
    ensures
        story_tag_name(i) != story_tag_name(j),
{
    lemma_story_tag_names();
    assert(story_tag_name(i).len() != story_tag_name(j).len() || story_tag_name(i)[0] != story_tag_name(j)[0]);
}

/// The pieces of the first `n` tags: a separator, then the label of each.
proof fn lemma_tag_spans_layout(tag: Seq<char>, sort_mode: StorySortMode, n: nat)
    ensures
        tag_spans(tag, sort_mode, n).len() == 2 * n,
        forall|i: int|
            0 <= i < n ==> #[trigger] tag_spans(tag, sort_mode, n)[2 * i] == (" | "@, TitleStyle::Title),
        forall|i: int|
            0 <= i < n ==> #[trigger] tag_spans(tag, sort_mode, n)[2 * i + 1] == tag_label(
                tag,
                sort_mode,
                i as nat,
            ),
    decreases n,
{
    if n > 0 {
        lemma_tag_spans_layout(tag, sort_mode, (n - 1) as nat);
        let prev = tag_spans(tag, sort_mode, (n - 1) as nat);
        let cur = tag_spans(tag, sort_mode, n);
        assert(cur == prev + seq![(" | "@, TitleStyle::Title), tag_label(tag, sort_mode, (n - 1) as nat)]);
        assert forall|i: int| 0 <= i < n implies #[trigger] cur[2 * i] == (" | "@, TitleStyle::Title) by {
            if i < n - 1 {
                assert(cur[2 * i] == prev[2 * i]);
            }
        }
        assert forall|i: int| 0 <= i < n implies #[trigger] cur[2 * i + 1] == tag_label(tag, sort_mode, i as nat) by {
            if i < n - 1 {
                assert(cur[2 * i + 1] == prev[2 * i + 1]);
            }
        }
    }
}

/// The title bar shows the logo, the title, then for each tag `i` a
/// separator and the label `i+1.name`; a label is in the current-tag style,
/// and followed by the sort mode, exactly when its name is `tag`. When `tag`
/// is a story tag, its label is the only one in the current-tag style.
pub proof fn lemma_title_bar_highlights_current_tag(tag: Seq<char>, sort_mode: StorySortMode)
    ensures
        title_bar(tag, sort_mode).len() == 2 * STORY_TAG_COUNT + 3,
        title_bar(tag, sort_mode)[0] == ("[Y]"@, TitleStyle::Logo),
        title_bar(tag, sort_mode)[1] == (" Hacker News (500+ points)"@, TitleStyle::Title),
        title_bar(tag, sort_mode)[2 * STORY_TAG_COUNT + 2] == (" | "@, TitleStyle::Title),
        forall|i: int|
            0 <= i < STORY_TAG_COUNT ==> {
                &&& title_bar(tag, sort_mode)[2 * i + 2] == (" | "@, TitleStyle::Title)
                &&& (#[trigger] title_bar(tag, sort_mode)[2 * i + 3]).0 == decimal((i + 1) as nat) + "."@
                    + story_tag_name(i as nat) + (if story_tag_name(i as nat) == tag {
                    sort_mode_desc(sort_mode)
                } else {
                    Seq::empty()
                })
                &&& (title_bar(tag, sort_mode)[2 * i + 3].1 == TitleStyle::CurrentTag <==> story_tag_name(
                    i as nat,
                ) == tag)
            },
        forall|k: int|
            0 <= k < title_bar(tag, sort_mode).len() ==> (#[trigger] title_bar(tag, sort_mode)[k].1
                == TitleStyle::CurrentTag <==> (story_tag_position_of(tag) is Some && k == 2
                * story_tag_position_of(tag)->0 + 3)),
{
    let n = STORY_TAG_COUNT as nat;
    lemma_tag_spans_layout(tag, sort_mode, n);
    let head = seq![("[Y]"@, TitleStyle::Logo), (" Hacker News (500+ points)"@, TitleStyle::Title)];
    let spans = tag_spans(tag, sort_mode, n);
    let bar = title_bar(tag, sort_mode);
    assert(bar =~= head + spans + seq![(" | "@, TitleStyle::Title)]);
    assert forall|i: int| 0 <= i < STORY_TAG_COUNT implies {
        &&& bar[2 * i + 2] == (" | "@, TitleStyle::Title)
        &&& (#[trigger] bar[2 * i + 3]).0 == decimal((i + 1) as nat) + "."@ + story_tag_name(i as nat)
            + (if story_tag_name(i as nat) == tag {
            sort_mode_desc(sort_mode)
        } else {
            Seq::empty()
        })
        &&& (bar[2 * i + 3].1 == TitleStyle::CurrentTag <==> story_tag_name(i as nat) == tag)
    } by {
        assert(bar[2 * i + 2] == spans[2 * i]);
        assert(bar[2 * i + 3] == spans[2 * i + 1]);
        if story_tag_name(i as nat) != tag {
            assert(decimal((i + 1) as nat) + "."@ + story_tag_name(i as nat) + Seq::<char>::empty()
                =~= decimal((i + 1) as nat) + "."@ + story_tag_name(i as nat));
        }
    }
    assert forall|k: int| 0 <= k < bar.len() implies (#[trigger] bar[k].1 == TitleStyle::CurrentTag
        <==> (story_tag_position_of(tag) is Some && k == 2 * story_tag_position_of(tag)->0 + 3)) by {
        if 2 <= k < 2 * n + 2 {
            let i = (k - 2) / 2;
            assert(0 <= i < n);
            if k % 2 == 0 {
                assert(k == 2 * i + 2);
                assert(bar[k] == spans[2 * i]);
            } else {
                assert(k == 2 * i + 3);
                assert(bar[k] == spans[2 * i + 1]);
                if story_tag_name(i as nat) == tag {
                    assert forall|j: nat| j < i implies story_tag_name(j) != tag by {
                        lemma_story_tags_distinct(j, i as nat);
                    }
                }
            }
        }
        if story_tag_position_of(tag) is Some {
            let p: int = story_tag_position_of(tag)->0 as int;
            assert(p < n);
            assert(story_tag_name(p as nat) == tag);
            assert(bar[2 * p + 3] == spans[2 * p + 1]);
        }
    }
}

/// Every tag but the front page can change its sort mode: the key reopens
/// the first page of the same tag, in the sort mode after the current one,
/// with the same filters, in place of the page shown. On the front page the
/// key does nothing.
pub proof fn lemma_cycle_sort_mode(tag_index: nat, sort_mode: StorySortMode, page: nat)
    requires
        tag_index < STORY_TAG_COUNT,
    ensures
        tag_index == 0 ==> page_action(tag_index, sort_mode, page, PageCommand::CycleSortMode)
            == PageAction::Ignored,
        tag_index != 0 ==> page_action(tag_index, sort_mode, page, PageCommand::CycleSortMode)
            == PageAction::Open(
            PageRequest {
                tag_index: tag_index as usize,
                sort: SortRequest::NextAfter(sort_mode),
                page: 0,
                filters: FilterRequest::Keep,
                pop_layer: true,
            },
        ),
{
    lemma_story_tag_names();
    reveal_strlit("front_page");
    assert("front_page"@ =~= story_tag_name(0));
    if tag_index != 0 {
        lemma_story_tags_distinct(0, tag_index);
    }
}

/// A new tag opens sorted by date exactly when it is `story` or `job`, the
/// second and the last tag.
pub proof fn lemma_default_sort(i: nat)
    requires
        i < STORY_TAG_COUNT,
    ensures
        default_sort_for(i) == (if i == 1 || i == 4 {
            StorySortMode::Date
        } else {
            StorySortMode::Unsorted
        }),
{
    lemma_story_tag_names();
    reveal_strlit("story");
    reveal_strlit("job");
    assert("story"@ =~= story_tag_name(1));
    assert("job"@ =~= story_tag_name(4));
    if i != 1 {
        lemma_story_tags_distinct(1, i);
    }
    if i != 4 {
        lemma_story_tags_distinct(4, i);
    }
}

/// The tag keys open the first page of the neighbouring tag, wrapping
/// around, with that tag's own sort mode and the default filters, on top of
/// the page shown; the page keys open the page before (if any) or after, with
/// the same tag, sort mode and filters, in place of the page shown; the help
/// key shows the help.
pub proof fn lemma_page_commands(tag_index: nat, sort_mode: StorySortMode, page: nat)
    requires
        tag_index < STORY_TAG_COUNT,
        page < usize::MAX,
    ensures
        ({
            let next = page_action(tag_index, sort_mode, page, PageCommand::NextStoryTag);
            let prev = page_action(tag_index, sort_mode, page, PageCommand::PrevStoryTag);
            let later = page_action(tag_index, sort_mode, page, PageCommand::NextPage);
            let earlier = page_action(tag_index, sort_mode, page, PageCommand::PrevPage);
            &&& next is Open && next->Open_0.page == 0 && !next->Open_0.pop_layer
            &&& next->Open_0.filters == FilterRequest::Reset
            &&& next->Open_0.tag_index == (if tag_index == 4 { 0 } else { tag_index + 1 })
            &&& prev is Open && prev->Open_0.page == 0 && !prev->Open_0.pop_layer
            &&& prev->Open_0.filters == FilterRequest::Reset
            &&& prev->Open_0.tag_index == (if tag_index == 0 { 4 } else { tag_index - 1 })
            &&& next->Open_0.sort == SortRequest::Exactly(
                if next->Open_0.tag_index == 1 || next->Open_0.tag_index == 4 {
                    StorySortMode::Date
                } else {
                    StorySortMode::Unsorted
                },
            )
            &&& prev->Open_0.sort == SortRequest::Exactly(
                if prev->Open_0.tag_index == 1 || prev->Open_0.tag_index == 4 {
                    StorySortMode::Date
                } else {
                    StorySortMode::Unsorted
                },
            )
            &&& later is Open && later->Open_0.page == page + 1 && later->Open_0.tag_index == tag_index
            &&& later->Open_0.sort == SortRequest::Exactly(sort_mode)
            &&& later->Open_0.filters == FilterRequest::Keep && later->Open_0.pop_layer
            &&& page == 0 ==> earlier is Ignored
            &&& page > 0 ==> (earlier is Open && earlier->Open_0.page + 1 == page
                && earlier->Open_0.tag_index == tag_index
                && earlier->Open_0.sort == SortRequest::Exactly(sort_mode)
                && earlier->Open_0.filters == FilterRequest::Keep && earlier->Open_0.pop_layer)
            &&& page_action(tag_index, sort_mode, page, PageCommand::OpenHelp) is ShowHelp
        }),
{
    lemma_default_sort(next_tag_index(tag_index));
    lemma_default_sort(prev_tag_index(tag_index));
}

} // verus!
