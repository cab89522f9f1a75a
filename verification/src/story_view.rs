//! The story list: the stories, the entries of the list that shows them, and
//! the number the user is typing to jump to a story.

use vstd::prelude::*;

use crate::decimal::{
    all_digits, decimal, decimal_len, digit_char, digit_str, is_digit_char,
    lemma_decimal_digits, lemma_decimal_len_monotone, padded_decimal, parse_decimal, parsed_decimal,
};
use crate::story::{
    id_prefix, is_plain_web_url, parse_url_domain, story_item_spans, story_spans, story_text_with_domain,
    styled_spans_match, url_domain, Story, StyledSpan, TextStyle,
};
use crate::STORY_LIMIT;

verus! {

/// The status line that stands in the list while it holds no story.
#[derive(Clone, Copy, Debug, PartialEq, Eq, Structural)]
pub enum StatusMessage {
    /// Stories are still coming in.
    Scanning,
    /// No story came in before the stream ended.
    NoStories,
}

/// The text of a status line.
pub open spec fn status_text(message: StatusMessage) -> Seq<char> {
    match message {
        StatusMessage::Scanning => "Scanning for stories with 500+ points…"@,
        StatusMessage::NoStories => "No stories with 500+ points on this page."@,
    }
}

impl StatusMessage {
    /// The text of this status line.
    pub fn text(&self) -> (text: &'static str)
        ensures
            text@ == status_text(*self),
    {
        match self {
            StatusMessage::Scanning => "Scanning for stories with 500+ points…",
            StatusMessage::NoStories => "No stories with 500+ points on this page.",
        }
    }
}

/// An entry of the list.
#[derive(Clone, Copy, Debug, PartialEq, Eq, Structural)]
pub enum ListItem {
    /// A status line.
    Status(StatusMessage),
    /// A story, shown under `number`, right-aligned in `id_width` columns.
    StoryEntry { number: usize, id_width: usize },
}

/// The width in which the numbers of a page are written: that of the
/// largest number the page can show, `starting_id + STORY_LIMIT`.
pub open spec fn max_id_len_of(starting_id: nat) -> nat {
    decimal((starting_id + STORY_LIMIT) as nat).len()
}

/// The entry of the `k`-th story (from 0) of a page that starts after
/// `starting_id`: it shows the number `starting_id + k + 1`.
pub open spec fn story_entry(starting_id: nat, k: nat) -> ListItem {
    ListItem::StoryEntry {
        number: (starting_id + k + 1) as usize,
        id_width: max_id_len_of(starting_id) as usize,
    }
}

/// The entries of `count` stories, from the `from`-th on.
pub open spec fn story_entries(starting_id: nat, from: nat, count: nat) -> Seq<ListItem> {
    Seq::new(count, |j: int| story_entry(starting_id, (from + j) as nat))
}

/// What a story list is, as the contracts see it.
pub struct StoryViewState {
    pub stories: Seq<Story>,
    pub items: Seq<ListItem>,
    pub raw_command: Seq<char>,
    pub starting_id: nat,
    pub receiving: bool,
    pub has_placeholder: bool,
}

/// A command that a key of the story list is bound to.
#[derive(Clone, Copy, Debug, PartialEq, Eq, Structural)]
pub enum StoryCommand {
    PrevStory,
    NextStory,
    GotoStoryCommentView,
    OpenArticleInBrowser,
    OpenArticleInArticleView,
    OpenStoryInBrowser,
    GotoStory,
}

/// What the list asks of its surroundings after a key.
#[derive(Clone, Copy, Debug, PartialEq, Eq, Structural)]
pub enum StoryAction {
    /// Nothing to do.
    Ignored,
    /// The key was used; nothing more to do.
    Consumed,
    /// Move the focus to this entry.
    Focus(usize),
    /// Open the comments of the story with this id.
    OpenCommentView(u32),
    /// Open the article of this story (an index into the stories) in a browser.
    OpenArticleInBrowser(usize),
    /// Open the article of this story in the article view.
    OpenArticleInView(usize),
    /// Open the page of this story in a browser.
    OpenStoryInBrowser(usize),
}

impl StoryViewState {
    /// The invariant of a story list: the numbers fit in a `usize`, a
    /// placeholder stands alone, every story has its entry with its number in
    /// order, and the typed number holds only digits.
    pub open spec fn wf(self) -> bool {
        &&& self.starting_id + STORY_LIMIT <= usize::MAX
        &&& self.starting_id + self.stories.len() <= usize::MAX
        &&& self.has_placeholder ==> {
            &&& self.stories.len() == 0
            &&& self.items.len() == 1
            &&& self.items[0] is Status
        }
        &&& !self.has_placeholder ==> self.items == story_entries(
            self.starting_id,
            0,
            self.stories.len(),
        )
        &&& all_digits(self.raw_command)
    }

    /// The list of `stories` whose first is shown as number `starting_id + 1`.
    pub open spec fn of_stories(stories: Seq<Story>, starting_id: nat) -> StoryViewState {
        StoryViewState {
            stories,
            items: story_entries(starting_id, 0, stories.len()),
            raw_command: Seq::empty(),
            starting_id,
            receiving: false,
            has_placeholder: false,
        }
    }

    /// The list that waits for stories to come in; it shows a status line.
    pub open spec fn streaming(starting_id: nat) -> StoryViewState {
        StoryViewState {
            stories: Seq::empty(),
            items: seq![ListItem::Status(StatusMessage::Scanning)],
            raw_command: Seq::empty(),
            starting_id,
            receiving: true,
            has_placeholder: true,
        }
    }

    /// The list after the stories in `downloaded` came in, and, when
    /// `disconnected`, the stream ended. With nothing new, only the end of
    /// the stream can change it: it stops receiving, and an empty list says
    /// so in its first line. With new stories, the placeholder goes and
    /// each story gets the next number.
    pub open spec fn after_append(self, downloaded: Seq<Story>, disconnected: bool) -> StoryViewState {
        let receiving = self.receiving && !disconnected;
        if downloaded.len() == 0 {
            StoryViewState {
                stories: self.stories,
                items: if disconnected && self.stories.len() == 0 && self.items.len() > 0 {
                    self.items.update(0, ListItem::Status(StatusMessage::NoStories))
                } else {
                    self.items
                },
                raw_command: self.raw_command,
                starting_id: self.starting_id,
                receiving,
                has_placeholder: self.has_placeholder,
            }
        } else {
            StoryViewState {
                stories: self.stories + downloaded,
                items: (if self.has_placeholder {
                    self.items.subrange(1, self.items.len() as int)
                } else {
                    self.items
                }) + story_entries(self.starting_id, self.stories.len(), downloaded.len()),
                raw_command: self.raw_command,
                starting_id: self.starting_id,
                receiving,
                has_placeholder: false,
            }
        }
    }

    /// The typed number after a key: a digit is appended, the key of the
    /// jump command keeps it, any other key clears it.
    pub open spec fn raw_command_after(self, ch: Option<char>, command: Option<StoryCommand>) -> Seq<char> {
        if ch is Some && is_digit_char(ch->0) {
            self.raw_command.push(ch->0)
        } else if command == Some(StoryCommand::GotoStory) {
            self.raw_command
        } else {
            Seq::empty()
        }
    }

    /// Moving the focus to entry `k`: possible when there is such an entry.
    pub open spec fn focus_on(self, k: int) -> StoryAction {
        if 0 <= k < self.items.len() {
            StoryAction::Focus(k as usize)
        } else {
            StoryAction::Ignored
        }
    }

    /// The list with `raw` as the typed number.
    pub open spec fn with_raw_command(self, raw: Seq<char>) -> StoryViewState {
        StoryViewState {
            stories: self.stories,
            items: self.items,
            raw_command: raw,
            starting_id: self.starting_id,
            receiving: self.receiving,
            has_placeholder: self.has_placeholder,
        }
    }

    /// What a key does to the list and what it asks for, when the focus is
    /// on entry `focus`. The key is the character it types (if any) and
    /// the command it is bound to (if any).
    pub open spec fn after_key(
        self,
        ch: Option<char>,
        command: Option<StoryCommand>,
        focus: nat,
    ) -> (StoryViewState, StoryAction) {
        let s = self.with_raw_command(self.raw_command_after(ch, command));
        let n = self.stories.len();
        match command {
            None => (s, StoryAction::Ignored),
            Some(StoryCommand::PrevStory) => (
                s,
                if n == 0 || focus == 0 {
                    StoryAction::Ignored
                } else {
                    s.focus_on(focus - 1)
                },
            ),
            Some(StoryCommand::NextStory) => (
                s,
                if n == 0 {
                    StoryAction::Ignored
                } else {
                    s.focus_on(focus + 1int)
                },
            ),
            Some(StoryCommand::GotoStoryCommentView) => (
                s,
                if focus < n {
                    StoryAction::OpenCommentView(self.stories[focus as int].id)
                } else {
                    StoryAction::Ignored
                },
            ),
            Some(StoryCommand::OpenArticleInBrowser) => (
                s,
                if focus < n {
                    StoryAction::OpenArticleInBrowser(focus as usize)
                } else {
                    StoryAction::Ignored
                },
            ),
            Some(StoryCommand::OpenArticleInArticleView) => (
                s,
                if focus < n {
                    if self.stories[focus as int].url@.len() > 0 {
                        StoryAction::OpenArticleInView(focus as usize)
                    } else {
                        StoryAction::Consumed
                    }
                } else {
                    StoryAction::Ignored
                },
            ),
            Some(StoryCommand::OpenStoryInBrowser) => (
                s,
                if focus < n {
                    StoryAction::OpenStoryInBrowser(focus as usize)
                } else {
                    StoryAction::Ignored
                },
            ),
            Some(StoryCommand::GotoStory) => match parsed_decimal(s.raw_command) {
                None => (s, StoryAction::Ignored),
                Some(number) => {
                    let cleared = s.with_raw_command(Seq::empty());
                    (
                        cleared,
                        if number < self.starting_id + 1 {
                            StoryAction::Ignored
                        } else {
                            cleared.focus_on(number - 1 - self.starting_id)
                        },
                    )
                },
            },
        }
    }
}

/// A list of stories, numbered from `starting_id + 1`, which may still be
/// receiving stories from a stream.
pub struct StoryView {
    pub stories: Vec<Story>,
    items: Vec<ListItem>,
    raw_command: String,
    starting_id: usize,
    receiving: bool,
    has_placeholder: bool,
}

impl View for StoryView {
    type V = StoryViewState;

    closed spec fn view(&self) -> StoryViewState {
        StoryViewState {
            stories: self.stories@,
            items: self.items@,
            raw_command: self.raw_command@,
            starting_id: self.starting_id as nat,
            receiving: self.receiving,
            has_placeholder: self.has_placeholder,
        }
    }
}

impl StoryView {
    /// The list of `stories`, numbered from `starting_id + 1`.
    pub fn new(stories: Vec<Story>, starting_id: usize) -> (view: Self)
        requires
            starting_id + STORY_LIMIT <= usize::MAX,
            starting_id + stories@.len() <= usize::MAX,
        ensures
            view@ == StoryViewState::of_stories(stories@, starting_id as nat),
            view@.wf(),
    {
        let items = Self::construct_story_view(stories.as_slice(), starting_id);
        StoryView {
            stories,
            items,
            raw_command: String::new(),
            starting_id,
            receiving: false,
            has_placeholder: false,
        }
    }

    /// The list that will receive its stories from a stream; until then it
    /// shows that it is scanning for them. The numbers of the page,
    /// `starting_id + STORY_LIMIT` at most, must fit in a `usize`.
    pub fn new_streaming(starting_id: usize) -> (view: Self)
        requires
            starting_id + STORY_LIMIT <= usize::MAX,
        ensures
            view@ == StoryViewState::streaming(starting_id as nat),
            view@.wf(),
    {
        let mut items: Vec<ListItem> = Vec::new();
        items.push(ListItem::Status(StatusMessage::Scanning));
        let view = StoryView {
            stories: Vec::new(),
            items,
            raw_command: String::new(),
            starting_id,
            receiving: true,
            has_placeholder: true,
        };
        assert(view@.items =~= seq![ListItem::Status(StatusMessage::Scanning)]);
        view
    }

    /// The width of the numbers of the page that starts after `starting_id`.
    pub fn max_id_len(starting_id: usize) -> (len: usize)
        requires
            starting_id + STORY_LIMIT <= usize::MAX,
        ensures
            len == max_id_len_of(starting_id as nat),
            1 <= len <= starting_id + STORY_LIMIT + 1,
    {
        proof {
            lemma_decimal_digits((starting_id + STORY_LIMIT) as nat);
        }
        decimal_len(starting_id + STORY_LIMIT)
    }

    /// The styled text of the entry of `story`, shown as number `id` in
    /// `max_id_len` columns (the number in the metadata style), posted
    /// `elapsed` ago.
    pub fn construct_story_item(story: &Story, id: usize, max_id_len: usize, elapsed: &str) -> (spans: Vec<StyledSpan>)
        requires
            max_id_len + 2 <= usize::MAX,
        ensures
            styled_spans_match(
                spans@,
                story_item_spans(*story, id as nat, max_id_len as nat, url_domain(story.url@), elapsed@),
            ),
    {
        let mut prefix = padded_decimal(id, max_id_len);
        prefix.append(". ");
        let mut spans: Vec<StyledSpan> = Vec::new();
        spans.push(StyledSpan { text: prefix, style: TextStyle::Metadata });
        let mut rest = Self::get_story_text(max_id_len, story, elapsed);
        let ghost first = spans@;
        let ghost tail = rest@;
        spans.append(&mut rest);
        assert(spans@ =~= first + tail);
        assert(styled_spans_match(
            spans@,
            story_item_spans(*story, id as nat, max_id_len as nat, url_domain(story.url@), elapsed@),
        )) by {
            let spec = story_item_spans(*story, id as nat, max_id_len as nat, url_domain(story.url@), elapsed@);
            let rest_spec = story_spans(max_id_len as nat, *story, url_domain(story.url@), elapsed@);
            assert(spec =~= seq![(id_prefix(id as nat, max_id_len as nat), TextStyle::Metadata)] + rest_spec);
            assert forall|k: int| 0 <= k < spans@.len() implies (#[trigger] spans@[k]).text@ == spec[k].0
                && spans@[k].style == spec[k].1 by {
                if k > 0 {
                    assert(spans@[k] == tail[k - 1]);
                }
            }
        }
        spans
    }

    /// The entries of `stories` on the page that starts after `starting_id`.
    pub fn construct_story_view(stories: &[Story], starting_id: usize) -> (items: Vec<ListItem>)
        requires
            starting_id + STORY_LIMIT <= usize::MAX,
            starting_id + stories@.len() <= usize::MAX,
        ensures
            items@ == story_entries(starting_id as nat, 0, stories@.len()),
    {
        let max_id_len = Self::max_id_len(starting_id);
        let mut items: Vec<ListItem> = Vec::new();
        let n = stories.len();
        for i in 0..n
            invariant
                n == stories@.len(),
                starting_id + n <= usize::MAX,
                max_id_len == max_id_len_of(starting_id as nat),
                items@ == story_entries(starting_id as nat, 0, i as nat),
        {
            items.push(ListItem::StoryEntry { number: starting_id + i + 1, id_width: max_id_len });
            assert(items@ =~= story_entries(starting_id as nat, 0, (i + 1) as nat));
        }
        items
    }

    /// Takes in the stories that came from the stream since the last call
    /// (`downloaded`), and whether the stream has ended (`disconnected`),
    /// without disturbing the entries already shown.
    pub fn try_append_story(&mut self, downloaded: Vec<Story>, disconnected: bool)
        requires
            old(self)@.wf(),
            old(self)@.starting_id + old(self)@.stories.len() + downloaded@.len() <= usize::MAX,
        ensures
            final(self)@ == old(self)@.after_append(downloaded@, disconnected),
            final(self)@.wf(),
    {
        let ghost incoming = downloaded@;
        let mut downloaded = downloaded;
        if disconnected {
            self.receiving = false;
            if self.stories.len() == 0 && downloaded.len() == 0 && self.items.len() > 0 {
                self.items.set(0, ListItem::Status(StatusMessage::NoStories));
            }
        }
        if downloaded.len() == 0 {
            return;
        }
        if self.has_placeholder {
            self.items.remove(0);
            self.has_placeholder = false;
        }
        let ghost base = self.items@;
        let max_id_len = Self::max_id_len(self.starting_id);
        let old_len = self.stories.len();
        let count = downloaded.len();
        for j in 0..count
            invariant
                old_len == old(self)@.stories.len(),
                self.starting_id == old(self)@.starting_id,
                self.starting_id + old_len + count <= usize::MAX,
                max_id_len == max_id_len_of(self.starting_id as nat),
                self.items@ == base + story_entries(self.starting_id as nat, old_len as nat, j as nat),
                self.stories@ == old(self)@.stories,
                self.raw_command@ == old(self)@.raw_command,
                self.receiving == (old(self)@.receiving && !disconnected),
                !self.has_placeholder,
                downloaded@ == incoming,
                count == downloaded@.len(),
        {
            self.items.push(
                ListItem::StoryEntry { number: self.starting_id + old_len + j + 1, id_width: max_id_len },
            );
            assert(story_entries(self.starting_id as nat, old_len as nat, (j + 1) as nat)
                =~= story_entries(self.starting_id as nat, old_len as nat, j as nat).push(
                story_entry(self.starting_id as nat, (old_len + j) as nat),
            ));
        }
        self.stories.append(&mut downloaded);
        assert(old(self)@.has_placeholder ==> base =~= old(self)@.items.subrange(1, old(self)@.items.len() as int));
        assert(!old(self)@.has_placeholder ==> base == old(self)@.items);
        assert(old(self)@.has_placeholder ==> base.len() == 0 && old_len == 0);
        assert(base + story_entries(self.starting_id as nat, old_len as nat, count as nat)
            =~= story_entries(self.starting_id as nat, 0, (old_len + count) as nat));
        assert(self@.items =~= story_entries(self.starting_id as nat, 0, self@.stories.len()));
    }

    /// The styled text of an entry after its number: the title, the domain
    /// that the `url` crate finds in the story's URL in the link style, and
    /// the metadata line in the metadata style.
    pub fn get_story_text(max_id_len: usize, story: &Story, elapsed: &str) -> (spans: Vec<StyledSpan>)
        requires
            max_id_len + 2 <= usize::MAX,
        ensures
            styled_spans_match(spans@, story_spans(max_id_len as nat, *story, url_domain(story.url@), elapsed@)),
            forall|host: Seq<char>, tail: Seq<char>|
                #[trigger] is_plain_web_url(story.url@, host, tail) ==> {
                    &&& url_domain(story.url@) == Some(host)
                    &&& spans@.len() == 4
                    &&& spans@[0].text@ == story.title@
                    &&& spans@[1].text@ == " ("@ + host + ")"@
                    &&& spans@[1].style == TextStyle::Link
                },
    {
        let domain = parse_url_domain(story.url.as_str());
        let spans = match domain {
            Some(d) => story_text_with_domain(max_id_len, story, Some(d.as_str()), elapsed),
            None => story_text_with_domain(max_id_len, story, None, elapsed),
        };
        assert forall|host: Seq<char>, tail: Seq<char>|
            #[trigger] is_plain_web_url(story.url@, host, tail) implies {
                &&& url_domain(story.url@) == Some(host)
                &&& spans@.len() == 4
                &&& spans@[0].text@ == story.title@
                &&& spans@[1].text@ == " ("@ + host + ")"@
                &&& spans@[1].style == TextStyle::Link
            } by {
            let spec = story_spans(max_id_len as nat, *story, url_domain(story.url@), elapsed@);
            assert(spec.len() == 4);
            assert(spans@[0].text@ == spec[0].0);
            assert(spans@[1].text@ == spec[1].0);
        }
        spans
    }

    /// Moving the focus to entry `k`.
    fn focus_on(&self, k: usize) -> (action: StoryAction)
        ensures
            action == self@.focus_on(k as int),
    {
        if k < self.items.len() {
            StoryAction::Focus(k)
        } else {
            StoryAction::Ignored
        }
    }

    /// Handles a key while the focus is on entry `focus`. `ch` is the
    /// character the key types, if any; `command` is the command the key is
    /// bound to, if any. Digits build up a story number, the jump command
    /// moves the focus to the story with that number, the other commands
    /// move the focus or ask for the focused story to be opened.
    pub fn handle_key(&mut self, ch: Option<char>, command: Option<StoryCommand>, focus: usize) -> (action: StoryAction)
        requires
            old(self)@.wf(),
        ensures
            (final(self)@, action) == old(self)@.after_key(ch, command, focus as nat),
            final(self)@.wf(),
    {
        let typed_digit: Option<char> = match ch {
            Some(c) => if '0' <= c && c <= '9' {
                Some(c)
            } else {
                None
            },
            None => None,
        };
        match typed_digit {
            Some(c) => {
                let d: u32 = (c as u32) - 48;
                assert(digit_char(d as int) == c);
                self.raw_command.append(digit_str(d as usize));
                assert(ch is Some && is_digit_char(ch->0));
                assert(self.raw_command@ == old(self)@.raw_command.push(c));
            },
            None => {
                assert(!(ch is Some && is_digit_char(ch->0)));
                if !matches!(command, Some(StoryCommand::GotoStory)) {
                    self.raw_command = String::new();
                    assert(command != Some(StoryCommand::GotoStory));
                }
            },
        }
        assert(self@ == old(self)@.with_raw_command(old(self)@.raw_command_after(ch, command)));
        let n = self.stories.len();
        match command {
            None => StoryAction::Ignored,
            Some(StoryCommand::PrevStory) => {
                if n == 0 || focus == 0 {
                    StoryAction::Ignored
                } else {
                    self.focus_on(focus - 1)
                }
            },
            Some(StoryCommand::NextStory) => {
                if n == 0 || focus == usize::MAX {
                    StoryAction::Ignored
                } else {
                    self.focus_on(focus + 1)
                }
            },
            Some(StoryCommand::GotoStoryCommentView) => {
                if focus < n {
                    StoryAction::OpenCommentView(self.stories[focus].id)
                } else {
                    StoryAction::Ignored
                }
            },
            Some(StoryCommand::OpenArticleInBrowser) => {
                if focus < n {
                    StoryAction::OpenArticleInBrowser(focus)
                } else {
                    StoryAction::Ignored
                }
            },
            Some(StoryCommand::OpenArticleInArticleView) => {
                if focus < n {
                    if self.stories[focus].url.unicode_len() > 0 {
                        StoryAction::OpenArticleInView(focus)
                    } else {
                        StoryAction::Consumed
                    }
                } else {
                    StoryAction::Ignored
                }
            },
            Some(StoryCommand::OpenStoryInBrowser) => {
                if focus < n {
                    StoryAction::OpenStoryInBrowser(focus)
                } else {
                    StoryAction::Ignored
                }
            },
            Some(StoryCommand::GotoStory) => {
                match parse_decimal(self.raw_command.as_str()) {
                    None => StoryAction::Ignored,
                    Some(number) => {
                        self.raw_command = String::new();
                        if number < self.starting_id + 1 {
                            StoryAction::Ignored
                        } else {
                            self.focus_on(number - 1 - self.starting_id)
                        }
                    },
                }
            },
        }
    }

    /// The number of entries in the list.
    pub fn len(&self) -> (len: usize)
        ensures
            len == self@.items.len(),
    {
        self.items.len()
    }

    /// The entry at `index`.
    pub fn item(&self, index: usize) -> (item: ListItem)
        requires
            index < self@.items.len(),
        ensures
            item == self@.items[index as int],
    {
        self.items[index]
    }

    /// The number the user has typed so far.
    pub fn raw_command(&self) -> (raw: &str)
        ensures
            raw@ == self@.raw_command,
    {
        self.raw_command.as_str()
    }

    /// The stories are numbered from `starting_id() + 1`.
    pub fn starting_id(&self) -> (id: usize)
        ensures
            id == self@.starting_id,
    {
        self.starting_id
    }

    /// Whether stories may still come in.
    pub fn is_receiving(&self) -> (receiving: bool)
        ensures
            receiving == self@.receiving,
    {
        self.receiving
    }

    /// Whether a status line stands in place of the stories.
    pub fn has_placeholder(&self) -> (placeholder: bool)
        ensures
            placeholder == self@.has_placeholder,
    {
        self.has_placeholder
    }

    /// Which way the list scrolls when the focus moves from `old_id` to
    /// `new_id`: down (`true`) unless it moves up.
    pub fn on_set_focus_index(old_id: usize, new_id: usize) -> (down: bool)
        ensures
            down == (old_id <= new_id),
    {
        old_id <= new_id
    }
}

/// The list after the keys that type the characters of `typed`, one after
/// the other, each bound to no command.
pub open spec fn after_typing(s: StoryViewState, typed: Seq<char>) -> StoryViewState
    decreases typed.len(),
{
    if typed.len() == 0 {
        s
    } else {
        after_typing(s, typed.drop_last()).after_key(Some(typed.last()), None, 0).0
    }
}

/// Typing digits appends them to the typed number and changes nothing else.
pub proof fn lemma_typing_digits(s: StoryViewState, typed: Seq<char>)
    requires
        all_digits(typed),
    ensures
        after_typing(s, typed) == s.with_raw_command(s.raw_command + typed),
    decreases typed.len(),
{
    if typed.len() == 0 {
        assert(s.raw_command + typed =~= s.raw_command);
    } else {
        lemma_typing_digits(s, typed.drop_last());
        assert(is_digit_char(typed.last()));
        assert((s.raw_command + typed.drop_last()).push(typed.last()) =~= s.raw_command + typed);
    }
}

/// Typing the number that the list shows for a story and then pressing the
/// jump key moves the focus to that story's entry, and clears the typed
/// number, wherever the focus was.
pub proof fn lemma_goto_shown_number(s: StoryViewState, k: nat, focus: nat)
    requires
        s.wf(),
        !s.has_placeholder,
        k < s.stories.len(),
        s.raw_command.len() == 0,
    ensures
        ({
            let typed = after_typing(s, decimal(s.starting_id + k + 1));
            &&& typed.raw_command == decimal(s.starting_id + k + 1)
            &&& typed.after_key(None, Some(StoryCommand::GotoStory), focus) == (
                s,
                StoryAction::Focus(k as usize),
            )
        }),
        s.items[k as int] is StoryEntry,
        s.items[k as int]->number == s.starting_id + k + 1,
{
    let n = (s.starting_id + k + 1) as nat;
    lemma_decimal_digits(n);
    lemma_typing_digits(s, decimal(n));
    assert(s.raw_command + decimal(n) =~= decimal(n));
    crate::decimal::lemma_parse_decimal_of_usize(n as usize);
    let typed = after_typing(s, decimal(n));
    assert(typed.with_raw_command(Seq::empty()).raw_command =~= s.raw_command);
    assert(typed.with_raw_command(Seq::empty()) == s);
}

/// Moving down one story and then up one story comes back to where the
/// focus was.
pub proof fn lemma_next_then_prev(s: StoryViewState, focus: nat)
    requires
        s.wf(),
        s.after_key(None, Some(StoryCommand::NextStory), focus).1 == StoryAction::Focus(
            (focus + 1) as usize,
        ),
    ensures
        ({
            let moved = s.after_key(None, Some(StoryCommand::NextStory), focus).0;
            moved.after_key(None, Some(StoryCommand::PrevStory), focus + 1).1 == StoryAction::Focus(
                focus as usize,
            )
        }),
{
}

/// Stories that come in two batches, the stream still open after the first,
/// give the same list as the two batches coming in at once.
pub proof fn lemma_append_in_batches(
    s: StoryViewState,
    first: Seq<Story>,
    second: Seq<Story>,
    disconnected: bool,
)
    requires
        s.wf(),
    ensures
        s.after_append(first, false).after_append(second, disconnected) == s.after_append(
            first + second,
            disconnected,
        ),
{
    let mid = s.after_append(first, false);
    let lhs = mid.after_append(second, disconnected);
    let rhs = s.after_append(first + second, disconnected);
    if first.len() == 0 {
        assert(first + second =~= second);
    } else if second.len() == 0 {
        assert(first + second =~= first);
        assert(lhs.items =~= rhs.items);
    } else {
        assert(s.stories + first + second =~= s.stories + (first + second));
        assert(story_entries(s.starting_id, s.stories.len(), first.len()) + story_entries(
            s.starting_id,
            s.stories.len() + first.len(),
            second.len(),
        ) =~= story_entries(s.starting_id, s.stories.len(), (first + second).len()));
        assert(lhs.items =~= rhs.items);
    }
}

/// New stories are added below the entries already shown, which stay as
/// they were.
pub proof fn lemma_append_keeps_entries(s: StoryViewState, downloaded: Seq<Story>, disconnected: bool)
    requires
        s.wf(),
        !s.has_placeholder,
    ensures
        s.after_append(downloaded, disconnected).items.take(s.items.len() as int) == s.items,
        s.after_append(downloaded, disconnected).stories.take(s.stories.len() as int) == s.stories,
{
    let t = s.after_append(downloaded, disconnected);
    assert(t.items.take(s.items.len() as int) =~= s.items);
    assert(t.stories.take(s.stories.len() as int) =~= s.stories);
}

/// Every entry of a page shows its number right-aligned in the page's
/// width: the prefix `number. ` of each of the page's `STORY_LIMIT` entries
/// is `max_id_len + 2` characters wide, so the metadata lines, indented by
/// as many spaces, start under the titles.
pub proof fn lemma_entry_prefix_width(starting_id: nat, k: nat)
    requires
        k < STORY_LIMIT,
    ensures
        id_prefix(starting_id + k + 1, max_id_len_of(starting_id)).len() == max_id_len_of(starting_id) + 2,
{
    lemma_decimal_len_monotone(starting_id + k + 1, (starting_id + STORY_LIMIT) as nat);
    reveal_strlit(". ");
    let digits = decimal(starting_id + k + 1);
    let width = max_id_len_of(starting_id);
    assert(crate::decimal::pad_left(digits, width).len() == width);
}

/// Taking in stories only adds to the list: the stories already there stay
/// in front, a list that stopped receiving does not start again, a
/// placeholder once gone does not come back, and the numbering and the
/// typed number are untouched.
pub proof fn lemma_append_only_grows(s: StoryViewState, downloaded: Seq<Story>, disconnected: bool)
    ensures
        ({
            let t = s.after_append(downloaded, disconnected);
            &&& t.stories.take(s.stories.len() as int) == s.stories
            &&& t.stories.len() == s.stories.len() + downloaded.len()
            &&& !s.receiving ==> !t.receiving
            &&& !s.has_placeholder ==> !t.has_placeholder
            &&& t.starting_id == s.starting_id
            &&& t.raw_command == s.raw_command
        }),
{
    let t = s.after_append(downloaded, disconnected);
    assert(t.stories.take(s.stories.len() as int) =~= s.stories);
}

/// After any take-in, the list holds one entry per story, plus the
/// placeholder when there is one, and the `k`-th story is shown as number
/// `starting_id + k + 1`.
pub proof fn lemma_append_numbering(s: StoryViewState, downloaded: Seq<Story>, disconnected: bool)
    requires
        s.wf(),
        s.starting_id + s.stories.len() + downloaded.len() <= usize::MAX,
    ensures
        ({
            let t = s.after_append(downloaded, disconnected);
            let offset: int = if t.has_placeholder { 1 } else { 0 };
            &&& t.items.len() == t.stories.len() + offset
            &&& t.has_placeholder ==> t.stories.len() == 0
            &&& forall|k: int|
                0 <= k < t.stories.len() ==> #[trigger] t.items[k + offset] == story_entry(
                    t.starting_id,
                    k as nat,
                )
        }),
{
    lemma_wf_preserved(s, downloaded, disconnected, None, None, 0);
}

/// A second take-in with nothing new, the stream still open, changes
/// nothing.
pub proof fn lemma_append_nothing_again(s: StoryViewState, downloaded: Seq<Story>, disconnected: bool)
    ensures
        ({
            let t = s.after_append(downloaded, disconnected);
            t.after_append(Seq::empty(), false) == t
        }),
{
}

/// The open keys act on the focused story and on no other: with the focus
/// on story `focus`, the comments key opens the comments of that story's
/// id, the article keys open that story's article (the article view only
/// when it has a URL), and the story key opens that story's page; with the
/// focus on no story they do nothing. Any character the key types does not
/// change this.
pub proof fn lemma_open_keys_act_on_focused_story(s: StoryViewState, ch: Option<char>, focus: nat)
    requires
        s.wf(),
    ensures
        focus < s.stories.len() ==> {
            let comments = s.after_key(ch, Some(StoryCommand::GotoStoryCommentView), focus).1;
            let article = s.after_key(ch, Some(StoryCommand::OpenArticleInBrowser), focus).1;
            let page = s.after_key(ch, Some(StoryCommand::OpenStoryInBrowser), focus).1;
            let reader = s.after_key(ch, Some(StoryCommand::OpenArticleInArticleView), focus).1;
            &&& comments is OpenCommentView && comments->OpenCommentView_0 == s.stories[focus as int].id
            &&& article is OpenArticleInBrowser && article->OpenArticleInBrowser_0 == focus
            &&& page is OpenStoryInBrowser && page->OpenStoryInBrowser_0 == focus
            &&& s.stories[focus as int].url@.len() > 0 ==> (reader is OpenArticleInView
                && reader->OpenArticleInView_0 == focus)
            &&& s.stories[focus as int].url@.len() == 0 ==> reader is Consumed
        },
        focus >= s.stories.len() ==> {
            &&& s.after_key(ch, Some(StoryCommand::GotoStoryCommentView), focus).1 == StoryAction::Ignored
            &&& s.after_key(ch, Some(StoryCommand::OpenArticleInBrowser), focus).1 == StoryAction::Ignored
            &&& s.after_key(ch, Some(StoryCommand::OpenStoryInBrowser), focus).1 == StoryAction::Ignored
            &&& s.after_key(ch, Some(StoryCommand::OpenArticleInArticleView), focus).1 == StoryAction::Ignored
        },
{
}

/// The move keys step one entry: with stories in the list, the next key
/// moves the focus from `focus` to `focus + 1` when that entry exists, the
/// previous key to `focus - 1` when the focus is not on the first entry;
/// otherwise, and in a list without stories, they do nothing.
pub proof fn lemma_move_keys(s: StoryViewState, ch: Option<char>, focus: nat)
    requires
        s.wf(),
        focus <= s.items.len(),
    ensures
        ({
            let down = s.after_key(ch, Some(StoryCommand::NextStory), focus).1;
            let up = s.after_key(ch, Some(StoryCommand::PrevStory), focus).1;
            &&& (s.stories.len() > 0 && focus + 1 < s.items.len()) ==> (down is Focus && down->Focus_0 == focus + 1)
            &&& !(s.stories.len() > 0 && focus + 1 < s.items.len()) ==> down is Ignored
            &&& (s.stories.len() > 0 && focus > 0) ==> (up is Focus && up->Focus_0 + 1 == focus)
            &&& !(s.stories.len() > 0 && focus > 0) ==> up is Ignored
        }),
{
}

/// A digit key appends the digit to the typed number (unless it is also
/// the jump key, which then reads the number); the jump key leaves it to the
/// jump; any other key clears it.
pub proof fn lemma_typed_number_after_key(
    s: StoryViewState,
    ch: Option<char>,
    command: Option<StoryCommand>,
    focus: nat,
)
    requires
        s.wf(),
    ensures
        ({
            let typed = s.after_key(ch, command, focus).0.raw_command;
            &&& (ch is Some && '0' <= ch->0 <= '9' && command != Some(StoryCommand::GotoStory))
                ==> typed.len() == s.raw_command.len() + 1
                && typed.last() == ch->0 && typed.take(s.raw_command.len() as int) == s.raw_command
            &&& (!(ch is Some && '0' <= ch->0 <= '9') && command != Some(StoryCommand::GotoStory))
                ==> typed.len() == 0
        }),
{
    let typed = s.after_key(ch, command, focus).0.raw_command;
    if ch is Some && '0' <= ch->0 <= '9' && command != Some(StoryCommand::GotoStory) {
        assert(typed.take(s.raw_command.len() as int) =~= s.raw_command);
    }
}

/// Every change of the list keeps its invariant: taking in stories, and
/// any key.
pub proof fn lemma_wf_preserved(
    s: StoryViewState,
    downloaded: Seq<Story>,
    disconnected: bool,
    ch: Option<char>,
    command: Option<StoryCommand>,
    focus: nat,
)
    requires
        s.wf(),
        s.starting_id + s.stories.len() + downloaded.len() <= usize::MAX,
    ensures
        s.after_append(downloaded, disconnected).wf(),
        s.after_key(ch, command, focus).0.wf(),
{
    let t = s.after_append(downloaded, disconnected);
    if downloaded.len() > 0 {
        if s.has_placeholder {
            assert(s.items.subrange(1, s.items.len() as int) =~= Seq::<ListItem>::empty());
        }
        assert(t.items =~= story_entries(s.starting_id, 0, t.stories.len()));
    } else if disconnected && s.stories.len() == 0 && s.items.len() > 0 {
        assert(s.items =~= seq![s.items[0]]);
    }
    let raw = s.raw_command_after(ch, command);
    assert(all_digits(raw));
}

} // verus!
