# hackernews_tui story list, verified

The story list of a Hacker News terminal client, written in Verus.

- `src/decimal.rs`: decimal numerals of story numbers, right-aligned, and the
  reading back of a typed number.
- `src/story.rs`: a story, the domain of its URL (through the `url` crate),
  and the styled text of its entry (title, link, metadata).
- `src/story_view.rs`: the list of stories with its numbered entries, the
  stories that stream in, and the keys that move the focus or open a story;
  with the laws that tie them together.
- `src/story_page.rs`: story tags, the title bar (text, styles, layer and
  padding), and the keys that change
  tag, sort mode and page.
- `src/config_parser.rs`: the impl that the configuration derive writes.
- `app/`: the channel the stories stream in on, and the `syn` /
  `proc_macro2` side of the derive.
