# royalroad

A reader's library for stories published on Royal Road, with its proofs.

- `src/pattern.rs`: regular expressions of the `regex` crate, compiled from
  their pattern and used to find groups, every match, and to replace matches.
- `src/site.rs`: the shapes of the site's pages (story page, chapter table,
  chapter page) and what is read out of them.
- `src/number.rs`: decimal ids.
- `src/story.rs`: chapters and stories: reading a story page, reading a
  chapter page, bringing a chapter list up to date, loading chapters one
  page at a time.
- `src/manager.rs`: the reader's collection of stories.
- `src/lists.rs`: the followed, finished and read-later lists.
- `src/reader.rs`: what a reading front end asks of the collection.
- `app/`: the desktop program: fetching pages, saving the collection with
  `bincode`, and the front end's commands.
