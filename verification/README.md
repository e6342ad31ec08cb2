# lndown

Downloads a light novel from wuxiaworld.co and binds it into an EPUB file.

- `src/` is the verified library: reading novels, chapters and search results out of
  the site's pages (`crawler`, `wuxiaworldco`, `search`, and the earlier crawlers
  `scraper` and `scrape`), building the chapter files and the EPUB book (`epub_util`),
  the command-line decisions (`cli`), the HTML access through the `scraper` crate
  (`html`) and the text operations they rest on (`text`).
- `app/` is the program: argument handling, network requests, the selection dialog,
  progress bar and file writes.
