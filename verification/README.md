# shuba_scraper

Downloads the chapters of a novel from 69shuba through a local browser
service, and keeps the scraping logic verified with Verus.

- `src/` is the verified library: recognising book and chapter URLs
  (`url`), collecting a book's chapter links (`links`), turning a chapter
  page into its text (`chapter`), the extraction schedule with its retries
  and pauses (`extraction`, `delay`), the saved output (`output`), the
  browser service's protocol (`response`, `service`), the headless-browser
  scraper's decisions (`browser`) and the text operations they rest on
  (`text`). `chapter_map`, `pattern` and `html` hold the contracts of the
  `indexmap`, `regex` and `scraper` calls.
- `app/` is the program: command line, HTTP, the browser service process,
  Chrome, sleeping and file output.
- `tests/` runs the library on concrete pages and schedules.
