# epub_reader

Turns `.epub`, `.md`/`.markdown` and `.txt` books into chapters of
paragraphs with stable ids (`{slug}-ch{chapter:03}-p{paragraph:04}`), renders
them as an HTML reading page with three collapsible annotation sections per
paragraph, and patches annotations into that page by paragraph id as they
arrive, so that a run can be resumed or the page rebuilt from saved
annotations.

The library in `src/` is verified with Verus:

- `text`, `search`: character-level helpers (whitespace, trimming,
  searching, replacing, joining) with exact specifications.
- `types`: books, chapters, paragraphs and annotations, and their views.
- `parse_utils`, `patterns`: the shared segmentation rules (headings, title
  candidates, substantive text) and the book builder that numbers chapters and
  paragraphs.
- `text_parser`, `markdown`, `epub`, `parser`: the three input formats and
  the dispatch by file extension.
- `html_gen`: the page, its table of contents, paragraph and code blocks, and
  patching a paragraph's block by id.
- `batching`, `pipeline`: which paragraphs are still owed, how they are cut
  into requests, rebuilding a page from saved annotations, and the run
  settings and request-queue decisions.
- `block_scan`, `laws`: the properties the library keeps across calls, among
  them that patching replaces the block that the paragraph's opening tag
  `<div class="para-block" id="{id}"` starts, and that annotations of two
  paragraphs land the same in either order. Both are stated for ids without
  `<` (and, for the second, without `"` and distinct) on pages where each
  such opening tag is the first of its kind.

`app/` is the command-line program around the library: arguments, files,
the resume state file, progress output and the request queue.
