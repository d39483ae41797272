//! The reading page: a skeleton with one block per paragraph, filled in and
//! patched by paragraph id as annotations arrive.
use vstd::prelude::*;
use crate::parse_utils::{para_id};
use crate::search::{find, find_chars, matches_at, matches_at_chars, replace_all, replace_all_chars, slice_chars};
use crate::text::{
    ascii_lower_chars, ascii_lower_seq, chars_equal, chars_of, decimal, padded_decimal,
    push_chars, push_padded_decimal, string_from_chars, trim, trim_chars,
};
use crate::types::{
    Book, BookView, Chapter, ChapterView, ChunkEntry, ChunkView, KindView, LlmResponse,
    Paragraph, ParagraphKind, ParagraphView, ResponseView, VocabEntry, VocabView,
};

verus! {

/// Part 1 of the reading page template.
pub const TEMPLATE_PART_1: &'static str = r#"<!DOCTYPE html>
<html lang="en">
<head>
  <meta charset="UTF-8" />
  <meta name="viewport" content="width=device-width, initial-scale=1.0" />
  <title>{{TITLE}}</title>
  <style>
    /* ── Reset & Base ───────────────────────────────────────────── */
    *, *::before, *::after { box-sizing: border-box; margin: 0; padding: 0; }
    :root {
      --bg:        #1a1b26;
      --bg2:       #24283b;
      --bg3:       #2d3149;
      --surface:   #1f2335;
      --border:    #3b4168;
      --text:      #c0caf5;
      --text-dim:  #565f89;
      --accent:    #d6b36a;
      --accent-bright: #f0d08c;
      --accent-soft: rgba(214, 179, 106, .16);
      --accent-border: rgba(214, 179, 106, .28);
      --green:     #9ece6a;
      --yellow:    #e0af68;
      --red:       #f7768e;
      --cyan:      #d9c0ff;
      --purple:    #a875ff;
      --rare:      #8a52db;
      --rare-soft: rgba(138, 82, 219, .18);
      --rare-deep: rgba(72, 34, 104, .74);
      --orange:    #ff9e64;
      --radius:    8px;
      font-size:   17px;
    }
    body {
      background: var(--bg);
      color: var(--text);
      font-family: 'Georgia', 'Noto Serif SC', serif;
      line-height: 1.85;
      max-width: 860px;
"#;

/// Part 2 of the reading page template.
pub const TEMPLATE_PART_2: &'static str = r#"      margin: 0 auto;
      padding: 2rem 1.5rem 6rem;
    }
    body.toc-open { overflow: hidden; }
    a { color: var(--accent); }

    /* ── Floating UI ────────────────────────────────────────────── */
    #toc-toggle {
      position: fixed;
      top: 1rem;
      right: 1rem;
      z-index: 140;
      border: 1px solid var(--accent-border);
      background:
        linear-gradient(135deg, rgba(47, 30, 67, .92) 0%, rgba(28, 24, 44, .92) 100%);
      color: var(--accent-bright);
      font: 600 .82rem/1 'Segoe UI', system-ui, sans-serif;
      letter-spacing: .04em;
      border-radius: 999px;
      padding: .58rem .9rem;
      cursor: pointer;
      backdrop-filter: blur(12px);
      box-shadow:
        0 12px 30px rgba(0,0,0,.26),
        inset 0 0 0 1px rgba(255, 228, 163, .05),
        0 0 24px rgba(138, 82, 219, .12);
    }
    #toc-toggle:focus-visible {
      outline: none;
      box-shadow:
        0 0 0 1px rgba(240, 208, 140, .55),
        0 0 0 4px rgba(138, 82, 219, .26),
        0 12px 30px rgba(0,0,0,.26);
    }
    #toc-backdrop {
      position: fixed;
      inset: 0;
      z-index: 118;
      background: rgba(7, 10, 20, .48);
      opacity: 0;
"#;

/// Part 3 of the reading page template.
pub const TEMPLATE_PART_3: &'static str = r#"      pointer-events: none;
      transition: opacity .2s ease;
    }
    body.toc-open #toc-backdrop {
      opacity: 1;
      pointer-events: auto;
    }
    #toc-panel {
      position: fixed;
      top: 0;
      right: 0;
      z-index: 130;
      width: min(24rem, 92vw);
      height: 100vh;
      padding: 1.25rem 1rem 1.4rem;
      background:
        linear-gradient(180deg, rgba(34, 24, 50, .98) 0%, rgba(19, 16, 31, .98) 100%);
      border-left: 1px solid rgba(214, 179, 106, .14);
      box-shadow: -24px 0 48px rgba(0,0,0,.34);
      overflow-y: auto;
      transform: translateX(104%);
      transition: transform .25s ease;
      backdrop-filter: blur(18px);
    }
    body.toc-open #toc-panel { transform: translateX(0); }
    .toc-head {
      margin-bottom: 1rem;
      padding-bottom: .9rem;
      border-bottom: 1px solid rgba(214, 179, 106, .12);
    }
    .toc-kicker {
      font: 700 .68rem/1 'Segoe UI', system-ui, sans-serif;
      letter-spacing: .18em;
      text-transform: uppercase;
      color: var(--text-dim);
      margin-bottom: .45rem;
    }
    .toc-book-title {
      color: var(--accent);
      font-size: 1.02rem;
      line-height: 1.45;
"#;

/// Part 4 of the reading page template.
pub const TEMPLATE_PART_4: &'static str = r#"      margin-bottom: .55rem;
      word-break: break-word;
    }
    #toc-loc-inline {
      color: var(--text-dim);
      font: 600 .76rem/1.35 'Segoe UI', system-ui, sans-serif;
      min-height: 1.2rem;
    }
    #reading-loc {
      display: inline-flex;
      align-items: center;
      gap: .4rem;
      border: 1px solid var(--accent-border);
      background:
        linear-gradient(135deg, rgba(39, 27, 55, .82) 0%, rgba(20, 19, 33, .8) 100%);
      color: var(--text);
      font: 600 .76rem/1.25 'Segoe UI', system-ui, sans-serif;
      padding: .5rem .75rem;
      border-radius: 999px;
      max-width: min(32rem, calc(100vw - 2rem));
      white-space: nowrap;
      overflow: hidden;
      text-overflow: ellipsis;
      backdrop-filter: blur(10px);
      box-shadow:
        0 8px 24px rgba(0,0,0,.24),
        inset 0 0 0 1px rgba(255, 228, 163, .04),
        0 0 24px rgba(138, 82, 219, .1);
    }
    #reading-loc.is-floating {
      position: fixed;
      left: max(1rem, calc(50% - 500px));
      bottom: 1.75rem;
      z-index: 105;
    }
    .toc-nav {
      display: flex;
      flex-direction: column;
      gap: .45rem;
      padding-bottom: 4rem;
    }
    .toc-link {
"#;

/// Part 5 of the reading page template.
pub const TEMPLATE_PART_5: &'static str = r#"      display: grid;
      grid-template-columns: auto 1fr auto;
      align-items: baseline;
      gap: .7rem;
      padding: .68rem .8rem;
      border-radius: 12px;
      text-decoration: none;
      color: var(--text);
      background: rgba(255,255,255,.02);
      border: 1px solid transparent;
      transition: transform .16s ease, border-color .16s ease, background .16s ease;
    }
    .toc-link:hover {
      transform: translateX(-2px);
      background: linear-gradient(90deg, rgba(138, 82, 219, .12) 0%, rgba(214, 179, 106, .05) 100%);
      border-color: rgba(214, 179, 106, .14);
    }
    .toc-link.is-current {
      background:
        linear-gradient(90deg, rgba(91, 47, 150, .24) 0%, rgba(214, 179, 106, .08) 100%);
      border-color: var(--accent-border);
      box-shadow:
        inset 0 0 0 1px rgba(214, 179, 106, .08),
        0 0 20px rgba(138, 82, 219, .08);
    }
    .toc-link:focus-visible {
      outline: none;
      border-color: rgba(240, 208, 140, .44);
      box-shadow:
        inset 0 0 0 1px rgba(240, 208, 140, .1),
        0 0 0 3px rgba(138, 82, 219, .18);
    }
    .toc-link-index {
      color: var(--text-dim);
"#;

/// Part 6 of the reading page template.
pub const TEMPLATE_PART_6: &'static str = r#"      font: 700 .72rem/1 'Segoe UI', system-ui, sans-serif;
      letter-spacing: .08em;
      min-width: 2ch;
    }
    .toc-link-title {
      color: var(--text);
      font: 600 .86rem/1.35 'Segoe UI', system-ui, sans-serif;
    }
    .toc-link-meta {
      color: var(--text-dim);
      font: 600 .72rem/1 'Segoe UI', system-ui, sans-serif;
    }

    /* ── Progress bar (bottom) ──────────────────────────────────── */
    #progress-bar-wrap {
      position: fixed; bottom: 1.2rem; left: 50%;
      transform: translateX(-50%);
      width: min(1000px, 90%); height: 5px;
      background: rgba(255,255,255,.08);
      border-radius: 9999px;
      z-index: 100;
      box-shadow: 0 0 12px rgba(0,0,0,.5);
    }
    #progress-pct {
      position: fixed; bottom: 1.9rem; right: calc(50% - min(500px, 45%) + 0px);
      font-size: .7rem; font-family: monospace;
      color: rgba(255,255,255,.35);
      z-index: 100;
      pointer-events: none;
      user-select: none;
    }
    #progress-bar {
      height: 100%;
      width: 0%;
      border-radius: 9999px;
      transition: width .25s ease;
      background: linear-gradient(90deg, #8c63e8 0%, #c18fff 40%, #e2bf79 78%, #f3e1b2 100%);
"#;

/// Part 7 of the reading page template.
pub const TEMPLATE_PART_7: &'static str = r#"      box-shadow:
        0 0 12px rgba(168, 117, 255, .24),
        0 0 28px rgba(214, 179, 106, .18);
      position: relative;
      overflow: hidden;
    }
    #progress-bar::before {
      content: '';
      position: absolute;
      inset: 0;
      background: linear-gradient(180deg, rgba(255,255,255,.22) 0%, rgba(255,255,255,0) 74%);
      pointer-events: none;
    }
    #progress-bar::after {
      content: '';
      position: absolute;
      right: -1px; top: 50%;
      transform: translateY(-50%);
      width: 5px; height: 5px;
      border-radius: 50%;
      background: #ffe066;
      box-shadow: 0 0 8px 3px #ffe077, 0 0 20px 6px rgba(255,210,50,.7), 0 0 36px 8px rgba(255,180,0,.35);
      opacity: 1;
      transition: opacity .25s;
    }
    #progress-bar[style*="width: 0"]::after { opacity: 0; }

    /* ── Chapter ───────────────────────────────────────────────── */
    .chapter {
      margin-bottom: 4rem;
      scroll-margin-top: 1rem;
    }
    .chapter-title {
      font-size: 1.6rem; color: #c89cff;
      border-bottom: 2px solid var(--border);
      padding-bottom: .4rem; margin-bottom: 2rem;
    }

"#;

/// Part 8 of the reading page template.
pub const TEMPLATE_PART_8: &'static str = r#"    /* ── Paragraph block ───────────────────────────────────────── */
    .para-block {
      margin-bottom: 2rem;
      border-left: 3px solid var(--border);
      padding-left: 1rem;
      transition: border-color .2s;
      scroll-margin-top: 1rem;
    }
    .para-block[data-status="done"] { border-left-color: var(--green); }
    .para-block[data-status="pending"] { border-left-color: var(--border); }
    .para-block.is-current {
      border-left-color: var(--accent);
      background: linear-gradient(90deg, rgba(138, 82, 219, .08) 0%, rgba(214, 179, 106, .035) 100%);
      box-shadow:
        -10px 0 24px rgba(138, 82, 219, .12),
        inset 1px 0 0 rgba(214, 179, 106, .1);
    }

    .original-text {
      font-size: 1rem;
      color: var(--text);
      margin-bottom: .6rem;
      text-align: justify;
    }
    .para-block.is-current .original-text {
      color: #f1e6cb;
      text-shadow:
        0 0 10px rgba(214, 179, 106, .08),
        0 0 18px rgba(138, 82, 219, .05);
    }
    /* ── Collapsible AI sections ───────────────────────────────── */
    .ai-section {
      margin-top: .35rem;
      border-radius: var(--radius);
      overflow: hidden;
    }
"#;

/// Part 9 of the reading page template.
pub const TEMPLATE_PART_9: &'static str = r#"    .ai-section > summary {
      cursor: pointer;
      padding: .3rem .7rem;
      font-size: .82rem;
      font-family: 'Segoe UI', system-ui, sans-serif;
      font-weight: 600;
      letter-spacing: .03em;
      list-style: none;
      display: flex; align-items: center; gap: .4rem;
      user-select: none;
    }
    .ai-section > summary::-webkit-details-marker { display: none; }
    .ai-section > summary::before {
      content: '▶'; font-size: .6rem; transition: transform .15s;
    }
    .ai-section[open] > summary::before { transform: rotate(90deg); }
    .ai-section > summary:focus-visible {
      outline: none;
      box-shadow:
        inset 0 0 0 1px rgba(240, 208, 140, .12),
        0 0 0 3px rgba(138, 82, 219, .16);
    }

    .translation-section > summary { background: #1e2940; color: var(--cyan); }
    .vocab-section      > summary { background: #201e30; color: var(--purple); }
    .chunk-section      > summary { background: #1e2a20; color: var(--green); }

    .ai-content {
      padding: .7rem 1rem;
      font-size: .9rem;
      font-family: 'Segoe UI', system-ui, sans-serif;
      line-height: 1.7;
      background: var(--surface);
    }

    /* Translation */
"#;

/// Part 10 of the reading page template.
pub const TEMPLATE_PART_10: &'static str = r#"    .translation-section .ai-content p { color: var(--cyan); }

    /* Code block */
    .code-block {
      margin: 1.1rem 0 1.8rem;
      border: 1px solid rgba(122, 162, 247, .12);
      border-radius: 14px;
      overflow: hidden;
      background: rgba(16, 19, 31, .92);
      box-shadow: 0 14px 30px rgba(0,0,0,.18);
    }
    .code-block-label {
      padding: .45rem .8rem;
      color: var(--text-dim);
      background: rgba(122, 162, 247, .06);
      border-bottom: 1px solid rgba(122, 162, 247, .08);
      font: 700 .73rem/1 'Segoe UI', system-ui, sans-serif;
      letter-spacing: .08em;
      text-transform: uppercase;
    }
    .code-block-html {
      overflow-x: auto;
    }
    .code-block-html pre {
      overflow-x: auto;
      margin: 0;
      padding: .95rem 1rem 1.05rem;
    }
    .code-block-html code {
      display: block;
      color: #d5defc;
      font: .86rem/1.6 'JetBrains Mono', 'Fira Code', 'SFMono-Regular', Consolas, monospace;
      white-space: pre;
      tab-size: 2;
    }
    .code-block-html pre[style] {
      border-radius: 0;
      margin: 0;
      background: #161821 !important;
    }

    /* Vocab table */
    .vocab-scroll {
"#;

/// Part 11 of the reading page template.
pub const TEMPLATE_PART_11: &'static str = r#"      overflow-x: auto;
      -webkit-overflow-scrolling: touch;
    }
    .vocab-table {
      width: 100%; border-collapse: collapse;
      font-size: .82rem;
    }
    .vocab-table th {
      background: var(--bg2); color: var(--text-dim);
      font-weight: 600; text-align: left;
      padding: .3rem .5rem;
      border-bottom: 1px solid var(--border);
    }
    .vocab-table td {
      padding: .3rem .5rem;
      border-bottom: 1px solid var(--bg3);
      vertical-align: top;
    }
    .vocab-table tr:last-child td { border-bottom: none; }
    .vocab-table .word    { color: var(--yellow); font-weight: 700; }
    .vocab-table .ipa     { color: var(--text-dim); font-family: monospace; }
    .vocab-table .pos     { color: var(--orange); font-style: italic; }
    .vocab-table .example { color: var(--text-dim); }

    /* Chunk list */
    .chunk-list { list-style: none; }
    .chunk-list li { margin-bottom: .6rem; }
    .chunk-phrase { color: var(--green); font-weight: 700; }
    .chunk-cn     { color: var(--text-dim); font-size: .82rem; }
    .chunk-example { color: var(--text-dim); font-size: .85rem; }

    .empty { color: var(--text-dim); font-style: italic; }

"#;

/// Part 12 of the reading page template.
pub const TEMPLATE_PART_12: &'static str = r#"    /* ── Scrollbar ─────────────────────────────────────────────── */
    ::-webkit-scrollbar { width: 6px; }
    ::-webkit-scrollbar-track { background: var(--bg); }
    ::-webkit-scrollbar-thumb { background: var(--border); border-radius: 3px; }

    /* ── Responsive ────────────────────────────────────────────── */
    @media (max-width: 760px) {
      #toc-panel { width: min(26rem, 96vw); }
      #reading-loc.is-floating {
        left: .8rem;
        right: .8rem;
        bottom: 3rem;
        max-width: none;
      }
      #progress-pct { right: 1rem; bottom: 1.9rem; }
    }
    @media (max-width: 600px) {
      body { font-size: 15px; padding: 1rem .8rem 5.6rem; }
      #toc-toggle { top: .8rem; right: .8rem; }
      .vocab-table { font-size: .75rem; }
    }
  </style>
</head>
<body>
  <button id="toc-toggle" type="button" aria-expanded="false" aria-controls="toc-panel">Chapters</button>
  <div id="toc-backdrop" aria-hidden="true"></div>
  <aside id="toc-panel" aria-hidden="true">
    <div class="toc-head">
      <div class="toc-kicker">Navigator</div>
      <div class="toc-book-title">{{TITLE}}</div>
      <div id="toc-loc-inline"></div>
    </div>
    {{TOC}}
  </aside>

"#;

/// Part 13 of the reading page template.
pub const TEMPLATE_PART_13: &'static str = r#"  <div id="progress-bar-wrap"><div id="progress-bar"></div></div>
  <div id="progress-pct">0.00%</div>
  <div id="reading-loc" class="is-floating">Locating…</div>

  <h1 style="color:var(--accent);margin-bottom:2.5rem;font-size:2rem;">{{TITLE}}</h1>

  {{BODY}}

  <script>
    // Reading state and navigation
    const bar = document.getElementById('progress-bar');
    const pctEl = document.getElementById('progress-pct');
    const readingLocEl = document.getElementById('reading-loc');
    const tocLocInlineEl = document.getElementById('toc-loc-inline');
    const tocToggle = document.getElementById('toc-toggle');
    const tocPanel = document.getElementById('toc-panel');
    const tocBackdrop = document.getElementById('toc-backdrop');
    const tocLinks = Array.from(document.querySelectorAll('.toc-link'));
    const paraBlocks = Array.from(document.querySelectorAll('.para-block'));
    const detailSections = Array.from(document.querySelectorAll('.ai-section[data-detail-key]'));
    const POSITION_KEY = 'reading-position:{{SLUG}}';
    const DETAILS_KEY = 'open-details:{{SLUG}}';
    const VIEWPORT_ANCHOR_RATIO = 0.5;
    let currentParaId = null;
    let rafPending = false;

"#;

/// Part 14 of the reading page template.
pub const TEMPLATE_PART_14: &'static str = r#"    function safeParse(raw, fallback) {
      if (!raw) return fallback;
      try {
        return JSON.parse(raw);
      } catch (_) {
        return fallback;
      }
    }

    function saveJson(key, value) {
      try {
        localStorage.setItem(key, JSON.stringify(value));
      } catch (_) {}
    }

    function getScrollTop() {
      return window.scrollY || document.documentElement.scrollTop || 0;
    }

    function setTocOpen(open) {
      document.body.classList.toggle('toc-open', open);
      tocToggle.setAttribute('aria-expanded', open ? 'true' : 'false');
      tocPanel.setAttribute('aria-hidden', open ? 'false' : 'true');
    }

    function getCurrentParagraph() {
      if (!paraBlocks.length) return null;
      const anchorY = getScrollTop() + window.innerHeight * VIEWPORT_ANCHOR_RATIO;
      let low = 0;
      let high = paraBlocks.length - 1;
      let best = 0;

      while (low <= high) {
        const mid = Math.floor((low + high) / 2);
        if (paraBlocks[mid].offsetTop <= anchorY) {
          best = mid;
          low = mid + 1;
        } else {
          high = mid - 1;
        }
      }

      return paraBlocks[best];
    }

"#;

/// Part 15 of the reading page template.
pub const TEMPLATE_PART_15: &'static str = r#"    function updateCurrentHighlight(para) {
      if (currentParaId === para.id) return;
      if (currentParaId) {
        document.getElementById(currentParaId)?.classList.remove('is-current');
      }
      para.classList.add('is-current');
      currentParaId = para.id;
    }

    function updateChapterHighlight(chapterId) {
      for (const link of tocLinks) {
        const active = link.dataset.chapterId === chapterId;
        link.classList.toggle('is-current', active);
        if (active) {
          link.setAttribute('aria-current', 'location');
        } else {
          link.removeAttribute('aria-current');
        }
      }
    }

    function saveReadingPosition(para) {
      const viewportAnchor = window.innerHeight * VIEWPORT_ANCHOR_RATIO;
      const payload = {
        paraId: para.id,
        paraIndex: Number(para.dataset.paraIndex || '0'),
        withinParaOffset: Math.max(0, Math.round(getScrollTop() + viewportAnchor - para.offsetTop)),
      };
      saveJson(POSITION_KEY, payload);
    }

    function updateReadingState() {
      const current = getCurrentParagraph();
      if (!current) return;

      const total = paraBlocks.length || 1;
"#;

/// Part 16 of the reading page template.
pub const TEMPLATE_PART_16: &'static str = r#"      const index = Number(current.dataset.paraIndex || '1');
      const pct = total <= 1 ? 100 : ((index - 1) / (total - 1)) * 100;
      const chapter = current.closest('.chapter');
      const chapterId = chapter?.id || '';
      const chapterTitle = chapter?.querySelector('.chapter-title')?.textContent?.trim() || 'Current position';
      const locText = `${chapterTitle} · ${index}/${total}`;

      bar.style.width = pct + '%';
      pctEl.textContent = pct.toFixed(2) + '%';
      readingLocEl.textContent = locText;
      tocLocInlineEl.textContent = locText;
      updateCurrentHighlight(current);
      updateChapterHighlight(chapterId);
      saveReadingPosition(current);
    }

    function scheduleReadingState() {
      if (rafPending) return;
      rafPending = true;
      requestAnimationFrame(() => {
        rafPending = false;
        updateReadingState();
      });
    }

    function restoreOpenDetails() {
      const openKeys = new Set(safeParse(localStorage.getItem(DETAILS_KEY), []));
      for (const section of detailSections) {
        section.open = openKeys.has(section.dataset.detailKey);
      }
    }

    function persistOpenDetails() {
"#;

/// Part 17 of the reading page template.
pub const TEMPLATE_PART_17: &'static str = r#"      const openKeys = detailSections
        .filter(section => section.open)
        .map(section => section.dataset.detailKey);
      saveJson(DETAILS_KEY, openKeys);
    }

    function restoreReadingPosition() {
      if (window.location.hash) {
        scheduleReadingState();
        return;
      }

      const saved = safeParse(localStorage.getItem(POSITION_KEY), null);
      if (!saved) {
        scheduleReadingState();
        return;
      }

      const target =
        document.getElementById(saved.paraId) ||
        paraBlocks[Math.max(0, Number(saved.paraIndex || 1) - 1)];

      if (!target) {
        scheduleReadingState();
        return;
      }

      const viewportAnchor = window.innerHeight * VIEWPORT_ANCHOR_RATIO;
      const top = Math.max(
        0,
        target.offsetTop + Number(saved.withinParaOffset || 0) - viewportAnchor
      );
      window.scrollTo({ top, behavior: 'auto' });
      scheduleReadingState();
    }

    paraBlocks.forEach((para, index) => {
      para.dataset.paraIndex = String(index + 1);
    });

    restoreOpenDetails();

    detailSections.forEach(section => {
      section.addEventListener('toggle', () => {
"#;

/// Part 18 of the reading page template.
pub const TEMPLATE_PART_18: &'static str = r#"        persistOpenDetails();
        scheduleReadingState();
      });
    });

    tocToggle.addEventListener('click', () => {
      setTocOpen(!document.body.classList.contains('toc-open'));
    });
    tocBackdrop.addEventListener('click', () => setTocOpen(false));
    tocLinks.forEach(link => {
      link.addEventListener('click', () => setTocOpen(false));
    });

    window.addEventListener('keydown', event => {
      if (event.key === 'Escape') setTocOpen(false);
    });
    window.addEventListener('scroll', scheduleReadingState, { passive: true });
    window.addEventListener('resize', scheduleReadingState);
    window.addEventListener('hashchange', scheduleReadingState);
    window.addEventListener('load', () => {
      requestAnimationFrame(() => {
        requestAnimationFrame(() => {
          restoreReadingPosition();
        });
      });
    });
  </script>
</body>
</html>
"#;

/// The reading page; `{{TITLE}}`, `{{SLUG}}`, `{{TOC}}` and `{{BODY}}` are filled in.
pub open spec fn html_template() -> Seq<char> {
    TEMPLATE_PART_1@
        + TEMPLATE_PART_2@
        + TEMPLATE_PART_3@
        + TEMPLATE_PART_4@
        + TEMPLATE_PART_5@
        + TEMPLATE_PART_6@
        + TEMPLATE_PART_7@
        + TEMPLATE_PART_8@
        + TEMPLATE_PART_9@
        + TEMPLATE_PART_10@
        + TEMPLATE_PART_11@
        + TEMPLATE_PART_12@
        + TEMPLATE_PART_13@
        + TEMPLATE_PART_14@
        + TEMPLATE_PART_15@
        + TEMPLATE_PART_16@
        + TEMPLATE_PART_17@
        + TEMPLATE_PART_18@
}

/// The reading page template.
pub fn template_text() -> (r: String)
    ensures
        r@ == html_template(),
{
    let mut s = String::new();
    s.append(TEMPLATE_PART_1);
    s.append(TEMPLATE_PART_2);
    s.append(TEMPLATE_PART_3);
    s.append(TEMPLATE_PART_4);
    s.append(TEMPLATE_PART_5);
    s.append(TEMPLATE_PART_6);
    s.append(TEMPLATE_PART_7);
    s.append(TEMPLATE_PART_8);
    s.append(TEMPLATE_PART_9);
    s.append(TEMPLATE_PART_10);
    s.append(TEMPLATE_PART_11);
    s.append(TEMPLATE_PART_12);
    s.append(TEMPLATE_PART_13);
    s.append(TEMPLATE_PART_14);
    s.append(TEMPLATE_PART_15);
    s.append(TEMPLATE_PART_16);
    s.append(TEMPLATE_PART_17);
    s.append(TEMPLATE_PART_18);
    s
}

// ───────────────────────── escaping ─────────────────────────

/// `&`, `<` and `>` as HTML entities; any other character as itself.
pub open spec fn escape_char(c: char) -> Seq<char> {
    if c == '&' {
        seq!['&', 'a', 'm', 'p', ';']
    } else if c == '<' {
        seq!['&', 'l', 't', ';']
    } else if c == '>' {
        seq!['&', 'g', 't', ';']
    } else {
        seq![c]
    }
}

/// `s` with `&`, `<` and `>` escaped.
pub open spec fn escape_html(s: Seq<char>) -> Seq<char>
    decreases s.len(),
{
    if s.len() == 0 {
        Seq::empty()
    } else {
        escape_html(s.drop_last()) + escape_char(s.last())
    }
}

/// Calls `html_escape::encode_text`, which its documentation says escapes
/// `&`, `<` and `>` as `&amp;`, `&lt;` and `&gt;` and leaves the rest.
#[verifier::external_body]
pub(crate) fn encode_text(text: &str) -> (r: String)
    ensures
        r@ == escape_html(text@),
{
    html_escape::encode_text(text).into_owned()
}

// ───────────────────────── annotation sections ─────────────────────────

pub open spec fn empty_section() -> Seq<char> {
    "<p class=\"empty\">—</p>"@
}

pub open spec fn vocab_row(e: VocabView) -> Seq<char> {
    "<tr><td class=\"word\">"@ + escape_html(e.word) + "</td><td class=\"ipa\">"@ + escape_html(e.ipa)
        + "</td><td class=\"pos\">"@ + escape_html(e.pos) + "</td><td>"@ + escape_html(e.cn)
        + "</td><td class=\"example\"><em>"@ + escape_html(e.example) + "</em></td></tr>"@
}

pub open spec fn vocab_rows(es: Seq<VocabView>) -> Seq<char>
    decreases es.len(),
{
    if es.len() == 0 {
        Seq::empty()
    } else {
        vocab_rows(es.drop_last()) + vocab_row(es.last())
    }
}

/// The vocabulary table, or a dash when there is no entry.
pub open spec fn vocab_html(es: Seq<VocabView>) -> Seq<char> {
    if es.len() == 0 {
        empty_section()
    } else {
        "<div class=\"vocab-scroll\"><table class=\"vocab-table\"><thead><tr><th>单词</th><th>音标</th><th>词性</th><th>释义</th><th>例句</th></tr></thead><tbody>"@
            + vocab_rows(es) + "</tbody></table></div>"@
    }
}

pub open spec fn chunk_item(e: ChunkView) -> Seq<char> {
    "<li><span class=\"chunk-phrase\">"@ + escape_html(e.chunk) + "</span> <span class=\"chunk-cn\">（"@
        + escape_html(e.cn) + "）</span><br><em class=\"chunk-example\">"@ + escape_html(e.example)
        + "</em></li>"@
}

pub open spec fn chunk_items(es: Seq<ChunkView>) -> Seq<char>
    decreases es.len(),
{
    if es.len() == 0 {
        Seq::empty()
    } else {
        chunk_items(es.drop_last()) + chunk_item(es.last())
    }
}

/// The chunk list, or a dash when there is no entry.
pub open spec fn chunks_html(es: Seq<ChunkView>) -> Seq<char> {
    if es.len() == 0 {
        empty_section()
    } else {
        "<ul class=\"chunk-list\">"@ + chunk_items(es) + "</ul>"@
    }
}

fn append_escaped(s: &mut String, text: &String)
    ensures
        final(s)@ == old(s)@ + escape_html(text@),
{
    let e = encode_text(text.as_str());
    s.append(e.as_str());
}

fn render_vocab_row(e: &VocabEntry) -> (r: String)
    ensures
        r@ == vocab_row(e@),
{
    let mut s = String::from_str("<tr><td class=\"word\">");
    append_escaped(&mut s, &e.word);
    s.append("</td><td class=\"ipa\">");
    append_escaped(&mut s, &e.ipa);
    s.append("</td><td class=\"pos\">");
    append_escaped(&mut s, &e.pos);
    s.append("</td><td>");
    append_escaped(&mut s, &e.cn);
    s.append("</td><td class=\"example\"><em>");
    append_escaped(&mut s, &e.example);
    s.append("</em></td></tr>");
    s
}

fn render_chunk_item(e: &ChunkEntry) -> (r: String)
    ensures
        r@ == chunk_item(e@),
{
    let mut s = String::from_str("<li><span class=\"chunk-phrase\">");
    append_escaped(&mut s, &e.chunk);
    s.append("</span> <span class=\"chunk-cn\">（");
    append_escaped(&mut s, &e.cn);
    s.append("）</span><br><em class=\"chunk-example\">");
    append_escaped(&mut s, &e.example);
    s.append("</em></li>");
    s
}

/// The vocabulary table of an annotation.
pub fn render_vocab(entries: &Vec<VocabEntry>) -> (r: String)
    ensures
        r@ == vocab_html(entries@.map_values(|e: VocabEntry| e@)),
{
    let ghost ev = entries@.map_values(|e: VocabEntry| e@);
    if entries.len() == 0 {
        return String::from_str("<p class=\"empty\">—</p>");
    }
    let mut s = String::from_str(
        "<div class=\"vocab-scroll\"><table class=\"vocab-table\"><thead><tr><th>单词</th><th>音标</th><th>词性</th><th>释义</th><th>例句</th></tr></thead><tbody>",
    );
    let ghost head = s@;
    let mut i: usize = 0;
    while i < entries.len()
        invariant
            i <= entries.len(),
            ev == entries@.map_values(|e: VocabEntry| e@),
            s@ == head + vocab_rows(ev.take(i as int)),
        decreases entries.len() - i,
    {
        assert(ev.take(i + 1).drop_last() =~= ev.take(i as int));
        assert(ev.take(i + 1).last() == entries@[i as int]@);
        let row = render_vocab_row(&entries[i]);
        s.append(row.as_str());
        assert(s@ =~= head + vocab_rows(ev.take(i + 1)));
        i = i + 1;
    }
    assert(ev.take(entries.len() as int) =~= ev);
    s.append("</tbody></table></div>");
    s
}

/// The chunk list of an annotation.
pub fn render_chunks(entries: &Vec<ChunkEntry>) -> (r: String)
    ensures
        r@ == chunks_html(entries@.map_values(|e: ChunkEntry| e@)),
{
    let ghost ev = entries@.map_values(|e: ChunkEntry| e@);
    if entries.len() == 0 {
        return String::from_str("<p class=\"empty\">—</p>");
    }
    let mut s = String::from_str("<ul class=\"chunk-list\">");
    let ghost head = s@;
    let mut i: usize = 0;
    while i < entries.len()
        invariant
            i <= entries.len(),
            ev == entries@.map_values(|e: ChunkEntry| e@),
            s@ == head + chunk_items(ev.take(i as int)),
        decreases entries.len() - i,
    {
        assert(ev.take(i + 1).drop_last() =~= ev.take(i as int));
        assert(ev.take(i + 1).last() == entries@[i as int]@);
        let item = render_chunk_item(&entries[i]);
        s.append(item.as_str());
        assert(s@ =~= head + chunk_items(ev.take(i + 1)));
        i = i + 1;
    }
    assert(ev.take(entries.len() as int) =~= ev);
    s.append("</ul>");
    s
}

// ───────────────────────── paragraph blocks ─────────────────────────

/// The block of a prose paragraph: the source text and three collapsible
/// sections, filled from the annotation or left as `FILL` placeholders.
#[verifier::opaque]
pub open spec fn para_block(p: ParagraphView, resp: Option<ResponseView>) -> Seq<char> {
    let status = match resp {
        Some(_) => "done"@,
        None => "pending"@,
    };
    let translation = match resp {
        Some(r) => "<p>"@ + escape_html(r.translation) + "</p>"@,
        None => "<!-- FILL:translation -->"@,
    };
    let vocab = match resp {
        Some(r) => vocab_html(r.vocabulary),
        None => "<!-- FILL:vocab -->"@,
    };
    let chunks = match resp {
        Some(r) => chunks_html(r.chunks),
        None => "<!-- FILL:chunks -->"@,
    };
    "<div class=\"para-block\" id=\""@ + p.id + "\" data-status=\""@ + status
        + "\">\n  <p class=\"original-text\">"@ + escape_html(p.text)
        + "</p>\n  <details class=\"ai-section translation-section\" data-detail-key=\""@ + p.id
        + ":translation\">\n    <summary><span class=\"section-icon\">🈳</span> 译文</summary>\n    <div class=\"ai-content\">"@
        + translation
        + "</div>\n  </details>\n  <details class=\"ai-section vocab-section\" data-detail-key=\""@
        + p.id
        + ":vocab\">\n    <summary><span class=\"section-icon\">📚</span> 词汇 (IELTS 6.5+)</summary>\n    <div class=\"ai-content\">"@
        + vocab
        + "</div>\n  </details>\n  <details class=\"ai-section chunk-section\" data-detail-key=\""@
        + p.id
        + ":chunks\">\n    <summary><span class=\"section-icon\">🔗</span> 常用短语 / Chunks</summary>\n    <div class=\"ai-content\">"@
        + chunks + "</div>\n  </details>\n</div>\n"@
}

pub open spec fn opt_response_view(r: Option<&LlmResponse>) -> Option<ResponseView> {
    match r {
        Some(x) => Some(x@),
        None => None,
    }
}

/// Renders a paragraph block; with an annotation its sections are filled.
pub fn render_para_block(para: &Paragraph, resp: Option<&LlmResponse>) -> (r: String)
    ensures
        r@ == para_block(para@, opt_response_view(resp)),
{
    proof {
        reveal(para_block);
    }
    let status = match resp {
        Some(_) => "done",
        None => "pending",
    };
    let mut s = String::from_str("<div class=\"para-block\" id=\"");
    s.append(para.id.as_str());
    s.append("\" data-status=\"");
    s.append(status);
    s.append("\">\n  <p class=\"original-text\">");
    append_escaped(&mut s, &para.text);
    s.append("</p>\n  <details class=\"ai-section translation-section\" data-detail-key=\"");
    s.append(para.id.as_str());
    s.append(
        ":translation\">\n    <summary><span class=\"section-icon\">🈳</span> 译文</summary>\n    <div class=\"ai-content\">",
    );
    match resp {
        Some(r) => {
            s.append("<p>");
            append_escaped(&mut s, &r.translation);
            s.append("</p>");
        },
        None => s.append("<!-- FILL:translation -->"),
    }
    s.append("</div>\n  </details>\n  <details class=\"ai-section vocab-section\" data-detail-key=\"");
    s.append(para.id.as_str());
    s.append(
        ":vocab\">\n    <summary><span class=\"section-icon\">📚</span> 词汇 (IELTS 6.5+)</summary>\n    <div class=\"ai-content\">",
    );
    match resp {
        Some(r) => {
            let v = render_vocab(&r.vocabulary);
            s.append(v.as_str());
        },
        None => s.append("<!-- FILL:vocab -->"),
    }
    s.append("</div>\n  </details>\n  <details class=\"ai-section chunk-section\" data-detail-key=\"");
    s.append(para.id.as_str());
    s.append(
        ":chunks\">\n    <summary><span class=\"section-icon\">🔗</span> 常用短语 / Chunks</summary>\n    <div class=\"ai-content\">",
    );
    match resp {
        Some(r) => {
            let c = render_chunks(&r.chunks);
            s.append(c.as_str());
        },
        None => s.append("<!-- FILL:chunks -->"),
    }
    s.append("</div>\n  </details>\n</div>\n");
    s
}

// ───────────────────────── code blocks ─────────────────────────

/// The syntax token a code-fence language names: trimmed, ASCII
/// lowercased, common aliases (`js`, `py`, `sh`, ...) resolved; none when blank.
pub open spec fn language_token(language: Seq<char>) -> Option<Seq<char>> {
    let t = ascii_lower_seq(trim(language));
    if t.len() == 0 {
        None
    } else if t == seq!['c', '+', '+'] {
        Some("cpp"@)
    } else if t == seq!['c', '#'] {
        Some("cs"@)
    } else if t == seq!['j', 's'] {
        Some("javascript"@)
    } else if t == seq!['t', 's'] {
        Some("typescript"@)
    } else if t == seq!['p', 'y'] {
        Some("python"@)
    } else if t == seq!['r', 'b'] {
        Some("ruby"@)
    } else if t == seq!['r', 's'] {
        Some("rust"@)
    } else if t == seq!['s', 'h'] || t == seq!['s', 'h', 'e', 'l', 'l'] || t == seq!['z', 's', 'h'] {
        Some("bash"@)
    } else if t == seq!['p', 's', '1'] {
        Some("powershell"@)
    } else if t == seq!['y', 'm', 'l'] {
        Some("yaml"@)
    } else if t == seq!['m', 'd'] {
        Some("markdown"@)
    } else {
        Some(t)
    }
}

fn is_word(t: &Vec<char>, w: Vec<char>) -> (r: bool)
    ensures
        r == (t@ == w@),
{
    chars_equal(t.as_slice(), w.as_slice())
}

/// The syntax token for a code-fence language.
pub fn normalized_language_token(language: &str) -> (r: Option<String>)
    ensures
        match language_token(language@) {
            Some(t) => r matches Some(s) && s@ == t,
            None => r is None,
        },
{
    let v = chars_of(language);
    let tr = trim_chars(v.as_slice());
    let t = ascii_lower_chars(tr.as_slice());
    if t.len() == 0 {
        return None;
    }
    let w = if is_word(&t, vec!['c', '+', '+']) {
        String::from_str("cpp")
    } else if is_word(&t, vec!['c', '#']) {
        String::from_str("cs")
    } else if is_word(&t, vec!['j', 's']) {
        String::from_str("javascript")
    } else if is_word(&t, vec!['t', 's']) {
        String::from_str("typescript")
    } else if is_word(&t, vec!['p', 'y']) {
        String::from_str("python")
    } else if is_word(&t, vec!['r', 'b']) {
        String::from_str("ruby")
    } else if is_word(&t, vec!['r', 's']) {
        String::from_str("rust")
    } else if is_word(&t, vec!['s', 'h']) || is_word(&t, vec!['s', 'h', 'e', 'l', 'l']) || is_word(
        &t,
        vec!['z', 's', 'h'],
    ) {
        String::from_str("bash")
    } else if is_word(&t, vec!['p', 's', '1']) {
        String::from_str("powershell")
    } else if is_word(&t, vec!['y', 'm', 'l']) {
        String::from_str("yaml")
    } else if is_word(&t, vec!['m', 'd']) {
        String::from_str("markdown")
    } else {
        string_from_chars(t.as_slice())
    };
    Some(w)
}

/// The theme code blocks are coloured with, from `syntect`'s default themes.
pub const CODE_THEME: &'static str = "base16-ocean.dark";

/// The name of the syntax `syntect`'s default syntax set finds for a token.
pub uninterp spec fn token_syntax_of(token: Seq<char>) -> Option<Seq<char>>;

/// The name of the syntax `syntect`'s default syntax set finds for the first
/// line of `code`.
pub uninterp spec fn first_line_syntax_of(code: Seq<char>) -> Option<Seq<char>>;

/// The HTML `syntect` makes of `code` with the default syntax named `syntax`
/// (plain text when `None`) and the default theme named `theme`; `None` when
/// the syntax or the theme is not found or highlighting fails.
pub uninterp spec fn highlighted_html_of(code: Seq<char>, syntax: Option<Seq<char>>, theme: Seq<char>) -> Option<Seq<char>>;

/// Loads `syntect`'s default syntax set (`SyntaxSet::load_defaults_newlines`)
/// and calls `SyntaxSet::find_syntax_by_token`, giving the found syntax's
/// name. The result is named `token_syntax_of`.
#[verifier::external_body]
fn syntax_for_token(token: &str) -> (r: Option<String>)
    ensures
        opt_string(r) == token_syntax_of(token@),
{
    let ss = syntect::parsing::SyntaxSet::load_defaults_newlines();
    ss.find_syntax_by_token(token).map(|s| s.name.clone())
}

/// Loads `syntect`'s default syntax set and calls
/// `SyntaxSet::find_syntax_by_first_line`, giving the found syntax's name.
/// The result is named `first_line_syntax_of`.
#[verifier::external_body]
fn syntax_for_first_line(code: &str) -> (r: Option<String>)
    ensures
        opt_string(r) == first_line_syntax_of(code@),
{
    let ss = syntect::parsing::SyntaxSet::load_defaults_newlines();
    ss.find_syntax_by_first_line(code).map(|s| s.name.clone())
}

/// Loads `syntect`'s default syntax set and themes, takes the syntax named
/// `syntax` (`find_syntax_by_name`; `find_syntax_plain_text` for `None`) and
/// the theme named `theme`, and calls
/// `syntect::html::highlighted_html_for_string`; `None` when a lookup finds
/// nothing or highlighting fails. The result is named `highlighted_html_of`.
#[verifier::external_body]
fn highlight_with_syntax(code: &str, syntax: Option<&str>, theme: &str) -> (r: Option<String>)
    ensures
        opt_string(r) == highlighted_html_of(code@, opt_str(syntax), theme@),
{
    let ss = syntect::parsing::SyntaxSet::load_defaults_newlines();
    let themes = syntect::highlighting::ThemeSet::load_defaults();
    let found = match syntax {
        Some(name) => ss.find_syntax_by_name(name),
        None => Some(ss.find_syntax_plain_text()),
    };
    let (Some(found), Some(theme)) = (found, themes.themes.get(theme)) else { return None };
    syntect::html::highlighted_html_for_string(code, &ss, found, theme).ok()
}

pub open spec fn opt_string(o: Option<String>) -> Option<Seq<char>> {
    match o {
        Some(s) => Some(s@),
        None => None,
    }
}

pub open spec fn opt_str(o: Option<&str>) -> Option<Seq<char>> {
    match o {
        Some(s) => Some(s@),
        None => None,
    }
}

/// `s` without the newlines at its ends (`trim_matches('\n')`).
pub open spec fn trim_newlines(s: Seq<char>) -> Seq<char> {
    crate::markdown::trim_matches(s, '\n')
}

/// The token the language of a code block names.
pub open spec fn code_token(language: Option<Seq<char>>) -> Option<Seq<char>> {
    match language {
        Some(l) => language_token(l),
        None => None,
    }
}

/// The syntax code is highlighted with: the one the token names, else the
/// one its first line suggests, else (`None`) plain text.
pub open spec fn chosen_syntax(code: Seq<char>, token: Option<Seq<char>>) -> Option<Seq<char>> {
    match token {
        Some(t) => match token_syntax_of(t) {
            Some(name) => Some(name),
            None => first_line_syntax_of(code),
        },
        None => first_line_syntax_of(code),
    }
}

/// Highlighted code, or the escaped code in `<pre><code>` when highlighting fails.
pub open spec fn code_html(code: Seq<char>, language: Option<Seq<char>>) -> Seq<char> {
    match highlighted_html_of(code, chosen_syntax(code, code_token(language)), CODE_THEME@) {
        Some(h) => h,
        None => "<pre><code>"@ + escape_html(trim_newlines(code)) + "</code></pre>"@,
    }
}

/// The syntax to highlight `code` with, as `chosen_syntax` says.
fn pick_syntax(code: &str, token: Option<&str>) -> (r: Option<String>)
    ensures
        opt_string(r) == chosen_syntax(code@, opt_str(token)),
{
    match token {
        Some(t) => match syntax_for_token(t) {
            Some(name) => Some(name),
            None => syntax_for_first_line(code),
        },
        None => syntax_for_first_line(code),
    }
}

/// Highlights a code block.
pub fn highlight_code_html(code: &str, language: Option<&str>) -> (r: String)
    ensures
        r@ == code_html(code@, opt_str(language)),
{
    let token = match language {
        Some(l) => normalized_language_token(l),
        None => None,
    };
    let syntax = match &token {
        Some(t) => pick_syntax(code, Some(t.as_str())),
        None => pick_syntax(code, None),
    };
    let h = match &syntax {
        Some(n) => highlight_with_syntax(code, Some(n.as_str()), CODE_THEME),
        None => highlight_with_syntax(code, None, CODE_THEME),
    };
    match h {
        Some(s) => s,
        None => {
            let v = chars_of(code);
            let t = crate::markdown::trim_matches_chars(v.as_slice(), '\n');
            let ts = string_from_chars(t.as_slice());
            let mut s = String::from_str("<pre><code>");
            append_escaped(&mut s, &ts);
            s.append("</code></pre>");
            s
        },
    }
}

/// The label of a code block: its language trimmed, or `code`.
pub open spec fn code_label(language: Option<Seq<char>>) -> Seq<char> {
    match language {
        Some(l) => if trim(l).len() > 0 {
            trim(l)
        } else {
            "code"@
        },
        None => "code"@,
    }
}

/// The block of a code paragraph.
pub open spec fn code_block(p: ParagraphView, language: Option<Seq<char>>) -> Seq<char> {
    "<figure class=\"code-block\" id=\""@ + p.id + "\">\n  <figcaption class=\"code-block-label\">"@
        + escape_html(code_label(language)) + "</figcaption>\n  <div class=\"code-block-html\">"@
        + code_html(p.text, language) + "</div>\n</figure>\n"@
}

/// Renders a code paragraph with its label and highlighted code.
pub fn render_code_block(para: &Paragraph, language: Option<&str>) -> (r: String)
    ensures
        r@ == code_block(para@, opt_str(language)),
{
    let label = match language {
        Some(l) => {
            let v = chars_of(l);
            let t = trim_chars(v.as_slice());
            if t.len() > 0 {
                string_from_chars(t.as_slice())
            } else {
                String::from_str("code")
            }
        },
        None => String::from_str("code"),
    };
    let highlighted = highlight_code_html(para.text.as_str(), language);
    let mut s = String::from_str("<figure class=\"code-block\" id=\"");
    s.append(para.id.as_str());
    s.append("\">\n  <figcaption class=\"code-block-label\">");
    append_escaped(&mut s, &label);
    s.append("</figcaption>\n  <div class=\"code-block-html\">");
    s.append(highlighted.as_str());
    s.append("</div>\n</figure>\n");
    s
}

/// The block of any paragraph: prose as a pending block, code as a figure.
pub open spec fn chapter_block(p: ParagraphView) -> Seq<char> {
    match p.kind {
        KindView::Text => para_block(p, None),
        KindView::CodeBlock(language) => code_block(p, language),
    }
}

fn render_chapter_block(para: &Paragraph) -> (r: String)
    ensures
        r@ == chapter_block(para@),
{
    match &para.kind {
        ParagraphKind::Text => render_para_block(para, None),
        ParagraphKind::CodeBlock { language } => match language {
            Some(l) => render_code_block(para, Some(l.as_str())),
            None => render_code_block(para, None),
        },
    }
}

// ───────────────────────── the table of contents ─────────────────────────

/// A chapter's title, or `Chapter N` counting from one.
pub open spec fn chapter_label(c: ChapterView) -> Seq<char> {
    match c.title {
        Some(t) => t,
        None => "Chapter "@ + decimal(c.index + 1),
    }
}

/// `ch{index:03}`, the anchor of a chapter.
pub open spec fn chapter_anchor(index: nat) -> Seq<char> {
    seq!['c', 'h'] + padded_decimal(index, 3)
}

/// The number of prose paragraphs.
pub open spec fn translatable_count(ps: Seq<ParagraphView>) -> nat
    decreases ps.len(),
{
    if ps.len() == 0 {
        0
    } else {
        translatable_count(ps.drop_last()) + if ps.last().kind is Text {
            1nat
        } else {
            0nat
        }
    }
}

pub open spec fn toc_entry(c: ChapterView) -> Seq<char> {
    "<a class=\"toc-link\" href=\"#"@ + chapter_anchor(c.index) + "\" data-chapter-id=\""@
        + chapter_anchor(c.index) + "\"><span class=\"toc-link-index\">"@ + padded_decimal(
        c.index + 1,
        2,
    ) + "</span><span class=\"toc-link-title\">"@ + escape_html(chapter_label(c))
        + "</span><span class=\"toc-link-meta\">"@ + decimal(translatable_count(c.paragraphs))
        + " p</span></a>"@
}

pub open spec fn toc_entries(cs: Seq<ChapterView>) -> Seq<char>
    decreases cs.len(),
{
    if cs.len() == 0 {
        Seq::empty()
    } else {
        toc_entries(cs.drop_last()) + toc_entry(cs.last())
    }
}

/// The chapter navigation: one link per chapter with its paragraph count.
pub open spec fn toc_html(cs: Seq<ChapterView>) -> Seq<char> {
    "<nav class=\"toc-nav\" aria-label=\"Chapter navigation\">"@ + toc_entries(cs) + "</nav>"@
}

/// Chapter indices leave room to count from one.
pub open spec fn indices_fit(cs: Seq<ChapterView>) -> bool {
    forall|i: int| 0 <= i < cs.len() ==> #[trigger] cs[i].index < usize::MAX
}

fn count_translatable(ps: &Vec<Paragraph>) -> (r: usize)
    ensures
        r == translatable_count(crate::types::paragraphs_view(ps@)),
{
    let ghost pv = crate::types::paragraphs_view(ps@);
    let mut n: usize = 0;
    let mut i: usize = 0;
    while i < ps.len()
        invariant
            i <= ps.len(),
            pv == crate::types::paragraphs_view(ps@),
            n == translatable_count(pv.take(i as int)),
            n <= i,
        decreases ps.len() - i,
    {
        assert(pv.take(i + 1).drop_last() =~= pv.take(i as int));
        assert(pv.take(i + 1).last() == ps@[i as int]@);
        if ps[i].is_translatable() {
            n = n + 1;
        }
        i = i + 1;
    }
    assert(pv.take(ps.len() as int) =~= pv);
    n
}

fn push_chapter_label(s: &mut String, c: &Chapter)
    requires
        c.index < usize::MAX,
    ensures
        final(s)@ == old(s)@ + escape_html(chapter_label(c@)),
{
    match &c.title {
        Some(t) => append_escaped(s, t),
        None => {
            let mut label = String::from_str("Chapter ");
            push_padded_decimal(&mut label, c.index + 1, 0);
            append_escaped(s, &label);
        },
    }
}

fn render_toc_entry(c: &Chapter) -> (r: String)
    requires
        c.index < usize::MAX,
    ensures
        r@ == toc_entry(c@),
{
    let mut s = String::from_str("<a class=\"toc-link\" href=\"#");
    push_char_h(&mut s);
    push_padded_decimal(&mut s, c.index, 3);
    s.append("\" data-chapter-id=\"");
    push_char_h(&mut s);
    push_padded_decimal(&mut s, c.index, 3);
    s.append("\"><span class=\"toc-link-index\">");
    push_padded_decimal(&mut s, c.index + 1, 2);
    s.append("</span><span class=\"toc-link-title\">");
    push_chapter_label(&mut s, c);
    s.append("</span><span class=\"toc-link-meta\">");
    let n = count_translatable(&c.paragraphs);
    push_padded_decimal(&mut s, n, 0);
    s.append(" p</span></a>");
    s
}

fn push_char_h(s: &mut String)
    ensures
        final(s)@ == old(s)@ + seq!['c', 'h'],
{
    crate::text::push_char(s, 'c');
    crate::text::push_char(s, 'h');
    assert(s@ =~= old(s)@ + seq!['c', 'h']);
}

/// The chapter navigation of a book.
pub fn render_toc(book: &Book) -> (r: String)
    requires
        indices_fit(book@.chapters),
    ensures
        r@ == toc_html(book@.chapters),
{
    let ghost cv = book@.chapters;
    let mut s = String::from_str("<nav class=\"toc-nav\" aria-label=\"Chapter navigation\">");
    let ghost head = s@;
    let mut i: usize = 0;
    while i < book.chapters.len()
        invariant
            i <= book.chapters.len(),
            cv == book@.chapters,
            indices_fit(cv),
            s@ == head + toc_entries(cv.take(i as int)),
        decreases book.chapters.len() - i,
    {
        assert(cv.take(i + 1).drop_last() =~= cv.take(i as int));
        assert(cv.take(i + 1).last() == book.chapters@[i as int]@);
        assert(cv[i as int].index < usize::MAX);
        let e = render_toc_entry(&book.chapters[i]);
        s.append(e.as_str());
        assert(s@ =~= head + toc_entries(cv.take(i + 1)));
        i = i + 1;
    }
    assert(cv.take(book.chapters.len() as int) =~= cv);
    s.append("</nav>");
    s
}

// ───────────────────────── the page ─────────────────────────

pub open spec fn blocks_html(ps: Seq<ParagraphView>) -> Seq<char>
    decreases ps.len(),
{
    if ps.len() == 0 {
        Seq::empty()
    } else {
        blocks_html(ps.drop_last()) + chapter_block(ps.last())
    }
}

/// A chapter's section: its heading and the blocks of its paragraphs.
pub open spec fn section_html(c: ChapterView) -> Seq<char> {
    "<section class=\"chapter\" id=\"ch"@ + padded_decimal(c.index, 3) + "\">\n"@
        + "  <h2 class=\"chapter-title\">"@ + escape_html(chapter_label(c)) + "</h2>\n"@
        + blocks_html(c.paragraphs) + "</section>\n"@
}

pub open spec fn body_html(cs: Seq<ChapterView>) -> Seq<char>
    decreases cs.len(),
{
    if cs.len() == 0 {
        Seq::empty()
    } else {
        body_html(cs.drop_last()) + section_html(cs.last())
    }
}

pub open spec fn title_placeholder() -> Seq<char> {
    seq!['{', '{', 'T', 'I', 'T', 'L', 'E', '}', '}']
}

pub open spec fn slug_placeholder() -> Seq<char> {
    seq!['{', '{', 'S', 'L', 'U', 'G', '}', '}']
}

pub open spec fn toc_placeholder() -> Seq<char> {
    seq!['{', '{', 'T', 'O', 'C', '}', '}']
}

pub open spec fn body_placeholder() -> Seq<char> {
    seq!['{', '{', 'B', 'O', 'D', 'Y', '}', '}']
}

/// The page of a book: the template with the escaped title, the slug, the
/// navigation and the chapter sections put in for their placeholders, one
/// after the other.
pub open spec fn page_html(b: BookView) -> Seq<char> {
    let t1 = replace_all(html_template(), title_placeholder(), escape_html(b.title));
    let t2 = replace_all(t1, slug_placeholder(), b.slug);
    let t3 = replace_all(t2, toc_placeholder(), toc_html(b.chapters));
    replace_all(t3, body_placeholder(), body_html(b.chapters))
}

fn render_section(c: &Chapter) -> (r: String)
    requires
        c.index < usize::MAX,
    ensures
        r@ == section_html(c@),
{
    let ghost pv = c@.paragraphs;
    let mut s = String::from_str("<section class=\"chapter\" id=\"ch");
    push_padded_decimal(&mut s, c.index, 3);
    s.append("\">\n");
    s.append("  <h2 class=\"chapter-title\">");
    push_chapter_label(&mut s, c);
    s.append("</h2>\n");
    let ghost head = s@;
    let mut i: usize = 0;
    while i < c.paragraphs.len()
        invariant
            i <= c.paragraphs.len(),
            pv == c@.paragraphs,
            s@ == head + blocks_html(pv.take(i as int)),
        decreases c.paragraphs.len() - i,
    {
        assert(pv.take(i + 1).drop_last() =~= pv.take(i as int));
        assert(pv.take(i + 1).last() == c.paragraphs@[i as int]@);
        let b = render_chapter_block(&c.paragraphs[i]);
        s.append(b.as_str());
        assert(s@ =~= head + blocks_html(pv.take(i + 1)));
        i = i + 1;
    }
    assert(pv.take(c.paragraphs.len() as int) =~= pv);
    s.append("</section>\n");
    s
}

fn render_body(book: &Book) -> (r: String)
    requires
        indices_fit(book@.chapters),
    ensures
        r@ == body_html(book@.chapters),
{
    let ghost cv = book@.chapters;
    let mut s = String::new();
    let mut i: usize = 0;
    while i < book.chapters.len()
        invariant
            i <= book.chapters.len(),
            cv == book@.chapters,
            indices_fit(cv),
            s@ == body_html(cv.take(i as int)),
        decreases book.chapters.len() - i,
    {
        assert(cv.take(i + 1).drop_last() =~= cv.take(i as int));
        assert(cv.take(i + 1).last() == book.chapters@[i as int]@);
        assert(cv[i as int].index < usize::MAX);
        let sec = render_section(&book.chapters[i]);
        s.append(sec.as_str());
        i = i + 1;
    }
    assert(cv.take(book.chapters.len() as int) =~= cv);
    s
}

/// The full reading page of a book, every prose paragraph pending.
pub fn generate_html(book: &Book) -> (r: String)
    requires
        indices_fit(book@.chapters),
    ensures
        r@ == page_html(book@),
{
    let toc = render_toc(book);
    let body = render_body(book);
    let title = encode_text(book.title.as_str());
    let template_s = template_text();
    let template = chars_of(template_s.as_str());
    let title_v = chars_of(title.as_str());
    let slug_v = chars_of(book.slug.as_str());
    let toc_v = chars_of(toc.as_str());
    let body_v = chars_of(body.as_str());
    let p1 = vec!['{', '{', 'T', 'I', 'T', 'L', 'E', '}', '}'];
    let p2 = vec!['{', '{', 'S', 'L', 'U', 'G', '}', '}'];
    let p3 = vec!['{', '{', 'T', 'O', 'C', '}', '}'];
    let p4 = vec!['{', '{', 'B', 'O', 'D', 'Y', '}', '}'];
    assert(p1@ =~= title_placeholder());
    assert(p2@ =~= slug_placeholder());
    assert(p3@ =~= toc_placeholder());
    assert(p4@ =~= body_placeholder());
    let t1 = replace_all_chars(template.as_slice(), p1.as_slice(), title_v.as_slice());
    let t2 = replace_all_chars(t1.as_slice(), p2.as_slice(), slug_v.as_slice());
    let t3 = replace_all_chars(t2.as_slice(), p3.as_slice(), toc_v.as_slice());
    let t4 = replace_all_chars(t3.as_slice(), p4.as_slice(), body_v.as_slice());
    string_from_chars(t4.as_slice())
}

// ───────────────────────── patching ─────────────────────────

pub open spec fn div_open() -> Seq<char> {
    seq!['<', 'd', 'i', 'v']
}

pub open spec fn div_close() -> Seq<char> {
    seq!['<', '/', 'd', 'i', 'v', '>']
}

/// `<div class="para-block" id="{id}"`, how the opening tag of a
/// paragraph's block begins.
pub open spec fn block_marker(id: Seq<char>) -> Seq<char> {
    "<div class=\"para-block\" id=\""@ + id + seq!['"']
}

/// Scanning `s` from `i` with `depth` open `<div`s: the index just past the
/// `</div>` that closes the outermost one.
pub open spec fn close_of(s: Seq<char>, i: int, depth: nat) -> Option<int>
    decreases s.len() - i,
{
    if i < 0 || i >= s.len() {
        None
    } else if matches_at(s, div_open(), i) {
        close_of(s, i + 4, depth + 1)
    } else if matches_at(s, div_close(), i) {
        if depth == 1 {
            Some(i + 6)
        } else {
            close_of(s, i + 6, (depth - 1) as nat)
        }
    } else {
        close_of(s, i + 1, depth)
    }
}

/// The page with the block of paragraph `p` replaced by its annotated
/// block: the block starts at the first `<div class="para-block" id="{id}"`
/// and ends at the `</div>` that closes it. A code paragraph, a missing
/// block or an unclosed block leave the page as it is.
pub open spec fn patched(html: Seq<char>, p: ParagraphView, resp: ResponseView) -> Seq<char> {
    if !(p.kind is Text) {
        html
    } else {
        match find(html, block_marker(p.id)) {
            None => html,
            Some(start) => match close_of(html, start, 0) {
                None => html,
                Some(end) => html.take(start) + para_block(p, Some(resp)) + html.skip(end),
            },
        }
    }
}

fn close_of_chars(s: &[char], start: usize) -> (r: Option<usize>)
    requires
        matches_at(s@, div_open(), start as int),
    ensures
        match r {
            Some(e) => close_of(s@, start as int, 0) == Some(e as int),
            None => close_of(s@, start as int, 0) is None,
        },
        r matches Some(e) ==> start < e <= s.len(),
{
    let open = vec!['<', 'd', 'i', 'v'];
    let close = vec!['<', '/', 'd', 'i', 'v', '>'];
    assert(open@ =~= div_open());
    assert(close@ =~= div_close());
    let mut depth: usize = 0;
    let mut i = start;
    while i < s.len()
        invariant
            start <= i,
            open@ == div_open(),
            close@ == div_close(),
            depth <= i - start,
            (i == start && depth == 0) || depth >= 1,
            i == start ==> matches_at(s@, div_open(), i as int),
            close_of(s@, start as int, 0) == close_of(s@, i as int, depth as nat),
        decreases s.len() - i,
    {
        if matches_at_chars(s, open.as_slice(), i) {
            depth = depth + 1;
            i = i + 4;
        } else if matches_at_chars(s, close.as_slice(), i) {
            if depth == 1 {
                return Some(i + 6);
            }
            depth = depth - 1;
            i = i + 6;
        } else {
            i = i + 1;
        }
    }
    None
}

/// Replaces the block of `para` in `html` by its annotated block.
pub fn patch_html(html: &str, para: &Paragraph, resp: &LlmResponse) -> (r: String)
    ensures
        r@ == patched(html@, para@, resp@),
{
    if !para.is_translatable() {
        return String::from_str(html);
    }
    let h = chars_of(html);
    let mut marker = chars_of("<div class=\"para-block\" id=\"");
    let idv = chars_of(para.id.as_str());
    let mut k: usize = 0;
    let ghost m0 = marker@;
    while k < idv.len()
        invariant
            k <= idv.len(),
            marker@ == m0 + idv@.take(k as int),
        decreases idv.len() - k,
    {
        marker.push(idv[k]);
        assert(idv@.take(k + 1) =~= idv@.take(k as int).push(idv@[k as int]));
        assert(marker@ =~= m0 + idv@.take(k + 1));
        k = k + 1;
    }
    marker.push('"');
    assert(idv@.take(idv.len() as int) =~= idv@);
    assert(marker@ =~= block_marker(para@.id));
    let found = find_chars(h.as_slice(), marker.as_slice());
    proof {
        crate::search::lemma_find_from_bounds(h@, marker@, 0);
    }
    let start = match found {
        Some(p) => p,
        None => return String::from_str(html),
    };
    proof {
        reveal_strlit("<div class=\"para-block\" id=\"");
        assert forall|j: int| 0 <= j < 4 implies h@[start + j] == div_open()[j] by {
            assert(h@.subrange(start as int, start + marker@.len())[j] == marker@[j]);
        }
        assert(h@.subrange(start as int, start + 4) =~= div_open());
    }
    assert(find(html@, block_marker(para@.id)) == Some(start as int));
    let end = match close_of_chars(h.as_slice(), start) {
        Some(e) => e,
        None => {
            assert(close_of(html@, start as int, 0) is None);
            return String::from_str(html);
        },
    };
    let block = render_para_block(para, Some(resp));
    let before = slice_chars(h.as_slice(), 0, start);
    let after = slice_chars(h.as_slice(), end, h.len());
    assert(before@ =~= h@.take(start as int));
    assert(after@ =~= h@.skip(end as int));
    let mut s = string_from_chars(before.as_slice());
    s.append(block.as_str());
    push_chars(&mut s, after.as_slice());
    assert(s@ == h@.take(start as int) + para_block(para@, Some(resp@)) + h@.skip(end as int));
    s
}

} // verus!
