# morpho-engine

The conversion engine of Morpho ("everything converts, locally"): a format
matrix of image, video, audio, text, document, sheet, slide and PDF formats, the router that turns a (source, target) pair into a
chain of pipeline steps, the command lines of the bundled engines (ffmpeg,
LibreOffice, poppler, pandoc, tesseract, qpdf), job bookkeeping (output
names, temp stages, first pages), the conversion history, and the text rules
of the PDF -> Word re-flow. All of it is written in Verus and proved against
its contracts.

Layout:

- `src/` — the verified library. `format` and `route` hold the matrix and
  the router with their laws (no identity route, HEIC is never written,
  audio stays audio, every plan ends at its target, ...); `av`, `docs`,
  `ocr`, `office`, `pdfs` build the engines' arguments; `queue` decides what
  each job step runs and where it writes; `engines` locates the tools;
  `history` and `clock` keep the history list and its timestamps; `image`
  and `codec` hold the native image conversion (decoding and encoding
  through the `image` crate); `pdfword` reads pdftohtml's XML into a
  document model and holds the text rules of the PDF -> Word re-flow;
  `paths` and `text` are the string and path helpers.
- `tests/` — tests run against the compiled library.
- `app/` — the `morpho` command line: argument parsing, running the engines
  as processes, the job queue with progress and cancellation, image
  decoding and encoding, the desktop shell's settings and history files,
  and the floating-point geometry of the PDF -> Word re-flow.
