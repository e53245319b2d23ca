# pdfix

pdfix batch-edits stroke widths in PDF files: every stroked path whose
device-space width is at or below a threshold is re-emitted with a new
width, on all pages, a page range, the current page, or the pages selected
by page rules such as `1, 3, >=10`.

`src/` is the verified library (Verus):

- `rules`: the page-rule grammar and matcher.
- `pages`: which pages get which replacement width.
- `stroke`: the substitute-or-keep decision for each stroke.
- `counters`: fill, stroke and substitution tallies.
- `rng`: the xorshift generator behind reproducible random colours.
- `path`, `naming`: path decomposition under Unix and Windows rules
  (drive, UNC, device and verbatim prefixes included) and the names of the
  files a conversion writes beside its input.
- `staging`: the staged in-place conversion as a state machine, with its
  roll-back guarantee.
- `report`: the conversion-log lines that hold no measurement.
- `settings`: the atomic write of the settings file and its error messages.
- `batch`, `shell`: progress reports, menu dispatch, window closing.
- `units`: the length units widths are given in.
- `text`: characters, white space and trimming.

`app/` is the Tauri application around it: commands, settings files, and
the MuPDF device that performs the rewriting.
