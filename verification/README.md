# Surge

A segmented HTTP downloader whose decisions are proved correct with
[Verus](https://github.com/verus-lang/verus).

- `src/` is the library. It decides what to fetch and in which pieces, how a worker
  reacts to each reply, how many workers there are, which headers and command lines are
  used, and whether a finished file has the digests that were asked for. Every function
  states what it does in its contract; the properties that span several functions are
  public proof functions next to them.
- `app/` is the program around it: the command line, requests, files and tasks.
- `tests/` runs the library.

What the library takes from other crates (URLs, headers, digests, quotas) stands behind
small functions marked `external_body`. Their contracts are not proved here; the comment
above each says what it claims of which outside function.

| Module | Content |
| --- | --- |
| `text` | trimming, searching, splitting and numbers |
| `rate` | bandwidth limits such as `500K` or `10M` |
| `headers` | the headers of every request |
| `downloader` | setting up a download, and the command lines of helper programs |
| `run` | the course of a download |
| `probe` | the size of a target, and whether it can be cut up |
| `chunk` | the pieces of a target, and their queue |
| `fetch` | one worker fetching one piece |
| `request` | the requests of the workers |
| `transfer` | what the workers make of the file |
| `pool` | how many workers there are, and which are done |
| `integrity` | the digests of a finished file |
| `batch` | the list of addresses |
