# genealogy

The logic of a blog tool that reads posts (articles, talks and videos) from
markdown files with a front matter, and recommends posts to the readers of
other posts. It is written in Verus: each function of the library carries a
contract, and Verus proves that the code meets it.

- `src/` is the verified library. `article` and `try_iterator` read articles
  line by line through fallible iterators; `post` reads articles, talks and
  videos from the lines of their files; `recommendation` turns scored
  relations between posts into recommendations; `text`, `pattern` and `date`
  hold the text, regular-expression and date helpers they share.
- `tests/` runs the library on concrete inputs.
- `app/` holds what touches the outside world: reading files, the process
  identifier, and floating-point weights of relation types.

The `regex` and `chrono` crates do the pattern replacement and the date
parsing; the library calls them through a few trusted functions whose
contracts state what their documentation promises.
