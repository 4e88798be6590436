# zine

The verified core of Zine, a tool that builds a magazine into a static web
site, with the command line program around it.

- `src/` is the library, written and proved with Verus: the entities of a
  magazine (site, theme, authors, topics, issues, articles, pages) and what
  is derived from them (sitemap, feed, author and topic pages, home page,
  table of contents), the inline code and code blocks of the markdown, the
  rewriting of root urls to the site or CDN url, the shared data of a build,
  and the decisions of the commands.
- Markdown is turned into HTML by genkit's renderer, which `app/` drives;
  the library holds what is decided along the way (code blocks, inline
  code, headings, the table of contents), and the template context, a map
  of values kept in ascending key order.
- Pages are rewritten by `lol_html` from the library, one pass per kind of
  url attribute; each pass changes one attribute of its own elements, so
  the passes do not see each other's work.
- The description of a page comes from its markdown with the markup taken
  out by the `strip_markdown` crate, called from the library behind a
  trusted wrapper.
- `tests/` runs the library on concrete magazines.
- `app/` is the program: reading the configuration files (serde, TOML),
  templates (minijinja through genkit), reading and writing the pages, the
  link check (hyper) and the `new` command.
