# gh_pr_tui

A terminal overview of the open pull requests of a list of GitHub
repositories.

- `src/` is the verified library: normalisation of repository addresses
  (`repo`), the sorted repository list (`config`), the key table (`event`),
  the answer to GitHub's GraphQL query and the overview rows (`github`), the
  screen state and how each action changes it (`state`), and the text of the
  tables and the placement of popups (`ui`). `text` holds the character-level
  helpers.
- `app/` is the program around it: the terminal, the configuration file, the
  environment, the HTTP client and the drawing.
- `tests/` runs the library on concrete values.
