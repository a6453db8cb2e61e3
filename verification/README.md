# entangle

A small command-line tool that wires up a git repository's `origin` remote so
that a single `git push` sends the code to both GitHub and Tangled:

```
entangle setup    # configure your usernames once
entangle init     # wire up remotes in this repository
entangle shove    # first-time push to both forges
```

## Layout

- `src/` is the library, written in Verus and verified. Contracts state what
  each function returns; where a result goes through an outside library or the
  operating system (the text of an I/O error, serde's typed decoding, JSON
  parsing and printing), the contract names that result and states what is
  done with it. The laws that tie the functions together are proved (`law_*`
  proof functions and `ensures` clauses), for example that adding push URLs to
  `origin` keeps every push URL git read before, that replacing origin's URL
  twice changes nothing more, or that a validated name validates to itself.
  - `validate` — sanitizing and validating usernames, handles and repository names
  - `urls` — the SSH URLs of both forges
  - `config`, `json` — the config model and what a config file's text means
  - `git` — section headers, rewriting the origin section, reading push URLs
  - `setup`, `set_command`, `init`, `shove` — the decisions of each command
  - `output` — message styles
  - `text` — the string operations everything above is built from
- `app/` is the front end: argument parsing (clap), prompts (dialoguer), the
  config file on disk (serde's typed decoding, dirs), git access (gix, the `git` binary) and
  atomic writes (tempfile). It performs what the library decides.
- `tests/` exercises the library on concrete values.
