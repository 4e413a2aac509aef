# proton_drive

The decision logic of a desktop shell for Proton Drive, written and proved in Verus, and the shell
around it.

The shell shows the Drive and account apps in a web view. It decides where the web view may
navigate, passes API calls on to Proton, keeps what a sign-in needs while it goes through a
CAPTCHA, picks the folder that is kept in sync, saves downloads, and serves a few tools to
assistants over a local port.

## Layout

- `src/` is the library. Every decision is a function on plain values with a contract; laws that
  span several functions are the public proof functions whose names start with `law_`.
  - `navigation`, `proton_navigation`, `captcha`: where the web view goes, and how a sign-in ends.
  - `proxy`: which request goes to Proton, and what of the answer reaches the page.
  - `sync_root`, `sync_command`, `sync_file`, `device`: what is synced, who may ask, and under
    which name.
  - `mcp_server`, `json`: the requests of assistants and the tool calls that wait for the page; a
    module of its own holds the key of the chat assistant, its requests and its answers.
  - `downloads`, `workers`: where downloads go, and what pages may do with workers.
  - `web_url`, `percent`, `paths`, `path_text`, `text`, `trimming`, `letter_case`, `numeral`,
    `named_map`: the ground that the rest stands on.
- `tests/` runs the library.
- `app/` is the shell: windows, files, network.

## Build variables of the shell

- `DISTRO_TYPE`: the kind of package, which decides how web workers are handled.
- `ASSISTANT_NAME`, `ASSISTANT_MODEL`, `ASSISTANT_KEY_FILE`: the assistant that the shell talks to.
