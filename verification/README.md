# appdata_browser

A browser tool for viewing, downloading and deleting the revisions of files
in Google Drive's hidden `appDataFolder`.

- `src/` is the library, verified with Verus: the Drive v3 URLs
  (`urls`), the JSON values Drive answers with (`json`), Drive entities,
  errors and response checks (`drive`), the paginated listing with its page
  limit (`listing`), the sign-in session transitions (`session`), quick
  sign-in presets (`presets`), size display (`size`), download naming and
  `data:` URLs (`download`), input trimming (`text`) and decimal numbers
  (`decimal`).
- `app/` is the Dioxus web page around it: the requests (gloo-net), Google
  Identity Services, the DOM and localStorage, and the rendering.
- `tests/` exercises the library with the real outside crates.
