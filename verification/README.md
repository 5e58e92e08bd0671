# vibe-core

Vibe fetches wallpapers (Reddit, Unsplash, Google Earth View) and quotes (ZenQuotes or a
local file), writes the quote onto the wallpaper and sets it as the desktop background. A
background service does the work; a command-line client controls it over D-Bus.

- `src/` is the library, verified with Verus: the configuration and its rules, the choices
  each provider makes between its requests, the form encoding of a query, the word wrap of the quote, the fallback that
  sets the wallpaper through `gsettings`, and the decisions of the service (which providers a
  configuration asks for, pause/resume/reload, when a cycle runs, which quote it shows).
- `app/` is the program around it: HTTP, D-Bus, files, the XDG portal, image drawing.
- `tests/` runs the library on concrete values.
