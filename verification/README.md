# pinpoint

The presentation logic of Pinpoint, a presentation tool for plain-text
slide decks, as a library verified with Verus, and a small program around it.

`src/` holds the verified library. Each public function states what it
returns in its `ensures`, over spec functions on sequences and integers, and
Verus proves the code against it. The modules:

- `cli`, `cli_laws`, `modes`: the command line and its laws, the mode a run
  takes, its texts.
- `deck`, `transition`, `navigation`: slides, their transitions and how the
  stage moves between them.
- `stage`, `working_set`, `problems`, `accessibility`: camera status,
  page-curl texture caching and prewarming, asset prefetching, the asset
  problem summary and what assistive technology is told.
- `asset_store`, `texture_cache`, `memory`: the image store's loader queue
  and byte budget, and the budget taken from the machine's memory.
- `svg`, `pdf`, `export`, `check`, `pixels`: SVG preflight, PDF export
  helpers and the export run's caches, the presentation check's messages,
  and pixel checks of rendered slides.
- `page_curl`, `curl_textures`: the page-curl mesh density, triangle order and
  GPU texture slots.
- `speaker`, `keys`, `mpris`, `camera`, `media`, `lifecycle`,
  `command_runner`, `setup`, `editor`, `paths`, `menu`, `renderer_policy`: speaker view
  displays and clock, key bindings, remote control, the camera portal,
  video playback, live reload, slide commands, the setup window, the
  composition editor's status and reload rules, path text,
  the application menu and a renderer workaround.
- `text`: character-level helpers (decimal numbers, trimming, comparing).

Laws that span several functions are public proof functions named `law_*`.

`tests/` runs the library on concrete values. `app/` holds the command-line
entry point and the adapters that read the machine (files, environment,
folders) and do the floating-point geometry. It does not present, export,
check or assist with presentations: those need the presentation parser of
`pinpoint_core`, which this project does not include, and the GTK user
interface is not part of it. The adapters are there for that interface and
are not called yet.
