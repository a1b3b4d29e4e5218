# Minecraft Mods, Easy

One-click installs of modded Minecraft: a profile brings a mod loader, mods, shaders and
resource packs into the game directory and adds an entry to the game's own launcher.

The rules of the program are a library, written in Verus, whose functions state what they
return and are proved to do so. The program around it moves files and talks to services.

## Layout

- `src/` is the library.
  - `profile`, `items`, `install`, `modpack`: what a profile holds, what is done about each
    item, in which order an installation goes, and what is reported.
  - `loader`, `loader_setup`, `neoforge`: which version of a mod loader is taken, and how it
    gets into place.
  - `cache`, `priming`, `web`, `modrinth`: how a file is brought to its place exactly once
    and checked, which files are taken into the cache, what comes back from a request, and
    which of the offered versions is taken.
  - `options`, `iris`, `launcher_profiles`, `backup`, `state`: the game's settings, the
    shader loader's, the launcher's, the backups of earlier mods, and the record of the last
    installation.
  - `updates`, `identify`, `server_pack`, `data`: updates of installed files, what a jar is,
    packs for servers, and where the catalogue of profiles comes from.
  - `java`, `places`, `processes`, `launch`: Java and its memory, directories, the processes
    of the game, and starting its launcher.
  - `text`, `lines`, `order`, `decimal`, `clock`, `json`: strings, lines, the order of names,
    numbers, the calendar and JSON.
- `tests/` runs the library on concrete values.
- `app/` is the desktop program: files, network, processes and the window.

Work that goes back and forth between decisions and the outside world is a function from
what is being done and what came of it to what to do next (`download_to_if_missing`,
`set_up_loader`, `install_neoforge`, `check_for_updates`, `apply_update`, `identify_jar`,
`download_server_pack`). The program carries out what it is told and reports back.

What is believed of other crates without proof is stated on small functions in `text`,
`json` and `cache`, each with a comment that says so: Unicode lower case, reading and writing
JSON and YAML, SHA-1 and hexadecimal digits.
