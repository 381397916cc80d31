# desk_pet

The logic of a desktop pet, verified with Verus.

- `src/` is the verified library: which animation frames each animation
  plays (mode matching of asset directories, fallbacks, path ordering,
  random choice of a variant), how the configuration file's values are
  merged over the defaults and made sane, when a file-system event calls
  for reloading the configuration, the clickable region of the pet image,
  the window's left/top position, and the location of the save file.
- `app/` is the code around it: reading files and directories, the TOML
  configuration and save file, the file watcher, the GTK window glue, and
  the pet's stats, which are floating point.
- `tests/` exercises the library on concrete values.
