# GTAV texture importer

The core of a desktop program that replaces textures and texts in the asset files of a game
(`.ydr`, `.yft`, `.ytd` and `.rpf`) under Linux, prepares a Wine prefix and starts the game in it.
What the library decides and computes is stated in contracts and proved with Verus. The window, the
reading and writing of files, the running of programs, and the floating-point scale and mixing of
images stand outside of it.

## Layout

- `src/`: the verified library.
  - `text`, `paths`, `order`: texts as sequences of characters, paths by their bytes, a stable sort.
  - `config`, `filesystem`, `setup`, `launcher`, `operations`, `programs`, `codewalker`: settings,
    folders that are switched on and off, the setup wizard, and the steps by which Wine is prepared,
    tools are fetched and built, and the game is started. Steps that have to be performed outside are handed
    out one at a time, and the reply is handed back.
  - `textures`, `nesting`, `archive`, `assets`, `outputs`, `hashes`, `helper`, `workspace`, `drafts`,
    `saving`: what the helper program exports and builds, how deep its texts may be nested, and how
    a file is saved, with a backup where one is wanted.
  - `sections`, `layout_laws`, `compose`: the sections of a texture, how they share its area, and
    the image that they make.
  - `app`, `browse`, `staging`, `queue`, `jobs`, `listing`, `views`, `preview`: the state of the
    program, what the user does to it, what background jobs bring, and what the window shows.
- `tests/`: tests of the library on concrete values.
- `app/`: the GTK window, file and process I/O, and the serde copies of the stored records.

## What is trusted

The contracts of `std::path`, of `String::push`, of the functions of the crate `image` that fill,
cover, cut and resize an image, and of the parser of the crate `roxmltree`. Each stands beside a
doc comment that says what is claimed. Resampled pixels are computed in floating point, and nothing
is claimed of them.
