# appimage_runtime

A type-2 AppImage runtime with a verified core.

- `src/` is the library, verified with Verus:
  - `args`: the `--appimage-*` option the runtime consumes, the action it
    selects, the extraction pattern, the help text and the runtime's paths;
  - `elf_size`: where the embedded squashfs image starts (the size of the
    ELF runtime in front of it);
  - `hash`: the content hash (seahash, base62) that names temporary
    directories, fed chunk by chunk as the image is read;
  - `dir_table`: the check that the image's directory listings can be
    walked without overflow;
  - `squashfs`: reading the image's nodes (paths as raw bytes) after that
    check, and listing them;
  - `extract`: planning the extraction of all nodes or those a glob selects;
  - `mount`: the squashfuse command line and the decisions while mounting;
  - `text` and `bytepath`: prefix tests, decimal text, and Unix path
    joining over text and over raw bytes.
- `app/` is the program: it reads the environment, files and pipes, runs
  squashfuse and the application, and does what the library decides.
- `tests/` exercises the library on concrete values.
