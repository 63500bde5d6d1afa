# mirrorstar-core

The core of a desktop wallpaper engine: settings and the wallpaper library, thumbnails,
layouts over several displays, windows behind the icons of the desktop, the volume of
processes, and the protocols of the processes that show wallpapers.

- `src/` is the library. Everything in it is verified with Verus. It touches neither files
  nor threads nor windows: it takes what the system said and says what to do next.
- `app/` does what the library says: it reads and writes files, runs threads and processes,
  and talks to Windows. Its Windows parts are compiled on Windows only.
- `tests/` runs the library on concrete values.
