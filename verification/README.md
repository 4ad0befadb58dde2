# verso_ui

The logic of a small Android front end for an ARM emulator, verified with Verus.

- `src/log_viewer.rs`: a log that keeps the newest `max_lines` lines.
- `src/file_browser.rs`: a directory list for picking game files (`.so`, `.apk`),
  its entries, and what a click on an entry does.
- `src/saf.rs`: the hand-over of a file chosen in the system file picker.
- `src/audio.rs`: which files of the sound folder are played (`.ogg`).
- `src/loader.rs`: whether an asset image goes to the emulator and whether it took it.
- `src/panel.rs`: the status text of the control panel and the touch button state.
- `src/text.rs`: prefix and suffix tests on text.

`app/` holds the Android shell: window, OpenGL ES, ImGui drawing, audio output,
file system and JNI calls. It hands plain values to the library and acts on what
comes back.
