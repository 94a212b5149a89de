# hks-shell

An app launcher for Wayland compositors with a layer shell: a floating glass
panel with a search bar, fuzzy search over the installed applications, keyboard
navigation and dragging with the pointer.

What the launcher decides is a library that is verified with
[Verus](https://github.com/verus-lang/verus); what it takes to run it on a
desktop is ordinary Rust around that library.

```
src/            the library: verified, but for the wrappers of outside calls
  app/          the launcher as a state machine: keys, pointer, compositor
    drag.rs     dragging the panel
    laws.rs     what holds of the launcher as a whole
  search/       providers, desktop entries, fuzzy matching, ranking
  renderer/     what a frame shows: texts, colours, positions, icons
  single.rs     whole numbers in single precision
  text.rs       strings as sequences of characters
tests/          the library at work on concrete values
app/            Wayland, GPU, files and processes
```

The library takes events and returns what is to be done about them. `app/`
performs it: it draws with wgpu and glyphon, asks the compositor for size and
position, reads `.desktop` and icon files, and starts programs. The font and the
shader are read from `assets/` at the start.

Contracts are stated over views: mathematical values that hold what a type
holds. A public proof function whose name starts with `law_` states something
that relates several functions. Functions marked `external_body` wrap a call
into another crate; the comment above each says what is taken for granted.
