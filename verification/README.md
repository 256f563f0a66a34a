# dear_file_manager

A two-pane file manager. The library in `src/` holds its logic, verified
with Verus:

- `text`: decimal rendering, character sequences, lexicographic order, path
  joining, and the root test (by path components).
- `paths`: a path's components and the path each path-bar button opens.
- `files`: directory records, which entries a listing shows, and their layout (go-back record, then folders,
  then files, each stably sorted by name, size or modification time).
- `state`: the two panes (listing, ordering, selection, pointer) and the focus.
- `message`, `update`: the events and the application's reaction to each,
  including when the state is saved.
- `table`: what the listing tables show, and the demonstration table's rows.
- `frames`: the frame-rate counter.
- `laws`: properties that span several operations.

`app/` is the iced program around it: the window, keyboard and window
events, the marker widget above the panes, logging, directory reading, saving and loading the state as JSON, and opening
files with the system.
