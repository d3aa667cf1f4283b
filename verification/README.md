# pier

A terminal browser for a Perforce workspace: the files of the workspace
with their Perforce status, the pending changelist, the latest submitted
changelists, the detail of the file under the cursor, a command log, and
overlays to log in, submit, sync, and look at `p4 info` and the roots. A
directory of the workspace can be made the virtual root, which narrows
syncs to it.

## Layout

- `src/` is the library, verified with Verus. It holds everything the
  program decides:
  - `text`: the splitting, trimming and matching the parsers are made of;
  - `changelist`, `info`, `detail`, `status`, `sync`: readers of the output
    of `p4 changes`, `p4 describe`, `p4 info`, `p4 fstat`, `p4 sizes`,
    `p4 opened`, `p4 where` and `p4 -ztag sync -n`;
  - `filetree`: the two-column file browser and its listing order;
  - `state`: the browser's state and every change made to it;
  - `keys`: which command a key press stands for, and the changes it makes;
  - `view`: the text of each panel, laid out to the terminal's width;
  - `theme`: colors written as hex codes, and the icons;
  - `laws`: properties that hold across the operations.
- `app/` is the program around it: it runs `p4`, reads directories, keeps
  the caches (log, changelists, details) and the virtual roots as JSON, talks to the clipboard,
  and draws the screen with ratatui.
- `tests/` runs the library on concrete values.
