# calc_client

A terminal client for a calculator server reached over a WebSocket. The
library in `src/` holds what the client decides and computes, verified with
Verus:

- `text`, `std_text`: the byte-level model of strings (UTF-8 offsets and
  character boundaries) and the std string operations the editor relies on;
- `editor`, `keys`: the prompt line with its byte cursor, the history, the
  help flag and the tick, and what each key press does to them;
- `history`, `numbers`: the history and the text shown for it;
- `reply`: how the server's answer is read;
- `screen`: the logo, the help window's place and the prompt split around
  its cursor;
- `laws`: how the editing operations undo one another.

`app/` is the program: the socket, the keyboard, the floating-point numbers
and the drawing of the screen with ratatui.
