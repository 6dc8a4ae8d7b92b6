# Drawing Tablet

A touch screen as a drawing tablet: it shows the screen of a computer, and what
is drawn on it reaches the computer as pen and touch input.

The library in `src/` holds what the server decides and computes. It is written
in Verus: every function states what it returns, and the verifier proves it.

| Module | What it holds |
| :--- | :--- |
| `protocol` | Packets, their bytes on the wire, and that decoding gives back what was encoded |
| `input` | Pen and touch events for the two virtual devices, palm rejection, retiming, gesture matching |
| `capture` | Frames taken from a screen stream, and the steps of a capture |
| `encoder` | Pixels for the encoder, pipeline descriptions, keyframe detection |
| `server` | Configuration, clients, fragments, statistics, control panel |
| `text`, `clock` | Decimal numbers and white space; monotonic time |

Laws that relate several functions stand beside them as public proof functions,
for instance `fragments_give_frame_back`, `single_finger_hidden` and
`other_version_is_refused`.

`app/` is the program around the library: the window, sockets, the desktop
portal, the virtual devices, the capture stream and the encoding pipeline.
`tests/` runs the library on concrete values.
