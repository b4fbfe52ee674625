# QCapture

A screen recorder with a verified core. Screens, regions and windows are recorded
to MP4, through a child ffmpeg or the encoder of the system, with mixed sound,
timed annotations, live drawing and cursor effects.

The library decides and computes: what is captured and at which size, when a frame
is taken, how frames are cropped, padded, flipped and recoloured, which arguments
ffmpeg gets, which encoder is chosen, what the mixer counts and when it sleeps,
which strokes are on the overlay at a given time, what each press in the windows
does, and every message. All of it is proved against its contract with Verus.
`app/` does the rest: arguments, devices, files, processes, threads, painting and
everything that is floating point.

## Layout

| Modules of `src/` | |
| --- | --- |
| `types`, `single` | rectangles, canvases, encoders, cursor styles; 32-bit floats by their bits and order |
| `text`, `search` | characters, numbers and lists as the messages and parsers need them |
| `encode` | ffmpeg: probing, encoder choice, rate control, arguments, the frame pipe |
| `frame`, `pace`, `pump` | frames, their rate, and what the pump does with each |
| `capture`, `region` | displays, windows, feeds, regions |
| `annotate`, `raster`, `gesture`, `draw_panel`, `editor`, `picker` | documents, the timeline of the overlay, the drawing windows |
| `audio` | queues, levels, devices, the mixer's clock |
| `cli`, `style`, `session`, `listing` | the command line |
| `advanced`, `settings`, `widget`, `thread`, `ui`, `logs` | the widget, what it remembers and its record thread |

Numbers that the program holds as `f32` are `single::F32` here: the bits, with the
order of IEEE 754 defined on them. Times are nanoseconds since the program started.
What differs between systems takes the system as an argument.

Proof functions named `law_…` state what holds across calls: that a printed region
reads back, that cutting out of a padded frame gives the frame back, that a pause is
cut from the clock, that no stroke is drawn twice.

## What is believed without proof

Two functions of std: that `String::push` appends its character; and that the
result of `str::to_lowercase` depends on its text alone (`text::lowercase`) and, on
ASCII, changes A to Z and nothing else.
