# niri_overview

Verified logic of a window compositor's grid overview, written in Verus.

- `src/` is the verified library:
  - `kdl`: a plain model of a configuration node and of decoding errors;
  - `gestures`: hot corners, their implicit defaults and the decoder of
    the `hot-corners` node;
  - `misc`: small configuration records and how configuration parts merge;
  - `grid`: grid items, the grid's dimensions and cell arrangement, and the
    lookup that carries animation state between arrangements;
  - `overview`: the selection state of the overview and keyboard
    navigation;
  - `padding`: the grid's padding, one value for every side or a value
    per side, and the plan for decoding a `padding` node;
  - `cursor`: the hot spot of an SVG cursor;
  - `text`, `seqs`: character and sequence helpers with their specifications.
- `app/` holds the floating-point geometry and animation, the KDL decoder
  glue, SVG rendering and the rescaling render element.
- `tests/` exercises the library.
