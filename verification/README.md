# DIP visualizer

A desktop tool for looking at 8-bit grayscale images, their histograms and
what a pipeline of intensity transforms (negative, gamma correction,
logarithmic transform) does to them.

## Layout

- `src/` is the verified library (Verus):
  - `gray_image` – the image type, building it from a raw buffer, decoding
    encoded bytes;
  - `histogram` – the 256-bin intensity histogram;
  - `negative`, `intensity_map` – the negative, and point transforms given
    as a 256-entry lookup table;
  - `pipeline` – steps with identifiers that can be added, removed, moved and
    switched on and off, and running the active ones on an image, with the
    laws these operations obey;
  - `loaded_image` – an image, its transformed version and that version's
    histogram, kept in agreement;
  - `tree_actions`, `node_list` – what dragging, double-clicking and the
    context menu of the transform tree do to the pipeline;
  - `channel`, `image_picker` – a message channel held with both its ends,
    and the picker that receives picked images over its own channel;
  - `tab_title`, `transform_kind` – tab titles, and the names of the
    transform kinds.
- `app/` is the GUI (eframe/egui): windows, widgets, file dialogs, disk I/O,
  saving the session, and the floating-point parts of gamma correction and
  the logarithmic transform, which turn their parameters into the lookup
  tables that the library applies.
- `tests/` runs the library on concrete values.
