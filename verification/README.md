# eustress_engine

The editor logic of the Eustress engine as a Verus-verified library.

- `src/` is the library. Each module states its behaviour in `requires` /
  `ensures` contracts over spec functions, and the properties that relate
  several operations are public `law_*` proof functions.
  - `purchase`, `purchase_store`: the purchase-order state machine, order
    references, the registry, and what a saved order's attributes hold.
  - `toml_doc`, `purchase_documents`: instance documents read and rendered
    with the `toml` crate, and what an order's, a line's and the orders
    folder's documents say and are written as.
  - `keybindings`, `menu_actions`: the key map, rebinding, shortcut
    dispatch, and what each menu action does.
  - `modal_tool`, `move_tool`, `measure`, `part_selection`: pointer
    gestures, drags, measurement picks and selection clicks.
  - `numeric_input`, `formula`: typed numeric entry and the grammar of its
    `=` formulas.
  - `moderation`, `signals`, `dossier_digest`: what the moderation dossier
    measures of a scene, its scripts and its texts.
  - `light_cull`, `notifications`, `mesh_import`, `engine_main`,
    `lsp_launcher`, `network_benchmark`, `text`: the remaining policies
    and the string helpers they share.
- `tests/` runs the library on concrete values.
- `app/` is the start-up program: files (key map in RON, the folders and
  documents of orders, scripts), logs, the clock, the hardware probe, the
  language-server child process,
  and the floating-point arithmetic of money and numeric values.
