# krun

KRun is a keyboard-first application launcher for Windows: a borderless
window with category tabs, a grid of items, search, context menus and a
settings page, shown and hidden with a global hotkey.

- `src/` is the verified library. It holds the launcher's state machine
  (`launcher`, `input`, `keys`), the configuration model (`config`),
  search ranking (`search`), paging (`item_view`), layout geometry
  (`layout`, `menu`, `text_input`, `render`), path and environment rules
  and the steps of resolving a picked icon source (`shell`,
  `icon_source`), sorting, hotkeys, start-up registration text,
  the icon-loading bookkeeping (`icon_loader`) and the properties that hold
  across operations (`laws`). Each handler updates the state and returns
  the actions the window must carry out.
- `app/` is the Windows program around it: the window and message loop,
  GDI painting, the edit control, the tray icon, registry access, shell
  execution, file pickers, the icon-loading thread and the JSON
  configuration file.
- `tests/` exercises the library on concrete values.
