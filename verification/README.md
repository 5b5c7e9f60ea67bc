# rust_expander

The core of a Windows text expander, verified with Verus.

- `src/` is the verified library: the keystroke ring buffer (`buffer`), the
  decisions of the keyboard hook and of its message loop (`hook`), the text
  transformations of the case and space changer (`text_utils`,
  `case_changer`), the Quick Switch focus state machine (`quick_switch`),
  configuration defaults and loading decisions (`config`), hotkey entry and
  the snippet table of the settings window (`ui`), and the interface strings
  (`i18n`). Calls into the standard library's Unicode tables and into
  `unicode-segmentation` go through the small trusted wrappers in `unicode`
  and `chars`.
- `tests/` runs the library on concrete inputs.
- `app/` is the Windows program around it: the hook thread, clipboard and
  window handling, the registry and the configuration file, and the user
  interface. It hands plain values to the library and acts on what comes
  back.
