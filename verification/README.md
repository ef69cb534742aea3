# utranslate

The verified core of UTranslate, a Windows desktop translator (popup translation of the
selected text, in-place replacement, screen-region OCR translation).

- `src/` — the library, verified with Verus. Each module states its behaviour in
  `requires`/`ensures` over spec functions; laws that span several calls are public proof
  functions named `law_*`. The interactive flows (copying the selection, pasting over it,
  the region selector, a screen request, a hotkey request, the engine chain) are machines:
  an event goes in, the next action comes out.
- `tests/` — scenario tests of the library.
- `app/` — the Tauri/Win32 shell that performs the actions: windows, clipboard, key
  presses, HTTP requests, SQLite, ONNX Runtime and the floating-point drawing and layout.

Every loop in `src/` is shown to end. Polling the clipboard after Ctrl+C goes on for as long
as the probe keeps answering "wait", so `poll_copied_text` counts its probe calls and treats
a capture still undecided after `MAX_POLL_STEPS` (2^64 − 1) calls as a timeout; the system
probe gives up after 1.5 s.
