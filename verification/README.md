# lumen_asr_desktop

The logic of a desktop dictation application, as a verified library, and the
application around it.

* `src/` is the library. Every function states in its contract what it returns or
  changes, and Verus proves it. Laws that span functions are public proof functions
  beside the functions that they speak of. `src/outside.rs` holds the calls into other
  crates whose contracts are believed.
* `tests/` runs the library on concrete values.
* `app/` is the application: windows, microphone, models, files and the database. It
  performs the actions that the library's runs ask for, and hands back what came of
  them.

The parts of the library:

| Modules | Subject |
| --- | --- |
| `config`, `engine`, `asr_models`, `runtime` | settings, engines and their models |
| `dictation`, `dictation_phase`, `dictation_run`, `dictation_retry` | a dictation, from the key to the text |
| `context_*`, `model_message` | what is captured of the screen, and what of it a model may see |
| `corrector_cmd`, `corrector_probe`, `corrector_svc`, `learning` | correction and the dictionary |
| `edit_attribution`, `edit_learning_runtime` | which edits of the user belong to an inserted text |
| `hotkey`, `hotkey_validate`, `inject_cmd` | keys in, text out |
| `headless`, `meeting_*`, `audio_convert`, `detection_stats`, `app_notifications` | meetings and the command line |
| `commands`, `session_artifacts` | sessions and their files |
| `text`, `order`, `paths`, `pipeline`, `platform` | what the others are built on |
