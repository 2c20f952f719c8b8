# Speaches Companion

A desktop companion for a speech server that speaks the OpenAI audio protocol. It types what is
spoken and reads aloud what is marked.

The project has two parts.

- `src/` is the library. It holds what the companion decides and computes, and is verified with
  Verus: every function states what it returns or changes, and the statement is proved.
- `app/` is the program around it: the command line, the microphone, the keyboard, the sockets and
  the requests to the server. It hands the library plain values and carries out what it answers.

## Modules of the library

| Modules | What they hold |
| --- | --- |
| `text`, `json`, `environment`, `clock`, `single`, `double` | texts, documents, variables, spans of time, floating-point numbers by their bits |
| `audio`, `speech`, `trimming` | buffers of sound, WAV files, loudness and speech, the part of a recording that is sent |
| `realtime`, `event`, `phase`, `trace`, `live` | realtime sessions: what is sent, what the events mean, how a session went |
| `partial`, `streaming`, `transcript`, `transcriber` | live dictation: which text is shown when, and which is left in the end |
| `dictation`, `daemon`, `ipc` | dictation without live text, the daemon's states and its line protocol |
| `inject`, `sway` | edits of the text in the focused window, and the commands that make them |
| `stt`, `tts`, `endpoint` | requests to the server and what is made of its answers |
| `openwakeword`, `wakeword` | wakewords: the scoring pipeline, the recording that follows, the files |
| `config`, `settings`, `notification`, `shell` | what the command line, the environment and the file say; what the user is told |

## What is proved across functions

Each module states its laws as public proof functions. Some of them:

- An edit while another window has the focus writes nothing and ends the session
  (`inject::a_lost_focus_ends_the_session`).
- An edit while the window keeps the focus is one replacement of the changed tail
  (`inject::a_kept_focus_gets_one_edit`). It gives just the new text, and nothing less could be
  erased for it (`inject::tail_replacement_gives_the_new_text`).
- A dictation that fails before its transcript is known types nothing
  (`dictation::failed_stages_type_nothing`).
- No sound is sent before speech, and all of it afterwards
  (`realtime::nothing_is_sent_before_speech`, `realtime::everything_is_sent_after_speech`). What is
  sent is the end of the sound that came, unchanged
  (`realtime::what_passes_is_the_end_of_the_sound`).
- Sound may come in any number of goes: the same frames are scored for the wakeword
  (`wakeword::sound_may_be_observed_in_parts`).
- What is kept of a recording holds all of its speech (`trimming::kept_sound_holds_the_speech`).
- A WAV file gives back the sound that was put into it (`audio::wav_files_give_back_the_sound`).
- A change of the live text never waits longer than the longest delay
  (`partial::changes_are_shown_in_time`).

## What is trusted

Calls into `serde_json`, `base64` and `url`, and a few of the standard library, stand behind small
functions whose contracts are taken as they are. Each says in its comment which function it calls
and what it claims of it.

Numbers in single and double precision are held by their bits. Scores and speeds are only compared;
loudness is computed with whole numbers, and each step is proved to round as double precision does
(`double`).
