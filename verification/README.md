# quarkdrive-webdav

A WebDAV front end for a cloud drive, in two parts.

`src/` is the library: everything the program decides. It is verified with Verus. It takes no
action of its own; it says what is to be done next, and goes on with what came back.

| Module | What it decides |
| --- | --- |
| `cache` | which directory listings are kept, and who may fill one |
| `fill` | how the listing of a path is found on the drive |
| `vfs` | settings, paths, placeholders of uploads, metadata |
| `settle` | when a finished upload is reported |
| `ops` | making and removing directories, removing files, renaming and moving |
| `open` | opening files |
| `upload`, `plan`, `steps` | uploads of open files: their state, what they do, and doing it |
| `transfer` | nothing; it states what becomes of the bytes of an upload |
| `part`, `chunks` | sending one part, and sending a staged file in parts |
| `download` | reading, seeking, and when a download URL expires |
| `startup` | what the arguments of the program mean |
| `file`, `drive`, `error` | records, requests and errors |
| `path`, `text`, `number`, `clock` | paths, strings, numbers and dates |
| `outside` | what is taken on trust of other crates and of `std` |

What holds of the library as a whole is stated in public proof functions whose names begin
with `law_`.

`app/` is the program around it: arguments, files, timers, locks, and the WebDAV handler. A client
for the drive and a server that listens are handed to `run`.
